//! Records kept by the board store, and the decisions its queries make.

pub mod board;
pub mod toggle;
pub mod user;

pub use board::Board;
pub use user::User;
