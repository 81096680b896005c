//! Every-day calendar boards: the calendar rules, the board and grid model,
//! identity resolution and the request decisions of the web service.

pub mod auth;
pub mod calendar;
pub mod config;
pub mod days;
pub mod handlers;
pub mod store;
pub mod templates;
