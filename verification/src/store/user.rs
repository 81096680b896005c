//! A user, provisioned from the identity that the proxy hands over.

use vstd::prelude::*;

verus! {

#[derive(Debug, Clone)]
pub struct User {
    pub id: i64,
    pub subject: String,
    pub email: Option<String>,
    pub display_name: Option<String>,
    pub created_at: String,
}

} // verus!
