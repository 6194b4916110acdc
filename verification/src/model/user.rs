//! Users of the service.

use vstd::prelude::*;

use crate::model::id::UserId;

verus! {

/// What identifies a user.
#[derive(Clone, Debug)]
pub struct User {
    pub id: UserId,
    pub name: String,
    /// Whether the account belongs to an application.
    pub bot: bool,
}

} // verus!
