//! Who a message may notify.

use vstd::prelude::*;

use crate::model::id::{RoleId, UserId};

verus! {

/// The mentions in a message that are allowed to notify someone.
#[derive(Clone, Debug)]
pub struct CreateAllowedMentions {
    /// Whether mentions of everyone may notify.
    pub everyone: bool,
    /// The users that may be notified.
    pub users: Vec<UserId>,
    /// The roles that may be notified.
    pub roles: Vec<RoleId>,
    /// Whether the author of the message replied to is notified.
    pub replied_user: Option<bool>,
}

} // verus!
