//! What a handler is given along with an event.

use vstd::prelude::*;

use crate::model::guild::{Guild, Member};

verus! {

/// What was on record about the origin of a message when it arrived.
#[derive(Clone, Debug)]
pub struct Context {
    /// The guild that the message was sent in, where it was sent in one that is
    /// on record.
    pub guild: Option<Guild>,
    /// The author of the message as a member of that guild, where the author
    /// could be found.
    pub member: Option<Member>,
}

} // verus!
