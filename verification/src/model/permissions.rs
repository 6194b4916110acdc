//! What a member of a guild is allowed to do.

use vstd::prelude::*;

verus! {

/// A set of permissions, one bit for each.
#[derive(Clone, Copy, Debug, PartialEq, Eq, Hash, Structural)]
pub struct Permissions(pub u64);

/// The bit of the permission that implies every other.
pub const ADMINISTRATOR: u64 = 0x8;

/// The bit of the permission to see a channel.
pub const VIEW_CHANNEL: u64 = 0x400;

/// The bits of all permissions that the service knows, the lowest 47.
pub const ALL: u64 = 0x7fff_ffff_ffff;

impl Permissions {
    /// The bits of this set.
    pub open spec fn bits(self) -> u64 {
        self.0
    }

    /// No permission.
    pub fn empty() -> (none: Self)
        ensures
            none.0 == 0,
    {
        Permissions(0)
    }

    /// Every permission.
    pub fn all() -> (every: Self)
        ensures
            every.0 == ALL,
    {
        Permissions(ALL)
    }

    /// Whether every permission of `other` is in this set.
    pub fn contains(&self, other: Permissions) -> (held: bool)
        ensures
            held == (self.0 & other.0 == other.0),
    {
        self.0 & other.0 == other.0
    }

    /// Whether the set holds the permission that implies every other.
    pub fn administrator(&self) -> (held: bool)
        ensures
            held == (self.0 & ADMINISTRATOR == ADMINISTRATOR),
    {
        self.contains(Permissions(ADMINISTRATOR))
    }
}

} // verus!
