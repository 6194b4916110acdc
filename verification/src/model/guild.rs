//! Guilds and what belongs to them.

pub mod integration;

use std::collections::HashMap;
use vstd::prelude::*;

use crate::model::channel::GuildChannel;
use crate::model::id::{GuildId, RoleId, UserId};
use crate::model::permissions::Permissions;
use crate::model::user::User;

verus! {

/// A role of a guild.
#[derive(Clone, Debug)]
pub struct Role {
    pub id: RoleId,
    pub name: String,
    pub permissions: Permissions,
    /// The rank of the role among the roles of its guild.
    pub position: u16,
}

/// A user as a member of a guild.
#[derive(Clone, Debug)]
pub struct Member {
    pub user: User,
    /// The roles that the member has.
    pub roles: Vec<RoleId>,
}

/// What is known of a guild.
#[derive(Clone, Debug)]
pub struct Guild {
    pub id: GuildId,
    pub owner_id: UserId,
    /// The channels of the guild, each under the number of its id.
    pub channels: HashMap<u64, GuildChannel>,
    /// The roles of the guild, each under the number of its id.
    pub roles: HashMap<u64, Role>,
}

} // verus!
