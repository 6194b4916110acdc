//! Channels of a guild.

use vstd::prelude::*;

use crate::model::id::{ChannelId, GuildId, RoleId, UserId};
use crate::model::user::User;
use crate::model::permissions::Permissions;

verus! {

/// Whom a permission overwrite is for.
#[derive(Clone, Copy, Debug, PartialEq, Eq, Structural)]
pub enum PermissionOverwriteType {
    /// One member.
    Member(UserId),
    /// Everyone with a role.
    Role(RoleId),
}

/// What a channel allows and denies to a member or role, whatever the guild
/// says.
#[derive(Clone, Copy, Debug, PartialEq, Eq, Structural)]
pub struct PermissionOverwrite {
    pub allow: Permissions,
    pub deny: Permissions,
    pub kind: PermissionOverwriteType,
}

/// A channel of a guild.
#[derive(Clone, Debug)]
pub struct GuildChannel {
    pub id: ChannelId,
    pub permission_overwrites: Vec<PermissionOverwrite>,
}

/// A message, as far as the framework looks at it.
#[derive(Clone, Debug)]
pub struct Message {
    pub author: User,
    pub channel_id: ChannelId,
    /// The guild that the message was sent in. A direct message has none.
    pub guild_id: Option<GuildId>,
    pub content: String,
}

impl Message {
    /// Whether the message was sent directly, outside of any guild.
    pub fn is_private(&self) -> (private: bool)
        ensures
            private == (self.guild_id is None),
    {
        self.guild_id.is_none()
    }
}

} // verus!
