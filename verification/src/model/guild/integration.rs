//! Integrations of outside services into a guild.

use vstd::prelude::*;
use vstd::std_specs::convert::FromSpecImpl;

use crate::model::application::Scope;
use crate::model::id::{ApplicationId, GuildId, IntegrationId, RoleId};
use crate::model::misc::ImageHash;
use crate::model::timestamp::Timestamp;
use crate::model::user::User;

verus! {

/// Various information about integrations.
#[derive(Clone, Debug)]
pub struct Integration {
    pub id: IntegrationId,
    pub name: String,
    /// The type of the integration, such as a streaming service's name.
    pub kind: String,
    pub enabled: bool,
    pub syncing: Option<bool>,
    pub role_id: Option<RoleId>,
    pub enable_emoticons: Option<bool>,
    pub expire_behaviour: Option<IntegrationExpireBehaviour>,
    pub expire_grace_period: Option<u64>,
    pub user: Option<User>,
    pub account: IntegrationAccount,
    pub synced_at: Option<Timestamp>,
    pub subscriber_count: Option<u64>,
    pub revoked: Option<bool>,
    pub application: Option<IntegrationApplication>,
    pub scopes: Option<Vec<Scope>>,
    /// Only present in the events that announce a new or changed integration.
    pub guild_id: Option<GuildId>,
}

/// The behavior once the integration expires.
#[derive(Clone, Copy, Debug, Eq, Hash, Ord, PartialEq, PartialOrd, Structural)]
pub enum IntegrationExpireBehaviour {
    RemoveRole,
    Kick,
    /// A number that this library does not know yet.
    Unknown(u8),
}

impl IntegrationExpireBehaviour {
    /// The number that stands for this behaviour on the wire.
    pub open spec fn number(self) -> u8 {
        match self {
            IntegrationExpireBehaviour::RemoveRole => 0,
            IntegrationExpireBehaviour::Kick => 1,
            IntegrationExpireBehaviour::Unknown(number) => number,
        }
    }

    /// The behaviour that `number` stands for on the wire.
    pub open spec fn of_number(number: u8) -> Self {
        if number == 0 {
            IntegrationExpireBehaviour::RemoveRole
        } else if number == 1 {
            IntegrationExpireBehaviour::Kick
        } else {
            IntegrationExpireBehaviour::Unknown(number)
        }
    }
}

impl From<u8> for IntegrationExpireBehaviour {
    fn from(number: u8) -> (behaviour: Self) {
        match number {
            0 => IntegrationExpireBehaviour::RemoveRole,
            1 => IntegrationExpireBehaviour::Kick,
            unknown => IntegrationExpireBehaviour::Unknown(unknown),
        }
    }
}

impl FromSpecImpl<u8> for IntegrationExpireBehaviour {
    open spec fn obeys_from_spec() -> bool {
        true
    }

    open spec fn from_spec(number: u8) -> Self {
        Self::of_number(number)
    }
}

impl From<IntegrationExpireBehaviour> for u8 {
    fn from(behaviour: IntegrationExpireBehaviour) -> (number: u8) {
        match behaviour {
            IntegrationExpireBehaviour::RemoveRole => 0,
            IntegrationExpireBehaviour::Kick => 1,
            IntegrationExpireBehaviour::Unknown(unknown) => unknown,
        }
    }
}

impl FromSpecImpl<IntegrationExpireBehaviour> for u8 {
    open spec fn obeys_from_spec() -> bool {
        true
    }

    open spec fn from_spec(behaviour: IntegrationExpireBehaviour) -> u8 {
        behaviour.number()
    }
}

/// Every number survives the way into a behaviour and back.
pub proof fn lemma_number_round_trip(number: u8)
    ensures
        IntegrationExpireBehaviour::of_number(number).number() == number,
{
}

impl From<Integration> for IntegrationId {
    /// Gets the Id of integration.
    fn from(integration: Integration) -> (id: IntegrationId) {
        integration.id
    }
}

impl FromSpecImpl<Integration> for IntegrationId {
    open spec fn obeys_from_spec() -> bool {
        true
    }

    open spec fn from_spec(integration: Integration) -> IntegrationId {
        integration.id
    }
}

/// Integration account object.
#[derive(Clone, Debug)]
pub struct IntegrationAccount {
    pub id: String,
    pub name: String,
}

/// Integration application object.
#[derive(Clone, Debug)]
pub struct IntegrationApplication {
    pub id: ApplicationId,
    pub name: String,
    pub icon: Option<ImageHash>,
    pub description: String,
    pub bot: Option<User>,
}

} // verus!
