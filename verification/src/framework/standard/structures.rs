//! Commands, the groups they belong to, and what restricts their use.

use vstd::prelude::*;

use crate::model::permissions::Permissions;

verus! {

/// Where a command or group may be used.
#[derive(Clone, Copy, Debug, PartialEq, Eq, Structural)]
pub enum OnlyIn {
    /// In direct messages only.
    Dm,
    /// In guilds only.
    Guild,
    /// Anywhere.
    Anywhere,
}

/// Why a command that was recognised is not run.
#[derive(Clone, Copy, Debug, PartialEq, Eq, Structural)]
pub enum DispatchError {
    /// The command is switched off.
    CommandDisabled,
    /// The author lacks these permissions.
    LackingPermissions(Permissions),
    /// The author has none of the roles that are allowed to use the command.
    LackingRole,
    /// The command may be used in direct messages only.
    OnlyForDM,
    /// The command may be used in guilds only.
    OnlyForGuilds,
    /// The command may be used by the owners of the bot only.
    OnlyForOwners,
}

/// What restricts the use of one command.
#[derive(Debug)]
pub struct CommandOptions {
    /// The names by which the command is called, the main one first.
    pub names: &'static [&'static str],
    /// The names of the roles that may use the command. Anyone may, if there
    /// are none.
    pub allowed_roles: &'static [&'static str],
    /// The permissions that the author needs.
    pub required_permissions: Permissions,
    pub only_in: OnlyIn,
    /// Whether only the owners of the bot may use the command.
    pub owners_only: bool,
    /// Whether the owners of the bot need no permissions.
    pub owner_privilege: bool,
}

/// A command.
#[derive(Debug)]
pub struct Command {
    pub options: &'static CommandOptions,
}

/// What restricts the use of the commands of one group.
#[derive(Debug)]
pub struct GroupOptions {
    /// The prefixes by which the group is called.
    pub prefixes: &'static [&'static str],
    /// The names of the roles that may use the group. Anyone may, if there are
    /// none.
    pub allowed_roles: &'static [&'static str],
    /// The permissions that the author needs.
    pub required_permissions: Permissions,
    pub only_in: OnlyIn,
    /// Whether only the owners of the bot may use the group.
    pub owners_only: bool,
    /// Whether the owners of the bot need no permissions.
    pub owner_privilege: bool,
    /// The command that is run when the group is called without one.
    pub default_command: Option<&'static Command>,
}

/// A group of commands.
#[derive(Debug)]
pub struct CommandGroup {
    pub name: &'static str,
    pub options: &'static GroupOptions,
}

/// What commands and groups have in common.
pub trait CommonOptions {
    spec fn restrictions(&self) -> Restrictions;

    fn required_permissions(&self) -> (permissions: Permissions)
        ensures
            permissions == self.restrictions().required_permissions,
    ;

    fn allowed_roles(&self) -> (roles: &'static [&'static str])
        ensures
            roles@ == self.restrictions().allowed_roles,
    ;

    fn only_in(&self) -> (only_in: OnlyIn)
        ensures
            only_in == self.restrictions().only_in,
    ;

    fn owners_only(&self) -> (owners_only: bool)
        ensures
            owners_only == self.restrictions().owners_only,
    ;

    fn owner_privilege(&self) -> (owner_privilege: bool)
        ensures
            owner_privilege == self.restrictions().owner_privilege,
    ;
}

/// The restrictions on a command or group, as plain values.
pub struct Restrictions {
    pub allowed_roles: Seq<&'static str>,
    pub required_permissions: Permissions,
    pub only_in: OnlyIn,
    pub owners_only: bool,
    pub owner_privilege: bool,
}

impl CommonOptions for CommandOptions {
    open spec fn restrictions(&self) -> Restrictions {
        Restrictions {
            allowed_roles: self.allowed_roles@,
            required_permissions: self.required_permissions,
            only_in: self.only_in,
            owners_only: self.owners_only,
            owner_privilege: self.owner_privilege,
        }
    }

    fn required_permissions(&self) -> (permissions: Permissions) {
        self.required_permissions
    }

    fn allowed_roles(&self) -> (roles: &'static [&'static str]) {
        self.allowed_roles
    }

    fn only_in(&self) -> (only_in: OnlyIn) {
        self.only_in
    }

    fn owners_only(&self) -> (owners_only: bool) {
        self.owners_only
    }

    fn owner_privilege(&self) -> (owner_privilege: bool) {
        self.owner_privilege
    }
}

impl CommonOptions for GroupOptions {
    open spec fn restrictions(&self) -> Restrictions {
        Restrictions {
            allowed_roles: self.allowed_roles@,
            required_permissions: self.required_permissions,
            only_in: self.only_in,
            owners_only: self.owners_only,
            owner_privilege: self.owner_privilege,
        }
    }

    fn required_permissions(&self) -> (permissions: Permissions) {
        self.required_permissions
    }

    fn allowed_roles(&self) -> (roles: &'static [&'static str]) {
        self.allowed_roles
    }

    fn only_in(&self) -> (only_in: OnlyIn) {
        self.only_in
    }

    fn owners_only(&self) -> (owners_only: bool) {
        self.owners_only
    }

    fn owner_privilege(&self) -> (owner_privilege: bool) {
        self.owner_privilege
    }
}

} // verus!
