//! How the framework is set up.

use vstd::prelude::*;

use crate::model::id::UserId;

verus! {

/// Where the parser lets whitespace pass.
#[derive(Clone, Copy, Debug, PartialEq, Eq, Structural)]
pub struct WithWhiteSpace {
    /// Between a prefix and what follows it.
    pub prefixes: bool,
    /// Between a group's prefix and what follows it.
    pub groups: bool,
    /// Between a command's name and what follows it.
    pub commands: bool,
}

/// The settings that the parser goes by.
#[derive(Clone, Debug)]
pub struct Configuration {
    /// Whether commands may be used in direct messages.
    pub allow_dm: bool,
    pub with_whitespace: WithWhiteSpace,
    /// Whether a name ends at the next whitespace, rather than being sought
    /// among the names of every length.
    pub by_space: bool,
    /// The id of the user whose mention counts as a prefix, in decimal digits.
    pub on_mention: Option<String>,
    /// The prefixes that announce a command.
    pub prefixes: Vec<String>,
    /// The users that own the bot.
    pub owners: Vec<UserId>,
    /// The names of commands that are switched off.
    pub disabled_commands: Vec<String>,
    /// Whether prefixes and names are matched without regard to case.
    pub case_insensitive: bool,
}

} // verus!
