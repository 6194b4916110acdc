//! The names under which commands and groups are found.

use vstd::prelude::*;

use crate::framework::standard::stream::same_text;
use crate::framework::standard::structures::{Command, CommandGroup};

verus! {

/// A command under one of its names, with the commands that may follow it.
#[derive(Debug)]
pub struct CommandEntry {
    pub name: String,
    pub command: &'static Command,
    /// The sub-commands of the command.
    pub map: CommandMap,
}

/// Commands by their names. Where a name occurs twice, the first entry counts.
#[derive(Debug)]
pub struct CommandMap {
    pub cmds: Vec<CommandEntry>,
    /// The number of characters that the shortest name is taken to have.
    pub min_length: usize,
    /// The number of characters of the longest name.
    pub max_length: usize,
}

/// A group under one of its prefixes, with what may follow the prefix.
#[derive(Debug)]
pub struct GroupEntry {
    pub prefix: String,
    pub group: &'static CommandGroup,
    /// The sub-groups of the group.
    pub map: GroupMap,
    /// The commands of the group.
    pub commands: CommandMap,
}

/// Groups by their prefixes. Where a prefix occurs twice, the first entry
/// counts.
#[derive(Debug)]
pub struct GroupMap {
    pub groups: Vec<GroupEntry>,
    /// The number of characters that the shortest prefix is taken to have.
    pub min_length: usize,
    /// The number of characters of the longest prefix.
    pub max_length: usize,
}

/// What a top-level group is found by.
#[derive(Debug)]
pub enum Lookup {
    /// The group has prefixes, and this is the map of them.
    WithPrefixes(GroupMap),
    /// The group has no prefix: its sub-groups and its commands are found
    /// directly.
    Prefixless(GroupMap, CommandMap),
}

/// The place of the first of `names` that is `name`.
pub open spec fn position_of(names: Seq<Seq<char>>, name: Seq<char>) -> Option<int>
    decreases names.len(),
{
    if names.len() == 0 {
        None
    } else {
        match position_of(names.drop_last(), name) {
            Some(at) => Some(at),
            None => if names.last() == name {
                Some(names.len() - 1)
            } else {
                None
            },
        }
    }
}

/// A name that is found is found at a place that holds it.
pub proof fn lemma_position_of_holds(names: Seq<Seq<char>>, name: Seq<char>)
    ensures
        position_of(names, name) matches Some(at) ==> 0 <= at < names.len() && names[at] == name,
    decreases names.len(),
{
    if names.len() > 0 {
        lemma_position_of_holds(names.drop_last(), name);
    }
}

/// What the parser asks of a map of names.
pub trait ParseMap {
    /// The names of the entries, in their order.
    spec fn names(&self) -> Seq<Seq<char>>;

    /// The number of characters that the shortest name is taken to have.
    spec fn shortest(&self) -> usize;

    /// The number of characters of the longest name.
    spec fn longest(&self) -> usize;

    /// The place of the first entry under `name`.
    fn get(&self, name: &str) -> (at: Option<usize>)
        ensures
            match at {
                Some(at) => position_of(self.names(), name@) == Some(at as int),
                None => position_of(self.names(), name@) is None,
            },
    ;

    fn min_length(&self) -> (length: usize)
        ensures
            length == self.shortest(),
    ;

    fn max_length(&self) -> (length: usize)
        ensures
            length == self.longest(),
    ;

    fn is_empty(&self) -> (empty: bool)
        ensures
            empty == (self.names().len() == 0),
    ;
}

/// A match among the names up to some place is the match among all of them.
proof fn lemma_position_of_stays(names: Seq<Seq<char>>, name: Seq<char>, upto: int)
    requires
        0 <= upto <= names.len(),
        position_of(names.take(upto), name) is Some,
    ensures
        position_of(names, name) == position_of(names.take(upto), name),
    decreases names.len() - upto,
{
    if upto < names.len() {
        assert(names.take(upto + 1).drop_last() =~= names.take(upto));
        lemma_position_of_stays(names, name, upto + 1);
    } else {
        assert(names.take(upto) =~= names);
    }
}

impl ParseMap for CommandMap {
    open spec fn names(&self) -> Seq<Seq<char>> {
        Seq::new(self.cmds@.len(), |i: int| self.cmds@[i].name@)
    }

    open spec fn shortest(&self) -> usize {
        self.min_length
    }

    open spec fn longest(&self) -> usize {
        self.max_length
    }

    fn get(&self, name: &str) -> (at: Option<usize>) {
        let mut i: usize = 0;
        while i < self.cmds.len()
            invariant
                0 <= i <= self.cmds.len(),
                position_of(self.names().take(i as int), name@) is None,
            decreases self.cmds.len() - i,
        {
            proof {
                assert(self.names().take(i + 1).drop_last() =~= self.names().take(i as int));
            }
            if same_text(self.cmds[i].name.as_str(), name) {
                proof {
                    lemma_position_of_stays(self.names(), name@, i + 1);
                }
                return Some(i);
            }
            i = i + 1;
        }
        proof {
            assert(self.names().take(i as int) =~= self.names());
        }
        None
    }

    fn min_length(&self) -> (length: usize) {
        self.min_length
    }

    fn max_length(&self) -> (length: usize) {
        self.max_length
    }

    fn is_empty(&self) -> (empty: bool) {
        self.cmds.len() == 0
    }
}

impl ParseMap for GroupMap {
    open spec fn names(&self) -> Seq<Seq<char>> {
        Seq::new(self.groups@.len(), |i: int| self.groups@[i].prefix@)
    }

    open spec fn shortest(&self) -> usize {
        self.min_length
    }

    open spec fn longest(&self) -> usize {
        self.max_length
    }

    fn get(&self, name: &str) -> (at: Option<usize>) {
        let mut i: usize = 0;
        while i < self.groups.len()
            invariant
                0 <= i <= self.groups.len(),
                position_of(self.names().take(i as int), name@) is None,
            decreases self.groups.len() - i,
        {
            proof {
                assert(self.names().take(i + 1).drop_last() =~= self.names().take(i as int));
            }
            if same_text(self.groups[i].prefix.as_str(), name) {
                proof {
                    lemma_position_of_stays(self.names(), name@, i + 1);
                }
                return Some(i);
            }
            i = i + 1;
        }
        proof {
            assert(self.names().take(i as int) =~= self.names());
        }
        None
    }

    fn min_length(&self) -> (length: usize) {
        self.min_length
    }

    fn max_length(&self) -> (length: usize) {
        self.max_length
    }

    fn is_empty(&self) -> (empty: bool) {
        self.groups.len() == 0
    }
}

impl CommandMap {
    /// Whether the map can be searched: every command has a name, and, unless
    /// names end at the next space, at every level the shortest name is no
    /// longer than the longest.
    pub open spec fn valid(&self, by_space: bool) -> bool
        decreases self,
    {
        &&& by_space || self.min_length <= self.max_length
        &&& forall|i: int|
            0 <= i < self.cmds@.len() ==> {
                &&& (#[trigger] self.cmds@[i]).command.options.names@.len() > 0
                &&& self.cmds@[i].map.valid(by_space)
            }
    }
}

impl CommandMap {
    /// Finds out whether the map can be searched.
    pub fn is_valid(&self, by_space: bool) -> (valid: bool)
        ensures
            valid == self.valid(by_space),
        decreases self,
    {
        if !by_space && self.min_length > self.max_length {
            return false;
        }
        let mut i: usize = 0;
        while i < self.cmds.len()
            invariant
                0 <= i <= self.cmds.len(),
                by_space || self.min_length <= self.max_length,
                forall|j: int|
                    0 <= j < i ==> {
                        &&& (#[trigger] self.cmds@[j]).command.options.names@.len() > 0
                        &&& self.cmds@[j].map.valid(by_space)
                    },
            decreases self.cmds.len() - i,
        {
            let entry = &self.cmds[i];
            if entry.command.options.names.len() == 0 || !entry.map.is_valid(by_space) {
                return false;
            }
            i = i + 1;
        }
        true
    }
}

impl GroupMap {
    /// Finds out whether the map can be searched.
    pub fn is_valid(&self, by_space: bool) -> (valid: bool)
        ensures
            valid == self.valid(by_space),
        decreases self,
    {
        if !by_space && self.min_length > self.max_length {
            return false;
        }
        let mut i: usize = 0;
        while i < self.groups.len()
            invariant
                0 <= i <= self.groups.len(),
                by_space || self.min_length <= self.max_length,
                forall|j: int|
                    0 <= j < i ==> {
                        &&& (#[trigger] self.groups@[j]).group.valid()
                        &&& self.groups@[j].map.valid(by_space)
                        &&& self.groups@[j].commands.valid(by_space)
                    },
            decreases self.groups.len() - i,
        {
            let entry = &self.groups[i];
            if !entry.group.is_valid() || !entry.map.is_valid(by_space) || !entry.commands.is_valid(
                by_space,
            ) {
                return false;
            }
            i = i + 1;
        }
        true
    }
}

impl GroupMap {
    /// Whether the map can be searched: the command maps can be searched, every
    /// command that a group falls back to has a name, and, unless names end at
    /// the next space, at every level the shortest prefix is no longer than the
    /// longest.
    pub open spec fn valid(&self, by_space: bool) -> bool
        decreases self,
    {
        &&& by_space || self.min_length <= self.max_length
        &&& forall|i: int|
            0 <= i < self.groups@.len() ==> {
                &&& (#[trigger] self.groups@[i]).group.valid()
                &&& self.groups@[i].map.valid(by_space)
                &&& self.groups@[i].commands.valid(by_space)
            }
    }
}

impl CommandGroup {
    /// Whether the command that the group falls back to, if it has one, has a
    /// name.
    pub open spec fn valid(&self) -> bool {
        self.options.default_command matches Some(command) ==> command.options.names@.len() > 0
    }
}

impl CommandGroup {
    /// Finds out whether the command that the group falls back to, if it has
    /// one, has a name.
    pub fn is_valid(&self) -> (valid: bool)
        ensures
            valid == self.valid(),
    {
        match self.options.default_command {
            Some(command) => command.options.names.len() > 0,
            None => true,
        }
    }
}

impl Lookup {
    /// Finds out whether the maps can be searched.
    pub fn is_valid(&self, by_space: bool) -> (valid: bool)
        ensures
            valid == self.valid(by_space),
    {
        match self {
            Lookup::WithPrefixes(groups) => groups.is_valid(by_space),
            Lookup::Prefixless(groups, commands) => groups.is_valid(by_space) && commands.is_valid(
                by_space,
            ),
        }
    }
}

impl Lookup {
    /// Whether the maps can be searched.
    pub open spec fn valid(&self, by_space: bool) -> bool {
        match self {
            Lookup::WithPrefixes(groups) => groups.valid(by_space),
            Lookup::Prefixless(groups, commands) => groups.valid(by_space) && commands.valid(
                by_space,
            ),
        }
    }
}

} // verus!
