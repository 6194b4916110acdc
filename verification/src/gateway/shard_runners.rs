//! The registry of running shards.
//!
//! One record per shard id, written when a boot succeeds, updated by the shard's
//! own runner and read by whoever reports on the fleet. The registry is plain
//! data: whoever shares it between tasks puts it behind a lock of their choice
//! and holds that lock for the length of one call.

use std::collections::HashMap;
use std::time::Duration;
use vstd::prelude::*;

use crate::gateway::shard::{ConnectionStage, ShardId};

verus! {

broadcast use vstd::std_specs::hash::group_hash_axioms;

/// What is known of one running shard.
///
/// `M` is the handle through which the shard's runner takes instructions, `S`
/// the connection itself as it is shared with that runner. Neither is looked
/// into here.
#[derive(Debug)]
pub struct ShardRunnerInfo<M, S> {
    /// The time between the last heartbeat and its acknowledgement, once one
    /// was measured.
    pub latency: Option<Duration>,
    /// The channel to the shard's runner.
    pub runner_tx: M,
    /// The stage the connection is in.
    pub stage: ConnectionStage,
    /// The connection, shared with the runner.
    pub shard: S,
}

/// The records of all running shards, at most one per shard id.
pub struct ShardRunners<M, S> {
    map: HashMap<u32, ShardRunnerInfo<M, S>>,
}

impl<M, S> View for ShardRunners<M, S> {
    type V = Map<ShardId, ShardRunnerInfo<M, S>>;

    closed spec fn view(&self) -> Map<ShardId, ShardRunnerInfo<M, S>> {
        Map::new(|id: ShardId| self.map@.contains_key(id.0), |id: ShardId| self.map@[id.0])
    }
}

/// The record of a shard that has just been booted and has not reported yet.
pub open spec fn fresh_record<M, S>(runner_tx: M, shard: S) -> ShardRunnerInfo<M, S> {
    ShardRunnerInfo { latency: None, runner_tx, stage: ConnectionStage::Disconnected, shard }
}

impl<M, S> ShardRunners<M, S> {
    /// An empty registry.
    pub fn new() -> (runners: Self)
        ensures
            runners@ == Map::<ShardId, ShardRunnerInfo<M, S>>::empty(),
    {
        let runners = ShardRunners { map: HashMap::new() };
        assert(runners@ =~= Map::<ShardId, ShardRunnerInfo<M, S>>::empty());
        runners
    }

    /// The number of shards on record.
    pub fn len(&self) -> (n: usize)
        ensures
            n == self@.len(),
            self@.dom().finite(),
    {
        proof {
            self.lemma_view_len();
        }
        self.map.len()
    }

    /// Whether shard `id` is on record.
    pub fn contains(&self, id: ShardId) -> (known: bool)
        ensures
            known == self@.contains_key(id),
    {
        self.map.contains_key(&id.0)
    }

    /// The record of shard `id`, if there is one.
    pub fn get(&self, id: ShardId) -> (info: Option<&ShardRunnerInfo<M, S>>)
        ensures
            match info {
                Some(info) => self@.contains_key(id) && *info == self@[id],
                None => !self@.contains_key(id),
            },
    {
        self.map.get(&id.0)
    }

    /// Puts `info` on record for shard `id` and hands back the record it
    /// replaces, if there was one.
    pub fn insert(&mut self, id: ShardId, info: ShardRunnerInfo<M, S>) -> (replaced: Option<
        ShardRunnerInfo<M, S>,
    >)
        ensures
            final(self)@ == old(self)@.insert(id, info),
            match replaced {
                Some(previous) => old(self)@.contains_key(id) && previous == old(self)@[id],
                None => !old(self)@.contains_key(id),
            },
    {
        let replaced = self.map.insert(id.0, info);
        assert(self@ =~= old(self)@.insert(id, info));
        replaced
    }

    /// Takes shard `id` off the record and hands back what was known of it.
    pub fn remove(&mut self, id: ShardId) -> (removed: Option<ShardRunnerInfo<M, S>>)
        ensures
            final(self)@ == old(self)@.remove(id),
            match removed {
                Some(previous) => old(self)@.contains_key(id) && previous == old(self)@[id],
                None => !old(self)@.contains_key(id),
            },
    {
        let removed = self.map.remove(&id.0);
        assert(self@ =~= old(self)@.remove(id));
        removed
    }

    /// Records the stage that shard `id` has reached. Says whether the shard is
    /// on record; if it is not, nothing changes.
    pub fn set_stage(&mut self, id: ShardId, stage: ConnectionStage) -> (known: bool)
        ensures
            known == old(self)@.contains_key(id),
            known ==> final(self)@ == old(self)@.insert(
                id,
                ShardRunnerInfo { stage, ..old(self)@[id] },
            ),
            !known ==> final(self)@ == old(self)@,
    {
        match self.map.remove(&id.0) {
            Some(info) => {
                let ShardRunnerInfo { latency, runner_tx, stage: _, shard } = info;
                self.map.insert(id.0, ShardRunnerInfo { latency, runner_tx, stage, shard });
                assert(self@ =~= old(self)@.insert(
                    id,
                    ShardRunnerInfo { stage, ..old(self)@[id] },
                ));
                true
            },
            None => {
                assert(self@ =~= old(self)@);
                false
            },
        }
    }

    /// Records the heartbeat latency last measured for shard `id`. Says whether
    /// the shard is on record; if it is not, nothing changes.
    pub fn set_latency(&mut self, id: ShardId, latency: Option<Duration>) -> (known: bool)
        ensures
            known == old(self)@.contains_key(id),
            known ==> final(self)@ == old(self)@.insert(
                id,
                ShardRunnerInfo { latency, ..old(self)@[id] },
            ),
            !known ==> final(self)@ == old(self)@,
    {
        match self.map.remove(&id.0) {
            Some(info) => {
                let ShardRunnerInfo { latency: _, runner_tx, stage, shard } = info;
                self.map.insert(id.0, ShardRunnerInfo { latency, runner_tx, stage, shard });
                assert(self@ =~= old(self)@.insert(
                    id,
                    ShardRunnerInfo { latency, ..old(self)@[id] },
                ));
                true
            },
            None => {
                assert(self@ =~= old(self)@);
                false
            },
        }
    }

    /// The view has as many entries as the map behind it.
    proof fn lemma_view_len(&self)
        ensures
            self@.dom().finite(),
            self@.len() == self.map@.len(),
    {
        let keys = self.map@.dom();
        let ids = keys.map(|k: u32| ShardId(k));
        assert(self@.dom() =~= ids) by {
            assert forall|id: ShardId| self@.dom().contains(id) implies ids.contains(id) by {
                assert(keys.contains(id.0));
                assert(ShardId(id.0) == id);
            }
        }
        vstd::set_lib::lemma_map_size(keys, ids, |k: u32| ShardId(k));
    }
}

} // verus!
