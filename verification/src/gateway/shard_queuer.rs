//! The queuer that decides when each shard may boot.
//!
//! The gateway invalidates sessions that identify in quick succession, so boots
//! are spaced [`BOOT_SPACING`] apart. A boot that fails goes to the back of a
//! backlog and is tried again when no fresh command arrives for one spacing.
//!
//! The queuer itself never waits, connects or reads a clock. Its driver polls the
//! command channel and shows the outcome to [`ShardQueuer::handle`]. For a
//! [`Step::Boot`] it shows its clock to [`ShardQueuer::check_last_start`] and
//! sleeps for the answer, until the answer is no wait; then it attempts the
//! connection and reports back through [`ShardQueuer::checked_start`].

use std::collections::VecDeque;
use vstd::prelude::*;

use crate::gateway::shard::{ConnectionStage, ShardId, ShardInfo};
use crate::gateway::shard_runners::{fresh_record, ShardRunnerInfo, ShardRunners};

verus! {

/// Seconds that must pass between two boots.
pub const WAIT_BETWEEN_BOOTS_IN_SECONDS: u64 = 5;

/// [`WAIT_BETWEEN_BOOTS_IN_SECONDS`] in nanoseconds, the unit of every instant
/// and duration the queuer handles.
pub const BOOT_SPACING: u64 = 5_000_000_000;

/// A command sent to the queuer by the shard manager.
#[derive(Clone, Copy, Debug, PartialEq, Eq, Structural)]
pub enum ShardQueuerMessage {
    /// Boot the shard with the first id, as one of as many shards as the second
    /// id says.
    Start(ShardId, ShardId),
    /// Stop queueing. Shards that already run are left alone.
    Shutdown,
}

/// What one poll of the command channel, bounded by [`BOOT_SPACING`], came to.
#[derive(Clone, Copy, Debug, PartialEq, Eq, Structural)]
pub enum Polled {
    /// A command arrived in time.
    Message(ShardQueuerMessage),
    /// Every sender is gone.
    Closed,
    /// Nothing arrived within the spacing.
    TimedOut,
}

/// What the driver has to do after a poll.
#[derive(Clone, Copy, Debug, PartialEq, Eq, Structural)]
pub enum Step {
    /// Leave the loop.
    Stop,
    /// Poll again.
    Idle,
    /// Boot this shard, then poll again.
    Boot(ShardInfo),
}

/// The queuer's state: when the last boot ended and which boots are owed.
pub struct ShardQueuer {
    /// The instant the last boot attempt ended, whether it succeeded or failed,
    /// in nanoseconds on the driver's monotonic clock.
    pub last_start: Option<u64>,
    /// The shards that are queued for booting, oldest first.
    ///
    /// Only failed boots end up here.
    pub queue: VecDeque<ShardInfo>,
    /// Whether a shutdown was received or the channel was closed.
    pub stopped: bool,
}

/// The mathematical content of a [`ShardQueuer`].
pub struct QueuerState {
    pub last_start: Option<u64>,
    pub queue: Seq<ShardInfo>,
    pub stopped: bool,
}

impl View for ShardQueuer {
    type V = QueuerState;

    open spec fn view(&self) -> QueuerState {
        QueuerState { last_start: self.last_start, queue: self.queue@, stopped: self.stopped }
    }
}

/// The state of a queuer that has seen nothing yet.
pub open spec fn initial_state() -> QueuerState {
    QueuerState { last_start: None, queue: Seq::empty(), stopped: false }
}

/// The step a poll leads to.
///
/// A stopped queuer stays stopped. A command to start a shard is followed at
/// once, whatever the backlog holds; the backlog is served only when the poll
/// timed out, oldest entry first.
pub open spec fn step_of(q: QueuerState, polled: Polled) -> Step {
    if q.stopped {
        Step::Stop
    } else {
        match polled {
            Polled::Message(ShardQueuerMessage::Shutdown) => Step::Stop,
            Polled::Closed => Step::Stop,
            Polled::Message(ShardQueuerMessage::Start(id, total)) => Step::Boot(
                ShardInfo { id, total: total.0 },
            ),
            Polled::TimedOut => if q.queue.len() > 0 {
                Step::Boot(q.queue[0])
            } else {
                Step::Idle
            },
        }
    }
}

/// The state a poll leaves behind.
pub open spec fn after_poll(q: QueuerState, polled: Polled) -> QueuerState {
    if q.stopped {
        q
    } else {
        match polled {
            Polled::Message(ShardQueuerMessage::Shutdown) => QueuerState { stopped: true, ..q },
            Polled::Closed => QueuerState { stopped: true, ..q },
            Polled::Message(ShardQueuerMessage::Start(_, _)) => q,
            Polled::TimedOut => if q.queue.len() > 0 {
                QueuerState { queue: q.queue.subrange(1, q.queue.len() as int), ..q }
            } else {
                q
            },
        }
    }
}

/// How long a boot has to be held back at `now`.
///
/// Nothing before the first boot. Afterwards, what is missing to a full
/// [`BOOT_SPACING`] since the last one; a clock that reads earlier than the last
/// boot counts as no time passed.
pub open spec fn time_to_wait(last_start: Option<u64>, now: u64) -> int {
    match last_start {
        None => 0,
        Some(instant) => {
            let elapsed = if now >= instant {
                now - instant
            } else {
                0
            };
            if elapsed >= BOOT_SPACING {
                0
            } else {
                BOOT_SPACING - elapsed
            }
        },
    }
}

/// The state after a boot attempt of `shard` that ended at `now`.
///
/// A shard that failed to boot joins the back of the backlog. The attempt's end
/// becomes the last start either way.
pub open spec fn after_attempt(
    q: QueuerState,
    shard: ShardInfo,
    succeeded: bool,
    now: u64,
) -> QueuerState {
    QueuerState {
        last_start: Some(now),
        queue: if succeeded {
            q.queue
        } else {
            q.queue.push(shard)
        },
        stopped: q.stopped,
    }
}

impl ShardQueuer {
    /// A queuer that has booted nothing and owes nothing.
    pub fn new() -> (queuer: Self)
        ensures
            queuer@ == initial_state(),
    {
        ShardQueuer { last_start: None, queue: VecDeque::new(), stopped: false }
    }

    /// Takes in the outcome of one poll and says what to do next.
    pub fn handle(&mut self, polled: Polled) -> (step: Step)
        ensures
            step == step_of(old(self)@, polled),
            final(self)@ == after_poll(old(self)@, polled),
    {
        if self.stopped {
            return Step::Stop;
        }
        match polled {
            Polled::Message(ShardQueuerMessage::Shutdown) => {
                self.stopped = true;
                Step::Stop
            },
            Polled::Closed => {
                self.stopped = true;
                Step::Stop
            },
            Polled::Message(ShardQueuerMessage::Start(id, total)) => Step::Boot(
                ShardInfo::new(id, total.0),
            ),
            Polled::TimedOut => {
                match self.queue.pop_front() {
                    Some(shard) => Step::Boot(shard),
                    None => Step::Idle,
                }
            },
        }
    }

    /// The time, in nanoseconds, that the driver must sleep at `now` before it
    /// boots a shard. Only at a `now` for which this is 0 is the boot cleared.
    pub fn check_last_start(&self, now: u64) -> (wait: u64)
        ensures
            wait == time_to_wait(self.last_start, now),
    {
        let instant = match self.last_start {
            Some(instant) => instant,
            None => {
                return 0;
            },
        };
        let elapsed: u64 = if now >= instant {
            now - instant
        } else {
            0
        };
        if elapsed >= BOOT_SPACING {
            return 0;
        }
        BOOT_SPACING - elapsed
    }

    /// Puts a shard that has just connected on record.
    ///
    /// `connected` is what opening the connection of shard `id` came to: the
    /// channel to the shard's runner and the shared connection, or the reason
    /// why there is none. A failure is handed on and leaves the registry as it
    /// was. A success records the shard as disconnected, with no latency
    /// measured; a record the shard had before is replaced.
    pub fn start<M, S, E>(
        runners: &mut ShardRunners<M, S>,
        id: ShardId,
        connected: Result<(M, S), E>,
    ) -> (started: Result<(), E>)
        ensures
            match connected {
                Ok((runner_tx, shard)) => {
                    &&& started is Ok
                    &&& final(runners)@ == old(runners)@.insert(id, fresh_record(runner_tx, shard))
                    &&& final(runners)@.contains_key(id)
                    &&& final(runners)@[id].stage == ConnectionStage::Disconnected
                    &&& final(runners)@[id].latency is None
                },
                Err(why) => {
                    &&& started == Err::<(), E>(why)
                    &&& final(runners)@ == old(runners)@
                },
            },
    {
        match connected {
            Ok((runner_tx, shard)) => {
                let info = ShardRunnerInfo {
                    latency: None,
                    runner_tx,
                    stage: ConnectionStage::Disconnected,
                    shard,
                };
                runners.insert(id, info);
                Ok(())
            },
            Err(why) => Err(why),
        }
    }

    /// Books a boot attempt of shard `id` that ended at `now`.
    ///
    /// `started` is what the attempt came to.
    pub fn checked_start<E>(&mut self, id: ShardId, total: u32, started: &Result<(), E>, now: u64)
        ensures
            final(self)@ == after_attempt(old(self)@, ShardInfo { id, total }, started is Ok, now),
    {
        if started.is_err() {
            self.queue.push_back(ShardInfo::new(id, total));
        }
        self.last_start = Some(now);
    }
}

} // verus!
