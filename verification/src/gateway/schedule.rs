//! Whole runs of the queuer, and what holds of every one of them.
//!
//! A run is a sequence of rounds. In each round the driver polls the command
//! channel and lets the queuer handle the outcome. Where the queuer answers with
//! a boot, the driver shows the queuer its clock and sleeps for as long as the
//! queuer asks, again and again until the queuer asks for no wait at all; then
//! it attempts the connection and reports how and when the attempt ended. The
//! functions here replay such a run on the queuer's state, and the lemmas say
//! what follows for the boots in it.
//!
//! The spacing of the boots rests on the queuer's own answer, not on how long
//! the driver slept: all that is taken of the driver is that it began an
//! attempt after the queuer had cleared it, and that it read the end of the
//! attempt off the same clock after the beginning.

use vstd::prelude::*;

use crate::gateway::shard::{ShardId, ShardInfo};
use crate::gateway::shard_queuer::{
    after_attempt,
    after_poll,
    step_of,
    time_to_wait,
    Polled,
    QueuerState,
    ShardQueuerMessage,
    Step,
    BOOT_SPACING,
};

verus! {

/// What the driver saw and did in one turn of its loop.
///
/// The four fields after `polled` matter only in a round that boots a shard.
pub struct Round {
    /// What the poll of the command channel came to.
    pub polled: Polled,
    /// The clock as the driver showed it to the queuer when the queuer asked
    /// for no wait.
    pub cleared_at: u64,
    /// The instant the connection attempt began.
    pub began_at: u64,
    /// Whether the attempt ended in a running shard.
    pub succeeded: bool,
    /// The instant the attempt ended, as reported to the queuer.
    pub ended_at: u64,
}

/// The shard that a round beginning in state `q` boots, if it boots one.
pub open spec fn booted_in(q: QueuerState, round: Round) -> Option<ShardInfo> {
    match step_of(q, round.polled) {
        Step::Boot(shard) => Some(shard),
        _ => None,
    }
}

/// The state a round beginning in state `q` ends in.
pub open spec fn after_round(q: QueuerState, round: Round) -> QueuerState {
    match booted_in(q, round) {
        Some(shard) => after_attempt(
            after_poll(q, round.polled),
            shard,
            round.succeeded,
            round.ended_at,
        ),
        None => after_poll(q, round.polled),
    }
}

/// The state after all of `rounds`, begun in state `q`.
pub open spec fn after_rounds(q: QueuerState, rounds: Seq<Round>) -> QueuerState
    decreases rounds.len(),
{
    if rounds.len() == 0 {
        q
    } else {
        after_round(after_rounds(q, rounds.drop_last()), rounds.last())
    }
}

/// The state in which round `i` of a run begins.
pub open spec fn before_round(q: QueuerState, rounds: Seq<Round>, i: int) -> QueuerState {
    after_rounds(q, rounds.take(i))
}

/// The shard booted in round `i` of a run, if that round boots one.
pub open spec fn booted_at(q: QueuerState, rounds: Seq<Round>, i: int) -> Option<ShardInfo> {
    booted_in(before_round(q, rounds, i), rounds[i])
}

/// Whether the driver kept its side in a round beginning in state `q`: the
/// queuer asked for no wait at the clock it was shown, the attempt began no
/// sooner than that, and it ended no sooner than it began.
pub open spec fn round_driven_well(q: QueuerState, round: Round) -> bool {
    booted_in(q, round) is Some ==> {
        &&& time_to_wait(q.last_start, round.cleared_at) == 0
        &&& round.cleared_at <= round.began_at
        &&& round.began_at <= round.ended_at
    }
}

/// Whether the driver kept its side in round `i` of a run.
pub open spec fn driven_well_at(q: QueuerState, rounds: Seq<Round>, i: int) -> bool {
    round_driven_well(before_round(q, rounds, i), rounds[i])
}

/// Whether the driver kept its side in every round of a run.
pub open spec fn driven_well(q: QueuerState, rounds: Seq<Round>) -> bool {
    forall|i: int| 0 <= i < rounds.len() ==> #[trigger] driven_well_at(q, rounds, i)
}

/// How often `shard` occurs in a backlog.
pub open spec fn pending(queue: Seq<ShardInfo>, shard: ShardInfo) -> nat
    decreases queue.len(),
{
    if queue.len() == 0 {
        0
    } else {
        pending(queue.drop_last(), shard) + if queue.last() == shard {
            1nat
        } else {
            0nat
        }
    }
}

/// Whether a round beginning in state `q` boots `shard` on a fresh command.
pub open spec fn requested_in(q: QueuerState, round: Round, shard: ShardInfo) -> bool {
    &&& !q.stopped
    &&& round.polled == Polled::Message(
        ShardQueuerMessage::Start(shard.id, ShardId(shard.total)),
    )
}

/// How many rounds of a run boot `shard` on a fresh command.
pub open spec fn requests_of(q: QueuerState, rounds: Seq<Round>, shard: ShardInfo) -> nat
    decreases rounds.len(),
{
    if rounds.len() == 0 {
        0
    } else {
        requests_of(q, rounds.drop_last(), shard) + if requested_in(
            after_rounds(q, rounds.drop_last()),
            rounds.last(),
            shard,
        ) {
            1nat
        } else {
            0nat
        }
    }
}

/// How many rounds of a run boot `shard`, on a command or from the backlog.
pub open spec fn boots_of(q: QueuerState, rounds: Seq<Round>, shard: ShardInfo) -> nat
    decreases rounds.len(),
{
    if rounds.len() == 0 {
        0
    } else {
        boots_of(q, rounds.drop_last(), shard) + if booted_in(
            after_rounds(q, rounds.drop_last()),
            rounds.last(),
        ) == Some(shard) {
            1nat
        } else {
            0nat
        }
    }
}

/// How many rounds of a run boot `shard` and fail.
pub open spec fn failures_of(q: QueuerState, rounds: Seq<Round>, shard: ShardInfo) -> nat
    decreases rounds.len(),
{
    if rounds.len() == 0 {
        0
    } else {
        failures_of(q, rounds.drop_last(), shard) + if booted_in(
            after_rounds(q, rounds.drop_last()),
            rounds.last(),
        ) == Some(shard) && !rounds.last().succeeded {
            1nat
        } else {
            0nat
        }
    }
}

/// Round `i` takes the run from the state before it to the state before the next.
pub proof fn lemma_round_step(q: QueuerState, rounds: Seq<Round>, i: int)
    requires
        0 <= i < rounds.len(),
    ensures
        before_round(q, rounds, i + 1) == after_round(before_round(q, rounds, i), rounds[i]),
        before_round(q, rounds, rounds.len() as int) == after_rounds(q, rounds),
{
    assert(rounds.take(i + 1).drop_last() =~= rounds.take(i));
    assert(rounds.take(i + 1).last() == rounds[i]);
    assert(rounds.take(rounds.len() as int) =~= rounds);
}

/// Once a round has booted a shard, the queuer's last start is never earlier
/// than the end of that boot.
proof fn lemma_last_start_grows(q: QueuerState, rounds: Seq<Round>, i: int, k: int)
    requires
        driven_well(q, rounds),
        0 <= i < k <= rounds.len(),
        booted_at(q, rounds, i) is Some,
    ensures
        before_round(q, rounds, k).last_start matches Some(instant) && rounds[i].ended_at
            <= instant,
    decreases k,
{
    lemma_round_step(q, rounds, k - 1);
    if k - 1 > i {
        lemma_last_start_grows(q, rounds, i, k - 1);
        assert(driven_well_at(q, rounds, k - 1));
    }
}

/// Any two boots of a run begin at least [`BOOT_SPACING`] apart, whichever
/// shards they boot and however they end, as long as the driver begins none
/// before the queuer has cleared it.
pub proof fn lemma_boots_are_spaced(q: QueuerState, rounds: Seq<Round>, i: int, j: int)
    requires
        driven_well(q, rounds),
        0 <= i < j < rounds.len(),
        booted_at(q, rounds, i) is Some,
        booted_at(q, rounds, j) is Some,
    ensures
        rounds[i].began_at + BOOT_SPACING <= rounds[j].began_at,
{
    lemma_last_start_grows(q, rounds, i, j);
    assert(driven_well_at(q, rounds, i));
    assert(driven_well_at(q, rounds, j));
}

/// The last start never moves back while no round boots, so the first boot of a
/// run keeps the spacing to whatever boot came before the run.
pub proof fn lemma_first_boot_is_spaced(q: QueuerState, rounds: Seq<Round>, j: int)
    requires
        driven_well(q, rounds),
        0 <= j < rounds.len(),
        booted_at(q, rounds, j) is Some,
        forall|i: int| 0 <= i < j ==> booted_at(q, rounds, i) is None,
        q.last_start is Some,
    ensures
        q.last_start->0 + BOOT_SPACING <= rounds[j].began_at,
{
    lemma_quiet_rounds_keep_last_start(q, rounds, j);
    assert(driven_well_at(q, rounds, j));
}

/// Rounds that boot nothing leave the last start as it was.
proof fn lemma_quiet_rounds_keep_last_start(q: QueuerState, rounds: Seq<Round>, k: int)
    requires
        0 <= k <= rounds.len(),
        forall|i: int| 0 <= i < k ==> booted_at(q, rounds, i) is None,
    ensures
        before_round(q, rounds, k).last_start == q.last_start,
    decreases k,
{
    if k == 0 {
        assert(rounds.take(0) =~= Seq::<Round>::empty());
    } else {
        lemma_quiet_rounds_keep_last_start(q, rounds, k - 1);
        lemma_round_step(q, rounds, k - 1);
        assert(booted_at(q, rounds, k - 1) is None);
    }
}

/// Pushing onto a backlog adds one occurrence of what was pushed.
proof fn lemma_pending_push(queue: Seq<ShardInfo>, pushed: ShardInfo, shard: ShardInfo)
    ensures
        pending(queue.push(pushed), shard) == pending(queue, shard) + if pushed == shard {
            1nat
        } else {
            0nat
        },
{
    assert(queue.push(pushed).drop_last() =~= queue);
}

/// Taking the front off a backlog removes one occurrence of what stood there.
proof fn lemma_pending_front(queue: Seq<ShardInfo>, shard: ShardInfo)
    requires
        queue.len() > 0,
    ensures
        pending(queue, shard) == pending(queue.subrange(1, queue.len() as int), shard)
            + if queue[0] == shard {
            1nat
        } else {
            0nat
        },
    decreases queue.len(),
{
    let rest = queue.subrange(1, queue.len() as int);
    if queue.len() == 1 {
        assert(queue.drop_last() =~= Seq::<ShardInfo>::empty());
        assert(rest =~= Seq::<ShardInfo>::empty());
    } else {
        lemma_pending_front(queue.drop_last(), shard);
        assert(rest.drop_last() =~= queue.drop_last().subrange(1, queue.len() - 1));
    }
}

/// Every boot of a shard answers either a fresh command or an earlier failure:
/// at any point of a run, the boots of a shard and its entries still in the
/// backlog add up to the entries the run began with, the commands for it that
/// were followed and its failed boots.
pub proof fn lemma_every_boot_is_accounted_for(
    q: QueuerState,
    rounds: Seq<Round>,
    shard: ShardInfo,
)
    ensures
        boots_of(q, rounds, shard) + pending(after_rounds(q, rounds).queue, shard) == pending(
            q.queue,
            shard,
        ) + requests_of(q, rounds, shard) + failures_of(q, rounds, shard),
    decreases rounds.len(),
{
    if rounds.len() > 0 {
        lemma_every_boot_is_accounted_for(q, rounds.drop_last(), shard);
        let before = after_rounds(q, rounds.drop_last());
        let round = rounds.last();
        let polled = after_poll(before, round.polled);
        if !before.stopped && round.polled == Polled::TimedOut && before.queue.len() > 0 {
            lemma_pending_front(before.queue, shard);
        }
        match booted_in(before, round) {
            Some(booted) => {
                lemma_pending_push(polled.queue, booted, shard);
            },
            None => {},
        }
    }
}

/// A shard that the run did not begin with, that one command asked for and
/// whose boots failed `n` times has been booted `n + 1` times once it is no
/// longer in the backlog: each failure earns exactly one retry.
pub proof fn lemma_each_failure_earns_one_retry(
    q: QueuerState,
    rounds: Seq<Round>,
    shard: ShardInfo,
    n: nat,
)
    requires
        pending(q.queue, shard) == 0,
        requests_of(q, rounds, shard) == 1,
        failures_of(q, rounds, shard) == n,
        pending(after_rounds(q, rounds).queue, shard) == 0,
    ensures
        boots_of(q, rounds, shard) == n + 1,
{
    lemma_every_boot_is_accounted_for(q, rounds, shard);
}

/// While polls time out, the backlog shrinks from the front only: after `k`
/// such rounds, what the run began with from entry `k` on still leads the
/// backlog, in its old order.
proof fn lemma_backlog_keeps_its_order(q: QueuerState, rounds: Seq<Round>, k: int)
    requires
        !q.stopped,
        forall|m: int| 0 <= m < rounds.len() ==> (#[trigger] rounds[m]).polled == Polled::TimedOut,
        0 <= k <= rounds.len(),
        k <= q.queue.len(),
    ensures
        !before_round(q, rounds, k).stopped,
        before_round(q, rounds, k).queue.len() >= q.queue.len() - k,
        forall|m: int|
            0 <= m < q.queue.len() - k ==> before_round(q, rounds, k).queue[m] == q.queue[k + m],
    decreases k,
{
    if k == 0 {
        assert(rounds.take(0) =~= Seq::<Round>::empty());
    } else {
        lemma_backlog_keeps_its_order(q, rounds, k - 1);
        lemma_round_step(q, rounds, k - 1);
        let before = before_round(q, rounds, k - 1);
        assert(rounds[k - 1].polled == Polled::TimedOut);
        assert(before.queue[0] == q.queue[k - 1]);
        assert forall|m: int| 0 <= m < q.queue.len() - k implies before_round(
            q,
            rounds,
            k,
        ).queue[m] == q.queue[k + m] by {
            assert(before.queue[m + 1] == q.queue[k - 1 + (m + 1)]);
        }
    }
}

/// A failed shard waits behind everything that was queued before it: while
/// polls time out, round `i` boots what stood at place `i` of the backlog the
/// run began with, whatever the boots before it came to.
pub proof fn lemma_backlog_is_served_in_order(q: QueuerState, rounds: Seq<Round>, i: int)
    requires
        !q.stopped,
        forall|m: int| 0 <= m < rounds.len() ==> (#[trigger] rounds[m]).polled == Polled::TimedOut,
        0 <= i < rounds.len(),
        i < q.queue.len(),
    ensures
        booted_at(q, rounds, i) == Some(q.queue[i]),
{
    lemma_backlog_keeps_its_order(q, rounds, i);
    assert(rounds[i].polled == Polled::TimedOut);
    assert(before_round(q, rounds, i).queue[0] == q.queue[i + 0]);
}

/// A command to start a shard is followed in the very round that polls it,
/// however many failed shards wait in the backlog, and the backlog waits on as
/// it was.
pub proof fn lemma_fresh_command_goes_first(q: QueuerState, round: Round, id: ShardId, total: ShardId)
    requires
        !q.stopped,
        round.polled == Polled::Message(ShardQueuerMessage::Start(id, total)),
    ensures
        booted_in(q, round) == Some(ShardInfo { id, total: total.0 }),
        q.queue.is_prefix_of(after_round(q, round).queue),
        round.succeeded ==> after_round(q, round).queue == q.queue,
{
}

/// A shutdown, or the loss of the command channel, ends the run for good: the
/// round that polls it answers with a stop, and so does every later round,
/// whatever it polls and however full the backlog is. The backlog stays as
/// that round found it.
pub proof fn lemma_shutdown_ends_the_run(q: QueuerState, rounds: Seq<Round>, i: int, j: int)
    requires
        0 <= i < j <= rounds.len(),
        rounds[i].polled == Polled::Message(ShardQueuerMessage::Shutdown) || rounds[i].polled
            == Polled::Closed,
    ensures
        step_of(before_round(q, rounds, i), rounds[i].polled) == Step::Stop,
        before_round(q, rounds, j).stopped,
        before_round(q, rounds, j).queue == before_round(q, rounds, i).queue,
        before_round(q, rounds, j).last_start == before_round(q, rounds, i).last_start,
        j < rounds.len() ==> step_of(before_round(q, rounds, j), rounds[j].polled) == Step::Stop,
    decreases j,
{
    lemma_round_step(q, rounds, j - 1);
    if j - 1 > i {
        lemma_shutdown_ends_the_run(q, rounds, i, j - 1);
    }
}

/// With an empty backlog and no commands, nothing happens: every poll that
/// times out is answered with idling and leaves the queuer as it was.
pub proof fn lemma_nothing_owed_nothing_done(q: QueuerState, rounds: Seq<Round>, i: int)
    requires
        !q.stopped,
        q.queue.len() == 0,
        forall|m: int| 0 <= m < rounds.len() ==> (#[trigger] rounds[m]).polled == Polled::TimedOut,
        0 <= i <= rounds.len(),
    ensures
        before_round(q, rounds, i) == q,
        i < rounds.len() ==> step_of(before_round(q, rounds, i), rounds[i].polled) == Step::Idle,
    decreases i,
{
    if i == 0 {
        assert(rounds.take(0) =~= Seq::<Round>::empty());
    } else {
        lemma_nothing_owed_nothing_done(q, rounds, i - 1);
        lemma_round_step(q, rounds, i - 1);
        assert(rounds[i - 1].polled == Polled::TimedOut);
    }
    if i < rounds.len() {
        assert(rounds[i].polled == Polled::TimedOut);
    }
}

} // verus!
