use std::time::Duration;

use chat_gateway::gateway::shard::{ConnectionStage, ShardId, ShardInfo};
use chat_gateway::gateway::shard_queuer::{
    Polled, ShardQueuer, ShardQueuerMessage, Step, BOOT_SPACING, WAIT_BETWEEN_BOOTS_IN_SECONDS,
};
use chat_gateway::gateway::shard_runners::{ShardRunnerInfo, ShardRunners};

const SECOND: u64 = 1_000_000_000;

fn start_of(id: u32, total: u32) -> Polled {
    Polled::Message(ShardQueuerMessage::Start(ShardId(id), ShardId(total)))
}

/// A driver with a clock of its own: connecting takes no time, sleeping takes
/// exactly as long as asked, and a poll that times out takes one spacing.
struct Driver {
    queuer: ShardQueuer,
    runners: ShardRunners<String, u32>,
    now: u64,
    /// Each boot that was attempted: the shard, the instant it began, and
    /// whether it succeeded.
    boots: Vec<(ShardInfo, u64, bool)>,
    /// How many more boots of each shard id are to fail.
    failures_left: Vec<(u32, u32)>,
}

impl Driver {
    fn new() -> Self {
        Driver {
            queuer: ShardQueuer::new(),
            runners: ShardRunners::new(),
            now: 0,
            boots: Vec::new(),
            failures_left: Vec::new(),
        }
    }

    fn fail(&mut self, id: u32, times: u32) {
        self.failures_left.push((id, times));
    }

    fn connect(&mut self, shard: ShardInfo) -> Result<(String, u32), String> {
        for entry in self.failures_left.iter_mut() {
            if entry.0 == shard.id.0 && entry.1 > 0 {
                entry.1 -= 1;
                return Err(format!("shard {} refused", shard.id.0));
            }
        }
        Ok((format!("messenger {}", shard.id.0), shard.id.0))
    }

    fn round(&mut self, polled: Polled) -> Step {
        if polled == Polled::TimedOut {
            self.now += BOOT_SPACING;
        }
        let step = self.queuer.handle(polled);
        if let Step::Boot(shard) = step {
            loop {
                let wait = self.queuer.check_last_start(self.now);
                if wait == 0 {
                    break;
                }
                self.now += wait;
            }
            let began = self.now;
            let connected = self.connect(shard);
            let started = ShardQueuer::start(&mut self.runners, shard.id, connected);
            self.boots.push((shard, began, started.is_ok()));
            self.queuer.checked_start(shard.id, shard.total, &started, self.now);
        }
        step
    }
}

#[test]
fn spacing_is_five_seconds() {
    assert_eq!(WAIT_BETWEEN_BOOTS_IN_SECONDS, 5);
    assert_eq!(BOOT_SPACING, 5 * SECOND);
}

#[test]
fn new_queuer_owes_nothing() {
    let queuer = ShardQueuer::new();
    assert_eq!(queuer.last_start, None);
    assert!(queuer.queue.is_empty());
    assert!(!queuer.stopped);
}

#[test]
fn first_boot_does_not_wait() {
    let queuer = ShardQueuer::new();
    assert_eq!(queuer.check_last_start(0), 0);
    assert_eq!(queuer.check_last_start(123 * SECOND), 0);
}

#[test]
fn wait_is_what_is_missing_to_the_spacing() {
    let mut queuer = ShardQueuer::new();
    queuer.last_start = Some(10 * SECOND);
    assert_eq!(queuer.check_last_start(10 * SECOND), 5 * SECOND);
    assert_eq!(queuer.check_last_start(10 * SECOND + 1), 5 * SECOND - 1);
    assert_eq!(queuer.check_last_start(13 * SECOND), 2 * SECOND);
    assert_eq!(queuer.check_last_start(15 * SECOND - 1), 1);
    assert_eq!(queuer.check_last_start(15 * SECOND), 0);
    assert_eq!(queuer.check_last_start(99 * SECOND), 0);
}

#[test]
fn clock_behind_last_start_waits_the_full_spacing() {
    let mut queuer = ShardQueuer::new();
    queuer.last_start = Some(10 * SECOND);
    assert_eq!(queuer.check_last_start(9 * SECOND), BOOT_SPACING);
    assert_eq!(queuer.check_last_start(0), BOOT_SPACING);
}

#[test]
fn wait_near_the_end_of_the_clock() {
    let mut queuer = ShardQueuer::new();
    queuer.last_start = Some(u64::MAX);
    assert_eq!(queuer.check_last_start(u64::MAX), BOOT_SPACING);
    queuer.last_start = Some(0);
    assert_eq!(queuer.check_last_start(u64::MAX), 0);
}

#[test]
fn start_command_boots_that_shard() {
    let mut queuer = ShardQueuer::new();
    let step = queuer.handle(start_of(4, 9));
    assert_eq!(step, Step::Boot(ShardInfo { id: ShardId(4), total: 9 }));
    assert!(queuer.queue.is_empty());
    assert_eq!(queuer.last_start, None);
    assert!(!queuer.stopped);
}

#[test]
fn start_command_goes_before_the_backlog() {
    let mut queuer = ShardQueuer::new();
    queuer.queue.push_back(ShardInfo::new(ShardId(1), 3));
    let step = queuer.handle(start_of(2, 3));
    assert_eq!(step, Step::Boot(ShardInfo { id: ShardId(2), total: 3 }));
    assert_eq!(queuer.queue.len(), 1);
    assert_eq!(queuer.queue[0], ShardInfo { id: ShardId(1), total: 3 });
}

#[test]
fn timeout_serves_the_backlog_oldest_first() {
    let mut queuer = ShardQueuer::new();
    queuer.queue.push_back(ShardInfo::new(ShardId(7), 8));
    queuer.queue.push_back(ShardInfo::new(ShardId(3), 8));
    assert_eq!(queuer.handle(Polled::TimedOut), Step::Boot(ShardInfo { id: ShardId(7), total: 8 }));
    assert_eq!(queuer.queue.len(), 1);
    assert_eq!(queuer.handle(Polled::TimedOut), Step::Boot(ShardInfo { id: ShardId(3), total: 8 }));
    assert!(queuer.queue.is_empty());
    assert_eq!(queuer.handle(Polled::TimedOut), Step::Idle);
}

#[test]
fn shutdown_stops_whatever_is_owed() {
    let mut queuer = ShardQueuer::new();
    queuer.queue.push_back(ShardInfo::new(ShardId(1), 2));
    queuer.last_start = Some(3 * SECOND);
    assert_eq!(queuer.handle(Polled::Message(ShardQueuerMessage::Shutdown)), Step::Stop);
    assert!(queuer.stopped);
    assert_eq!(queuer.queue.len(), 1);
    assert_eq!(queuer.last_start, Some(3 * SECOND));
}

#[test]
fn closed_channel_stops() {
    let mut queuer = ShardQueuer::new();
    assert_eq!(queuer.handle(Polled::Closed), Step::Stop);
    assert!(queuer.stopped);
}

#[test]
fn stopped_queuer_stays_stopped() {
    let mut queuer = ShardQueuer::new();
    queuer.queue.push_back(ShardInfo::new(ShardId(1), 2));
    queuer.handle(Polled::Message(ShardQueuerMessage::Shutdown));
    assert_eq!(queuer.handle(start_of(0, 2)), Step::Stop);
    assert_eq!(queuer.handle(Polled::TimedOut), Step::Stop);
    assert_eq!(queuer.handle(Polled::Closed), Step::Stop);
    assert_eq!(queuer.queue.len(), 1);
    assert!(queuer.stopped);
}

#[test]
fn failed_boot_is_queued_again() {
    let mut queuer = ShardQueuer::new();
    let failed: Result<(), &str> = Err("no route");
    queuer.checked_start(ShardId(5), 6, &failed, 42);
    assert_eq!(queuer.queue.len(), 1);
    assert_eq!(queuer.queue[0], ShardInfo { id: ShardId(5), total: 6 });
    assert_eq!(queuer.last_start, Some(42));
}

#[test]
fn successful_boot_is_not_queued() {
    let mut queuer = ShardQueuer::new();
    let fine: Result<(), &str> = Ok(());
    queuer.checked_start(ShardId(5), 6, &fine, 42);
    assert!(queuer.queue.is_empty());
    assert_eq!(queuer.last_start, Some(42));
}

#[test]
fn same_shard_failing_twice_is_queued_twice() {
    let mut queuer = ShardQueuer::new();
    let failed: Result<(), ()> = Err(());
    queuer.checked_start(ShardId(1), 2, &failed, 10);
    queuer.checked_start(ShardId(1), 2, &failed, 20);
    assert_eq!(queuer.queue.len(), 2);
    assert_eq!(queuer.last_start, Some(20));
}

#[test]
fn retry_keeps_the_fleet_size_it_was_given() {
    let mut driver = Driver::new();
    driver.fail(0, 1);
    driver.round(start_of(0, 4));
    assert_eq!(driver.round(Polled::TimedOut), Step::Boot(ShardInfo { id: ShardId(0), total: 4 }));
}

#[test]
fn start_records_a_disconnected_shard_without_latency() {
    let mut runners: ShardRunners<&str, u8> = ShardRunners::new();
    let connected: Result<(&str, u8), ()> = Ok(("tx", 9));
    assert_eq!(ShardQueuer::start(&mut runners, ShardId(3), connected), Ok(()));
    assert_eq!(runners.len(), 1);
    let info = runners.get(ShardId(3)).unwrap();
    assert_eq!(info.stage, ConnectionStage::Disconnected);
    assert_eq!(info.latency, None);
    assert_eq!(info.runner_tx, "tx");
    assert_eq!(info.shard, 9);
}

#[test]
fn failed_start_leaves_the_registry_alone() {
    let mut runners: ShardRunners<&str, u8> = ShardRunners::new();
    let refused: Result<(&str, u8), &str> = Err("refused");
    assert_eq!(ShardQueuer::start(&mut runners, ShardId(3), refused), Err("refused"));
    assert_eq!(runners.len(), 0);
    assert!(!runners.contains(ShardId(3)));
}

#[test]
fn restart_replaces_the_record() {
    let mut runners: ShardRunners<&str, u8> = ShardRunners::new();
    let first: Result<(&str, u8), ()> = Ok(("old", 1));
    ShardQueuer::start(&mut runners, ShardId(3), first).unwrap();
    runners.set_stage(ShardId(3), ConnectionStage::Connected);
    runners.set_latency(ShardId(3), Some(Duration::from_millis(40)));
    let second: Result<(&str, u8), ()> = Ok(("new", 2));
    ShardQueuer::start(&mut runners, ShardId(3), second).unwrap();
    assert_eq!(runners.len(), 1);
    let info = runners.get(ShardId(3)).unwrap();
    assert_eq!(info.runner_tx, "new");
    assert_eq!(info.shard, 2);
    assert_eq!(info.stage, ConnectionStage::Disconnected);
    assert_eq!(info.latency, None);
}

#[test]
fn fleet_of_three_with_one_failure() {
    let mut driver = Driver::new();
    driver.fail(1, 1);
    assert_eq!(driver.round(start_of(0, 3)), Step::Boot(ShardInfo { id: ShardId(0), total: 3 }));
    assert_eq!(driver.round(start_of(1, 3)), Step::Boot(ShardInfo { id: ShardId(1), total: 3 }));
    assert_eq!(driver.round(start_of(2, 3)), Step::Boot(ShardInfo { id: ShardId(2), total: 3 }));
    assert_eq!(driver.round(Polled::TimedOut), Step::Boot(ShardInfo { id: ShardId(1), total: 3 }));
    assert_eq!(
        driver.boots,
        vec![
            (ShardInfo { id: ShardId(0), total: 3 }, 0, true),
            (ShardInfo { id: ShardId(1), total: 3 }, 5 * SECOND, false),
            (ShardInfo { id: ShardId(2), total: 3 }, 10 * SECOND, true),
            (ShardInfo { id: ShardId(1), total: 3 }, 15 * SECOND, true),
        ]
    );
    assert_eq!(driver.runners.len(), 3);
    for id in 0..3 {
        let info = driver.runners.get(ShardId(id)).unwrap();
        assert_eq!(info.stage, ConnectionStage::Disconnected);
        assert_eq!(info.latency, None);
        assert_eq!(info.shard, id);
    }
    assert!(driver.queuer.queue.is_empty());
    assert_eq!(driver.round(Polled::TimedOut), Step::Idle);
}

#[test]
fn idle_queuer_only_polls() {
    let mut driver = Driver::new();
    for _ in 0..1000 {
        assert_eq!(driver.round(Polled::TimedOut), Step::Idle);
    }
    assert!(driver.boots.is_empty());
    assert_eq!(driver.runners.len(), 0);
    assert_eq!(driver.queuer.last_start, None);
    assert!(driver.queuer.queue.is_empty());
    assert!(!driver.queuer.stopped);
    assert_eq!(driver.now, 1000 * BOOT_SPACING);
}

#[test]
fn back_to_back_starts_are_spaced() {
    let mut driver = Driver::new();
    driver.fail(2, 1);
    driver.fail(5, 2);
    for id in 0..8 {
        driver.round(start_of(id, 8));
    }
    while driver.round(Polled::TimedOut) != Step::Idle {}
    assert_eq!(driver.boots.len(), 11);
    for pair in driver.boots.windows(2) {
        assert!(pair[1].1 - pair[0].1 >= BOOT_SPACING);
    }
}

#[test]
fn shard_failing_three_times_is_booted_four_times() {
    let mut driver = Driver::new();
    driver.fail(1, 3);
    driver.round(start_of(0, 2));
    driver.round(start_of(1, 2));
    while driver.round(Polled::TimedOut) != Step::Idle {}
    let boots_of_one: Vec<bool> =
        driver.boots.iter().filter(|boot| boot.0.id == ShardId(1)).map(|boot| boot.2).collect();
    assert_eq!(boots_of_one, vec![false, false, false, true]);
    assert_eq!(driver.boots.iter().filter(|boot| boot.0.id == ShardId(0)).count(), 1);
    assert!(driver.runners.contains(ShardId(1)));
}

#[test]
fn failing_shard_does_not_hold_up_the_others() {
    let mut driver = Driver::new();
    driver.fail(0, 100);
    driver.round(start_of(0, 3));
    driver.round(start_of(1, 3));
    driver.round(start_of(2, 3));
    assert!(driver.runners.contains(ShardId(1)));
    assert!(driver.runners.contains(ShardId(2)));
    assert!(!driver.runners.contains(ShardId(0)));
    assert_eq!(driver.boots[1], (ShardInfo { id: ShardId(1), total: 3 }, 5 * SECOND, true));
    assert_eq!(driver.boots[2], (ShardInfo { id: ShardId(2), total: 3 }, 10 * SECOND, true));
}

#[test]
fn retries_wait_behind_earlier_failures() {
    let mut driver = Driver::new();
    driver.fail(0, 2);
    driver.fail(1, 1);
    driver.round(start_of(0, 2));
    driver.round(start_of(1, 2));
    assert_eq!(driver.round(Polled::TimedOut), Step::Boot(ShardInfo { id: ShardId(0), total: 2 }));
    assert_eq!(driver.round(Polled::TimedOut), Step::Boot(ShardInfo { id: ShardId(1), total: 2 }));
    assert_eq!(driver.round(Polled::TimedOut), Step::Boot(ShardInfo { id: ShardId(0), total: 2 }));
    assert_eq!(driver.round(Polled::TimedOut), Step::Idle);
}

#[test]
fn shutdown_during_backlog_returns_at_once() {
    let mut driver = Driver::new();
    driver.fail(0, 100);
    driver.round(start_of(0, 1));
    driver.round(Polled::TimedOut);
    let boots = driver.boots.len();
    assert_eq!(driver.round(Polled::Message(ShardQueuerMessage::Shutdown)), Step::Stop);
    assert_eq!(driver.round(Polled::TimedOut), Step::Stop);
    assert_eq!(driver.boots.len(), boots);
    assert_eq!(driver.queuer.queue.len(), 1);
}
