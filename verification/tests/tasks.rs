use std::sync::Arc;

use lalafell_bot::env::BotEnv;
use lalafell_bot::tasks::{TaskManager, Wait};

fn env() -> Arc<BotEnv> {
    Arc::new(BotEnv { timed_out_role: Some("Timed out".to_string()), role_groups: Vec::new(), fflogs_api_key: "key".to_string() })
}

#[test]
fn task_manager_keeps_its_environment() {
    let e = env();
    let m = TaskManager::new(Arc::clone(&e));
    assert!(Arc::ptr_eq(m.env(), &e));
}

#[test]
fn wait_gives_nothing_for_due_items() {
    let mut w = Wait::starting_at((), 100);
    assert_eq!(w.schedule((50, "a")), (0, "a"));
    assert_eq!(w.schedule((100, "b")), (0, "b"));
}

#[test]
fn wait_counts_from_the_start_then_from_the_last_stamp() {
    let mut w = Wait::starting_at((), 100);
    assert_eq!(w.schedule((110, 1)), (10, 1));
    assert_eq!(w.schedule((115, 2)), (5, 2));
    assert_eq!(w.schedule((90, 3)), (0, 3));
    assert_eq!(w.schedule((130, 4)), (15, 4));
    // an earlier stamp after a later one gives a negative wait
    assert_eq!(w.schedule((120, 5)), (-10, 5));
}

#[test]
fn waits_bring_each_future_item_to_its_stamp() {
    let now = 1_000;
    let stamps = [1_005i64, 900, 1_020, 1_000, 1_021, 1_050];
    let mut w = Wait::starting_at((), now);
    let mut elapsed = 0i64;
    for (i, t) in stamps.iter().enumerate() {
        let (wait, j) = w.schedule((*t, i));
        assert_eq!(j, i);
        elapsed += wait;
        if *t > now {
            assert_eq!(now + elapsed, *t);
        } else {
            assert_eq!(wait, 0);
        }
    }
}

#[test]
fn wait_reads_the_clock_when_created() {
    let mut w = Wait::new(vec![1, 2, 3]);
    assert_eq!(w.inner_mut().pop(), Some(3));
    assert_eq!(w.inner_mut().len(), 2);
    let (wait, _) = w.schedule((0, ()));
    assert_eq!(wait, 0);
    let far = 4_000_000_000i64;
    let (wait, _) = w.schedule((far, ()));
    let now = chrono::Utc::now().timestamp();
    assert!(wait > 0 && far - wait <= now && now - (far - wait) < 60);
}

#[test]
fn wait_knows_when_a_wait_would_overflow() {
    let w = Wait::starting_at((), -10);
    assert!(w.can_schedule(i64::MAX - 20));
    assert!(!w.can_schedule(i64::MAX));
    assert!(w.can_schedule(i64::MIN));
    let w = Wait::starting_at((), 0);
    assert!(w.can_schedule(i64::MAX));
}

#[test]
fn waits_for_ordered_stamps_are_never_negative() {
    let now = 500;
    let stamps = [400i64, 500, 501, 501, 600, 1_000];
    let mut w = Wait::starting_at((), now);
    let waits: Vec<i64> = stamps.iter().map(|t| w.schedule((*t, ())).0).collect();
    assert_eq!(waits, vec![0, 0, 1, 0, 99, 400]);
    assert!(waits.iter().all(|d| *d >= 0));
}
