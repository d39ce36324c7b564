use wcapp::config::Config;
use wcapp::cycle::{
    default_to_store, pending, resolve_interval, step, Awaited, CycleAction, CycleEvent, CycleState,
};

fn applying(interval: u64, cycle: u64) -> CycleState {
    CycleState::Running { interval, cycle, awaited: Awaited::Wallpaper }
}

fn sleeping(interval: u64, cycle: u64, failed: bool) -> CycleState {
    CycleState::Running { interval, cycle, awaited: Awaited::Sleep { failed } }
}

fn config(dir: &str, seconds: u64) -> Config {
    Config { wallpaper_dir: dir.to_string(), cycle_interval: seconds }
}

#[test]
fn the_given_interval_wins() {
    let stored = config("/w", 120);
    assert_eq!(resolve_interval(Some(5), Some(&stored)), 5);
    assert_eq!(resolve_interval(Some(0), None), 0);
}

#[test]
fn the_stored_interval_comes_next() {
    let stored = config("/w", 120);
    assert_eq!(resolve_interval(None, Some(&stored)), 120);
}

#[test]
fn the_default_interval_comes_last() {
    assert_eq!(resolve_interval(None, None), 300);
}

#[test]
fn a_new_default_is_stored_only_on_request() {
    let stored = config("/w", 120);
    assert_eq!(default_to_store(Some(30), true, Some(&stored), "/root"), Some(config("/w", 30)));
    assert_eq!(default_to_store(Some(30), true, None, "/root"), Some(config("/root", 30)));
    assert_eq!(default_to_store(Some(30), false, Some(&stored), "/root"), None);
    assert_eq!(default_to_store(None, true, Some(&stored), "/root"), None);
    assert_eq!(default_to_store(None, false, None, "/root"), None);
}

#[test]
fn a_session_waits_until_started() {
    assert_eq!(pending(CycleState::Idle), CycleAction::Wait);
    assert_eq!(step(CycleState::Idle, CycleEvent::Slept), (CycleState::Idle, CycleAction::Wait));
    assert_eq!(
        step(CycleState::Idle, CycleEvent::Applied { success: true }),
        (CycleState::Idle, CycleAction::Wait)
    );
}

#[test]
fn a_session_alternates_wallpaper_and_sleep() {
    let (state, action) = step(CycleState::Idle, CycleEvent::Start { interval: 7 });
    assert_eq!(state, applying(7, 1));
    assert_eq!(action, CycleAction::Apply { cycle: 1 });
    let (state, action) = step(state, CycleEvent::Applied { success: true });
    assert_eq!(action, CycleAction::Sleep { seconds: 7, failed: false });
    let (state, action) = step(state, CycleEvent::Slept);
    assert_eq!(action, CycleAction::Apply { cycle: 2 });
    let (state, action) = step(state, CycleEvent::Applied { success: true });
    assert_eq!(state, sleeping(7, 2, false));
    assert_eq!(action, CycleAction::Sleep { seconds: 7, failed: false });
}

#[test]
fn a_failure_is_reported_and_the_session_goes_on() {
    let state = applying(300, 4);
    let (state, action) = step(state, CycleEvent::Applied { success: false });
    assert_eq!(action, CycleAction::Sleep { seconds: 300, failed: true });
    let (state, action) = step(state, CycleEvent::Slept);
    assert_eq!(state, applying(300, 5));
    assert_eq!(action, CycleAction::Apply { cycle: 5 });
}

#[test]
fn a_running_session_cannot_be_restarted_or_stopped() {
    let state = applying(9, 3);
    assert_eq!(step(state, CycleEvent::Start { interval: 1 }).0, state);
    assert_eq!(step(state, CycleEvent::Slept).0, state);
    let asleep = sleeping(9, 3, false);
    assert_eq!(step(asleep, CycleEvent::Start { interval: 1 }).0, asleep);
    assert_eq!(step(asleep, CycleEvent::Applied { success: false }).0, asleep);
}

#[test]
fn the_cycle_count_stays_at_its_largest_value() {
    let asleep = sleeping(1, u64::MAX, false);
    assert_eq!(
        step(asleep, CycleEvent::Slept),
        (
            applying(1, u64::MAX),
            CycleAction::Apply { cycle: u64::MAX }
        )
    );
}
