//! The cycle controller: which interval a session runs at, and the session
//! as a state machine that asks for one wallpaper, then for one sleep, and so
//! on until the process is interrupted.

use vstd::prelude::*;
use crate::config::{config_view, Config, ConfigView, DEFAULT_CYCLE_INTERVAL};

verus! {

/// The interval of a session: the one given, else the stored one, else the
/// default.
pub open spec fn resolved_interval(explicit: Option<u64>, stored: Option<ConfigView>) -> u64 {
    match explicit {
        Some(seconds) => seconds,
        None => match stored {
            Some(config) => config.cycle_interval,
            None => DEFAULT_CYCLE_INTERVAL,
        },
    }
}

/// The configuration to store before a session starts, if any: a given
/// interval that is to become the default is stored, with the wallpaper root
/// of the stored configuration or, where none is stored, with `root`.
pub open spec fn new_default(
    explicit: Option<u64>,
    set_default: bool,
    stored: Option<ConfigView>,
    root: Seq<char>,
) -> Option<ConfigView> {
    match explicit {
        Some(seconds) => if set_default {
            Some(
                ConfigView {
                    wallpaper_dir: match stored {
                        Some(config) => config.wallpaper_dir,
                        None => root,
                    },
                    cycle_interval: seconds,
                },
            )
        } else {
            None
        },
        None => None,
    }
}

/// The interval of a session, as [`resolved_interval`] defines it.
pub fn resolve_interval(explicit: Option<u64>, stored: Option<&Config>) -> (seconds: u64)
    ensures
        seconds == resolved_interval(explicit, config_view(stored)),
{
    match explicit {
        Some(seconds) => seconds,
        None => match stored {
            Some(config) => config.cycle_interval,
            None => DEFAULT_CYCLE_INTERVAL,
        },
    }
}

/// The configuration to store before a session starts, as [`new_default`]
/// defines it.
pub fn default_to_store(
    explicit: Option<u64>,
    set_default: bool,
    stored: Option<&Config>,
    root: &str,
) -> (config: Option<Config>)
    ensures
        match config {
            Some(c) => new_default(explicit, set_default, config_view(stored), root@) == Some(c@),
            None => new_default(explicit, set_default, config_view(stored), root@) is None,
        },
{
    match explicit {
        Some(seconds) => {
            if set_default {
                let wallpaper_dir = match stored {
                    Some(config) => config.wallpaper_dir.clone(),
                    None => root.to_owned(),
                };
                Some(Config { wallpaper_dir, cycle_interval: seconds })
            } else {
                None
            }
        },
        None => None,
    }
}

/// What a running session is waiting for.
#[derive(Debug, Clone, Copy, PartialEq, Eq, Structural)]
pub enum Awaited {
    /// A wallpaper to be chosen and set.
    Wallpaper,
    /// The sleep after a wallpaper; `failed` says that this wallpaper could
    /// not be set.
    Sleep { failed: bool },
}

/// Where a session stands.
#[derive(Debug, Clone, Copy, PartialEq, Eq, Structural)]
pub enum CycleState {
    /// Not started.
    Idle,
    /// Looping, `interval` seconds between two wallpapers; `cycle` counts the
    /// wallpapers from one.
    Running { interval: u64, cycle: u64, awaited: Awaited },
}

/// What happened outside, as the session is told.
#[derive(Debug, Clone, Copy, PartialEq, Eq, Structural)]
pub enum CycleEvent {
    /// The session is started, at this interval in seconds.
    Start { interval: u64 },
    /// A wallpaper was chosen and handed on to be set, with this outcome.
    Applied { success: bool },
    /// The sleep is over.
    Slept,
}

/// What the session asks to be done next.
#[derive(Debug, Clone, Copy, PartialEq, Eq, Structural)]
pub enum CycleAction {
    /// Nothing: the session is not started.
    Wait,
    /// Choose a wallpaper at random and set it; it is number `cycle`.
    Apply { cycle: u64 },
    /// Report the failure, if `failed`, and sleep for `seconds`.
    Sleep { seconds: u64, failed: bool },
}

/// The number after `cycle`; the count stays at its largest value.
pub open spec fn following(cycle: u64) -> u64 {
    if cycle < u64::MAX {
        (cycle + 1) as u64
    } else {
        cycle
    }
}

/// The session after `event`. An event that does not answer what the
/// session is waiting for changes nothing.
pub open spec fn advance(state: CycleState, event: CycleEvent) -> CycleState {
    match (state, event) {
        (CycleState::Idle, CycleEvent::Start { interval }) => CycleState::Running {
            interval,
            cycle: 1,
            awaited: Awaited::Wallpaper,
        },
        (
            CycleState::Running { interval, cycle, awaited: Awaited::Wallpaper },
            CycleEvent::Applied { success },
        ) => CycleState::Running { interval, cycle, awaited: Awaited::Sleep { failed: !success } },
        (
            CycleState::Running { interval, cycle, awaited: Awaited::Sleep { .. } },
            CycleEvent::Slept,
        ) => CycleState::Running {
            interval,
            cycle: following(cycle),
            awaited: Awaited::Wallpaper,
        },
        _ => state,
    }
}

/// What the session is waiting for.
pub open spec fn pending_action(state: CycleState) -> CycleAction {
    match state {
        CycleState::Idle => CycleAction::Wait,
        CycleState::Running { cycle, awaited: Awaited::Wallpaper, .. } => CycleAction::Apply {
            cycle,
        },
        CycleState::Running { interval, awaited: Awaited::Sleep { failed }, .. } => {
            CycleAction::Sleep { seconds: interval, failed }
        },
    }
}

/// What the session in `state` is waiting for.
pub fn pending(state: CycleState) -> (action: CycleAction)
    ensures
        action == pending_action(state),
{
    match state {
        CycleState::Idle => CycleAction::Wait,
        CycleState::Running { interval, cycle, awaited } => match awaited {
            Awaited::Wallpaper => CycleAction::Apply { cycle },
            Awaited::Sleep { failed } => CycleAction::Sleep { seconds: interval, failed },
        },
    }
}

/// Takes in what happened and says where the session stands then and what
/// is to be done next.
pub fn step(state: CycleState, event: CycleEvent) -> (next: (CycleState, CycleAction))
    ensures
        next.0 == advance(state, event),
        next.1 == pending_action(next.0),
{
    let after = match state {
        CycleState::Idle => match event {
            CycleEvent::Start { interval } => CycleState::Running {
                interval,
                cycle: 1,
                awaited: Awaited::Wallpaper,
            },
            _ => state,
        },
        CycleState::Running { interval, cycle, awaited } => match awaited {
            Awaited::Wallpaper => match event {
                CycleEvent::Applied { success } => CycleState::Running {
                    interval,
                    cycle,
                    awaited: Awaited::Sleep { failed: !success },
                },
                _ => state,
            },
            Awaited::Sleep { failed: _ } => match event {
                CycleEvent::Slept => CycleState::Running {
                    interval,
                    cycle: if cycle < u64::MAX {
                        cycle + 1
                    } else {
                        cycle
                    },
                    awaited: Awaited::Wallpaper,
                },
                _ => state,
            },
        },
    };
    (after, pending(after))
}

/// A session that runs keeps running, at the interval it was started with:
/// nothing that it is told stops it or changes its pace.
pub proof fn lemma_running_stays_running(state: CycleState, event: CycleEvent)
    requires
        state is Running,
    ensures
        advance(state, event) is Running,
        advance(state, event)->interval == state->interval,
{
}

/// A wallpaper that could not be set does not end the session: the failure
/// is reported with the same sleep as after a success, and after that sleep
/// the next wallpaper is asked for.
pub proof fn lemma_failure_is_survived(interval: u64, cycle: u64)
    ensures
        ({
            let failed = advance(
                CycleState::Running { interval, cycle, awaited: Awaited::Wallpaper },
                CycleEvent::Applied { success: false },
            );
            &&& pending_action(failed) == CycleAction::Sleep { seconds: interval, failed: true }
            &&& pending_action(advance(failed, CycleEvent::Slept)) == CycleAction::Apply {
                cycle: following(cycle),
            }
        }),
{
}

/// Every sleep lasts exactly the interval of the session.
pub proof fn lemma_sleep_is_the_interval(state: CycleState)
    ensures
        pending_action(state) matches CycleAction::Sleep { seconds, .. } ==> state is Running
            && seconds == state->interval,
{
}

} // verus!
