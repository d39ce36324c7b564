//! `cycle`: a new wallpaper at every interval, until interrupted.

use vstd::prelude::*;
use crate::catalog::{catalogued, enumerate, flatten, well_formed, CatalogSnapshot, IndexError};
use crate::config::{config_view, Config};
use crate::cycle::{
    advance, default_to_store, new_default, pending_action, resolve_interval, resolved_interval,
    step, CycleAction, CycleEvent, CycleState,
};
use crate::text::views;

verus! {

/// What a session starts from.
#[derive(Debug, PartialEq, Eq)]
pub struct CyclePlan {
    /// Seconds between two wallpapers.
    pub interval: u64,
    /// The configuration to store before the session starts, if any.
    pub store: Option<Config>,
    /// The catalog that the session draws from, taken once.
    pub snapshot: CatalogSnapshot,
}

/// What a session starts from: its interval, the configuration to store
/// where the given interval is to become the default, and one snapshot of the
/// catalog below `root`, whose files are `listing` (`None` where the root
/// does not exist, in which case nothing is stored and no session starts).
/// Whether a session starts from the plan is for [`start`] to say.
pub fn execute(
    interval: Option<u64>,
    set_default: bool,
    config: Option<&Config>,
    root: &str,
    listing: Option<&Vec<String>>,
) -> (plan: Result<CyclePlan, IndexError>)
    ensures
        listing is None <==> plan == Err::<CyclePlan, IndexError>(IndexError::RootMissing),
        listing is Some <==> plan is Ok,
        plan matches Ok(p) ==> {
            &&& p.interval == resolved_interval(interval, config_view(config))
            &&& match p.store {
                Some(c) => new_default(interval, set_default, config_view(config), root@) == Some(
                    c@,
                ),
                None => new_default(interval, set_default, config_view(config), root@) is None,
            }
            &&& well_formed(p.snapshot@)
            &&& flatten(p.snapshot@).to_set() == catalogued(views(listing->0@))
        },
{
    match enumerate(listing) {
        Ok(snapshot) => Ok(
            CyclePlan {
                interval: resolve_interval(interval, config),
                store: default_to_store(interval, set_default, config, root),
                snapshot,
            },
        ),
        Err(error) => Err(error),
    }
}

/// The session that a plan starts, with its first step: none where the
/// catalog holds no wallpaper, so that nothing is set and nothing sleeps;
/// otherwise a session started at the interval of the plan.
pub fn start(plan: &CyclePlan) -> (session: Option<(CycleState, CycleAction)>)
    ensures
        session is None <==> flatten(plan.snapshot@).len() == 0,
        session matches Some(s) ==> {
            &&& s.0 == advance(CycleState::Idle, CycleEvent::Start { interval: plan.interval })
            &&& s.1 == pending_action(s.0)
        },
{
    if plan.snapshot.total() == 0 {
        None
    } else {
        Some(step(CycleState::Idle, CycleEvent::Start { interval: plan.interval }))
    }
}

} // verus!
