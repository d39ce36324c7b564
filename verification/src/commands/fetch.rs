//! `fetch`: bring the wallpapers of the remote source below the wallpaper
//! root.

use vstd::prelude::*;
use crate::config::{
    config_view, get_wallpaper_dir, text_view, wallpaper_dir_of, Config, ConfigView,
};
use crate::cycle::{resolve_interval, resolved_interval};
use crate::sync::{initial, SyncAction, SyncActionView, SyncRun};

verus! {

/// Where a fetch puts the wallpapers: where it is told to, else at the
/// configured wallpaper root, else at the default below the user's picture
/// directory, else nowhere.
pub open spec fn fetch_destination(
    destination: Option<Seq<char>>,
    config: Option<ConfigView>,
    pictures: Option<Seq<char>>,
) -> Option<Seq<char>> {
    match destination {
        Some(given) => Some(given),
        None => wallpaper_dir_of(config, pictures),
    }
}

/// The synchronisation to run, with its first step: into the destination
/// that [`fetch_destination`] names, keeping the stored cycle interval, or
/// the default one where nothing is stored. Nothing where there is no
/// destination to be had. `pictures` is the user's picture directory, where
/// the platform names one.
pub fn execute(
    destination: Option<String>,
    config: Option<&Config>,
    pictures: Option<String>,
) -> (start: Option<(SyncRun, SyncAction)>)
    ensures
        match start {
            Some(s) => {
                &&& fetch_destination(
                    text_view(destination),
                    config_view(config),
                    text_view(pictures),
                ) == Some(s.0@.destination)
                &&& s.0@ == initial(
                    s.0@.destination,
                    resolved_interval(None, config_view(config)),
                )
                &&& s.1@ == SyncActionView::PrepareStaging
            },
            None => fetch_destination(
                text_view(destination),
                config_view(config),
                text_view(pictures),
            ) is None,
        },
{
    let resolved = match destination {
        Some(given) => Some(given),
        None => get_wallpaper_dir(config, pictures),
    };
    match resolved {
        Some(root) => {
            let run = SyncRun::new(root, resolve_interval(None, config));
            let action = run.pending();
            Some((run, action))
        },
        None => None,
    }
}

} // verus!
