//! The selector: one wallpaper by its name, or one at random from a snapshot.

use rand::seq::SliceRandom;
use vstd::prelude::*;
use crate::catalog::{flatten, CatalogSnapshot};
use crate::paths::{join, join_path};
use crate::text::views;

verus! {

/// Why nothing was selected.
#[derive(Debug, Clone, Copy, PartialEq, Eq, Structural)]
pub enum SelectorError {
    /// No file stands at the given path below the root.
    NotFound,
    /// The snapshot holds no entry.
    EmptyCatalog,
}

/// The path at which [`select_by_name`] looks for the wallpaper `relative`.
pub fn candidate_path(root: &str, relative: &str) -> (path: String)
    ensures
        path@ == join(root@, relative@),
{
    join_path(root, relative)
}

/// Selection by name. `is_file` says whether a file stands at
/// [`candidate_path`]`(root, relative)`. The extension plays no part.
pub fn select_by_name(root: &str, relative: &str, is_file: bool) -> (result: Result<
    String,
    SelectorError,
>)
    ensures
        is_file ==> (result matches Ok(path) && path@ == join(root@, relative@)),
        !is_file ==> result == Err::<String, SelectorError>(SelectorError::NotFound),
{
    if is_file {
        Ok(join_path(root, relative))
    } else {
        Err(SelectorError::NotFound)
    }
}

/// `rand::seq::SliceRandom::choose` on the slice of `entries`, drawing from
/// `rand::thread_rng()`: nothing for an empty slice, otherwise a copy of one
/// of its elements. Which element is not stated: it differs from call to call.
#[verifier::external_body]
fn choose_entry(entries: &Vec<String>) -> (picked: Option<String>)
    ensures
        entries@.len() == 0 ==> picked is None,
        entries@.len() > 0 ==> picked is Some,
        picked matches Some(entry) ==> exists|i: int|
            0 <= i < entries@.len() && (#[trigger] entries@[i])@ == entry@,
{
    entries.choose(&mut rand::thread_rng()).cloned()
}

/// What a draw from the flattened entries means: no draw is an empty catalog.
pub fn selection_from(choice: Option<String>) -> (result: Result<String, SelectorError>)
    ensures
        match choice {
            Some(entry) => result == Ok::<String, SelectorError>(entry),
            None => result == Err::<String, SelectorError>(SelectorError::EmptyCatalog),
        },
{
    match choice {
        Some(entry) => Ok(entry),
        None => Err(SelectorError::EmptyCatalog),
    }
}

/// Selection at random: one draw over all entries of the snapshot, taken as
/// one flat sequence, so that no category weighs more than its entries do.
pub fn select_random(snapshot: &CatalogSnapshot) -> (result: Result<String, SelectorError>)
    ensures
        flatten(snapshot@).len() == 0 <==> result == Err::<String, SelectorError>(
            SelectorError::EmptyCatalog,
        ),
        flatten(snapshot@).len() > 0 <==> result is Ok,
        result matches Ok(entry) ==> flatten(snapshot@).contains(entry@),
{
    let flat = snapshot.entries();
    let choice = choose_entry(&flat);
    proof {
        if choice is Some {
            let entry = choice->0;
            let i = choose|i: int| 0 <= i < flat@.len() && (#[trigger] flat@[i])@ == entry@;
            assert(views(flat@)[i] == entry@);
        }
    }
    selection_from(choice)
}

} // verus!
