//! `set`: one wallpaper, by name or at random.

use vstd::prelude::*;
use crate::catalog::{catalogued, enumerate, flatten, has_images};
use crate::paths::{join, join_path};
use crate::selector::{select_by_name, select_random, SelectorError};
use crate::text::views;

verus! {

/// Which wallpaper is asked for.
#[derive(Debug, Clone, PartialEq, Eq)]
pub enum SetRequest {
    /// Any one, drawn at random.
    Random,
    /// The one at this path below the wallpaper root.
    Named(String),
}

/// Why the command cannot go on.
#[derive(Debug, Clone, Copy, PartialEq, Eq, Structural)]
pub enum SetError {
    /// Neither a name nor a random choice was asked for.
    NothingRequested,
}

/// What the command is to do: a random choice wins over a name, and one of
/// the two has to be given.
pub fn execute(name: Option<String>, random: bool) -> (request: Result<SetRequest, SetError>)
    ensures
        random ==> request == Ok::<SetRequest, SetError>(SetRequest::Random),
        !random ==> match name {
            Some(wanted) => request == Ok::<SetRequest, SetError>(SetRequest::Named(wanted)),
            None => request == Err::<SetRequest, SetError>(SetError::NothingRequested),
        },
{
    if random {
        Ok(SetRequest::Random)
    } else {
        match name {
            Some(wanted) => Ok(SetRequest::Named(wanted)),
            None => Err(SetError::NothingRequested),
        }
    }
}

/// The wallpaper `name` below `root`, where `is_file` says that a file
/// stands there: its path, whatever its extension.
pub fn set_wallpaper(root: &str, name: &str, is_file: bool) -> (result: Result<
    String,
    SelectorError,
>)
    ensures
        is_file ==> (result matches Ok(path) && path@ == join(root@, name@)),
        !is_file ==> result == Err::<String, SelectorError>(SelectorError::NotFound),
{
    select_by_name(root, name, is_file)
}

/// A wallpaper drawn at random from the catalog below `root`, whose files
/// are `listing` (`None` where the root does not exist): its path, or
/// nothing where there is no catalog or no image inside a category of it.
pub fn set_random_wallpaper(root: &str, listing: Option<&Vec<String>>) -> (chosen: Option<String>)
    ensures
        chosen is None <==> (listing is None || !has_images(views(listing->0@))),
        chosen matches Some(path) ==> exists|entry: Seq<char>|
            catalogued(views(listing->0@)).contains(entry) && path@ == join(root@, entry),
{
    match enumerate(listing) {
        Ok(snapshot) => {
            match select_random(&snapshot) {
                Ok(entry) => {
                    assert(flatten(snapshot@).to_set().contains(entry@));
                    Some(join_path(root, entry.as_str()))
                },
                Err(_) => None,
            }
        },
        Err(_) => None,
    }
}

} // verus!
