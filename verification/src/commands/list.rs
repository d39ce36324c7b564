//! `list`: every wallpaper of the catalog, by category.

use vstd::prelude::*;
use crate::catalog::{
    catalogued, enumerate, flatten, has_images, well_formed, CatalogSnapshot,
};
use crate::text::views;

verus! {

/// What there is to show.
#[derive(Debug, PartialEq, Eq)]
pub enum ListReport {
    /// No wallpaper: the root does not exist, or no category holds an image.
    NoCatalog,
    /// The catalog, with the number of its wallpapers.
    Catalog { snapshot: CatalogSnapshot, total: usize },
}

/// The catalog below the wallpaper root, whose files are `listing` (`None`
/// where the root does not exist).
pub fn execute(listing: Option<&Vec<String>>) -> (report: ListReport)
    ensures
        report is NoCatalog <==> (listing is None || !has_images(views(listing->0@))),
        report matches ListReport::Catalog { snapshot, total } ==> {
            &&& well_formed(snapshot@)
            &&& flatten(snapshot@).to_set() == catalogued(views(listing->0@))
            &&& total == flatten(snapshot@).len()
        },
{
    match enumerate(listing) {
        Ok(snapshot) => {
            let total = snapshot.total();
            if total == 0 {
                ListReport::NoCatalog
            } else {
                ListReport::Catalog { snapshot, total }
            }
        },
        Err(_) => ListReport::NoCatalog,
    }
}

} // verus!
