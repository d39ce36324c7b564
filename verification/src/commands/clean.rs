//! `clean`: remove every downloaded wallpaper, once the user has agreed.

use vstd::prelude::*;
use crate::paths::{is_image, is_image_path};
use crate::prompt::{confirms_yes, says_yes};
use crate::text::views;

verus! {

/// How many of `files` are images.
pub open spec fn image_count(files: Seq<Seq<char>>) -> nat {
    files.filter(|p: Seq<char>| is_image(p)).len()
}

/// Where the command stands.
#[derive(Debug, Clone, Copy, PartialEq, Eq, Structural)]
pub enum CleanStep {
    /// There is no wallpaper root.
    NoDirectory,
    /// The root holds no image.
    NothingToRemove,
    /// The user is to be asked whether `count` images may go.
    Ask { count: usize },
    /// The user did not agree.
    Cancelled,
    /// The root is to be removed, with its `count` images.
    Remove { count: usize },
}

/// What the command comes to, for a root whose files are `files` (`None`
/// where it does not exist) and an answer, once there is one.
pub open spec fn clean_step(files: Option<Seq<Seq<char>>>, answer: Option<Seq<char>>) -> CleanStep {
    match files {
        None => CleanStep::NoDirectory,
        Some(files) => if image_count(files) == 0 {
            CleanStep::NothingToRemove
        } else {
            match answer {
                None => CleanStep::Ask { count: image_count(files) as usize },
                Some(answer) => if says_yes(answer) {
                    CleanStep::Remove { count: image_count(files) as usize }
                } else {
                    CleanStep::Cancelled
                },
            }
        },
    }
}

/// How many of `files` are images.
pub fn count_images(files: &Vec<String>) -> (count: usize)
    ensures
        count == image_count(views(files@)),
{
    let ghost all = views(files@);
    let ghost pred = |p: Seq<char>| is_image(p);
    let mut count: usize = 0;
    let mut i: usize = 0;
    proof {
        reveal(Seq::filter);
    }
    while i < files.len()
        invariant
            i <= files.len(),
            all == views(files@),
            pred == |p: Seq<char>| is_image(p),
            count == all.subrange(0, i as int).filter(pred).len(),
            count <= i,
        decreases files.len() - i,
    {
        proof {
            reveal(Seq::filter);
            assert(all.subrange(0, i + 1).drop_last() =~= all.subrange(0, i as int));
        }
        if is_image_path(files[i].as_str()) {
            count += 1;
        }
        i += 1;
    }
    assert(all.subrange(0, i as int) =~= all);
    count
}

/// The content of a listing that may be absent.
pub open spec fn listing_view(listing: Option<&Vec<String>>) -> Option<Seq<Seq<char>>> {
    match listing {
        Some(files) => Some(views(files@)),
        None => None,
    }
}

/// The content of an answer that may be absent.
pub open spec fn answer_view(answer: Option<&str>) -> Option<Seq<char>> {
    match answer {
        Some(answer) => Some(answer@),
        None => None,
    }
}

/// Where the command stands, for a root whose files are `listing` (`None`
/// where it does not exist) and the user's `answer`, once there is one.
/// Every image below the root counts, inside a category or not.
pub fn execute(listing: Option<&Vec<String>>, answer: Option<&str>) -> (step: CleanStep)
    ensures
        step == clean_step(listing_view(listing), answer_view(answer)),
{
    match listing {
        None => CleanStep::NoDirectory,
        Some(files) => {
            let count = count_images(files);
            if count == 0 {
                CleanStep::NothingToRemove
            } else {
                match answer {
                    None => CleanStep::Ask { count },
                    Some(answer) => {
                        if confirms_yes(answer) {
                            CleanStep::Remove { count }
                        } else {
                            CleanStep::Cancelled
                        }
                    },
                }
            }
        },
    }
}

} // verus!
