//! `update`: whether the latest release is worth installing.

use vstd::prelude::*;
use vstd::string::*;
use crate::text::chars_of;
use crate::version::{is_newer_version, newer, version_numbers};

verus! {

/// What to do about the latest release.
#[derive(Debug, Clone, Copy, PartialEq, Eq, Structural)]
pub enum UpdateDecision {
    /// The running version is the latest release.
    UpToDate,
    /// The latest release is above the running version: install it.
    Upgrade,
    /// The running version is not below the latest release.
    Ahead,
}

/// `s` without the `c`s that it starts with.
pub open spec fn strip_leading(s: Seq<char>, c: char) -> Seq<char>
    decreases s.len(),
{
    if s.len() > 0 && s[0] == c {
        strip_leading(s.drop_first(), c)
    } else {
        s
    }
}

/// The version that a release tag names: the tag without its leading `v`s.
pub open spec fn tagged_version(tag: Seq<char>) -> Seq<char> {
    strip_leading(tag, 'v')
}

/// What to do about a release tagged `tag` when `current` is running.
pub open spec fn decision(tag: Seq<char>, current: Seq<char>) -> UpdateDecision {
    if tagged_version(tag) == current {
        UpdateDecision::UpToDate
    } else if newer(version_numbers(tagged_version(tag)), version_numbers(current)) {
        UpdateDecision::Upgrade
    } else {
        UpdateDecision::Ahead
    }
}

/// The version that the release tag `tag` names.
pub fn release_version(tag: &str) -> (version: String)
    ensures
        version@ == tagged_version(tag@),
{
    let chars = chars_of(tag);
    let mut start: usize = 0;
    assert(chars@.subrange(0, chars.len() as int) =~= chars@);
    while start < chars.len() && chars[start] == 'v'
        invariant
            start <= chars.len(),
            strip_leading(chars@, 'v') == strip_leading(
                chars@.subrange(start as int, chars.len() as int),
                'v',
            ),
        decreases chars.len() - start,
    {
        assert(chars@.subrange(start as int, chars.len() as int).drop_first() =~= chars@.subrange(
            start + 1,
            chars.len() as int,
        ));
        start += 1;
    }
    let ghost rest = chars@.subrange(start as int, chars.len() as int);
    assert(strip_leading(chars@, 'v') == rest);
    String::from_str(tag.substring_char(start, chars.len()))
}

/// What to do about the latest release, tagged `latest_tag`, when the
/// version `current` is running.
pub fn execute(latest_tag: &str, current: &str) -> (r: UpdateDecision)
    ensures
        r == decision(latest_tag@, current@),
{
    let latest = release_version(latest_tag);
    let running = String::from_str(current);
    if latest == running {
        UpdateDecision::UpToDate
    } else if is_newer_version(latest.as_str(), current) {
        UpdateDecision::Upgrade
    } else {
        UpdateDecision::Ahead
    }
}

} // verus!
