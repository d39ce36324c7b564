//! `uninstall`: what is to be removed, and whether the program may remove
//! itself.

use vstd::prelude::*;
use crate::prompt::{confirms_y, says_y, trim, trimmed};
use crate::text::chars_of;

verus! {

/// What the user picked from the menu.
#[derive(Debug, Clone, Copy, PartialEq, Eq, Structural)]
pub enum UninstallChoice {
    /// The program alone.
    Binary,
    /// The program and its configuration.
    BinaryAndConfig,
    /// The program, its configuration and the wallpapers.
    Everything,
    /// Nothing: the user withdrew.
    Cancel,
    /// Nothing: the answer is none of the four.
    Invalid,
}

/// What a choice removes.
#[derive(Debug, Clone, Copy, PartialEq, Eq, Structural)]
pub struct Removals {
    pub config: bool,
    pub wallpapers: bool,
    pub binary: bool,
}

/// The choice that an answer to the menu stands for: one of the digits 1 to
/// 4, with or without white space around it.
pub open spec fn choice_of(answer: Seq<char>) -> UninstallChoice {
    let word = trimmed(answer);
    if word == seq!['1'] {
        UninstallChoice::Binary
    } else if word == seq!['2'] {
        UninstallChoice::BinaryAndConfig
    } else if word == seq!['3'] {
        UninstallChoice::Everything
    } else if word == seq!['4'] {
        UninstallChoice::Cancel
    } else {
        UninstallChoice::Invalid
    }
}

/// What `choice` removes.
pub open spec fn removals_of(choice: UninstallChoice) -> Removals {
    match choice {
        UninstallChoice::Binary => Removals { config: false, wallpapers: false, binary: true },
        UninstallChoice::BinaryAndConfig => Removals {
            config: true,
            wallpapers: false,
            binary: true,
        },
        UninstallChoice::Everything => Removals { config: true, wallpapers: true, binary: true },
        UninstallChoice::Cancel => Removals { config: false, wallpapers: false, binary: false },
        UninstallChoice::Invalid => Removals { config: false, wallpapers: false, binary: false },
    }
}

/// The choice that the answer `choice` to the menu stands for.
pub fn execute(choice: &str) -> (picked: UninstallChoice)
    ensures
        picked == choice_of(choice@),
{
    let word = trim(choice);
    if word.len() != 1 {
        UninstallChoice::Invalid
    } else {
        let c = word[0];
        assert(word@ =~= seq![c]);
        if c == '1' {
            UninstallChoice::Binary
        } else if c == '2' {
            UninstallChoice::BinaryAndConfig
        } else if c == '3' {
            UninstallChoice::Everything
        } else if c == '4' {
            UninstallChoice::Cancel
        } else {
            UninstallChoice::Invalid
        }
    }
}

/// What `choice` removes.
pub fn removals(choice: UninstallChoice) -> (r: Removals)
    ensures
        r == removals_of(choice),
{
    match choice {
        UninstallChoice::Binary => Removals { config: false, wallpapers: false, binary: true },
        UninstallChoice::BinaryAndConfig => Removals {
            config: true,
            wallpapers: false,
            binary: true,
        },
        UninstallChoice::Everything => Removals { config: true, wallpapers: true, binary: true },
        UninstallChoice::Cancel => Removals { config: false, wallpapers: false, binary: false },
        UninstallChoice::Invalid => Removals { config: false, wallpapers: false, binary: false },
    }
}

/// Whether `path` is `dir` or lies below it, component by component.
pub open spec fn lies_in(path: Seq<char>, dir: Seq<char>) -> bool {
    path == dir || (path.len() > dir.len() && path.subrange(0, dir.len() as int) == dir
        && path[dir.len() as int] == '/')
}

/// Whether a program at `exe` belongs to the system: it lies in `/usr`,
/// `/bin` or `/sbin`, or in `/opt` but not in `/opt/homebrew`.
pub open spec fn system_path(exe: Seq<char>) -> bool {
    ||| lies_in(exe, "/usr"@)
    ||| lies_in(exe, "/bin"@)
    ||| lies_in(exe, "/sbin"@)
    ||| (lies_in(exe, "/opt"@) && !lies_in(exe, "/opt/homebrew"@))
}

fn is_below(path: &Vec<char>, dir: &str) -> (r: bool)
    ensures
        r == lies_in(path@, dir@),
{
    let prefix = chars_of(dir);
    if path.len() < prefix.len() {
        return false;
    }
    let mut i: usize = 0;
    while i < prefix.len()
        invariant
            i <= prefix.len() <= path.len(),
            prefix@ == dir@,
            path@.subrange(0, i as int) == prefix@.subrange(0, i as int),
        decreases prefix.len() - i,
    {
        if path[i] != prefix[i] {
            return false;
        }
        i += 1;
    }
    assert(prefix@.subrange(0, i as int) =~= prefix@);
    if path.len() == prefix.len() {
        assert(path@.subrange(0, i as int) =~= path@);
        true
    } else {
        path[prefix.len()] == '/'
    }
}

/// Whether a program at `exe` belongs to the system, as [`system_path`]
/// defines it.
pub fn is_system_path(exe: &str) -> (r: bool)
    ensures
        r == system_path(exe@),
{
    let path = chars_of(exe);
    is_below(&path, "/usr") || is_below(&path, "/bin") || is_below(&path, "/sbin") || (is_below(
        &path,
        "/opt",
    ) && !is_below(&path, "/opt/homebrew"))
}

/// What becomes of the program itself.
#[derive(Debug, Clone, Copy, PartialEq, Eq, Structural)]
pub enum BinaryRemoval {
    /// The user did not agree.
    Skipped,
    /// The user agreed, but the program may not be removed by this user.
    InsufficientPermissions,
    /// The program goes when the command ends.
    Scheduled,
}

/// What becomes of the program itself: nothing unless the user agrees with
/// `y`; then it goes, unless its directory is known not to be writable
/// (`parent_writable` is `None` where that cannot be told) or it belongs to
/// the system.
pub fn remove_binary(answer: &str, parent_writable: Option<bool>, in_system_path: bool) -> (r:
    BinaryRemoval)
    ensures
        !says_y(answer@) ==> r == BinaryRemoval::Skipped,
        says_y(answer@) ==> r == match parent_writable {
            Some(writable) => if !writable || in_system_path {
                BinaryRemoval::InsufficientPermissions
            } else {
                BinaryRemoval::Scheduled
            },
            None => BinaryRemoval::Scheduled,
        },
{
    if !confirms_y(answer) {
        BinaryRemoval::Skipped
    } else {
        match parent_writable {
            Some(writable) => {
                if !writable || in_system_path {
                    BinaryRemoval::InsufficientPermissions
                } else {
                    BinaryRemoval::Scheduled
                }
            },
            None => BinaryRemoval::Scheduled,
        }
    }
}

/// What becomes of the wallpapers.
#[derive(Debug, Clone, Copy, PartialEq, Eq, Structural)]
pub enum WallpaperRemoval {
    /// There is no wallpaper root.
    NothingFound,
    /// The user is to be asked.
    Ask,
    /// The user did not agree.
    Kept,
    /// The root is to be removed.
    Remove,
}

/// What becomes of the wallpapers: the user is asked only where the root
/// exists, and it goes only on a `y`.
pub fn remove_wallpapers(root_exists: bool, answer: Option<&str>) -> (r: WallpaperRemoval)
    ensures
        !root_exists ==> r == WallpaperRemoval::NothingFound,
        root_exists ==> r == match answer {
            None => WallpaperRemoval::Ask,
            Some(given) => if says_y(given@) {
                WallpaperRemoval::Remove
            } else {
                WallpaperRemoval::Kept
            },
        },
{
    if !root_exists {
        WallpaperRemoval::NothingFound
    } else {
        match answer {
            None => WallpaperRemoval::Ask,
            Some(given) => {
                if confirms_y(given) {
                    WallpaperRemoval::Remove
                } else {
                    WallpaperRemoval::Kept
                }
            },
        }
    }
}

} // verus!
