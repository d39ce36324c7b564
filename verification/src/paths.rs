//! Paths as character sequences with `/` between components: file names,
//! extensions, the recognised image extensions, joining, and the category of
//! a path relative to the wallpaper root.

use vstd::prelude::*;
use vstd::string::*;
use crate::text::{chars_of, find_first, find_last, first_index_of, fold, fold_char, last_index_of, lemma_last_index_of, lemma_first_index_of, lowered};

verus! {

/// The last component of `p`: what follows its last `/`.
pub open spec fn file_name(p: Seq<char>) -> Seq<char> {
    p.subrange(last_index_of(p, '/') + 1, p.len() as int)
}

/// The extension of `p`: what follows the last `.` of its file name, unless
/// that `.` is the file name's first character or there is none.
pub open spec fn extension(p: Seq<char>) -> Option<Seq<char>> {
    let name = file_name(p);
    let dot = last_index_of(name, '.');
    if dot > 0 {
        Some(name.subrange(dot + 1, name.len() as int))
    } else {
        None
    }
}

/// Whether `ext` is one of `jpg`, `jpeg`, `png`, `bmp`, `gif`, `webp`,
/// whatever the case of its ASCII letters.
pub open spec fn is_image_extension(ext: Seq<char>) -> bool {
    let e = lowered(ext);
    ||| e == seq!['j', 'p', 'g']
    ||| e == seq!['j', 'p', 'e', 'g']
    ||| e == seq!['p', 'n', 'g']
    ||| e == seq!['b', 'm', 'p']
    ||| e == seq!['g', 'i', 'f']
    ||| e == seq!['w', 'e', 'b', 'p']
}

/// The case of ASCII letters plays no part in whether an extension is
/// recognised.
pub proof fn lemma_extension_ignores_case(a: Seq<char>, b: Seq<char>)
    requires
        lowered(a) == lowered(b),
    ensures
        is_image_extension(a) == is_image_extension(b),
{
}

/// Whether `p` names an image: it has an extension, and a recognised one.
pub open spec fn is_image(p: Seq<char>) -> bool {
    match extension(p) {
        Some(e) => is_image_extension(e),
        None => false,
    }
}

/// `base` extended by `rel`: an absolute `rel` replaces `base`; otherwise one
/// `/` separates the two unless `base` is empty or already ends in one.
pub open spec fn join(base: Seq<char>, rel: Seq<char>) -> Seq<char> {
    if rel.len() > 0 && rel[0] == '/' {
        rel
    } else if base.len() == 0 {
        rel
    } else if base.last() == '/' {
        base + rel
    } else {
        base + seq!['/'] + rel
    }
}

/// The directory of `p`: what stands before its last `/`, and nothing where
/// it has none.
pub open spec fn parent(p: Seq<char>) -> Seq<char> {
    let slash = last_index_of(p, '/');
    if slash >= 0 {
        p.subrange(0, slash)
    } else {
        Seq::empty()
    }
}

/// How a wallpaper is named in a report: by the name of its directory, a
/// `/` and its file name, or by its file name alone where its directory has
/// no name.
pub open spec fn display_name_of(p: Seq<char>) -> Seq<char> {
    let directory = file_name(parent(p));
    if directory.len() == 0 {
        file_name(p)
    } else {
        directory + seq!['/'] + file_name(p)
    }
}

/// The category of a path relative to the root: its first component, when
/// that component is not empty and something follows it.
pub open spec fn category_of(rel: Seq<char>) -> Option<Seq<char>> {
    let slash = first_index_of(rel, '/');
    if slash > 0 {
        Some(rel.subrange(0, slash))
    } else {
        None
    }
}

/// The elements of `chars` from position `from` on.
fn tail_from(chars: &Vec<char>, from: usize) -> (out: Vec<char>)
    requires
        from <= chars.len(),
    ensures
        out@ == chars@.subrange(from as int, chars.len() as int),
{
    let mut out: Vec<char> = Vec::new();
    let mut i: usize = from;
    while i < chars.len()
        invariant
            from <= i <= chars.len(),
            out@ == chars@.subrange(from as int, i as int),
        decreases chars.len() - i,
    {
        out.push(chars[i]);
        i += 1;
    }
    out
}

/// Whether `ext` is a recognised image extension.
pub fn recognized_extension(ext: &Vec<char>) -> (r: bool)
    ensures
        r == is_image_extension(ext@),
{
    let ghost e = lowered(ext@);
    if ext.len() == 3 {
        let a = fold(ext[0]);
        let b = fold(ext[1]);
        let c = fold(ext[2]);
        assert(e =~= seq![a, b, c]);
        (a == 'j' && b == 'p' && c == 'g') || (a == 'p' && b == 'n' && c == 'g') || (a == 'b' && b
            == 'm' && c == 'p') || (a == 'g' && b == 'i' && c == 'f')
    } else if ext.len() == 4 {
        let a = fold(ext[0]);
        let b = fold(ext[1]);
        let c = fold(ext[2]);
        let d = fold(ext[3]);
        assert(e =~= seq![a, b, c, d]);
        (a == 'j' && b == 'p' && c == 'e' && d == 'g') || (a == 'w' && b == 'e' && c == 'b' && d
            == 'p')
    } else {
        assert(e.len() == ext@.len());
        false
    }
}

/// Whether `path` names an image file, by its extension alone.
pub fn is_image_path(path: &str) -> (r: bool)
    ensures
        r == is_image(path@),
{
    let chars = chars_of(path);
    let start: usize = match find_last(&chars, '/') {
        Some(i) => i + 1,
        None => 0,
    };
    proof {
        lemma_last_index_of(chars@, '/');
    }
    let name = tail_from(&chars, start);
    proof {
        lemma_last_index_of(name@, '.');
    }
    match find_last(&name, '.') {
        Some(dot) => {
            if dot > 0 {
                let ext = tail_from(&name, dot + 1);
                recognized_extension(&ext)
            } else {
                false
            }
        },
        None => false,
    }
}

/// `base` extended by `rel`, as [`join`] defines it.
pub fn join_path(base: &str, rel: &str) -> (r: String)
    ensures
        r@ == join(base@, rel@),
{
    let b = chars_of(base);
    let r = chars_of(rel);
    if r.len() > 0 && r[0] == '/' {
        String::from_str(rel)
    } else if b.len() == 0 {
        String::from_str(rel)
    } else if b[b.len() - 1] == '/' {
        let mut out = String::from_str(base);
        out.append(rel);
        out
    } else {
        let mut out = String::from_str(base);
        proof {
            reveal_strlit("/");
        }
        out.append("/");
        out.append(rel);
        out
    }
}

/// The elements of `chars` before position `to`.
fn head_to(chars: &Vec<char>, to: usize) -> (out: Vec<char>)
    requires
        to <= chars.len(),
    ensures
        out@ == chars@.subrange(0, to as int),
{
    let mut out: Vec<char> = Vec::new();
    let mut i: usize = 0;
    while i < to
        invariant
            i <= to <= chars.len(),
            out@ == chars@.subrange(0, i as int),
        decreases to - i,
    {
        out.push(chars[i]);
        i += 1;
    }
    out
}

/// The name under which the wallpaper at `path` is reported, as
/// [`display_name_of`] defines it.
pub fn display_name(path: &str) -> (shown: String)
    ensures
        shown@ == display_name_of(path@),
{
    let chars = chars_of(path);
    proof {
        lemma_last_index_of(chars@, '/');
    }
    match find_last(&chars, '/') {
        Some(slash) => {
            let dir = head_to(&chars, slash);
            proof {
                lemma_last_index_of(dir@, '/');
            }
            let start: usize = match find_last(&dir, '/') {
                Some(i) => i + 1,
                None => 0,
            };
            let name = path.substring_char(slash + 1, chars.len());
            if start == slash {
                String::from_str(name)
            } else {
                let mut shown = String::from_str(path.substring_char(start, slash));
                proof {
                    reveal_strlit("/");
                }
                shown.append("/");
                shown.append(name);
                assert(path@.subrange(start as int, slash as int) =~= dir@.subrange(
                    start as int,
                    slash as int,
                ));
                shown
            }
        },
        None => String::from_str(path),
    }
}

/// The category of `rel`, a path relative to the root, as [`category_of`]
/// defines it.
pub fn category_name(rel: &str) -> (r: Option<String>)
    ensures
        match r {
            Some(name) => category_of(rel@) == Some(name@),
            None => category_of(rel@) is None,
        },
{
    let chars = chars_of(rel);
    proof {
        lemma_first_index_of(chars@, '/');
    }
    match find_first(&chars, '/') {
        Some(i) => {
            if i > 0 {
                let name = rel.substring_char(0, i);
                Some(String::from_str(name))
            } else {
                None
            }
        },
        None => None,
    }
}

} // verus!
