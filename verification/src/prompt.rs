//! Answers typed at a prompt: surrounding white space is dropped, and the
//! case of ASCII letters does not count.

use vstd::prelude::*;
use crate::text::{chars_of, fold, lowered};

verus! {

/// Whether `c` is white space: a character with the Unicode property
/// `White_Space`.
pub open spec fn is_space(c: char) -> bool {
    let code = c as u32;
    ||| 0x09 <= code <= 0x0d
    ||| code == 0x20
    ||| code == 0x85
    ||| code == 0xa0
    ||| code == 0x1680
    ||| 0x2000 <= code <= 0x200a
    ||| code == 0x2028
    ||| code == 0x2029
    ||| code == 0x202f
    ||| code == 0x205f
    ||| code == 0x3000
}

/// `s` without the white space that it starts with.
pub open spec fn strip_front(s: Seq<char>) -> Seq<char>
    decreases s.len(),
{
    if s.len() > 0 && is_space(s[0]) {
        strip_front(s.drop_first())
    } else {
        s
    }
}

/// `s` without the white space that it ends with.
pub open spec fn strip_back(s: Seq<char>) -> Seq<char>
    decreases s.len(),
{
    if s.len() > 0 && is_space(s.last()) {
        strip_back(s.drop_last())
    } else {
        s
    }
}

/// `s` without the white space around it.
pub open spec fn trimmed(s: Seq<char>) -> Seq<char> {
    strip_back(strip_front(s))
}

/// What an answer says: the answer without the white space around it, in
/// small letters.
pub open spec fn said(answer: Seq<char>) -> Seq<char> {
    lowered(trimmed(answer))
}

/// Whether `answer` says yes to a question that takes `y` for it.
pub open spec fn says_y(answer: Seq<char>) -> bool {
    said(answer) == seq!['y']
}

/// Whether `answer` says yes to a question that takes `y` or `yes` for it.
pub open spec fn says_yes(answer: Seq<char>) -> bool {
    said(answer) == seq!['y'] || said(answer) == seq!['y', 'e', 's']
}

/// Executable form of [`is_space`].
pub fn is_white_space(c: char) -> (r: bool)
    ensures
        r == is_space(c),
{
    let code: u32 = c as u32;
    (0x09 <= code && code <= 0x0d) || code == 0x20 || code == 0x85 || code == 0xa0 || code == 0x1680
        || (0x2000 <= code && code <= 0x200a) || code == 0x2028 || code == 0x2029 || code == 0x202f
        || code == 0x205f || code == 0x3000
}

/// The characters of `text` without the white space around them.
pub fn trim(text: &str) -> (out: Vec<char>)
    ensures
        out@ == trimmed(text@),
{
    let chars = chars_of(text);
    let mut start: usize = 0;
    assert(chars@.subrange(0, chars.len() as int) =~= chars@);
    while start < chars.len() && is_white_space(chars[start])
        invariant
            start <= chars.len(),
            strip_front(chars@) == strip_front(chars@.subrange(start as int, chars.len() as int)),
        decreases chars.len() - start,
    {
        assert(chars@.subrange(start as int, chars.len() as int).drop_first() =~= chars@.subrange(
            start + 1,
            chars.len() as int,
        ));
        start += 1;
    }
    let ghost front = chars@.subrange(start as int, chars.len() as int);
    assert(strip_front(chars@) == front);
    let mut end: usize = chars.len();
    while end > start && is_white_space(chars[end - 1])
        invariant
            start <= end <= chars.len(),
            strip_back(front) == strip_back(chars@.subrange(start as int, end as int)),
        decreases end - start,
    {
        assert(chars@.subrange(start as int, end as int).drop_last() =~= chars@.subrange(
            start as int,
            end - 1,
        ));
        end -= 1;
    }
    let ghost kept = chars@.subrange(start as int, end as int);
    assert(strip_back(front) == kept);
    let mut out: Vec<char> = Vec::new();
    let mut i: usize = start;
    while i < end
        invariant
            start <= i <= end <= chars.len(),
            out@ == chars@.subrange(start as int, i as int),
        decreases end - i,
    {
        out.push(chars[i]);
        i += 1;
    }
    out
}

/// What `answer` says, as [`said`] defines it.
pub fn normalize(answer: &str) -> (out: Vec<char>)
    ensures
        out@ == said(answer@),
{
    let kept = trim(answer);
    let mut out: Vec<char> = Vec::new();
    let mut i: usize = 0;
    while i < kept.len()
        invariant
            i <= kept.len(),
            out@ == lowered(kept@).subrange(0, i as int),
        decreases kept.len() - i,
    {
        out.push(fold(kept[i]));
        i += 1;
    }
    out
}

/// Whether `answer` says yes to a question that takes `y` for it.
pub fn confirms_y(answer: &str) -> (r: bool)
    ensures
        r == says_y(answer@),
{
    let word = normalize(answer);
    let r = word.len() == 1 && word[0] == 'y';
    assert(r ==> word@ =~= seq!['y']);
    r
}

/// Whether `answer` says yes to a question that takes `y` or `yes` for it.
pub fn confirms_yes(answer: &str) -> (r: bool)
    ensures
        r == says_yes(answer@),
{
    let word = normalize(answer);
    let short = word.len() == 1 && word[0] == 'y';
    let long = word.len() == 3 && word[0] == 'y' && word[1] == 'e' && word[2] == 's';
    assert(short ==> word@ =~= seq!['y']);
    assert(long ==> word@ =~= seq!['y', 'e', 's']);
    short || long
}

} // verus!
