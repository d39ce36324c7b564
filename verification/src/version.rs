//! Release versions: dotted numbers, read leniently and compared part by
//! part.

use vstd::prelude::*;
use crate::text::chars_of;

verus! {

/// Whether `c` is one of the ten ASCII digits.
pub open spec fn is_digit(c: char) -> bool {
    '0' <= c && c <= '9'
}

/// The value of the digit `c`.
pub open spec fn digit_value(c: char) -> nat {
    (c as u32 - '0' as u32) as nat
}

/// The number that the digits `s` write in base ten.
pub open spec fn digits_value(s: Seq<char>) -> nat
    decreases s.len(),
{
    if s.len() == 0 {
        0
    } else {
        digits_value(s.drop_last()) * 10 + digit_value(s.last())
    }
}

/// Whether every element of `s` is a digit.
pub open spec fn all_digits(s: Seq<char>) -> bool {
    forall|i: int| 0 <= i < s.len() ==> is_digit(#[trigger] s[i])
}

/// The number that one part of a version writes: digits, at least one, with
/// or without one `+` before them, whose value fits in 32 bits. Anything else
/// is no number.
pub open spec fn part_value(s: Seq<char>) -> Option<u32> {
    let digits = if s.len() > 0 && s[0] == '+' {
        s.drop_first()
    } else {
        s
    };
    if digits.len() > 0 && all_digits(digits) && digits_value(digits) <= u32::MAX {
        Some(digits_value(digits) as u32)
    } else {
        None
    }
}

/// `s` cut at every `.`: one piece more than there are dots, empty pieces
/// included.
pub open spec fn pieces(s: Seq<char>) -> Seq<Seq<char>>
    decreases s.len(),
{
    if s.len() == 0 {
        seq![Seq::empty()]
    } else {
        let before = pieces(s.drop_last());
        if s.last() == '.' {
            before.push(Seq::empty())
        } else {
            before.drop_last().push(before.last().push(s.last()))
        }
    }
}

/// The numbers among `parts`, in order; what is no number is passed over.
pub open spec fn numbers(parts: Seq<Seq<char>>) -> Seq<u32>
    decreases parts.len(),
{
    if parts.len() == 0 {
        Seq::empty()
    } else {
        let before = numbers(parts.drop_last());
        match part_value(parts.last()) {
            Some(value) => before.push(value),
            None => before,
        }
    }
}

/// The numbers of the version `s`.
pub open spec fn version_numbers(s: Seq<char>) -> Seq<u32> {
    numbers(pieces(s))
}

/// The number at position `i` of a version; a version that is too short
/// counts as continued by zeros.
pub open spec fn number_at(version: Seq<u32>, i: int) -> u32 {
    if 0 <= i < version.len() {
        version[i]
    } else {
        0
    }
}

/// Whether `latest` is above `current`: at the first position where the two
/// differ, `latest` holds the larger number.
pub open spec fn newer(latest: Seq<u32>, current: Seq<u32>) -> bool {
    exists|i: int|
        0 <= i && number_at(latest, i) > number_at(current, i) && forall|j: int|
            0 <= j < i ==> number_at(latest, j) == number_at(current, j)
}

proof fn lemma_pieces_nonempty(s: Seq<char>)
    ensures
        pieces(s).len() > 0,
    decreases s.len(),
{
    if s.len() > 0 {
        lemma_pieces_nonempty(s.drop_last());
    }
}

proof fn lemma_digits_value_grows(s: Seq<char>, k: int)
    requires
        0 <= k <= s.len(),
    ensures
        digits_value(s.subrange(0, k)) <= digits_value(s),
    decreases s.len() - k,
{
    if k < s.len() {
        lemma_digits_value_grows(s, k + 1);
        assert(s.subrange(0, k + 1).drop_last() =~= s.subrange(0, k));
    } else {
        assert(s.subrange(0, k) =~= s);
    }
}

/// The number that `part` writes, if it writes one.
pub fn parse_part(part: &Vec<char>) -> (value: Option<u32>)
    ensures
        value == part_value(part@),
{
    let start: usize = if part.len() > 0 && part[0] == '+' {
        1
    } else {
        0
    };
    let ghost digits = part@.subrange(start as int, part.len() as int);
    if start == part.len() {
        return None;
    }
    let mut total: u64 = 0;
    let mut i: usize = start;
    while i < part.len()
        invariant
            start <= i <= part.len(),
            start < part.len(),
            digits == part@.subrange(start as int, part.len() as int),
            digits == if part@.len() > 0 && part@[0] == '+' {
                part@.drop_first()
            } else {
                part@
            },
            all_digits(digits.subrange(0, i - start)),
            total == digits_value(digits.subrange(0, i - start)),
            total <= u32::MAX,
        decreases part.len() - i,
    {
        let c = part[i];
        let ghost prefix = digits.subrange(0, i - start + 1);
        assert(prefix.drop_last() =~= digits.subrange(0, i - start));
        assert(prefix.last() == c);
        if !('0' <= c && c <= '9') {
            return None;
        }
        let digit: u64 = (c as u32 - '0' as u32) as u64;
        let next: u64 = total * 10 + digit;
        if next > 0xffff_ffff {
            proof {
                lemma_digits_value_grows(digits, i - start + 1);
            }
            return None;
        }
        assert forall|k: int| 0 <= k < prefix.len() implies is_digit(#[trigger] prefix[k]) by {
            if k < prefix.len() - 1 {
                assert(prefix[k] == digits.subrange(0, i - start)[k]);
            }
        }
        total = next;
        i += 1;
    }
    assert(digits.subrange(0, i - start) =~= digits);
    Some(total as u32)
}

/// The numbers of the version `version`, as [`version_numbers`] defines
/// them.
pub fn parse_version(version: &str) -> (parsed: Vec<u32>)
    ensures
        parsed@ == version_numbers(version@),
{
    let chars = chars_of(version);
    let mut done: Vec<u32> = Vec::new();
    let mut current: Vec<char> = Vec::new();
    let mut i: usize = 0;
    while i < chars.len()
        invariant
            i <= chars.len(),
            current@ == pieces(chars@.subrange(0, i as int)).last(),
            done@ == numbers(pieces(chars@.subrange(0, i as int)).drop_last()),
        decreases chars.len() - i,
    {
        let ghost before = pieces(chars@.subrange(0, i as int));
        let ghost prefix = chars@.subrange(0, i + 1);
        proof {
            assert(prefix.drop_last() =~= chars@.subrange(0, i as int));
            lemma_pieces_nonempty(chars@.subrange(0, i as int));
        }
        let c = chars[i];
        if c == '.' {
            let value = parse_part(&current);
            match value {
                Some(value) => {
                    done.push(value);
                },
                None => {},
            }
            current = Vec::new();
            proof {
                let after = pieces(prefix);
                assert(after.drop_last() =~= before);
            }
        } else {
            current.push(c);
            proof {
                let after = pieces(prefix);
                assert(after.drop_last() =~= before.drop_last());
            }
        }
        i += 1;
    }
    proof {
        assert(chars@.subrange(0, i as int) =~= chars@);
        lemma_pieces_nonempty(chars@);
    }
    match parse_part(&current) {
        Some(value) => {
            done.push(value);
        },
        None => {},
    }
    done
}

/// The number at position `i` of `version`, zero beyond its end.
fn number_or_zero(version: &Vec<u32>, i: usize) -> (n: u32)
    ensures
        n == number_at(version@, i as int),
{
    if i < version.len() {
        version[i]
    } else {
        0
    }
}

/// Whether the version `latest` is above the version `current`, part by
/// part, a missing part counting as zero.
pub fn is_newer_version(latest: &str, current: &str) -> (r: bool)
    ensures
        r == newer(version_numbers(latest@), version_numbers(current@)),
{
    let latest_parts = parse_version(latest);
    let current_parts = parse_version(current);
    let count: usize = if latest_parts.len() > current_parts.len() {
        latest_parts.len()
    } else {
        current_parts.len()
    };
    let mut i: usize = 0;
    while i < count
        invariant
            i <= count,
            count >= latest_parts.len(),
            count >= current_parts.len(),
            latest_parts@ == version_numbers(latest@),
            current_parts@ == version_numbers(current@),
            forall|j: int|
                0 <= j < i ==> number_at(latest_parts@, j) == number_at(current_parts@, j),
        decreases count - i,
    {
        let l = number_or_zero(&latest_parts, i);
        let c = number_or_zero(&current_parts, i);
        if l > c {
            return true;
        } else if l < c {
            assert forall|k: int|
                0 <= k && number_at(latest_parts@, k) > number_at(current_parts@, k) implies !(
            forall|j: int|
                0 <= j < k ==> number_at(latest_parts@, j) == number_at(current_parts@, j)) by {
                if k > i {
                    assert(number_at(latest_parts@, i as int) != number_at(current_parts@, i as int));
                }
            }
            return false;
        }
        i += 1;
    }
    assert forall|k: int| 0 <= k implies number_at(latest_parts@, k) == number_at(
        current_parts@,
        k,
    ) by {}
    false
}

} // verus!
