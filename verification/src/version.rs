//! Version tags of GPU variants.
//!
//! A GPU variant directory such as `cuda_v12.4` carries a tag of the form
//! `v<major>.<minor>`. Two tags of one library kind are ordered by the
//! number `major * 1000 + minor`; a missing minor component counts as 0.
//! The leading character is skipped, not inspected, and components past
//! the minor one are ignored.

use vstd::prelude::*;
use vstd::string::StrSliceExecFns;
use crate::strutil::{find_char, find_char_from, lemma_find_char_from};

verus! {

/// True for a decimal digit.
pub open spec fn is_digit(c: char) -> bool {
    48 <= c as u32 <= 57
}

/// True when every character of `s` is a decimal digit.
pub open spec fn is_digit_seq(s: Seq<char>) -> bool {
    forall|i: int| 0 <= i < s.len() ==> is_digit(#[trigger] s[i])
}

/// The number the digit string `s` denotes.
pub open spec fn digits_val(s: Seq<char>) -> int
    decreases s.len(),
{
    if s.len() == 0 {
        0
    } else {
        digits_val(s.drop_last()) * 10 + (s.last() as u32 - 48)
    }
}

/// The major component of `tag`: the characters after the skipped leading
/// one, up to the first `.` or the end.
pub open spec fn major_str(tag: Seq<char>) -> Seq<char> {
    let d = find_char_from(tag, '.', 1);
    if d == -1 {
        tag.skip(1)
    } else {
        tag.subrange(1, d)
    }
}

/// True when `tag` has a minor component.
pub open spec fn has_minor(tag: Seq<char>) -> bool {
    find_char_from(tag, '.', 1) != -1
}

/// The minor component of `tag`: the characters after the first `.`, up
/// to the second `.` or the end; empty when there is no minor component.
pub open spec fn minor_str(tag: Seq<char>) -> Seq<char> {
    let d = find_char_from(tag, '.', 1);
    if d == -1 {
        Seq::empty()
    } else {
        let d2 = find_char_from(tag, '.', d + 1);
        if d2 == -1 {
            tag.skip(d + 1)
        } else {
            tag.subrange(d + 1, d2)
        }
    }
}

/// True when a version tag can be evaluated: it has a character to skip,
/// and its major component (and minor component, when present) is one to
/// six digits. Six digits keep every value far below any machine limit.
pub open spec fn wf_version_tag(tag: Seq<char>) -> bool {
    &&& tag.len() >= 1
    &&& 1 <= major_str(tag).len() <= 6
    &&& is_digit_seq(major_str(tag))
    &&& (has_minor(tag) ==> 1 <= minor_str(tag).len() <= 6 && is_digit_seq(minor_str(tag)))
}

/// The number `tag` denotes: `major * 1000 + minor`.
pub open spec fn version_value(tag: Seq<char>) -> int {
    digits_val(major_str(tag)) * 1000 + if has_minor(tag) {
        digits_val(minor_str(tag))
    } else {
        0
    }
}

/// `digits_val` of a digit string stays below `10 ^ len`.
pub proof fn lemma_digits_val_bound(s: Seq<char>)
    requires
        is_digit_seq(s),
        s.len() <= 6,
    ensures
        0 <= digits_val(s) < 1000000,
    decreases s.len(),
{
    lemma_digits_val_bound_pow(s);
}

/// Helper: `digits_val(s) < 10 ^ s.len()` for digit strings of length at
/// most six, spelled with literal powers.
proof fn lemma_digits_val_bound_pow(s: Seq<char>)
    requires
        is_digit_seq(s),
        s.len() <= 6,
    ensures
        0 <= digits_val(s),
        s.len() <= 0 ==> digits_val(s) < 1,
        s.len() <= 1 ==> digits_val(s) < 10,
        s.len() <= 2 ==> digits_val(s) < 100,
        s.len() <= 3 ==> digits_val(s) < 1000,
        s.len() <= 4 ==> digits_val(s) < 10000,
        s.len() <= 5 ==> digits_val(s) < 100000,
        s.len() <= 6 ==> digits_val(s) < 1000000,
    decreases s.len(),
{
    if s.len() > 0 {
        assert(is_digit_seq(s.drop_last())) by {
            assert(forall|i: int| 0 <= i < s.len() - 1 ==> s.drop_last()[i] == s[i]);
        }
        lemma_digits_val_bound_pow(s.drop_last());
    }
}

/// Reads the digits of `s` between `from` and `to` as a number.
fn parse_digits(s: &str, from: usize, to: usize) -> (v: u32)
    requires
        from <= to <= s@.len(),
        is_digit_seq(s@.subrange(from as int, to as int)),
        to - from <= 6,
    ensures
        v as int == digits_val(s@.subrange(from as int, to as int)),
{
    let ghost whole = s@.subrange(from as int, to as int);
    let mut v: u32 = 0;
    let mut i: usize = from;
    while i < to
        invariant
            from <= i <= to <= s@.len(),
            to - from <= 6,
            whole == s@.subrange(from as int, to as int),
            is_digit_seq(whole),
            v as int == digits_val(s@.subrange(from as int, i as int)),
            v < 1000000,
        decreases to - i,
    {
        let c = s.get_char(i);
        proof {
            assert(c == whole[i - from]);
            assert(s@.subrange(from as int, i + 1).drop_last() == s@.subrange(
                from as int,
                i as int,
            ));
            assert(s@.subrange(from as int, i + 1).last() == c);
            assert(is_digit_seq(s@.subrange(from as int, i + 1))) by {
                assert(forall|k: int|
                    0 <= k < i + 1 - from ==> s@.subrange(from as int, i + 1)[k] == whole[k]);
            }
            lemma_digits_val_bound(s@.subrange(from as int, i + 1));
        }
        v = v * 10 + (c as u32 - 48);
        i += 1;
    }
    proof {
        assert(s@.subrange(from as int, to as int) == whole);
    }
    v
}

/// True when `tag` is a version tag the ranking can evaluate.
pub fn version_tag_is_wf(tag: &str) -> (r: bool)
    ensures
        r == wf_version_tag(tag@),
{
    let n: usize = tag.unicode_len();
    if n == 0 {
        return false;
    }
    proof {
        lemma_find_char_from(tag@, '.', 1);
    }
    let d = find_char(tag, '.', 1);
    let (mfrom, mto): (usize, usize) = match d {
        Some(i) => (1, i),
        None => (1, n),
    };
    if mto - mfrom < 1 || mto - mfrom > 6 {
        return false;
    }
    if !range_is_digits(tag, mfrom, mto) {
        return false;
    }
    match d {
        None => true,
        Some(i) => {
            proof {
                lemma_find_char_from(tag@, '.', i + 1);
            }
            let d2 = find_char(tag, '.', i + 1);
            let (nfrom, nto): (usize, usize) = match d2 {
                Some(j) => (i + 1, j),
                None => (i + 1, n),
            };
            if nto - nfrom < 1 || nto - nfrom > 6 {
                return false;
            }
            range_is_digits(tag, nfrom, nto)
        },
    }
}

/// True when the characters of `s` between `from` and `to` are digits.
fn range_is_digits(s: &str, from: usize, to: usize) -> (r: bool)
    requires
        from <= to <= s@.len(),
    ensures
        r == is_digit_seq(s@.subrange(from as int, to as int)),
{
    let ghost whole = s@.subrange(from as int, to as int);
    let mut i: usize = from;
    while i < to
        invariant
            from <= i <= to <= s@.len(),
            whole == s@.subrange(from as int, to as int),
            forall|k: int| 0 <= k < i - from ==> is_digit(#[trigger] whole[k]),
        decreases to - i,
    {
        let c = s.get_char(i);
        proof {
            assert(c == whole[i - from]);
        }
        let cc = c as u32;
        if cc < 48 || cc > 57 {
            return false;
        }
        i += 1;
    }
    true
}

/// The number a well-formed version tag denotes.
pub fn version_value_of(tag: &str) -> (v: u64)
    requires
        wf_version_tag(tag@),
    ensures
        v as int == version_value(tag@),
        v < 1001000000,
{
    let n: usize = tag.unicode_len();
    proof {
        lemma_find_char_from(tag@, '.', 1);
    }
    let d = find_char(tag, '.', 1);
    let major: u32 = match d {
        Some(i) => {
            proof {
                assert(tag@.subrange(1, i as int) == major_str(tag@));
            }
            parse_digits(tag, 1, i)
        },
        None => {
            proof {
                assert(tag@.subrange(1, n as int) == tag@.skip(1));
                assert(tag@.skip(1) == major_str(tag@));
            }
            parse_digits(tag, 1, n)
        },
    };
    let minor: u32 = match d {
        Some(i) => {
            proof {
                lemma_find_char_from(tag@, '.', i + 1);
            }
            let d2 = find_char(tag, '.', i + 1);
            match d2 {
                Some(j) => {
                    proof {
                        assert(tag@.subrange(i + 1, j as int) == minor_str(tag@));
                    }
                    parse_digits(tag, i + 1, j)
                },
                None => {
                    proof {
                        assert(tag@.subrange(i + 1, n as int) == tag@.skip(i + 1));
                        assert(tag@.skip(i + 1) == minor_str(tag@));
                    }
                    parse_digits(tag, i + 1, n)
                },
            }
        },
        None => 0,
    };
    proof {
        lemma_digits_val_bound(major_str(tag@));
        if has_minor(tag@) {
            lemma_digits_val_bound(minor_str(tag@));
        }
    }
    (major as u64) * 1000 + (minor as u64)
}

} // verus!
