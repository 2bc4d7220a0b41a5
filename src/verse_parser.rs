//! Counting the verses that a citation spans.
use vstd::prelude::*;
use vstd::string::*;

use crate::canon::{is_single_chapter_book, is_single_chapter_name};
use crate::error::ParseError;
use crate::text::{
    find_char, first_index_of, last_index_of, normalize_reference, normalized, rfind_char,
    trim_str, trimmed,
};

verus! {

/// One of the ASCII digits `0` to `9`.
pub open spec fn is_ascii_digit(c: char) -> bool {
    0x30 <= (c as u32) && (c as u32) <= 0x39
}

/// The value of an ASCII digit.
pub open spec fn digit_value(c: char) -> int {
    (c as u32) - 0x30
}

/// The longest prefix of `s` made of ASCII digits.
pub open spec fn leading_digits(s: Seq<char>) -> Seq<char>
    decreases s.len(),
{
    if s.len() > 0 && is_ascii_digit(s[0]) {
        seq![s[0]] + leading_digits(s.drop_first())
    } else {
        Seq::empty()
    }
}

/// The number that a string of decimal digits denotes.
pub open spec fn decimal_value(d: Seq<char>) -> int
    decreases d.len(),
{
    if d.len() == 0 {
        0
    } else {
        decimal_value(d.drop_last()) * 10 + digit_value(d.last())
    }
}

/// A verse number: the leading digits of `s`, letters or anything else after
/// them ignored; none where there are no leading digits or they exceed `i64`.
pub open spec fn verse_number(s: Seq<char>) -> Option<i64> {
    let d = leading_digits(s);
    if d.len() > 0 && decimal_value(d) <= i64::MAX {
        Some(decimal_value(d) as i64)
    } else {
        None
    }
}

/// The verse-or-range part of a normalized citation: what follows the last
/// colon or, without a colon, what follows the last space after a
/// single-chapter book.
pub open spec fn locator_of(n: Seq<char>) -> Result<Seq<char>, ParseError> {
    match last_index_of(n, ':') {
        Some(p) => Ok(n.subrange(p + 1, n.len() as int)),
        None => match last_index_of(n, ' ') {
            Some(q) => if is_single_chapter_name(n.subrange(0, q)) {
                Ok(n.subrange(q + 1, n.len() as int))
            } else {
                Err(ParseError::NoColonFound)
            },
            None => Err(ParseError::NoColonOrSpace),
        },
    }
}

/// The number of verses from `start` to `end`, both included; a range
/// whose end precedes its start, whose sides are no verse numbers, or whose
/// count would exceed `i64` is invalid.
pub open spec fn range_count(start: Option<i64>, end: Option<i64>) -> Result<i64, ParseError> {
    match (start, end) {
        (Some(a), Some(b)) => if a <= b && b - a + 1 <= i64::MAX {
            Ok((b - a + 1) as i64)
        } else {
            Err(ParseError::InvalidRange)
        },
        _ => Err(ParseError::InvalidRange),
    }
}

/// The number of verses a locator denotes: `end - start + 1` for a range
/// `start-end` with `start <= end`, and one for a single verse.
pub open spec fn locator_count(locator: Seq<char>) -> Result<i64, ParseError> {
    let v = trimmed(locator);
    match first_index_of(v, '-') {
        Some(h) => range_count(
            verse_number(trimmed(v.subrange(0, h))),
            verse_number(trimmed(v.subrange(h + 1, v.len() as int))),
        ),
        None => match verse_number(v) {
            Some(_) => Ok(1),
            None => Err(ParseError::InvalidVerse),
        },
    }
}

/// The number of verses a citation spans.
pub open spec fn verse_count(reference: Seq<char>) -> Result<i64, ParseError> {
    match locator_of(normalized(reference)) {
        Ok(locator) => locator_count(locator),
        Err(e) => Err(e),
    }
}

/// The verse count of a citation, one where it cannot be parsed.
pub open spec fn verse_count_or_one(reference: Seq<char>) -> i64 {
    match verse_count(reference) {
        Ok(c) => c,
        Err(_) => 1,
    }
}

/// Every count a citation yields is at least one.
pub proof fn lemma_verse_count_positive(reference: Seq<char>)
    ensures
        verse_count(reference) matches Ok(c) ==> c >= 1,
        verse_count_or_one(reference) >= 1,
{
}

/// A run of digits denotes a number no less than zero.
pub proof fn lemma_decimal_value_nonnegative(d: Seq<char>)
    requires
        forall|j: int| 0 <= j < d.len() ==> is_ascii_digit(#[trigger] d[j]),
    ensures
        decimal_value(d) >= 0,
    decreases d.len(),
{
    if d.len() > 0 {
        let t = d.drop_last();
        assert forall|j: int| 0 <= j < t.len() implies is_ascii_digit(#[trigger] t[j]) by {
            assert(t[j] == d[j]);
        }
        lemma_decimal_value_nonnegative(t);
        assert(is_ascii_digit(d[d.len() - 1]));
    }
}

/// The digits before the first non-digit at `k` are the leading digits.
pub proof fn lemma_leading_digits_at(s: Seq<char>, k: int)
    requires
        0 <= k <= s.len(),
        forall|j: int| 0 <= j < k ==> is_ascii_digit(s[j]),
        k == s.len() || !is_ascii_digit(s[k]),
    ensures
        leading_digits(s) == s.subrange(0, k),
    decreases k,
{
    if k == 0 {
        assert(s.subrange(0, 0) =~= Seq::<char>::empty());
    } else {
        let t = s.drop_first();
        assert forall|j: int| 0 <= j < k - 1 implies is_ascii_digit(t[j]) by {
            assert(t[j] == s[j + 1]);
        }
        lemma_leading_digits_at(t, k - 1);
        assert(seq![s[0]] + t.subrange(0, k - 1) =~= s.subrange(0, k));
    }
}

/// Exec check of `is_ascii_digit`.
fn is_ascii_digit_char(c: char) -> (r: bool)
    ensures
        r == is_ascii_digit(c),
{
    let u = c as u32;
    0x30 <= u && u <= 0x39
}

/// Parses a verse number, ignoring a letter suffix ("4a" gives 4).
pub fn parse_verse_number(s: &str) -> (r: Option<i64>)
    ensures
        r == verse_number(s@),
        r matches Some(v) ==> v >= 0,
{
    let n = s.unicode_len();
    let mut k: usize = 0;
    let mut value: i64 = 0;
    let mut overflow = false;
    proof {
        assert(s@.subrange(0, 0) =~= Seq::<char>::empty());
    }
    while k < n && is_ascii_digit_char(s.get_char(k))
        invariant
            n == s@.len(),
            k <= n,
            forall|j: int| 0 <= j < k ==> is_ascii_digit(s@[j]),
            overflow ==> decimal_value(s@.subrange(0, k as int)) > i64::MAX,
            !overflow ==> value == decimal_value(s@.subrange(0, k as int)),
            value >= 0,
        decreases n - k,
    {
        let c = s.get_char(k);
        let d = ((c as u32) - 0x30) as i64;
        proof {
            let p = s@.subrange(0, k + 1);
            assert(p.drop_last() =~= s@.subrange(0, k as int));
            assert(p.last() == c);
        }
        if !overflow {
            if value < i64::MAX / 10 || (value == i64::MAX / 10 && d <= i64::MAX % 10) {
                value = value * 10 + d;
            } else {
                overflow = true;
            }
        }
        k += 1;
    }
    proof {
        lemma_leading_digits_at(s@, k as int);
    }
    if k == 0 || overflow {
        None
    } else {
        Some(value)
    }
}

/// The verse-or-range part of a normalized citation.
fn locator<'a>(s: &'a str) -> (r: Result<&'a str, ParseError>)
    ensures
        match r {
            Ok(l) => locator_of(s@) == Ok::<Seq<char>, ParseError>(l@),
            Err(e) => locator_of(s@) == Err::<Seq<char>, ParseError>(e),
        },
{
    let n = s.unicode_len();
    match rfind_char(s, ':') {
        Some(pos) => Ok(s.substring_char(pos + 1, n)),
        None => match rfind_char(s, ' ') {
            Some(space) => {
                if is_single_chapter_book(s.substring_char(0, space)) {
                    Ok(s.substring_char(space + 1, n))
                } else {
                    Err(ParseError::NoColonFound)
                }
            },
            None => Err(ParseError::NoColonOrSpace),
        },
    }
}

/// Counts the verses a locator denotes.
fn count_in_locator(locator: &str) -> (r: Result<i64, ParseError>)
    ensures
        r == locator_count(locator@),
{
    let v = trim_str(locator);
    match find_char(v, '-') {
        Some(h) => {
            let n = v.unicode_len();
            let start = parse_verse_number(trim_str(v.substring_char(0, h)));
            let end = parse_verse_number(trim_str(v.substring_char(h + 1, n)));
            match (start, end) {
                (Some(a), Some(b)) => {
                    if a <= b && b - a < i64::MAX {
                        Ok(b - a + 1)
                    } else {
                        Err(ParseError::InvalidRange)
                    }
                },
                _ => Err(ParseError::InvalidRange),
            }
        },
        None => match parse_verse_number(v) {
            Some(_) => Ok(1),
            None => Err(ParseError::InvalidVerse),
        },
    }
}

/// Counts the verses a citation spans ("Romans 5:1-8" gives 8, "Jude 24-25" gives 2).
pub fn try_count_verses_in_reference(reference: &str) -> (r: Result<i64, ParseError>)
    ensures
        r == verse_count(reference@),
        r matches Ok(c) ==> c >= 1,
{
    proof {
        lemma_verse_count_positive(reference@);
    }
    let cleaned = normalize_reference(reference);
    match locator(cleaned.as_str()) {
        Ok(l) => count_in_locator(l),
        Err(e) => Err(e),
    }
}

/// Counts the verses a citation spans, taking an unparsable citation as one verse.
pub fn count_verses_in_reference(reference: &str) -> (r: i64)
    ensures
        r == verse_count_or_one(reference@),
        r >= 1,
{
    match try_count_verses_in_reference(reference) {
        Ok(count) => count,
        Err(_) => 1,
    }
}

} // verus!
