//! Laws of citation parsing, stated over the spec functions that the
//! parsers' contracts use.
use vstd::prelude::*;

use crate::book_name_parser::{book_name_of, display_name};
use crate::canon::{canon_books, is_single_chapter_name, single_chapter_books};
use crate::error::ParseError;
use crate::text::{
    ascii_lower, eq_ignore_ascii_case, is_kept, is_stripped, is_white_space, last_index_of,
    lemma_first_index_of_at, lemma_first_index_of_none, lemma_last_index_of_at,
    lemma_last_index_of_none, lemma_normalized_absent, lemma_normalized_add,
    lemma_normalized_all_kept, lemma_normalized_idempotent, lemma_normalized_push,
    lemma_trimmed_absent, lemma_trimmed_unchanged, normalized, trimmed,
};
use crate::verse_parser::{
    decimal_value, is_ascii_digit, lemma_decimal_value_nonnegative, lemma_leading_digits_at,
    locator_count, locator_of, range_count, verse_count, verse_count_or_one, verse_number,
};

verus! {

/// An ASCII letter, of either case.
pub open spec fn is_ascii_letter(c: char) -> bool {
    (0x41 <= (c as u32) && (c as u32) <= 0x5A) || (0x61 <= (c as u32) && (c as u32) <= 0x7A)
}

/// A non-empty run of ASCII digits.
pub open spec fn is_digit_run(d: Seq<char>) -> bool {
    d.len() > 0 && forall|j: int| 0 <= j < d.len() ==> is_ascii_digit(#[trigger] d[j])
}

/// A run, possibly empty, of ASCII letters.
pub open spec fn is_letter_run(s: Seq<char>) -> bool {
    forall|j: int| 0 <= j < s.len() ==> is_ascii_letter(#[trigger] s[j])
}

/// Text that normalization keeps whole, with no colon and no space.
pub open spec fn is_plain_locator(t: Seq<char>) -> bool {
    forall|j: int| 0 <= j < t.len() ==> is_kept(#[trigger] t[j]) && t[j] != ':' && t[j] != ' '
}

/// A digit run whose value fits in `i64`.
pub open spec fn fits(d: Seq<char>) -> bool {
    decimal_value(d) <= i64::MAX
}

/// Stripping a citation first changes neither its book name nor its verse count.
pub proof fn lemma_normalized_citation(s: Seq<char>)
    ensures
        book_name_of(normalized(s)) == book_name_of(s),
        verse_count(normalized(s)) == verse_count(s),
{
    lemma_normalized_idempotent(s);
}

/// A control character or formatting mark anywhere in a citation changes
/// neither its book name nor its verse count.
pub proof fn lemma_stripped_char_transparent(a: Seq<char>, c: char, b: Seq<char>)
    requires
        is_stripped(c),
    ensures
        book_name_of(a + seq![c] + b) == book_name_of(a + b),
        verse_count(a + seq![c] + b) == verse_count(a + b),
{
    lemma_normalized_add(a + seq![c], b);
    lemma_normalized_add(a, seq![c]);
    lemma_normalized_add(a, b);
    lemma_normalized_push(Seq::<char>::empty(), c);
    assert(seq![c] =~= Seq::<char>::empty().push(c));
    lemma_normalized_all_kept(Seq::<char>::empty());
    assert(normalized(a) + normalized(seq![c]) =~= normalized(a));
    assert(normalized(a + seq![c] + b) == normalized(a + b));
}

/// The locator of a citation with a colon is what follows its last colon.
proof fn lemma_colon_locator(prefix: Seq<char>, tail: Seq<char>)
    requires
        forall|j: int| 0 <= j < tail.len() ==> tail[j] != ':',
    ensures
        normalized(prefix + seq![':'] + tail) == normalized(prefix) + seq![':'] + normalized(tail),
        locator_of(normalized(prefix + seq![':'] + tail)) == Ok::<Seq<char>, ParseError>(
            normalized(tail),
        ),
{
    let np = normalized(prefix);
    let nt = normalized(tail);
    lemma_normalized_add(prefix + seq![':'], tail);
    lemma_normalized_add(prefix, seq![':']);
    lemma_normalized_all_kept(seq![':']);
    lemma_normalized_absent(tail, ':');
    let n = np + seq![':'] + nt;
    assert(normalized(prefix + seq![':'] + tail) == n);
    let p = np.len() as int;
    assert(n[p] == ':');
    assert forall|j: int| p < j < n.len() implies n[j] != ':' by {
        assert(n[j] == nt[j - p - 1]);
    }
    lemma_last_index_of_at(n, ':', p);
    assert(n.subrange(p + 1, n.len() as int) =~= nt);
}

/// Digits followed by letters: the run is its own trim, and its verse number
/// is that of the digits alone.
proof fn lemma_digits_then_letters(d: Seq<char>, s: Seq<char>)
    requires
        is_digit_run(d),
        is_letter_run(s),
    ensures
        trimmed(d + s) == d + s,
        verse_number(d + s) == verse_number(d),
        is_plain_locator(d + s),
        forall|j: int| 0 <= j < (d + s).len() ==> #[trigger] (d + s)[j] != '-',
{
    let t = d + s;
    assert(t[0] == d[0]);
    if s.len() > 0 {
        assert(t.last() == s.last());
        assert(t[d.len() as int] == s[0]);
    } else {
        assert(t.last() == d.last());
    }
    lemma_trimmed_unchanged(t);
    assert forall|j: int| 0 <= j < d.len() implies is_ascii_digit(t[j]) by {
        assert(t[j] == d[j]);
    }
    lemma_leading_digits_at(t, d.len() as int);
    assert(t.subrange(0, d.len() as int) =~= d);
    lemma_leading_digits_at(d, d.len() as int);
    assert(d.subrange(0, d.len() as int) =~= d);
    assert forall|j: int| 0 <= j < t.len() implies is_kept(#[trigger] t[j]) && t[j] != ':' && t[j]
        != ' ' && t[j] != '-' by {
        if j < d.len() {
            assert(t[j] == d[j]);
        } else {
            assert(t[j] == s[j - d.len()]);
        }
    }
}

/// A locator "d1s1-d2s2" of digit runs with letter suffixes counts the
/// verses between the numbers of its digit runs.
proof fn lemma_range_locator(d1: Seq<char>, s1: Seq<char>, d2: Seq<char>, s2: Seq<char>)
    requires
        is_digit_run(d1),
        is_digit_run(d2),
        is_letter_run(s1),
        is_letter_run(s2),
    ensures
        locator_count(d1 + s1 + seq!['-'] + d2 + s2) == range_count(
            verse_number(d1),
            verse_number(d2),
        ),
        is_plain_locator(d1 + s1 + seq!['-'] + d2 + s2),
{
    let left = d1 + s1;
    let right = d2 + s2;
    let v = d1 + s1 + seq!['-'] + d2 + s2;
    assert(v =~= left + seq!['-'] + right);
    lemma_digits_then_letters(d1, s1);
    lemma_digits_then_letters(d2, s2);
    assert(v[0] == left[0]);
    assert(v.last() == right.last());
    lemma_trimmed_unchanged(v);
    let h = left.len() as int;
    assert forall|j: int| 0 <= j < h implies v[j] != '-' by {
        assert(v[j] == left[j]);
    }
    lemma_first_index_of_at(v, '-', h);
    assert(v.subrange(0, h) =~= left);
    assert(v.subrange(h + 1, v.len() as int) =~= right);
    assert forall|j: int| 0 <= j < v.len() implies is_kept(#[trigger] v[j]) && v[j] != ':' && v[j]
        != ' ' by {
        if j < h {
            assert(v[j] == left[j]);
        } else if j > h {
            assert(v[j] == right[j - h - 1]);
        }
    }
}

/// The verse number of a digit run that fits in `i64` is its value.
proof fn lemma_digit_run_number(d: Seq<char>)
    requires
        is_digit_run(d),
        fits(d),
    ensures
        verse_number(d) == Some(decimal_value(d) as i64),
        0 <= decimal_value(d) <= i64::MAX,
        (decimal_value(d) as i64) as int == decimal_value(d),
{
    lemma_decimal_value_nonnegative(d);
    lemma_leading_digits_at(d, d.len() as int);
    assert(d.subrange(0, d.len() as int) =~= d);
}

/// A citation whose text after the last colon holds no hyphen counts one
/// verse once the fallback applies, whatever precedes the colon.
pub proof fn lemma_single_verse_counts_one(prefix: Seq<char>, verse: Seq<char>)
    requires
        forall|j: int| 0 <= j < verse.len() ==> verse[j] != ':' && verse[j] != '-',
    ensures
        verse_count_or_one(prefix + seq![':'] + verse) == 1,
{
    lemma_colon_locator(prefix, verse);
    let l = normalized(verse);
    lemma_normalized_absent(verse, '-');
    lemma_trimmed_absent(l, '-');
    lemma_first_index_of_none(trimmed(l), '-');
}

/// A range citation "<prefix>:v1-v2" counts v2 - v1 + 1 verses where
/// v1 <= v2; where v2 < v1 it fails with `InvalidRange`, which the fallback
/// counts as one verse.
pub proof fn lemma_range_count(prefix: Seq<char>, d1: Seq<char>, d2: Seq<char>)
    requires
        is_digit_run(d1),
        is_digit_run(d2),
        fits(d1),
        fits(d2),
        !(decimal_value(d1) == 0 && decimal_value(d2) == i64::MAX),
    ensures
        verse_count(prefix + seq![':'] + d1 + seq!['-'] + d2) == if decimal_value(d1)
            <= decimal_value(d2) {
            Ok::<i64, ParseError>((decimal_value(d2) - decimal_value(d1) + 1) as i64)
        } else {
            Err::<i64, ParseError>(ParseError::InvalidRange)
        },
        verse_count_or_one(prefix + seq![':'] + d1 + seq!['-'] + d2) == if decimal_value(d1)
            <= decimal_value(d2) {
            decimal_value(d2) - decimal_value(d1) + 1
        } else {
            1
        },
{
    let e = Seq::<char>::empty();
    let s = prefix + seq![':'] + d1 + seq!['-'] + d2;
    let tail = d1 + seq!['-'] + d2;
    assert(s =~= prefix + seq![':'] + tail);
    assert(tail =~= d1 + e + seq!['-'] + d2 + e);
    lemma_range_locator(d1, e, d2, e);
    assert(is_plain_locator(tail));
    lemma_colon_locator(prefix, tail);
    lemma_normalized_all_kept(tail);
    assert(locator_of(normalized(s)) == Ok::<Seq<char>, ParseError>(tail));
    assert(verse_count(s) == locator_count(tail));
    lemma_digit_run_number(d1);
    lemma_digit_run_number(d2);
    let a = decimal_value(d1) as i64;
    let b = decimal_value(d2) as i64;
    assert(locator_count(tail) == range_count(Some(a), Some(b)));
}

/// Letter suffixes on verse numbers change no count: "<prefix>:9a-12b"
/// counts as "<prefix>:9-12".
pub proof fn lemma_letter_suffixes_ignored(
    prefix: Seq<char>,
    d1: Seq<char>,
    s1: Seq<char>,
    d2: Seq<char>,
    s2: Seq<char>,
)
    requires
        is_digit_run(d1),
        is_digit_run(d2),
        is_letter_run(s1),
        is_letter_run(s2),
    ensures
        verse_count(prefix + seq![':'] + d1 + s1 + seq!['-'] + d2 + s2) == verse_count(
            prefix + seq![':'] + d1 + seq!['-'] + d2,
        ),
{
    let e = Seq::<char>::empty();
    let t1 = d1 + s1 + seq!['-'] + d2 + s2;
    let t2 = d1 + e + seq!['-'] + d2 + e;
    assert(prefix + seq![':'] + d1 + s1 + seq!['-'] + d2 + s2 =~= prefix + seq![':'] + t1);
    assert(prefix + seq![':'] + d1 + seq!['-'] + d2 =~= prefix + seq![':'] + t2);
    lemma_range_locator(d1, s1, d2, s2);
    lemma_range_locator(d1, e, d2, e);
    assert(is_plain_locator(t1));
    assert(is_plain_locator(t2));
    lemma_colon_locator(prefix, t1);
    lemma_colon_locator(prefix, t2);
    lemma_normalized_all_kept(t1);
    lemma_normalized_all_kept(t2);
}

/// A letter suffix on a single verse changes no count: "<prefix>:4a" counts
/// as "<prefix>:4", one verse.
pub proof fn lemma_verse_suffix_ignored(prefix: Seq<char>, d: Seq<char>, s: Seq<char>)
    requires
        is_digit_run(d),
        is_letter_run(s),
        fits(d),
    ensures
        verse_count(prefix + seq![':'] + d + s) == verse_count(prefix + seq![':'] + d),
        verse_count(prefix + seq![':'] + d) == Ok::<i64, ParseError>(1),
{
    let e = Seq::<char>::empty();
    let u = d + s;
    assert(d + e =~= d);
    assert(prefix + seq![':'] + d + s =~= prefix + seq![':'] + u);
    lemma_digits_then_letters(d, s);
    lemma_digits_then_letters(d, e);
    lemma_digit_run_number(d);
    assert(is_plain_locator(u));
    assert(is_plain_locator(d));
    lemma_colon_locator(prefix, u);
    lemma_colon_locator(prefix, d);
    lemma_normalized_all_kept(u);
    lemma_normalized_all_kept(d);
    lemma_first_index_of_none(u, '-');
    lemma_first_index_of_none(d, '-');
    assert(locator_count(u) == Ok::<i64, ParseError>(1));
    assert(locator_count(d) == Ok::<i64, ParseError>(1));
}

/// Characters of a name that matches a single-chapter book: ASCII letters,
/// digits and spaces.
proof fn lemma_single_chapter_name_chars(book: Seq<char>)
    requires
        is_single_chapter_name(book),
    ensures
        forall|j: int| 0 <= j < book.len() ==> is_kept(#[trigger] book[j]) && book[j] != ':',
{
    reveal(is_single_chapter_name);
    let i = choose|i: int|
        0 <= i < single_chapter_books().len() && eq_ignore_ascii_case(
            book,
            #[trigger] single_chapter_books()[i],
        );
    let name = single_chapter_books()[i];
    reveal_strlit("Obadiah");
    reveal_strlit("Philemon");
    reveal_strlit("2 John");
    reveal_strlit("3 John");
    reveal_strlit("Jude");
    assert forall|j: int| 0 <= j < name.len() implies {
        let u = ascii_lower(#[trigger] name[j]);
        u == 0x20 || (0x30 <= u && u <= 0x39) || (0x61 <= u && u <= 0x7A)
    } by {}
    assert forall|j: int| 0 <= j < book.len() implies is_kept(#[trigger] book[j]) && book[j]
        != ':' by {
        assert(ascii_lower(book[j]) == ascii_lower(name[j]));
    }
}

/// "<book> <tail>" where neither holds a colon or a stripped character and
/// the tail holds no space: its parts, as the parsers find them.
proof fn lemma_book_space_tail(book: Seq<char>, tail: Seq<char>)
    requires
        forall|j: int| 0 <= j < book.len() ==> is_kept(#[trigger] book[j]) && book[j] != ':',
        is_plain_locator(tail),
    ensures
        normalized(book + seq![' '] + tail) == book + seq![' '] + tail,
        last_index_of(book + seq![' '] + tail, ':') == None::<int>,
        last_index_of(book + seq![' '] + tail, ' ') == Some(book.len() as int),
        (book + seq![' '] + tail).subrange(0, book.len() as int) == book,
        (book + seq![' '] + tail).subrange(
            book.len() as int + 1,
            (book + seq![' '] + tail).len() as int,
        ) == tail,
{
    let n = book + seq![' '] + tail;
    lemma_book_space_tail_chars(book, tail);
    assert(forall|j: int| 0 <= j < n.len() ==> is_kept(#[trigger] n[j]));
    lemma_normalized_all_kept(n);
    assert(forall|j: int| 0 <= j < n.len() ==> #[trigger] n[j] != ':');
    lemma_last_index_of_none(n, ':');
    lemma_last_space(book, tail);
}

/// The last space of "<book> <tail>", where the tail holds none, follows the book.
proof fn lemma_last_space(book: Seq<char>, tail: Seq<char>)
    requires
        forall|j: int| 0 <= j < tail.len() ==> #[trigger] tail[j] != ' ',
    ensures
        last_index_of(book + seq![' '] + tail, ' ') == Some(book.len() as int),
        (book + seq![' '] + tail).subrange(0, book.len() as int) == book,
        (book + seq![' '] + tail).subrange(
            book.len() as int + 1,
            (book + seq![' '] + tail).len() as int,
        ) == tail,
{
    let n = book + seq![' '] + tail;
    let p = book.len() as int;
    assert forall|j: int| p < j < n.len() implies n[j] != ' ' by {
        assert(n[j] == tail[j - p - 1]);
    }
    lemma_last_index_of_at(n, ' ', p);
    assert(n.subrange(0, p) =~= book);
    assert(n.subrange(p + 1, n.len() as int) =~= tail);
}

/// Every character of "<book> <tail>" is kept and no colon.
proof fn lemma_book_space_tail_chars(book: Seq<char>, tail: Seq<char>)
    requires
        forall|j: int| 0 <= j < book.len() ==> is_kept(#[trigger] book[j]) && book[j] != ':',
        is_plain_locator(tail),
    ensures
        forall|j: int|
            0 <= j < (book + seq![' '] + tail).len() ==> is_kept(
                #[trigger] (book + seq![' '] + tail)[j],
            ) && (book + seq![' '] + tail)[j] != ':',
{
    let n = book + seq![' '] + tail;
    let p = book.len() as int;
    assert forall|j: int| 0 <= j < n.len() implies is_kept(#[trigger] n[j]) && n[j] != ':' by {
        if j < p {
            assert(n[j] == book[j]);
        } else if j > p {
            assert(n[j] == tail[j - p - 1]);
        }
    }
}

/// The locator of a colon-less citation of a single-chapter book is what
/// follows the space after the book.
proof fn lemma_single_chapter_locator(book: Seq<char>, tail: Seq<char>)
    requires
        is_single_chapter_name(book),
        is_plain_locator(tail),
    ensures
        locator_of(normalized(book + seq![' '] + tail)) == Ok::<Seq<char>, ParseError>(tail),
{
    lemma_single_chapter_name_chars(book);
    lemma_book_space_tail(book, tail);
}

/// Single-chapter books take citations without a chapter: "Jude 24-25"
/// counts two verses and "Jude 24" one.
pub proof fn lemma_single_chapter_citation(book: Seq<char>, d1: Seq<char>, d2: Seq<char>)
    requires
        is_single_chapter_name(book),
        is_digit_run(d1),
        is_digit_run(d2),
        fits(d1),
        fits(d2),
        !(decimal_value(d1) == 0 && decimal_value(d2) == i64::MAX),
    ensures
        verse_count(book + seq![' '] + d1 + seq!['-'] + d2) == if decimal_value(d1)
            <= decimal_value(d2) {
            Ok::<i64, ParseError>((decimal_value(d2) - decimal_value(d1) + 1) as i64)
        } else {
            Err::<i64, ParseError>(ParseError::InvalidRange)
        },
        verse_count(book + seq![' '] + d1) == Ok::<i64, ParseError>(1),
{
    let e = Seq::<char>::empty();
    let tail = d1 + seq!['-'] + d2;
    assert(tail =~= d1 + e + seq!['-'] + d2 + e);
    assert(book + seq![' '] + d1 + seq!['-'] + d2 =~= book + seq![' '] + tail);
    lemma_range_locator(d1, e, d2, e);
    lemma_single_chapter_locator(book, tail);
    lemma_digit_run_number(d1);
    lemma_digit_run_number(d2);

    lemma_digits_then_letters(d1, e);
    assert(d1 + e =~= d1);
    lemma_single_chapter_locator(book, d1);
    lemma_first_index_of_none(d1, '-');
}

/// Without a colon, a citation of a book that has more than one chapter
/// fails: "Genesis 1" gives `NoColonFound`, which the fallback counts as one.
pub proof fn lemma_no_colon_multi_chapter(book: Seq<char>, tail: Seq<char>)
    requires
        !is_single_chapter_name(book),
        forall|j: int| 0 <= j < book.len() ==> is_kept(#[trigger] book[j]) && book[j] != ':',
        is_plain_locator(tail),
    ensures
        verse_count(book + seq![' '] + tail) == Err::<i64, ParseError>(ParseError::NoColonFound),
        verse_count_or_one(book + seq![' '] + tail) == 1,
{
    lemma_book_space_tail(book, tail);
}

/// A citation without a space has no book name, and, without a colon
/// either, no verse count.
pub proof fn lemma_no_space(s: Seq<char>)
    requires
        forall|j: int| 0 <= j < s.len() ==> s[j] != ' ',
    ensures
        book_name_of(s) == Err::<Seq<char>, ParseError>(ParseError::NoSpaceFound),
        (forall|j: int| 0 <= j < s.len() ==> s[j] != ':') ==> verse_count(s) == Err::<
            i64,
            ParseError,
        >(ParseError::NoColonOrSpace),
{
    lemma_normalized_absent(s, ' ');
    lemma_last_index_of_none(normalized(s), ' ');
    if forall|j: int| 0 <= j < s.len() ==> s[j] != ':' {
        lemma_normalized_absent(s, ':');
        lemma_last_index_of_none(normalized(s), ':');
    }
}

/// The book name of "<book> <locator>" is the book in display form, where
/// the book is clean text and the locator holds no space.
pub proof fn lemma_book_name_of_citation(book: Seq<char>, locator: Seq<char>)
    requires
        book.len() > 0,
        forall|j: int| 0 <= j < book.len() ==> is_kept(#[trigger] book[j]),
        !is_white_space(book[0]),
        !is_white_space(book.last()),
        forall|j: int| 0 <= j < locator.len() ==> locator[j] != ' ',
    ensures
        book_name_of(book + seq![' '] + locator) == Ok::<Seq<char>, ParseError>(
            display_name(book),
        ),
{
    let nl = normalized(locator);
    lemma_normalized_add(book + seq![' '], locator);
    lemma_normalized_add(book, seq![' ']);
    lemma_normalized_all_kept(seq![' ']);
    lemma_normalized_all_kept(book);
    lemma_normalized_absent(locator, ' ');
    let n = book + seq![' '] + nl;
    assert(normalized(book + seq![' '] + locator) == n);
    let p = book.len() as int;
    assert forall|j: int| p < j < n.len() implies n[j] != ' ' by {
        assert(n[j] == nl[j - p - 1]);
    }
    lemma_last_index_of_at(n, ' ', p);
    assert(n.subrange(0, p) =~= book);
    lemma_trimmed_unchanged(book);
}

/// "Psalm", in any ASCII case, names the book "Psalms".
pub proof fn lemma_psalm_alias(word: Seq<char>, locator: Seq<char>)
    requires
        eq_ignore_ascii_case(word, "Psalm"@),
        forall|j: int| 0 <= j < locator.len() ==> locator[j] != ' ',
    ensures
        book_name_of(word + seq![' '] + locator) == Ok::<Seq<char>, ParseError>("Psalms"@),
{
    reveal_strlit("Psalm");
    let name = "Psalm"@;
    assert forall|j: int| 0 <= j < word.len() implies is_ascii_letter(#[trigger] word[j]) by {
        assert(ascii_lower(word[j]) == ascii_lower(name[j]));
    }
    assert(is_ascii_letter(word[0]));
    assert(is_ascii_letter(word.last()));
    lemma_book_name_of_citation(word, locator);
}

/// A name made of ASCII letters, digits and inner spaces.
pub open spec fn is_plain_name(s: Seq<char>) -> bool {
    &&& s.len() > 0
    &&& forall|j: int|
        0 <= j < s.len() ==> is_ascii_letter(#[trigger] s[j]) || is_ascii_digit(s[j]) || s[j]
            == ' '
    &&& s[0] != ' '
    &&& s.last() != ' '
}

/// Every book name of the canon is plain, and none is a spelling of "Psalm".
proof fn lemma_canon_names_plain(i: int)
    requires
        0 <= i < canon_books().len(),
    ensures
        is_plain_name(canon_books()[i]),
        !eq_ignore_ascii_case(canon_books()[i], "Psalm"@),
{
    reveal_strlit("Genesis");
    reveal_strlit("Exodus");
    reveal_strlit("Leviticus");
    reveal_strlit("Numbers");
    reveal_strlit("Deuteronomy");
    reveal_strlit("Joshua");
    reveal_strlit("Judges");
    reveal_strlit("Ruth");
    reveal_strlit("1 Samuel");
    reveal_strlit("2 Samuel");
    reveal_strlit("1 Kings");
    reveal_strlit("2 Kings");
    reveal_strlit("1 Chronicles");
    reveal_strlit("2 Chronicles");
    reveal_strlit("Ezra");
    reveal_strlit("Nehemiah");
    reveal_strlit("Esther");
    reveal_strlit("Job");
    reveal_strlit("Psalms");
    reveal_strlit("Proverbs");
    reveal_strlit("Ecclesiastes");
    reveal_strlit("Song of Solomon");
    reveal_strlit("Isaiah");
    reveal_strlit("Jeremiah");
    reveal_strlit("Lamentations");
    reveal_strlit("Ezekiel");
    reveal_strlit("Daniel");
    reveal_strlit("Hosea");
    reveal_strlit("Joel");
    reveal_strlit("Amos");
    reveal_strlit("Obadiah");
    reveal_strlit("Jonah");
    reveal_strlit("Micah");
    reveal_strlit("Nahum");
    reveal_strlit("Habakkuk");
    reveal_strlit("Zephaniah");
    reveal_strlit("Haggai");
    reveal_strlit("Zechariah");
    reveal_strlit("Malachi");
    reveal_strlit("Matthew");
    reveal_strlit("Mark");
    reveal_strlit("Luke");
    reveal_strlit("John");
    reveal_strlit("Acts");
    reveal_strlit("Romans");
    reveal_strlit("1 Corinthians");
    reveal_strlit("2 Corinthians");
    reveal_strlit("Galatians");
    reveal_strlit("Ephesians");
    reveal_strlit("Philippians");
    reveal_strlit("Colossians");
    reveal_strlit("1 Thessalonians");
    reveal_strlit("2 Thessalonians");
    reveal_strlit("1 Timothy");
    reveal_strlit("2 Timothy");
    reveal_strlit("Titus");
    reveal_strlit("Philemon");
    reveal_strlit("Hebrews");
    reveal_strlit("James");
    reveal_strlit("1 Peter");
    reveal_strlit("2 Peter");
    reveal_strlit("1 John");
    reveal_strlit("2 John");
    reveal_strlit("3 John");
    reveal_strlit("Jude");
    reveal_strlit("Revelation");
    reveal_strlit("Psalm");
    let c = canon_books();
    assert(c[i].len() != 5 || c[i][0] != 'P');
}

/// A citation of any book of the canon yields that book's name unchanged.
pub proof fn lemma_canon_name_extracted(i: int, locator: Seq<char>)
    requires
        0 <= i < canon_books().len(),
        forall|j: int| 0 <= j < locator.len() ==> locator[j] != ' ',
    ensures
        book_name_of(canon_books()[i] + seq![' '] + locator) == Ok::<Seq<char>, ParseError>(
            canon_books()[i],
        ),
{
    let b = canon_books()[i];
    lemma_canon_names_plain(i);
    assert forall|j: int| 0 <= j < b.len() implies is_kept(#[trigger] b[j]) by {
        assert(is_ascii_letter(b[j]) || is_ascii_digit(b[j]) || b[j] == ' ');
    }
    assert(is_ascii_letter(b[0]) || is_ascii_digit(b[0]));
    assert(is_ascii_letter(b.last()) || is_ascii_digit(b.last())) by {
        assert(b.last() == b[b.len() - 1]);
    }
    lemma_book_name_of_citation(b, locator);
}

} // verus!
