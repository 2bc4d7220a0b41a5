//! Extraction of the book name from a citation.
use vstd::prelude::*;
use vstd::string::*;

use crate::error::ParseError;
use crate::text::{
    eq_ignore_ascii_case, last_index_of, normalize_reference, normalized, rfind_char,
    str_eq_ignore_ascii_case, trim_str, trimmed,
};

verus! {

/// The display form of an extracted book name: "Psalm", in any case, becomes
/// "Psalms"; every other name stays as it is.
pub open spec fn display_name(book: Seq<char>) -> Seq<char> {
    if eq_ignore_ascii_case(book, "Psalm"@) {
        "Psalms"@
    } else {
        book
    }
}

/// The book name of a citation: the trimmed text before the last space of
/// the normalized citation, in display form.
pub open spec fn book_name_of(reference: Seq<char>) -> Result<Seq<char>, ParseError> {
    let n = normalized(reference);
    match last_index_of(n, ' ') {
        None => Err(ParseError::NoSpaceFound),
        Some(p) => {
            let book = trimmed(n.subrange(0, p));
            if book.len() == 0 {
                Err(ParseError::EmptyBookName)
            } else {
                Ok(display_name(book))
            }
        },
    }
}

/// Maps a book name as written in citations to its display name.
fn normalize_book_name(book_name: &str) -> (r: String)
    ensures
        r@ == display_name(book_name@),
{
    if str_eq_ignore_ascii_case(book_name, "Psalm") {
        String::from_str("Psalms")
    } else {
        String::from_str(book_name)
    }
}

/// Extracts the book name of a citation ("2 Timothy 3:16" gives "2 Timothy").
pub fn try_parse_book_name(reference: &str) -> (r: Result<String, ParseError>)
    ensures
        match r {
            Ok(book) => book_name_of(reference@) == Ok::<Seq<char>, ParseError>(book@),
            Err(e) => book_name_of(reference@) == Err::<Seq<char>, ParseError>(e),
        },
{
    let cleaned = normalize_reference(reference);
    let s = cleaned.as_str();
    match rfind_char(s, ' ') {
        Some(pos) => {
            let book = trim_str(s.substring_char(0, pos));
            if book.unicode_len() == 0 {
                Err(ParseError::EmptyBookName)
            } else {
                Ok(normalize_book_name(book))
            }
        },
        None => Err(ParseError::NoSpaceFound),
    }
}

/// The book name of a citation, or `None` where it cannot be extracted.
pub fn parse_book_name(reference: &str) -> (r: Option<String>)
    ensures
        match r {
            Some(book) => book_name_of(reference@) == Ok::<Seq<char>, ParseError>(book@),
            None => book_name_of(reference@) is Err,
        },
{
    match try_parse_book_name(reference) {
        Ok(book) => Some(book),
        Err(_) => None,
    }
}

} // verus!
