//! The fixed canon of book names: the Old and New Testament in order, and
//! the books that have a single chapter.
use vstd::prelude::*;

use crate::text::{eq_ignore_ascii_case, str_eq_ignore_ascii_case};

verus! {

/// The 39 books of the Old Testament, in canonical order.
pub open spec fn old_testament_books() -> Seq<Seq<char>> {
    seq![
        "Genesis"@,
        "Exodus"@,
        "Leviticus"@,
        "Numbers"@,
        "Deuteronomy"@,
        "Joshua"@,
        "Judges"@,
        "Ruth"@,
        "1 Samuel"@,
        "2 Samuel"@,
        "1 Kings"@,
        "2 Kings"@,
        "1 Chronicles"@,
        "2 Chronicles"@,
        "Ezra"@,
        "Nehemiah"@,
        "Esther"@,
        "Job"@,
        "Psalms"@,
        "Proverbs"@,
        "Ecclesiastes"@,
        "Song of Solomon"@,
        "Isaiah"@,
        "Jeremiah"@,
        "Lamentations"@,
        "Ezekiel"@,
        "Daniel"@,
        "Hosea"@,
        "Joel"@,
        "Amos"@,
        "Obadiah"@,
        "Jonah"@,
        "Micah"@,
        "Nahum"@,
        "Habakkuk"@,
        "Zephaniah"@,
        "Haggai"@,
        "Zechariah"@,
        "Malachi"@,
    ]
}

/// The 27 books of the New Testament, in canonical order.
pub open spec fn new_testament_books() -> Seq<Seq<char>> {
    seq![
        "Matthew"@,
        "Mark"@,
        "Luke"@,
        "John"@,
        "Acts"@,
        "Romans"@,
        "1 Corinthians"@,
        "2 Corinthians"@,
        "Galatians"@,
        "Ephesians"@,
        "Philippians"@,
        "Colossians"@,
        "1 Thessalonians"@,
        "2 Thessalonians"@,
        "1 Timothy"@,
        "2 Timothy"@,
        "Titus"@,
        "Philemon"@,
        "Hebrews"@,
        "James"@,
        "1 Peter"@,
        "2 Peter"@,
        "1 John"@,
        "2 John"@,
        "3 John"@,
        "Jude"@,
        "Revelation"@,
    ]
}

/// All 66 books, the Old Testament first.
pub open spec fn canon_books() -> Seq<Seq<char>> {
    old_testament_books() + new_testament_books()
}

/// The books with a single chapter, whose citations give no chapter number.
pub open spec fn single_chapter_books() -> Seq<Seq<char>> {
    seq![
        "Obadiah"@,
        "Philemon"@,
        "2 John"@,
        "3 John"@,
        "Jude"@,
    ]
}

/// `name` is one of the single-chapter books, ASCII case ignored.
#[verifier::opaque]
pub open spec fn is_single_chapter_name(name: Seq<char>) -> bool {
    exists|i: int| 0 <= i < single_chapter_books().len() && eq_ignore_ascii_case(name, #[trigger] single_chapter_books()[i])
}

/// The canon holds 66 books, 39 of the Old Testament and 27 of the New.
pub proof fn lemma_canon_size()
    ensures
        old_testament_books().len() == 39,
        new_testament_books().len() == 27,
        canon_books().len() == 66,
{
}

/// Every single-chapter book is a book of the canon.
pub proof fn lemma_single_chapter_books_in_canon()
    ensures
        forall|i: int|
            0 <= i < single_chapter_books().len() ==> canon_books().contains(
                #[trigger] single_chapter_books()[i],
            ),
{
    let c = canon_books();
    assert(c[30] == single_chapter_books()[0]);
    assert(c[56] == single_chapter_books()[1]);
    assert(c[62] == single_chapter_books()[2]);
    assert(c[63] == single_chapter_books()[3]);
    assert(c[64] == single_chapter_books()[4]);
}

/// The Old Testament book names, in canonical order.
pub fn old_testament() -> (r: Vec<&'static str>)
    ensures
        r@.len() == old_testament_books().len(),
        forall|i: int| 0 <= i < r@.len() ==> #[trigger] r@[i]@ == old_testament_books()[i],
{
    let mut v: Vec<&'static str> = Vec::new();
    v.push("Genesis");
    v.push("Exodus");
    v.push("Leviticus");
    v.push("Numbers");
    v.push("Deuteronomy");
    v.push("Joshua");
    v.push("Judges");
    v.push("Ruth");
    v.push("1 Samuel");
    v.push("2 Samuel");
    v.push("1 Kings");
    v.push("2 Kings");
    v.push("1 Chronicles");
    v.push("2 Chronicles");
    v.push("Ezra");
    v.push("Nehemiah");
    v.push("Esther");
    v.push("Job");
    v.push("Psalms");
    v.push("Proverbs");
    v.push("Ecclesiastes");
    v.push("Song of Solomon");
    v.push("Isaiah");
    v.push("Jeremiah");
    v.push("Lamentations");
    v.push("Ezekiel");
    v.push("Daniel");
    v.push("Hosea");
    v.push("Joel");
    v.push("Amos");
    v.push("Obadiah");
    v.push("Jonah");
    v.push("Micah");
    v.push("Nahum");
    v.push("Habakkuk");
    v.push("Zephaniah");
    v.push("Haggai");
    v.push("Zechariah");
    v.push("Malachi");
    v
}

/// The New Testament book names, in canonical order.
pub fn new_testament() -> (r: Vec<&'static str>)
    ensures
        r@.len() == new_testament_books().len(),
        forall|i: int| 0 <= i < r@.len() ==> #[trigger] r@[i]@ == new_testament_books()[i],
{
    let mut v: Vec<&'static str> = Vec::new();
    v.push("Matthew");
    v.push("Mark");
    v.push("Luke");
    v.push("John");
    v.push("Acts");
    v.push("Romans");
    v.push("1 Corinthians");
    v.push("2 Corinthians");
    v.push("Galatians");
    v.push("Ephesians");
    v.push("Philippians");
    v.push("Colossians");
    v.push("1 Thessalonians");
    v.push("2 Thessalonians");
    v.push("1 Timothy");
    v.push("2 Timothy");
    v.push("Titus");
    v.push("Philemon");
    v.push("Hebrews");
    v.push("James");
    v.push("1 Peter");
    v.push("2 Peter");
    v.push("1 John");
    v.push("2 John");
    v.push("3 John");
    v.push("Jude");
    v.push("Revelation");
    v
}

/// Every book name of the canon, the Old Testament first.
pub fn all_books() -> (r: Vec<&'static str>)
    ensures
        r@.len() == canon_books().len(),
        forall|i: int| 0 <= i < r@.len() ==> #[trigger] r@[i]@ == canon_books()[i],
{
    let mut v = old_testament();
    let nt = new_testament();
    let mut i: usize = 0;
    while i < nt.len()
        invariant
            i <= nt@.len(),
            nt@.len() == new_testament_books().len(),
            forall|k: int| 0 <= k < nt@.len() ==> #[trigger] nt@[k]@ == new_testament_books()[k],
            v@.len() == old_testament_books().len() + i,
            forall|k: int| 0 <= k < v@.len() ==> #[trigger] v@[k]@ == canon_books()[k],
        decreases nt@.len() - i,
    {
        v.push(nt[i]);
        i += 1;
    }
    v
}

/// The single-chapter book names.
pub fn single_chapter_book_names() -> (r: Vec<&'static str>)
    ensures
        r@.len() == single_chapter_books().len(),
        forall|i: int| 0 <= i < r@.len() ==> #[trigger] r@[i]@ == single_chapter_books()[i],
{
    let mut v: Vec<&'static str> = Vec::new();
    v.push("Obadiah");
    v.push("Philemon");
    v.push("2 John");
    v.push("3 John");
    v.push("Jude");
    v
}

/// Whether `book_name` names a single-chapter book, ASCII case ignored.
pub fn is_single_chapter_book(book_name: &str) -> (r: bool)
    ensures
        r == is_single_chapter_name(book_name@),
{
    let names = single_chapter_book_names();
    let mut i: usize = 0;
    while i < names.len()
        invariant
            i <= names@.len(),
            names@.len() == single_chapter_books().len(),
            forall|k: int| 0 <= k < names@.len() ==> #[trigger] names@[k]@ == single_chapter_books()[k],
            forall|k: int| 0 <= k < i ==> !eq_ignore_ascii_case(book_name@, #[trigger] single_chapter_books()[k]),
        decreases names@.len() - i,
    {
        if str_eq_ignore_ascii_case(book_name, names[i]) {
            proof {
                reveal(is_single_chapter_name);
            }
            return true;
        }
        i += 1;
    }
    proof {
        reveal(is_single_chapter_name);
    }
    false
}

} // verus!
