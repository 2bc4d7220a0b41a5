use anki_bible_stats::book_name_parser::parse_book_name;
use anki_bible_stats::canon::{
    all_books, is_single_chapter_book, new_testament, old_testament, single_chapter_book_names,
};

#[test]
fn canon_sizes_and_order() {
    let ot = old_testament();
    let nt = new_testament();
    let all = all_books();
    assert_eq!(ot.len(), 39);
    assert_eq!(nt.len(), 27);
    assert_eq!(all.len(), 66);
    assert_eq!(ot[0], "Genesis");
    assert_eq!(ot[38], "Malachi");
    assert_eq!(nt[0], "Matthew");
    assert_eq!(nt[26], "Revelation");
    assert_eq!(all[39], "Matthew");
    assert_eq!(&all[..39], &ot[..]);
    assert_eq!(&all[39..], &nt[..]);
}

#[test]
fn canon_names_are_distinct() {
    let all = all_books();
    for i in 0..all.len() {
        for j in (i + 1)..all.len() {
            assert_ne!(all[i], all[j]);
        }
    }
}

#[test]
fn single_chapter_books_are_in_canon() {
    let all = all_books();
    let singles = single_chapter_book_names();
    assert_eq!(singles.len(), 5);
    for s in singles {
        assert!(all.contains(&s));
        assert!(is_single_chapter_book(s));
    }
    let count = all.iter().filter(|b| is_single_chapter_book(b)).count();
    assert_eq!(count, 5);
}

#[test]
fn canon_names_parse_back_to_themselves() {
    for book in all_books() {
        let citation = format!("{} 1:1", book);
        assert_eq!(parse_book_name(&citation), Some(book.to_string()));
    }
}
