use anki_bible_stats::canon::is_single_chapter_book;
use anki_bible_stats::error::ParseError;
use anki_bible_stats::verse_parser::{
    count_verses_in_reference, parse_verse_number, try_count_verses_in_reference,
};

#[test]
fn verse_parser_test_single_verse() {
    assert_eq!(count_verses_in_reference("Genesis 1:1"), 1);
    assert_eq!(count_verses_in_reference("2 Timothy 3:16"), 1);
    assert_eq!(count_verses_in_reference("Psalm 119:105"), 1);

    assert_eq!(try_count_verses_in_reference("Genesis 1:1"), Ok(1));
    assert_eq!(try_count_verses_in_reference("2 Timothy 3:16"), Ok(1));
    assert_eq!(try_count_verses_in_reference("Psalm 119:105"), Ok(1));
}

#[test]
fn verse_parser_test_simple_range() {
    assert_eq!(count_verses_in_reference("Genesis 1:1-5"), 5);
    assert_eq!(count_verses_in_reference("Romans 5:1-8"), 8);
    assert_eq!(count_verses_in_reference("John 3:16-17"), 2);

    assert_eq!(try_count_verses_in_reference("Genesis 1:1-5"), Ok(5));
    assert_eq!(try_count_verses_in_reference("Romans 5:1-8"), Ok(8));
    assert_eq!(try_count_verses_in_reference("John 3:16-17"), Ok(2));
}

#[test]
fn verse_parser_test_verse_with_letter_suffix() {
    assert_eq!(count_verses_in_reference("Proverbs 12:4a"), 1);
    assert_eq!(count_verses_in_reference("Genesis 1:1b"), 1);
    assert_eq!(count_verses_in_reference("Matthew 5:3a"), 1);

    assert_eq!(try_count_verses_in_reference("Proverbs 12:4a"), Ok(1));
    assert_eq!(try_count_verses_in_reference("Genesis 1:1b"), Ok(1));
    assert_eq!(try_count_verses_in_reference("Matthew 5:3a"), Ok(1));
}

#[test]
fn verse_parser_test_range_with_letter_suffix() {
    assert_eq!(count_verses_in_reference("Colossians 1:9a-12"), 4);
    assert_eq!(count_verses_in_reference("Genesis 1:1b-3"), 3);
    assert_eq!(count_verses_in_reference("Romans 5:1a-5b"), 5);

    assert_eq!(try_count_verses_in_reference("Colossians 1:9a-12"), Ok(4));
    assert_eq!(try_count_verses_in_reference("Genesis 1:1b-3"), Ok(3));
    assert_eq!(try_count_verses_in_reference("Romans 5:1a-5b"), Ok(5));
}

#[test]
fn verse_parser_test_single_verse_range() {
    assert_eq!(count_verses_in_reference("John 3:16-16"), 1);

    assert_eq!(try_count_verses_in_reference("John 3:16-16"), Ok(1));
}

#[test]
fn verse_parser_test_whitespace_handling() {
    assert_eq!(count_verses_in_reference("Genesis 1: 1"), 1);
    assert_eq!(count_verses_in_reference("Genesis 1:1 - 5"), 5);
    assert_eq!(count_verses_in_reference("Romans 5: 1 - 8 "), 8);

    assert_eq!(try_count_verses_in_reference("Genesis 1: 1"), Ok(1));
    assert_eq!(try_count_verses_in_reference("Genesis 1:1 - 5"), Ok(5));
    assert_eq!(try_count_verses_in_reference("Romans 5: 1 - 8 "), Ok(8));
}

#[test]
fn verse_parser_test_parse_verse_number() {
    assert_eq!(parse_verse_number("1"), Some(1));
    assert_eq!(parse_verse_number("12"), Some(12));
    assert_eq!(parse_verse_number("4a"), Some(4));
    assert_eq!(parse_verse_number("16b"), Some(16));
    assert_eq!(parse_verse_number("105"), Some(105));
}

#[test]
fn verse_parser_test_invalid_references_fallback_to_one() {
    assert_eq!(count_verses_in_reference("Genesis 1"), 1);
    assert_eq!(count_verses_in_reference("Genesis 1:abc"), 1);
    assert_eq!(count_verses_in_reference("Genesis 1:5-1"), 1);

    assert!(try_count_verses_in_reference("Genesis 1").is_err());
    assert!(try_count_verses_in_reference("Genesis 1:abc").is_err());
    assert!(try_count_verses_in_reference("Genesis 1:5-1").is_err());
}

#[test]
fn test_is_single_chapter_book() {
    assert!(is_single_chapter_book("Obadiah"));
    assert!(is_single_chapter_book("Philemon"));
    assert!(is_single_chapter_book("2 John"));
    assert!(is_single_chapter_book("3 John"));
    assert!(is_single_chapter_book("Jude"));

    // Case insensitive
    assert!(is_single_chapter_book("jude"));
    assert!(is_single_chapter_book("PHILEMON"));

    assert!(!is_single_chapter_book("Genesis"));
    assert!(!is_single_chapter_book("Matthew"));
    assert!(!is_single_chapter_book("1 John"));
    assert!(!is_single_chapter_book("2 Corinthians"));
}

#[test]
fn test_single_chapter_books() {
    assert_eq!(try_count_verses_in_reference("Jude 24-25"), Ok(2));
    assert_eq!(try_count_verses_in_reference("Jude 24"), Ok(1));
    assert_eq!(try_count_verses_in_reference("Philemon 1"), Ok(1));
    assert_eq!(try_count_verses_in_reference("3 John 14"), Ok(1));
    assert_eq!(try_count_verses_in_reference("Obadiah 1"), Ok(1));
    assert_eq!(try_count_verses_in_reference("2 John 1-3"), Ok(3));

    assert_eq!(count_verses_in_reference("Jude 24-25"), 2);
    assert_eq!(count_verses_in_reference("Jude 24"), 1);
    assert_eq!(count_verses_in_reference("Philemon 1"), 1);
}

#[test]
fn test_unicode_formatting_characters() {
    assert_eq!(
        try_count_verses_in_reference("Psalm \u{202d}51\u{202c}:\u{202d}3"),
        Ok(1)
    );
    assert_eq!(
        try_count_verses_in_reference("Genesis\u{202d} \u{202d}1\u{202c}:\u{202d}1"),
        Ok(1)
    );

    assert_eq!(
        count_verses_in_reference("Psalm \u{202d}51\u{202c}:\u{202d}3"),
        1
    );
}

#[test]
fn verse_count_errors_by_kind() {
    assert_eq!(try_count_verses_in_reference("Genesis 1"), Err(ParseError::NoColonFound));
    assert_eq!(try_count_verses_in_reference("Genesis"), Err(ParseError::NoColonOrSpace));
    assert_eq!(try_count_verses_in_reference(""), Err(ParseError::NoColonOrSpace));
    assert_eq!(try_count_verses_in_reference("Genesis 1:5-1"), Err(ParseError::InvalidRange));
    assert_eq!(try_count_verses_in_reference("Genesis 1:a-3"), Err(ParseError::InvalidRange));
    assert_eq!(try_count_verses_in_reference("Genesis 1:3-"), Err(ParseError::InvalidRange));
    assert_eq!(try_count_verses_in_reference("Genesis 1:abc"), Err(ParseError::InvalidVerse));
    assert_eq!(try_count_verses_in_reference("Genesis 1:"), Err(ParseError::InvalidVerse));
    // the book before the last space must match exactly, case aside
    assert_eq!(try_count_verses_in_reference("Jude  24"), Err(ParseError::NoColonFound));
    assert_eq!(try_count_verses_in_reference("JUDE 24"), Ok(1));
}

#[test]
fn range_bounds_at_the_limits_of_i64() {
    assert_eq!(parse_verse_number("9223372036854775807"), Some(i64::MAX));
    assert_eq!(parse_verse_number("9223372036854775808"), None);
    assert_eq!(parse_verse_number("00012x"), Some(12));
    assert_eq!(parse_verse_number(""), None);
    assert_eq!(parse_verse_number("a1"), None);
    assert_eq!(
        try_count_verses_in_reference("X 1:1-9223372036854775807"),
        Ok(i64::MAX)
    );
    assert_eq!(
        try_count_verses_in_reference("X 1:0-9223372036854775807"),
        Err(ParseError::InvalidRange)
    );
    assert_eq!(
        try_count_verses_in_reference("X 1:99999999999999999999"),
        Err(ParseError::InvalidVerse)
    );
}

#[test]
fn single_verse_counts_one_whatever_the_fallback() {
    for r in ["Genesis 1:1", "X 1:4a", "X 1:4", "Genesis 1:abc", "Job 3:", "A B C:7 "] {
        assert_eq!(count_verses_in_reference(r), 1);
    }
}

#[test]
fn range_counts_inclusive() {
    assert_eq!(count_verses_in_reference("Genesis 1:10-19"), 10);
    assert_eq!(count_verses_in_reference("Genesis 1:19-10"), 1);
    assert_eq!(try_count_verses_in_reference("Genesis 1:19-10"), Err(ParseError::InvalidRange));
    assert_eq!(count_verses_in_reference("Isaiah 40:1-31"), 31);
}

#[test]
fn letter_suffixes_are_ignored() {
    assert_eq!(count_verses_in_reference("X 1:4a"), count_verses_in_reference("X 1:4"));
    assert_eq!(count_verses_in_reference("X 1:4a"), 1);
    assert_eq!(count_verses_in_reference("X 1:9a-12"), 4);
    assert_eq!(
        try_count_verses_in_reference("X 1:9a-12b"),
        try_count_verses_in_reference("X 1:9-12")
    );
}

#[test]
fn colon_less_citations_need_a_single_chapter_book() {
    assert_eq!(count_verses_in_reference("Jude 24-25"), 2);
    assert_eq!(count_verses_in_reference("Jude 24"), 1);
    assert_eq!(count_verses_in_reference("Philemon 1"), 1);
    assert_eq!(count_verses_in_reference("Genesis 1"), 1);
    assert!(try_count_verses_in_reference("Genesis 1").is_err());
    assert_eq!(try_count_verses_in_reference("obadiah 15-21"), Ok(7));
}
