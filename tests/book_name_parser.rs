use anki_bible_stats::book_name_parser::{parse_book_name, try_parse_book_name};
use anki_bible_stats::error::ParseError;

#[test]
fn test_parse_book_name_multi_chapter() {
    // Multi-chapter books
    assert_eq!(
        try_parse_book_name("Genesis 1:1"),
        Ok("Genesis".to_string())
    );
    assert_eq!(
        try_parse_book_name("Psalm 119:105"),
        Ok("Psalms".to_string())
    );
    assert_eq!(try_parse_book_name("John 3:16"), Ok("John".to_string()));
    assert_eq!(
        try_parse_book_name("Romans 5:1-8"),
        Ok("Romans".to_string())
    );

    // The Option-returning form
    assert_eq!(parse_book_name("Genesis 1:1"), Some("Genesis".to_string()));
    assert_eq!(parse_book_name("Psalm 119:105"), Some("Psalms".to_string()));
}

#[test]
fn test_parse_book_name_numbered_books() {
    assert_eq!(
        try_parse_book_name("1 Samuel 17:47"),
        Ok("1 Samuel".to_string())
    );
    assert_eq!(
        try_parse_book_name("2 Timothy 3:16"),
        Ok("2 Timothy".to_string())
    );
    assert_eq!(
        try_parse_book_name("1 Corinthians 13:4-7"),
        Ok("1 Corinthians".to_string())
    );
    assert_eq!(try_parse_book_name("3 John 14"), Ok("3 John".to_string()));

    assert_eq!(
        parse_book_name("2 Timothy 3:16"),
        Some("2 Timothy".to_string())
    );
}

#[test]
fn test_parse_book_name_single_chapter_books() {
    assert_eq!(try_parse_book_name("Jude 24"), Ok("Jude".to_string()));
    assert_eq!(try_parse_book_name("Jude 24-25"), Ok("Jude".to_string()));
    assert_eq!(
        try_parse_book_name("Philemon 1"),
        Ok("Philemon".to_string())
    );
    assert_eq!(try_parse_book_name("Obadiah 1"), Ok("Obadiah".to_string()));

    assert_eq!(parse_book_name("Jude 24-25"), Some("Jude".to_string()));
}

#[test]
fn test_parse_book_name_with_verse_letters() {
    assert_eq!(
        try_parse_book_name("Proverbs 12:4a"),
        Ok("Proverbs".to_string())
    );
    assert_eq!(
        try_parse_book_name("Colossians 1:9a-12"),
        Ok("Colossians".to_string())
    );
    assert_eq!(try_parse_book_name("Acts 22:16b"), Ok("Acts".to_string()));

    assert_eq!(
        parse_book_name("Proverbs 12:4a"),
        Some("Proverbs".to_string())
    );
}

#[test]
fn test_parse_book_name_with_unicode() {
    assert_eq!(
        try_parse_book_name("Psalm \u{202d}51\u{202c}:\u{202d}3"),
        Ok("Psalms".to_string())
    );
    assert_eq!(
        try_parse_book_name("Ephesians\u{202c} \u{202d}4:32\u{202c}"),
        Ok("Ephesians".to_string())
    );

    assert_eq!(
        parse_book_name("Psalm \u{202d}51\u{202c}:\u{202d}3"),
        Some("Psalms".to_string())
    );
}

#[test]
fn test_parse_book_name_invalid() {
    assert!(try_parse_book_name("Genesis").is_err());
    assert!(try_parse_book_name("").is_err());

    assert_eq!(parse_book_name("Genesis"), None);
    assert_eq!(parse_book_name(""), None);
}

#[test]
fn book_name_errors_by_kind() {
    assert_eq!(try_parse_book_name("Genesis"), Err(ParseError::NoSpaceFound));
    assert_eq!(try_parse_book_name(""), Err(ParseError::NoSpaceFound));
    assert_eq!(try_parse_book_name("  1:1"), Err(ParseError::EmptyBookName));
    assert_eq!(try_parse_book_name(" 1:1"), Err(ParseError::EmptyBookName));
    // a zero-width space is no space
    assert_eq!(try_parse_book_name("Genesis\u{200b}1:1"), Err(ParseError::NoSpaceFound));
}

#[test]
fn psalm_alias_ignores_case_only() {
    assert_eq!(try_parse_book_name("PSALM 119:105"), Ok("Psalms".to_string()));
    assert_eq!(try_parse_book_name("psalm 23:1"), Ok("Psalms".to_string()));
    assert_eq!(try_parse_book_name("Psalms 23:1"), Ok("Psalms".to_string()));
    assert_eq!(try_parse_book_name("Psalmist 1:1"), Ok("Psalmist".to_string()));
    assert_eq!(parse_book_name("PSALM 119:105"), Some("Psalms".to_string()));
}

#[test]
fn book_name_is_trimmed_text_before_last_space() {
    assert_eq!(try_parse_book_name("  Song of Solomon  2:4"), Ok("Song of Solomon".to_string()));
    assert_eq!(try_parse_book_name("Genesis\t 1:1"), Ok("Genesis".to_string()));
    assert_eq!(try_parse_book_name("Genesis 1:1 "), Ok("Genesis 1:1".to_string()));
}
