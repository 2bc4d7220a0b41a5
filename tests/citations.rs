use anki_bible_stats::book_name_parser::{parse_book_name, try_parse_book_name};
use anki_bible_stats::text::normalize_reference;
use anki_bible_stats::verse_parser::{count_verses_in_reference, try_count_verses_in_reference};

#[test]
fn normalize_removes_controls_and_marks() {
    assert_eq!(normalize_reference(""), "");
    assert_eq!(normalize_reference("Psalm \u{202d}51\u{202c}:\u{202d}3"), "Psalm 51:3");
    assert_eq!(
        normalize_reference("\u{feff}John\u{200b} 3:16\u{202a}\u{202b}\u{202e}\n"),
        "John 3:16"
    );
    assert_eq!(normalize_reference("a\tb\u{7f}c\u{85}d\u{9f}e"), "abcde");
    // other format characters stay
    assert_eq!(normalize_reference("a\u{200c}b\u{2066}c"), "a\u{200c}b\u{2066}c");
    assert_eq!(normalize_reference("Jude\u{a0}24"), "Jude\u{a0}24");
}

#[test]
fn normalize_is_idempotent() {
    for s in [
        "",
        "Genesis 1:1",
        "\u{202d}\u{202d}x\u{202c}",
        "\u{0}\u{1}\u{1f} \u{feff}",
        "Ephesians\u{202c} \u{202d}4:32\u{202c}",
    ] {
        let once = normalize_reference(s);
        assert_eq!(normalize_reference(&once), once);
    }
}

#[test]
fn pollution_is_transparent() {
    let polluted = "Psalm \u{202d}51\u{202c}:\u{202d}3";
    let clean = "Psalm 51:3";
    assert_eq!(try_parse_book_name(polluted), try_parse_book_name(clean));
    assert_eq!(try_parse_book_name(polluted), Ok("Psalms".to_string()));
    assert_eq!(count_verses_in_reference(polluted), 1);
    assert_eq!(
        try_count_verses_in_reference(polluted),
        try_count_verses_in_reference(clean)
    );
    assert_eq!(
        try_count_verses_in_reference("Jude\u{200b} 24-\u{feff}25"),
        Ok(2)
    );
}

#[test]
fn alias_and_boundary_cases() {
    assert_eq!(parse_book_name("PSALM 119:105"), Some("Psalms".to_string()));
    assert_eq!(parse_book_name("Genesis 1:1"), Some("Genesis".to_string()));
    assert!(try_parse_book_name("Genesis").is_err());
    assert!(try_parse_book_name("").is_err());
    assert_eq!(parse_book_name("Genesis"), None);
    assert_eq!(parse_book_name(""), None);
}

#[test]
fn end_to_end_table() {
    let rows: [(&str, &str, i64); 8] = [
        ("Genesis 1:1", "Genesis", 1),
        ("Psalm 119:105", "Psalms", 1),
        ("2 Timothy 3:16", "2 Timothy", 1),
        ("Romans 5:1-8", "Romans", 8),
        ("Jude 24-25", "Jude", 2),
        ("Proverbs 12:4a", "Proverbs", 1),
        ("Colossians 1:9a-12", "Colossians", 4),
        ("Genesis 1:5-1", "Genesis", 1),
    ];
    for (input, book, count) in rows {
        assert_eq!(parse_book_name(input), Some(book.to_string()));
        assert_eq!(count_verses_in_reference(input), count);
    }
    assert!(try_count_verses_in_reference("Genesis 1:5-1").is_err());
}
