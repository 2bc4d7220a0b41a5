use anki_bible_stats::display::{decimal_text, BookStatsDisplay};
use anki_bible_stats::get_bible_stats;
use anki_bible_stats::report::books_in_order;
use anki_bible_stats::models::{AggregateStats, BibleStats, BookStats, HealthCheck};

fn book(name: &str, p: [i64; 4], v: [i64; 4]) -> BookStats {
    BookStats {
        book: name.to_string(),
        mature_passages: p[0],
        young_passages: p[1],
        unseen_passages: p[2],
        suspended_passages: p[3],
        mature_verses: v[0],
        young_verses: v[1],
        unseen_verses: v[2],
        suspended_verses: v[3],
    }
}

#[test]
fn book_totals() {
    let b = book("Genesis", [1, 2, 3, 4], [10, 20, 30, 40]);
    assert_eq!(b.total_passages(), 10);
    assert_eq!(b.total_verses(), 100);
    let big = book("X", [i64::MAX, 1, -1, 0], [0, 0, 0, 0]);
    assert_eq!(big.total_passages(), i64::MAX);
}

#[test]
fn aggregate_adds_books() {
    let mut agg = AggregateStats::new("Old Testament".to_string());
    assert_eq!(agg.label, "Old Testament");
    assert_eq!(agg.total_passages(), 0);
    assert_eq!(agg.total_verses(), 0);
    agg.add_book(book("Genesis", [1, 2, 3, 4], [10, 20, 30, 40]));
    agg.add_book(book("Exodus", [5, 0, 1, 0], [7, 0, 2, 0]));
    assert_eq!(agg.book_stats.len(), 2);
    assert_eq!(agg.book_stats[1].book, "Exodus");
    assert_eq!(agg.mature_passages, 6);
    assert_eq!(agg.young_passages, 2);
    assert_eq!(agg.unseen_passages, 4);
    assert_eq!(agg.suspended_passages, 4);
    assert_eq!(agg.mature_verses, 17);
    assert_eq!(agg.unseen_verses, 32);
    assert_eq!(agg.total_passages(), 16);
    assert_eq!(agg.total_verses(), 109);
}

#[test]
fn bible_totals() {
    let stats = get_bible_stats(
        vec![
            book("Genesis", [1, 2, 3, 4], [10, 20, 30, 40]),
            book("Exodus", [5, 0, 1, 0], [7, 0, 2, 0]),
        ],
        vec![book("John", [2, 1, 0, 1], [3, 2, 0, 5])],
    );
    assert_eq!(stats.old_testament.label, "Old Testament");
    assert_eq!(stats.new_testament.label, "New Testament");
    assert_eq!(stats.old_testament.book_stats.len(), 2);
    assert_eq!(stats.new_testament.book_stats[0].book, "John");
    assert_eq!(stats.total_mature_passages(), 8);
    assert_eq!(stats.total_young_passages(), 3);
    assert_eq!(stats.total_unseen_passages(), 4);
    assert_eq!(stats.total_suspended_passages(), 5);
    assert_eq!(stats.total_passages(), 20);
    assert_eq!(stats.total_mature_verses(), 20);
    assert_eq!(stats.total_young_verses(), 22);
    assert_eq!(stats.total_unseen_verses(), 32);
    assert_eq!(stats.total_suspended_verses(), 45);
    assert_eq!(stats.total_verses(), 119);
}

#[test]
fn empty_reports() {
    let a = BibleStats::new();
    let b = BibleStats::default();
    for s in [a, b] {
        assert_eq!(s.old_testament.label, "Old Testament");
        assert_eq!(s.new_testament.label, "New Testament");
        assert!(s.old_testament.book_stats.is_empty());
        assert_eq!(s.total_passages(), 0);
        assert_eq!(s.total_verses(), 0);
    }
    let e = get_bible_stats(Vec::new(), Vec::new());
    assert_eq!(e.total_passages(), 0);
}

#[test]
fn health_check() {
    let h = HealthCheck::new();
    assert_eq!(h.status, "ok");
    assert_eq!(h.service, "anki-bible-stats");
    let d = HealthCheck::default();
    assert_eq!(d.status, "ok");
    assert_eq!(d.service, "anki-bible-stats");
}

#[test]
fn decimal_text_matches_std() {
    for v in [0i64, 7, 9, 10, 42, 100, 12345, -1, -42, -100, i64::MAX, i64::MIN] {
        assert_eq!(decimal_text(v), v.to_string());
    }
}

#[test]
fn display_row() {
    let b = book("Romans", [3, 1, 0, 2], [12, 4, 0, 9]);
    let row = BookStatsDisplay::from_stats(&b);
    assert_eq!(row.book, "Romans");
    assert_eq!(row.mature, "3 / 12");
    assert_eq!(row.young, "1 / 4");
    assert_eq!(row.unseen, "0 / 0");
    assert_eq!(row.suspended, "2 / 9");
}

#[test]
fn books_follow_the_given_order_with_zeros_for_missing() {
    let rows = vec![
        book("John", [2, 1, 0, 1], [3, 2, 0, 5]),
        book("Genesis", [1, 2, 3, 4], [10, 20, 30, 40]),
        book("Genesis", [9, 9, 9, 9], [9, 9, 9, 9]),
        book("Tobit", [1, 1, 1, 1], [1, 1, 1, 1]),
    ];
    let names = vec!["Genesis", "Exodus", "John"];
    let ordered = books_in_order(&names, &rows);
    assert_eq!(ordered.len(), 3);
    assert_eq!(ordered[0].book, "Genesis");
    assert_eq!(ordered[0].mature_passages, 1);
    assert_eq!(ordered[0].suspended_verses, 40);
    assert_eq!(ordered[1].book, "Exodus");
    assert_eq!(ordered[1].total_passages(), 0);
    assert_eq!(ordered[1].total_verses(), 0);
    assert_eq!(ordered[2].book, "John");
    assert_eq!(ordered[2].suspended_verses, 5);
    assert!(books_in_order(&Vec::new(), &rows).is_empty());
}
