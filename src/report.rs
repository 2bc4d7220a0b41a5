//! Assembling the whole-Bible report from per-book statistics.
use vstd::prelude::*;
use vstd::string::*;

use crate::text::str_eq;
use crate::models::{
    is_count_index, running_sums_fit, sum_count, AggregateStats, BibleStats, BookStats,
};

verus! {

/// Position of the first row of `rows` for the book `name`.
pub open spec fn first_row_of(rows: Seq<BookStats>, name: Seq<char>) -> Option<int>
    decreases rows.len(),
{
    if rows.len() == 0 {
        None
    } else if rows[0].book@ == name {
        Some(0)
    } else {
        match first_row_of(rows.drop_first(), name) {
            Some(j) => Some(j + 1),
            None => None,
        }
    }
}

/// Count `k` of the book `name` as `rows` give it: that of its first row, or
/// zero where no row is for that book.
pub open spec fn row_count(rows: Seq<BookStats>, name: Seq<char>, k: int) -> int {
    match first_row_of(rows, name) {
        Some(j) => rows[j].count(k),
        None => 0,
    }
}

proof fn lemma_first_row_of_at(rows: Seq<BookStats>, name: Seq<char>, j: int)
    requires
        0 <= j < rows.len(),
        rows[j].book@ == name,
        forall|i: int| 0 <= i < j ==> rows[i].book@ != name,
    ensures
        first_row_of(rows, name) == Some(j),
    decreases rows.len(),
{
    if j > 0 {
        lemma_first_row_of_at(rows.drop_first(), name, j - 1);
    }
}

proof fn lemma_first_row_of_none(rows: Seq<BookStats>, name: Seq<char>)
    requires
        forall|i: int| 0 <= i < rows.len() ==> rows[i].book@ != name,
    ensures
        first_row_of(rows, name) == None::<int>,
    decreases rows.len(),
{
    if rows.len() > 0 {
        lemma_first_row_of_none(rows.drop_first(), name);
    }
}

/// The statistics of the book `name` from the rows of a query: a copy of its
/// first row, or zeros where the query found no card of that book.
fn stats_of_book(name: &str, rows: &Vec<BookStats>) -> (r: BookStats)
    ensures
        r.book@ == name@,
        forall|k: int| is_count_index(k) ==> #[trigger] r.count(k) == row_count(rows@, name@, k),
{
    let mut j: usize = 0;
    while j < rows.len()
        invariant
            j <= rows@.len(),
            forall|i: int| 0 <= i < j ==> rows@[i].book@ != name@,
        decreases rows@.len() - j,
    {
        let row = &rows[j];
        if str_eq(row.book.as_str(), name) {
            proof {
                lemma_first_row_of_at(rows@, name@, j as int);
            }
            return BookStats {
                book: String::from_str(name),
                mature_passages: row.mature_passages,
                young_passages: row.young_passages,
                unseen_passages: row.unseen_passages,
                suspended_passages: row.suspended_passages,
                mature_verses: row.mature_verses,
                young_verses: row.young_verses,
                unseen_verses: row.unseen_verses,
                suspended_verses: row.suspended_verses,
            };
        }
        j += 1;
    }
    proof {
        lemma_first_row_of_none(rows@, name@);
    }
    BookStats {
        book: String::from_str(name),
        mature_passages: 0,
        young_passages: 0,
        unseen_passages: 0,
        suspended_passages: 0,
        mature_verses: 0,
        young_verses: 0,
        unseen_verses: 0,
        suspended_verses: 0,
    }
}

/// One entry per name of `names`, in that order, each with the counts that
/// `rows` give for that book (zeros for a book without a row).
pub fn books_in_order(names: &Vec<&str>, rows: &Vec<BookStats>) -> (r: Vec<BookStats>)
    ensures
        r@.len() == names@.len(),
        forall|i: int| 0 <= i < r@.len() ==> (#[trigger] r@[i]).book@ == names@[i]@,
        forall|i: int, k: int|
            0 <= i < r@.len() && is_count_index(k) ==> #[trigger] r@[i].count(k) == row_count(
                rows@,
                names@[i]@,
                k,
            ),
{
    let mut out: Vec<BookStats> = Vec::new();
    let mut i: usize = 0;
    while i < names.len()
        invariant
            i <= names@.len(),
            out@.len() == i,
            forall|m: int| 0 <= m < i ==> (#[trigger] out@[m]).book@ == names@[m]@,
            forall|m: int, k: int|
                0 <= m < i && is_count_index(k) ==> #[trigger] out@[m].count(k) == row_count(
                    rows@,
                    names@[m]@,
                    k,
                ),
        decreases names@.len() - i,
    {
        let s = stats_of_book(names[i], rows);
        out.push(s);
        i += 1;
    }
    out
}

/// Adds the books of `books`, in order, to `agg`.
fn add_books(agg: &mut AggregateStats, books: Vec<BookStats>)
    requires
        old(agg).is_consistent(),
        running_sums_fit(old(agg).book_stats@, books@),
    ensures
        final(agg).label == old(agg).label,
        final(agg).book_stats@ == old(agg).book_stats@ + books@,
        final(agg).is_consistent(),
{
    let mut rest = books;
    let ghost start = agg.book_stats@;
    proof {
        assert(start + books@ =~= agg.book_stats@ + rest@);
    }
    while rest.len() > 0
        invariant
            agg.is_consistent(),
            agg.label == old(agg).label,
            agg.book_stats@ + rest@ == start + books@,
            running_sums_fit(agg.book_stats@, rest@),
        decreases rest@.len(),
    {
        let ghost prev_books = agg.book_stats@;
        let ghost prev_rest = rest@;
        let b = rest.remove(0);
        proof {
            assert(prev_books + prev_rest.subrange(0, 1) =~= prev_books.push(b));
            assert(prev_books.push(b).drop_last() =~= prev_books);
            assert forall|k: int| is_count_index(k) implies i64::MIN <= #[trigger] agg.count(k)
                + b.count(k) <= i64::MAX by {
                assert(i64::MIN <= sum_count(prev_books + prev_rest.subrange(0, 1), k)
                    <= i64::MAX);
            }
        }
        agg.add_book(b);
        proof {
            assert(agg.book_stats@ + rest@ =~= prev_books + prev_rest);
            assert forall|i: int, k: int|
                0 < i <= rest@.len() && is_count_index(k) implies i64::MIN <= #[trigger] sum_count(
                agg.book_stats@ + rest@.subrange(0, i),
                k,
            ) <= i64::MAX by {
                assert(agg.book_stats@ + rest@.subrange(0, i) =~= prev_books
                    + prev_rest.subrange(0, i + 1));
                assert(i64::MIN <= sum_count(prev_books + prev_rest.subrange(0, i + 1), k)
                    <= i64::MAX);
            }
        }
    }
    proof {
        assert(agg.book_stats@ + rest@ =~= agg.book_stats@);
    }
}

/// The whole-Bible report from the statistics of each book of the Old and of
/// the New Testament, each list in canonical order.
pub fn get_bible_stats(old_books: Vec<BookStats>, new_books: Vec<BookStats>) -> (r: BibleStats)
    requires
        running_sums_fit(Seq::empty(), old_books@),
        running_sums_fit(Seq::empty(), new_books@),
    ensures
        r.old_testament.label@ == "Old Testament"@,
        r.new_testament.label@ == "New Testament"@,
        r.old_testament.book_stats@ == old_books@,
        r.new_testament.book_stats@ == new_books@,
        r.is_consistent(),
{
    let mut stats = BibleStats::new();
    proof {
        assert(stats.old_testament.book_stats@ =~= Seq::<BookStats>::empty());
        assert(stats.new_testament.book_stats@ =~= Seq::<BookStats>::empty());
    }
    let ghost ob = old_books@;
    let ghost nb = new_books@;
    add_books(&mut stats.old_testament, old_books);
    add_books(&mut stats.new_testament, new_books);
    proof {
        assert(Seq::<BookStats>::empty() + ob =~= ob);
        assert(Seq::<BookStats>::empty() + nb =~= nb);
    }
    stats
}

} // verus!
