//! Memorization statistics per book, per testament, and for the whole Bible.
use vstd::prelude::*;
use vstd::string::*;

verus! {

/// The eight counts that each book, testament and report carries, by index:
/// mature, young, unseen and suspended passages (0 to 3), then mature,
/// young, unseen and suspended verses (4 to 7).
pub open spec fn is_count_index(k: int) -> bool {
    0 <= k < 8
}

/// Statistics for a single Bible book.
#[derive(Debug)]
pub struct BookStats {
    pub book: String,
    pub mature_passages: i64,
    pub young_passages: i64,
    pub unseen_passages: i64,
    pub suspended_passages: i64,
    pub mature_verses: i64,
    pub young_verses: i64,
    pub unseen_verses: i64,
    pub suspended_verses: i64,
}

impl BookStats {
    /// Count `k` of this book (see `is_count_index`).
    pub open spec fn count(&self, k: int) -> int {
        if k == 0 {
            self.mature_passages as int
        } else if k == 1 {
            self.young_passages as int
        } else if k == 2 {
            self.unseen_passages as int
        } else if k == 3 {
            self.suspended_passages as int
        } else if k == 4 {
            self.mature_verses as int
        } else if k == 5 {
            self.young_verses as int
        } else if k == 6 {
            self.unseen_verses as int
        } else {
            self.suspended_verses as int
        }
    }

    pub open spec fn passages_sum(&self) -> int {
        self.count(0) + self.count(1) + self.count(2) + self.count(3)
    }

    pub open spec fn verses_sum(&self) -> int {
        self.count(4) + self.count(5) + self.count(6) + self.count(7)
    }

    /// Passages of this book in all four states.
    pub fn total_passages(&self) -> (r: i64)
        requires
            i64::MIN <= self.passages_sum() <= i64::MAX,
        ensures
            r == self.passages_sum(),
    {
        sum4(self.mature_passages, self.young_passages, self.unseen_passages, self.suspended_passages)
    }

    /// Verses of this book in all four states.
    pub fn total_verses(&self) -> (r: i64)
        requires
            i64::MIN <= self.verses_sum() <= i64::MAX,
        ensures
            r == self.verses_sum(),
    {
        sum4(self.mature_verses, self.young_verses, self.unseen_verses, self.suspended_verses)
    }
}

/// `a + b + c + d`, where the sum fits in `i64` whatever its partial sums.
fn sum4(a: i64, b: i64, c: i64, d: i64) -> (r: i64)
    requires
        i64::MIN <= a + b + c + d <= i64::MAX,
    ensures
        r == a + b + c + d,
{
    let s: i128 = a as i128 + b as i128 + c as i128 + d as i128;
    s as i64
}

/// Sum of count `k` over `books`.
pub open spec fn sum_count(books: Seq<BookStats>, k: int) -> int
    decreases books.len(),
{
    if books.len() == 0 {
        0
    } else {
        sum_count(books.drop_last(), k) + books.last().count(k)
    }
}

/// Adding the books of `books` one after another keeps every running total in `i64`.
pub open spec fn running_sums_fit(start: Seq<BookStats>, books: Seq<BookStats>) -> bool {
    forall|i: int, k: int|
        0 < i <= books.len() && is_count_index(k) ==> i64::MIN <= #[trigger] sum_count(
            start + books.subrange(0, i),
            k,
        ) <= i64::MAX
}

/// Aggregated statistics for a collection of books.
#[derive(Debug)]
pub struct AggregateStats {
    pub label: String,
    pub mature_passages: i64,
    pub young_passages: i64,
    pub unseen_passages: i64,
    pub suspended_passages: i64,
    pub mature_verses: i64,
    pub young_verses: i64,
    pub unseen_verses: i64,
    pub suspended_verses: i64,
    pub book_stats: Vec<BookStats>,
}

impl AggregateStats {
    /// Count `k` of the aggregate (see `is_count_index`).
    pub open spec fn count(&self, k: int) -> int {
        if k == 0 {
            self.mature_passages as int
        } else if k == 1 {
            self.young_passages as int
        } else if k == 2 {
            self.unseen_passages as int
        } else if k == 3 {
            self.suspended_passages as int
        } else if k == 4 {
            self.mature_verses as int
        } else if k == 5 {
            self.young_verses as int
        } else if k == 6 {
            self.unseen_verses as int
        } else {
            self.suspended_verses as int
        }
    }

    /// Each total is the sum of that count over the books added.
    pub open spec fn is_consistent(&self) -> bool {
        forall|k: int| is_count_index(k) ==> #[trigger] self.count(k) == sum_count(self.book_stats@, k)
    }

    pub open spec fn passages_sum(&self) -> int {
        self.count(0) + self.count(1) + self.count(2) + self.count(3)
    }

    pub open spec fn verses_sum(&self) -> int {
        self.count(4) + self.count(5) + self.count(6) + self.count(7)
    }

    /// An empty aggregate under `label`.
    pub fn new(label: String) -> (r: Self)
        ensures
            r.label == label,
            r.book_stats@.len() == 0,
            forall|k: int| is_count_index(k) ==> #[trigger] r.count(k) == 0,
            r.is_consistent(),
    {
        AggregateStats {
            label,
            mature_passages: 0,
            young_passages: 0,
            unseen_passages: 0,
            suspended_passages: 0,
            mature_verses: 0,
            young_verses: 0,
            unseen_verses: 0,
            suspended_verses: 0,
            book_stats: Vec::new(),
        }
    }

    /// Adds a book's counts to the totals and the book to the list.
    pub fn add_book(&mut self, stats: BookStats)
        requires
            forall|k: int|
                is_count_index(k) ==> i64::MIN <= #[trigger] old(self).count(k) + stats.count(k)
                    <= i64::MAX,
        ensures
            final(self).label == old(self).label,
            final(self).book_stats@ == old(self).book_stats@.push(stats),
            forall|k: int|
                is_count_index(k) ==> #[trigger] final(self).count(k) == old(self).count(k)
                    + stats.count(k),
            old(self).is_consistent() ==> final(self).is_consistent(),
    {
        assert(is_count_index(0) && is_count_index(1) && is_count_index(2) && is_count_index(3));
        assert(is_count_index(4) && is_count_index(5) && is_count_index(6) && is_count_index(7));
        assert(i64::MIN <= old(self).count(0) + stats.count(0) <= i64::MAX);
        assert(i64::MIN <= old(self).count(1) + stats.count(1) <= i64::MAX);
        assert(i64::MIN <= old(self).count(2) + stats.count(2) <= i64::MAX);
        assert(i64::MIN <= old(self).count(3) + stats.count(3) <= i64::MAX);
        assert(i64::MIN <= old(self).count(4) + stats.count(4) <= i64::MAX);
        assert(i64::MIN <= old(self).count(5) + stats.count(5) <= i64::MAX);
        assert(i64::MIN <= old(self).count(6) + stats.count(6) <= i64::MAX);
        assert(i64::MIN <= old(self).count(7) + stats.count(7) <= i64::MAX);
        self.mature_passages = self.mature_passages + stats.mature_passages;
        self.young_passages = self.young_passages + stats.young_passages;
        self.unseen_passages = self.unseen_passages + stats.unseen_passages;
        self.suspended_passages = self.suspended_passages + stats.suspended_passages;
        self.mature_verses = self.mature_verses + stats.mature_verses;
        self.young_verses = self.young_verses + stats.young_verses;
        self.unseen_verses = self.unseen_verses + stats.unseen_verses;
        self.suspended_verses = self.suspended_verses + stats.suspended_verses;
        let ghost before = self.book_stats@;
        self.book_stats.push(stats);
        proof {
            assert(self.book_stats@.drop_last() =~= before);
        }
    }

    /// Passages of the aggregate in all four states.
    pub fn total_passages(&self) -> (r: i64)
        requires
            i64::MIN <= self.passages_sum() <= i64::MAX,
        ensures
            r == self.passages_sum(),
    {
        sum4(self.mature_passages, self.young_passages, self.unseen_passages, self.suspended_passages)
    }

    /// Verses of the aggregate in all four states.
    pub fn total_verses(&self) -> (r: i64)
        requires
            i64::MIN <= self.verses_sum() <= i64::MAX,
        ensures
            r == self.verses_sum(),
    {
        sum4(self.mature_verses, self.young_verses, self.unseen_verses, self.suspended_verses)
    }
}

/// Statistics of the Old and of the New Testament.
#[derive(Debug)]
pub struct BibleStats {
    pub old_testament: AggregateStats,
    pub new_testament: AggregateStats,
}

impl BibleStats {
    /// Count `k` over both testaments.
    pub open spec fn count(&self, k: int) -> int {
        self.old_testament.count(k) + self.new_testament.count(k)
    }

    /// Both testaments' totals are the sums over their books.
    pub open spec fn is_consistent(&self) -> bool {
        self.old_testament.is_consistent() && self.new_testament.is_consistent()
    }

    /// An empty report, with one aggregate per testament.
    pub fn new() -> (r: Self)
        ensures
            r.old_testament.label@ == "Old Testament"@,
            r.new_testament.label@ == "New Testament"@,
            r.old_testament.book_stats@.len() == 0,
            r.new_testament.book_stats@.len() == 0,
            forall|k: int| is_count_index(k) ==> #[trigger] r.count(k) == 0,
            r.is_consistent(),
    {
        let r = BibleStats {
            old_testament: AggregateStats::new(String::from_str("Old Testament")),
            new_testament: AggregateStats::new(String::from_str("New Testament")),
        };
        assert forall|k: int| is_count_index(k) implies #[trigger] r.count(k) == 0 by {
            assert(r.old_testament.count(k) == 0);
            assert(r.new_testament.count(k) == 0);
        }
        r
    }

    pub fn total_mature_passages(&self) -> (r: i64)
        requires
            i64::MIN <= self.count(0) <= i64::MAX,
        ensures
            r == self.count(0),
    {
        self.old_testament.mature_passages + self.new_testament.mature_passages
    }

    pub fn total_young_passages(&self) -> (r: i64)
        requires
            i64::MIN <= self.count(1) <= i64::MAX,
        ensures
            r == self.count(1),
    {
        self.old_testament.young_passages + self.new_testament.young_passages
    }

    pub fn total_unseen_passages(&self) -> (r: i64)
        requires
            i64::MIN <= self.count(2) <= i64::MAX,
        ensures
            r == self.count(2),
    {
        self.old_testament.unseen_passages + self.new_testament.unseen_passages
    }

    pub fn total_suspended_passages(&self) -> (r: i64)
        requires
            i64::MIN <= self.count(3) <= i64::MAX,
        ensures
            r == self.count(3),
    {
        self.old_testament.suspended_passages + self.new_testament.suspended_passages
    }

    /// Passages of both testaments in all four states.
    pub fn total_passages(&self) -> (r: i64)
        requires
            i64::MIN <= self.old_testament.passages_sum() <= i64::MAX,
            i64::MIN <= self.new_testament.passages_sum() <= i64::MAX,
            i64::MIN <= self.old_testament.passages_sum() + self.new_testament.passages_sum()
                <= i64::MAX,
        ensures
            r == self.old_testament.passages_sum() + self.new_testament.passages_sum(),
    {
        self.old_testament.total_passages() + self.new_testament.total_passages()
    }

    pub fn total_mature_verses(&self) -> (r: i64)
        requires
            i64::MIN <= self.count(4) <= i64::MAX,
        ensures
            r == self.count(4),
    {
        self.old_testament.mature_verses + self.new_testament.mature_verses
    }

    pub fn total_young_verses(&self) -> (r: i64)
        requires
            i64::MIN <= self.count(5) <= i64::MAX,
        ensures
            r == self.count(5),
    {
        self.old_testament.young_verses + self.new_testament.young_verses
    }

    pub fn total_unseen_verses(&self) -> (r: i64)
        requires
            i64::MIN <= self.count(6) <= i64::MAX,
        ensures
            r == self.count(6),
    {
        self.old_testament.unseen_verses + self.new_testament.unseen_verses
    }

    pub fn total_suspended_verses(&self) -> (r: i64)
        requires
            i64::MIN <= self.count(7) <= i64::MAX,
        ensures
            r == self.count(7),
    {
        self.old_testament.suspended_verses + self.new_testament.suspended_verses
    }

    /// Verses of both testaments in all four states.
    pub fn total_verses(&self) -> (r: i64)
        requires
            i64::MIN <= self.old_testament.verses_sum() <= i64::MAX,
            i64::MIN <= self.new_testament.verses_sum() <= i64::MAX,
            i64::MIN <= self.old_testament.verses_sum() + self.new_testament.verses_sum()
                <= i64::MAX,
        ensures
            r == self.old_testament.verses_sum() + self.new_testament.verses_sum(),
    {
        self.old_testament.total_verses() + self.new_testament.total_verses()
    }
}

impl Default for BibleStats {
    fn default() -> (r: Self)
        ensures
            r.old_testament.label@ == "Old Testament"@,
            r.new_testament.label@ == "New Testament"@,
            r.old_testament.book_stats@.len() == 0,
            r.new_testament.book_stats@.len() == 0,
            forall|k: int| is_count_index(k) ==> #[trigger] r.count(k) == 0,
            r.is_consistent(),
    {
        Self::new()
    }
}

/// The answer to a health probe.
#[derive(Debug)]
pub struct HealthCheck {
    pub status: String,
    pub service: String,
}

impl HealthCheck {
    pub fn new() -> (r: Self)
        ensures
            r.status@ == "ok"@,
            r.service@ == "anki-bible-stats"@,
    {
        HealthCheck { status: String::from_str("ok"), service: String::from_str("anki-bible-stats") }
    }
}

impl Default for HealthCheck {
    fn default() -> (r: Self)
        ensures
            r.status@ == "ok"@,
            r.service@ == "anki-bible-stats"@,
    {
        Self::new()
    }
}

} // verus!
