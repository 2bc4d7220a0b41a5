//! Text forms of the statistics, for tables.
use vstd::prelude::*;
use vstd::string::*;

use crate::models::BookStats;

verus! {

/// The decimal digit `d`.
pub open spec fn digit_char(d: int) -> char {
    "0123456789"@[d]
}

/// The decimal digits of `n`, without leading zeros.
pub open spec fn decimal_digits(n: nat) -> Seq<char>
    decreases n,
{
    if n < 10 {
        seq![digit_char(n as int)]
    } else {
        decimal_digits(n / 10) + seq![digit_char((n % 10) as int)]
    }
}

/// `v` written in decimal, with a leading minus sign where it is negative.
pub open spec fn decimal_text_of(v: int) -> Seq<char> {
    if v < 0 {
        seq!['-'] + decimal_digits((-v) as nat)
    } else {
        decimal_digits(v as nat)
    }
}

/// Appends the decimal digits of `n` to `out`.
fn push_digits(out: &mut String, n: u64)
    ensures
        final(out)@ == old(out)@ + decimal_digits(n as nat),
    decreases n,
{
    if n >= 10 {
        push_digits(out, n / 10);
    }
    let d = (n % 10) as usize;
    let digits = "0123456789";
    proof {
        reveal_strlit("0123456789");
    }
    let ghost before = out@;
    out.append(digits.substring_char(d, d + 1));
    proof {
        assert(digits@.subrange(d as int, d + 1) =~= seq![digit_char(d as int)]);
        if n >= 10 {
            assert(decimal_digits(n as nat) == decimal_digits((n / 10) as nat) + seq![digit_char(
                d as int,
            )]);
            assert(out@ =~= old(out)@ + decimal_digits(n as nat));
        } else {
            assert(out@ =~= old(out)@ + decimal_digits(n as nat));
        }
    }
}

/// `v` written in decimal.
pub fn decimal_text(v: i64) -> (r: String)
    ensures
        r@ == decimal_text_of(v as int),
{
    let mut out = String::new();
    if v < 0 {
        out.append("-");
        proof {
            reveal_strlit("-");
        }
        let magnitude = (-(v as i128)) as u64;
        push_digits(&mut out, magnitude);
        assert(out@ =~= seq!['-'] + decimal_digits((-v) as nat));
    } else {
        push_digits(&mut out, v as u64);
        assert(out@ =~= decimal_digits(v as nat));
    }
    out
}

/// "passages / verses", the form in which a table shows a pair of counts.
pub open spec fn count_pair_text(passages: int, verses: int) -> Seq<char> {
    decimal_text_of(passages) + " / "@ + decimal_text_of(verses)
}

fn count_pair(passages: i64, verses: i64) -> (r: String)
    ensures
        r@ == count_pair_text(passages as int, verses as int),
{
    let mut out = decimal_text(passages);
    out.append(" / ");
    let v = decimal_text(verses);
    out.append(v.as_str());
    out
}

/// A row of the per-book table: each state shows "passages / verses".
#[derive(Debug)]
pub struct BookStatsDisplay {
    pub book: String,
    pub mature: String,
    pub young: String,
    pub unseen: String,
    pub suspended: String,
}

impl BookStatsDisplay {
    /// The table row of a book.
    pub fn from_stats(stats: &BookStats) -> (r: Self)
        ensures
            r.book@ == stats.book@,
            r.mature@ == count_pair_text(stats.mature_passages as int, stats.mature_verses as int),
            r.young@ == count_pair_text(stats.young_passages as int, stats.young_verses as int),
            r.unseen@ == count_pair_text(stats.unseen_passages as int, stats.unseen_verses as int),
            r.suspended@ == count_pair_text(
                stats.suspended_passages as int,
                stats.suspended_verses as int,
            ),
    {
        BookStatsDisplay {
            book: stats.book.clone(),
            mature: count_pair(stats.mature_passages, stats.mature_verses),
            young: count_pair(stats.young_passages, stats.young_verses),
            unseen: count_pair(stats.unseen_passages, stats.unseen_verses),
            suspended: count_pair(stats.suspended_passages, stats.suspended_verses),
        }
    }
}

} // verus!
