//! Memorization progress over consecutive periods (days or weeks).
use vstd::prelude::*;

verus! {

/// Net passages matured over the first `n` periods: those that reached a
/// mature interval less those that fell back from one.
pub open spec fn net_progress(matured: Seq<i64>, lost: Seq<i64>, n: int) -> int
    decreases n,
{
    if n <= 0 {
        0
    } else {
        net_progress(matured, lost, n - 1) + matured[n - 1] - lost[n - 1]
    }
}

/// Every running net progress fits in `i64`.
pub open spec fn progress_fits(matured: Seq<i64>, lost: Seq<i64>) -> bool {
    forall|n: int|
        0 < n <= matured.len() ==> i64::MIN <= #[trigger] net_progress(matured, lost, n)
            <= i64::MAX
}

/// The cumulative passages at the end of each period, from the passages that
/// matured and that were lost in each period, oldest period first.
pub fn cumulative_progress(matured: &Vec<i64>, lost: &Vec<i64>) -> (r: Vec<i64>)
    requires
        matured@.len() == lost@.len(),
        progress_fits(matured@, lost@),
    ensures
        r@.len() == matured@.len(),
        forall|i: int| 0 <= i < r@.len() ==> #[trigger] r@[i] == net_progress(matured@, lost@, i + 1),
{
    let mut out: Vec<i64> = Vec::new();
    let mut cumulative: i64 = 0;
    let mut i: usize = 0;
    while i < matured.len()
        invariant
            matured@.len() == lost@.len(),
            progress_fits(matured@, lost@),
            i <= matured@.len(),
            out@.len() == i,
            cumulative == net_progress(matured@, lost@, i as int),
            forall|m: int| 0 <= m < i ==> #[trigger] out@[m] == net_progress(matured@, lost@, m + 1),
        decreases matured@.len() - i,
    {
        assert(i64::MIN <= net_progress(matured@, lost@, i + 1) <= i64::MAX);
        let next: i128 = cumulative as i128 + matured[i] as i128 - lost[i] as i128;
        cumulative = next as i64;
        out.push(cumulative);
        i += 1;
    }
    out
}

} // verus!
