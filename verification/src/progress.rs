//! Progress arithmetic for the reporter that samples the completion
//! counter while a batch runs.

use vstd::prelude::*;

verus! {

/// The percentage the reporter shows for `done` of `total` candidates:
/// `floor(done * 100 / total)`, with an empty batch counted as complete.
pub open spec fn spec_progress_percent(done: int, total: int) -> int {
    if total == 0 {
        100
    } else {
        done * 100 / total
    }
}

/// Percentage of accounted candidates, rounded down; 100 for an empty
/// batch. The counter never passes the candidate count.
pub fn progress_percent(done: usize, total: usize) -> (p: usize)
    requires
        done <= total,
    ensures
        p == spec_progress_percent(done as int, total as int),
{
    if total == 0 {
        100
    } else {
        let wide: u128 = (done as u128) * 100 / (total as u128);
        proof {
            lemma_percent_bounded(done as int, total as int);
        }
        wide as usize
    }
}

/// A sample at or past the total reads as complete: once `done == total`,
/// the reporter's final update shows 100%.
pub proof fn lemma_complete_is_hundred(total: int)
    requires
        total >= 0,
    ensures
        spec_progress_percent(total, total) == 100,
{
    if total > 0 {
        assert(total * 100 / total == 100) by (nonlinear_arith)
            requires
                total > 0,
        ;
    }
}

/// A sample never reads past 100%: while `done` stays within the total,
/// the percentage stays within `[0, 100]`.
pub proof fn lemma_percent_bounded(done: int, total: int)
    requires
        0 <= done <= total,
    ensures
        0 <= spec_progress_percent(done, total) <= 100,
{
    if total > 0 {
        assert(0 <= done * 100 / total <= 100) by (nonlinear_arith)
            requires
                0 <= done <= total,
                total > 0,
        ;
    }
}

} // verus!
