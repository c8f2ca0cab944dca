//! The analysis coordinator's bookkeeping: a completion counter and the
//! shared result collection. Workers run outside the library; each hands
//! back either a finished result or a failure, and this state records it.

use vstd::prelude::*;

use crate::report::AnalysisResult;

verus! {

/// Bookkeeping of one batch: how many candidates there are, how many have
/// been accounted for, how many of those failed, and the results of the
/// successful ones, in the order they were recorded.
pub struct Coordinator {
    pub total: usize,
    pub done: usize,
    pub failed: usize,
    pub results: Vec<AnalysisResult>,
}

/// The coordinator's invariant: the counter never passes the candidate
/// count, and every accounted candidate is either a result or a failure.
pub open spec fn spec_coordinator_wf(c: Coordinator) -> bool {
    &&& c.done <= c.total
    &&& c.results@.len() + c.failed == c.done
}

/// The results of the successful outcomes of `s`, in order.
pub open spec fn spec_successes(s: Seq<Option<AnalysisResult>>) -> Seq<AnalysisResult>
    decreases s.len(),
{
    if s.len() == 0 {
        Seq::empty()
    } else {
        match s.first() {
            Some(r) => seq![r] + spec_successes(s.drop_first()),
            None => spec_successes(s.drop_first()),
        }
    }
}

/// How many outcomes of `s` are failures.
pub open spec fn spec_failure_count(s: Seq<Option<AnalysisResult>>) -> int
    decreases s.len(),
{
    if s.len() == 0 {
        0
    } else {
        (match s.first() {
            Some(_) => 0int,
            None => 1int,
        }) + spec_failure_count(s.drop_first())
    }
}

impl Coordinator {
    /// Start a batch of `total` candidates: nothing accounted, no results.
    pub fn new(total: usize) -> (c: Coordinator)
        ensures
            spec_coordinator_wf(c),
            c.total == total,
            c.done == 0,
            c.failed == 0,
            c.results@ == Seq::<AnalysisResult>::empty(),
    {
        let c = Coordinator { total, done: 0, failed: 0, results: Vec::new() };
        proof {
            assert(c.results@ =~= Seq::<AnalysisResult>::empty());
        }
        c
    }

    /// Record one successfully analyzed candidate: the counter moves by
    /// one and the result is appended to the collection.
    pub fn record_success(&mut self, res: AnalysisResult)
        requires
            spec_coordinator_wf(*old(self)),
            old(self).done < old(self).total,
        ensures
            spec_coordinator_wf(*final(self)),
            final(self).total == old(self).total,
            final(self).done == old(self).done + 1,
            final(self).failed == old(self).failed,
            final(self).results@ == old(self).results@.push(res),
    {
        self.results.push(res);
        self.done += 1;
    }

    /// Record one failed candidate: the counter still moves by one, the
    /// collection gains nothing.
    pub fn record_failure(&mut self)
        requires
            spec_coordinator_wf(*old(self)),
            old(self).done < old(self).total,
        ensures
            spec_coordinator_wf(*final(self)),
            final(self).total == old(self).total,
            final(self).done == old(self).done + 1,
            final(self).failed == old(self).failed + 1,
            final(self).results@ == old(self).results@,
    {
        self.failed += 1;
        self.done += 1;
    }

    /// Whether every candidate has been accounted for.
    pub fn is_complete(&self) -> (r: bool)
        ensures
            r == (self.done == self.total),
    {
        self.done == self.total
    }
}

/// Account for a whole batch of per-candidate outcomes (`Some` a finished
/// result, `None` a failure), in the order given. Afterwards the counter
/// equals the batch size and the collection holds exactly the successes.
pub fn run_batch(outcomes: Vec<Option<AnalysisResult>>) -> (c: Coordinator)
    ensures
        spec_coordinator_wf(c),
        c.total == outcomes@.len(),
        c.done == c.total,
        c.failed == spec_failure_count(outcomes@),
        c.results@ == spec_successes(outcomes@),
{
    let ghost orig = outcomes@;
    let total = outcomes.len();
    let mut c = Coordinator::new(total);
    let mut v = outcomes;
    while v.len() > 0
        invariant
            spec_coordinator_wf(c),
            c.total == orig.len(),
            c.done + v@.len() == orig.len(),
            spec_successes(orig) == c.results@ + spec_successes(v@),
            spec_failure_count(orig) == c.failed + spec_failure_count(v@),
        decreases v.len(),
    {
        let ghost v_before = v@;
        let outcome = v.remove(0);
        proof {
            assert(v@ =~= v_before.drop_first());
        }
        match outcome {
            Some(res) => {
                c.record_success(res);
                proof {
                    assert(c.results@ + spec_successes(v@) =~= spec_successes(orig));
                }
            },
            None => {
                c.record_failure();
            },
        }
    }
    proof {
        assert(c.results@ + spec_successes(v@) =~= c.results@);
    }
    c
}

/// Accounting of a batch of K outcomes: the successes and the failures
/// partition it, so the result collection's size is K minus the number of
/// failures.
pub proof fn lemma_batch_accounting(s: Seq<Option<AnalysisResult>>)
    ensures
        spec_successes(s).len() + spec_failure_count(s) == s.len(),
        spec_failure_count(s) >= 0,
    decreases s.len(),
{
    if s.len() > 0 {
        lemma_batch_accounting(s.drop_first());
    }
}

} // verus!
