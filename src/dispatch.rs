//! Aggregation of the outcomes of all fetch units.
//!
//! Units finish in any order. The dispatch succeeds once every unit has
//! succeeded, and fails as soon as one unit gives up; reports that arrive after
//! the verdict are ignored, and the units still running are left to run out.

use vstd::prelude::*;

verus! {

/// The overall result so far.
#[derive(Clone, Copy, Debug, PartialEq, Eq, Structural)]
pub enum Verdict {
    /// Some unit has not reported yet.
    Pending,
    /// Every unit succeeded.
    AllSucceeded,
    /// This unit was the first to give up.
    Failed(usize),
}

/// Abstract state: which units have succeeded, and the verdict.
pub struct DispatchView {
    pub succeeded: Seq<bool>,
    pub verdict: Verdict,
}

/// Number of units that have not succeeded.
pub open spec fn count_pending(s: Seq<bool>) -> nat
    decreases s.len(),
{
    if s.len() == 0 {
        0
    } else {
        count_pending(s.drop_last()) + if s.last() { 0nat } else { 1nat }
    }
}

pub open spec fn all_true(s: Seq<bool>) -> bool {
    forall|i: int| 0 <= i < s.len() ==> #[trigger] s[i]
}

impl DispatchView {
    /// The state before any report, for `units` units.
    pub open spec fn initial(units: nat) -> DispatchView {
        DispatchView {
            succeeded: Seq::new(units, |_i: int| false),
            verdict: if units == 0 { Verdict::AllSucceeded } else { Verdict::Pending },
        }
    }

    pub open spec fn wf(self) -> bool {
        match self.verdict {
            Verdict::Pending => !all_true(self.succeeded),
            Verdict::AllSucceeded => all_true(self.succeeded),
            Verdict::Failed(_) => true,
        }
    }

    /// The state after unit `unit` reports success (`ok`) or giving up.
    pub open spec fn after_report(self, unit: nat, ok: bool) -> DispatchView {
        if self.verdict != Verdict::Pending {
            self
        } else if !ok {
            DispatchView { verdict: Verdict::Failed(unit as usize), ..self }
        } else {
            let s = self.succeeded.update(unit as int, true);
            DispatchView {
                succeeded: s,
                verdict: if all_true(s) { Verdict::AllSucceeded } else { Verdict::Pending },
            }
        }
    }

    /// The state after the reports `rs`, in order, each a unit and whether it succeeded.
    pub open spec fn after_reports(self, rs: Seq<(nat, bool)>) -> DispatchView
        decreases rs.len(),
    {
        if rs.len() == 0 {
            self
        } else {
            self.after_reports(rs.drop_last()).after_report(rs.last().0, rs.last().1)
        }
    }
}

proof fn lemma_count_zero(s: Seq<bool>)
    ensures
        (count_pending(s) == 0) == all_true(s),
    decreases s.len(),
{
    if s.len() > 0 {
        lemma_count_zero(s.drop_last());
        if all_true(s) {
            assert forall|i: int| 0 <= i < s.drop_last().len() implies #[trigger] s.drop_last()[i] by {
                assert(s[i]);
            }
        } else if count_pending(s) == 0 {
            assert forall|i: int| 0 <= i < s.len() implies #[trigger] s[i] by {
                if i < s.len() - 1 {
                    assert(s.drop_last()[i]);
                }
            }
        }
    }
}

proof fn lemma_count_update(s: Seq<bool>, i: int)
    requires
        0 <= i < s.len(),
        !s[i],
    ensures
        count_pending(s.update(i, true)) + 1 == count_pending(s),
    decreases s.len(),
{
    let t = s.update(i, true);
    if i == s.len() - 1 {
        assert(t.drop_last() =~= s.drop_last());
    } else {
        lemma_count_update(s.drop_last(), i);
        assert(t.drop_last() =~= s.drop_last().update(i, true));
    }
}

/// The dispatcher's bookkeeping.
pub struct Dispatch {
    succeeded: Vec<bool>,
    pending: usize,
    verdict: Verdict,
}

impl View for Dispatch {
    type V = DispatchView;

    closed spec fn view(&self) -> DispatchView {
        DispatchView { succeeded: self.succeeded@, verdict: self.verdict }
    }
}

impl Dispatch {
    pub closed spec fn wf(&self) -> bool {
        &&& self@.wf()
        &&& self.pending == count_pending(self.succeeded@)
    }

    /// Bookkeeping for `units` units, none of which has reported. With no unit
    /// at all, the dispatch has succeeded at once.
    pub fn new(units: usize) -> (r: Dispatch)
        ensures
            r.wf(),
            r@.wf(),
            r@ == DispatchView::initial(units as nat),
    {
        let mut succeeded: Vec<bool> = Vec::new();
        let mut i: usize = 0;
        while i < units
            invariant
                i <= units,
                succeeded@ == Seq::new(i as nat, |_j: int| false),
                count_pending(succeeded@) == i,
            decreases units - i,
        {
            proof {
                assert(succeeded@.push(false).drop_last() =~= succeeded@);
            }
            succeeded.push(false);
            i = i + 1;
            assert(succeeded@ =~= Seq::new(i as nat, |_j: int| false));
        }
        proof {
            lemma_count_zero(succeeded@);
            if units > 0 {
                assert(!succeeded@[0]);
            }
        }
        let verdict = if units == 0 { Verdict::AllSucceeded } else { Verdict::Pending };
        Dispatch { succeeded, pending: units, verdict }
    }

    pub fn verdict(&self) -> (r: Verdict)
        ensures
            r == self@.verdict,
    {
        self.verdict
    }

    pub fn units(&self) -> (r: usize)
        ensures
            r == self@.succeeded.len(),
    {
        self.succeeded.len()
    }

    /// Records that `unit` succeeded (`ok`) or gave up, and returns the verdict.
    /// The first failure decides the dispatch; once decided, later reports change nothing.
    pub fn report(&mut self, unit: usize, ok: bool) -> (r: Verdict)
        requires
            old(self).wf(),
            unit < old(self)@.succeeded.len(),
        ensures
            final(self).wf(),
            final(self)@.wf(),
            final(self)@ == old(self)@.after_report(unit as nat, ok),
            r == final(self)@.verdict,
    {
        if self.verdict != Verdict::Pending {
            return self.verdict;
        }
        if !ok {
            self.verdict = Verdict::Failed(unit);
            return self.verdict;
        }
        let ghost old_s = self.succeeded@;
        if !self.succeeded[unit] {
            proof {
                lemma_count_update(old_s, unit as int);
                lemma_count_zero(old_s);
            }
            self.succeeded.set(unit, true);
            self.pending = self.pending - 1;
        } else {
            assert(old_s.update(unit as int, true) =~= old_s);
        }
        proof {
            lemma_count_zero(self.succeeded@);
        }
        self.verdict = if self.pending == 0 { Verdict::AllSucceeded } else { Verdict::Pending };
        self.verdict
    }
}

proof fn lemma_prefix_of_failing_run(units: nat, rs: Seq<(nat, bool)>, k: int, m: int)
    requires
        0 <= k < rs.len(),
        !rs[k].1,
        forall|j: int| 0 <= j < rs.len() ==> #[trigger] rs[j].0 < units,
        forall|j: int| 0 <= j < rs.len() && j != k ==> #[trigger] rs[j].0 != rs[k].0,
        0 <= m <= rs.len(),
    ensures
        ({
            let w = DispatchView::initial(units).after_reports(rs.take(m));
            &&& w.succeeded.len() == units
            &&& m <= k ==> !w.succeeded[rs[k].0 as int] && w.verdict != Verdict::AllSucceeded
            &&& m > k ==> w.verdict is Failed
        }),
    decreases m,
{
    let u = rs[k].0 as int;
    let init = DispatchView::initial(units);
    if m == 0 {
        assert(rs.take(0) =~= Seq::<(nat, bool)>::empty());
        assert(!init.succeeded[u]);
        assert(!all_true(init.succeeded));
    } else {
        lemma_prefix_of_failing_run(units, rs, k, m - 1);
        assert(rs.take(m).drop_last() =~= rs.take(m - 1));
        assert(rs.take(m).last() == rs[m - 1]);
        let w = init.after_reports(rs.take(m - 1));
        let w2 = init.after_reports(rs.take(m));
        assert(w2 == w.after_report(rs[m - 1].0, rs[m - 1].1));
        if m - 1 < k && w.verdict == Verdict::Pending && rs[m - 1].1 {
            let s = w.succeeded.update(rs[m - 1].0 as int, true);
            assert(rs[m - 1].0 != rs[k].0);
            assert(!s[u]);
        }
    }
}

/// Aggregate failure: when at least one unit gives up, and that unit reports
/// only once, the dispatch ends failed whatever the other units report and in
/// whatever order the reports arrive.
pub proof fn lemma_any_failure_fails(units: nat, rs: Seq<(nat, bool)>, k: int)
    requires
        0 <= k < rs.len(),
        !rs[k].1,
        forall|j: int| 0 <= j < rs.len() ==> #[trigger] rs[j].0 < units,
        forall|j: int| 0 <= j < rs.len() && j != k ==> #[trigger] rs[j].0 != rs[k].0,
    ensures
        DispatchView::initial(units).after_reports(rs).verdict is Failed,
{
    lemma_prefix_of_failing_run(units, rs, k, rs.len() as int);
    assert(rs.take(rs.len() as int) =~= rs);
}

/// Success only when every unit succeeded: a dispatch that reports success has
/// seen every one of its units succeed.
pub proof fn lemma_success_needs_all(v: DispatchView)
    requires
        v.wf(),
        v.verdict == Verdict::AllSucceeded,
    ensures
        forall|i: int| 0 <= i < v.succeeded.len() ==> #[trigger] v.succeeded[i],
{
}

} // verus!
