//! The access protocol under concurrency.
//!
//! Any number of execution contexts access one cell. An access is made of
//! steps, each of which reads or writes the cell once, and the steps of the
//! contexts interleave in any order. This module describes every such
//! interleaving and proves what holds in all of them: the producer runs at
//! most once, every access comes back with the same value, and a stored value
//! is never replaced.
//!
//! The steps are those of the cell's own operations: a read of the slot is
//! `Lazy::get`, a swap of the guard `Lazy::claim`, and the winner's store
//! `Lazy::fill`. Each step takes effect at once and is seen by every context
//! from then on.

use crate::lazy::Lazy;
use vstd::prelude::*;

verus! {

/// Where an execution context stands in its access.
pub enum Phase<T> {
    /// About to read the slot.
    Inspect,
    /// Has read a slot without a value, and is about to swap the guard.
    Claim,
    /// Has won the guard, and is about to run the producer and store the
    /// result.
    Produce,
    /// Has come back with a reference to this value.
    Done(T),
    /// Has found the guard taken in a mode without waiting, and has stopped.
    Failed,
}

impl<T> Phase<T> {
    /// The value that the context has come back with, if it has.
    pub open spec fn value(self) -> Option<T> {
        match self {
            Phase::Done(v) => Some(v),
            _ => None,
        }
    }
}

/// One cell and the contexts that access it. `yields` is the mode: a context
/// that finds the guard taken starts over when it is set, and stops when it is
/// not.
#[verifier::reject_recursive_types(T)]
pub struct Race<T: Sync + 'static, F: Fn() -> T> {
    pub cell: Lazy<T, F>,
    pub phases: Seq<Phase<T>>,
    pub yields: bool,
}

impl<T: Sync + 'static, F: Fn() -> T> Race<T, F> {
    /// Context `i` is one of the contexts.
    pub open spec fn has(self, i: int) -> bool {
        0 <= i < self.phases.len()
    }

    /// The beginning: a cell as it is declared, and every context at the
    /// start of its first access.
    pub open spec fn started(self) -> bool {
        &&& self.cell.fresh()
        &&& self.cell.wf()
        &&& forall|i: int| self.has(i) ==> (#[trigger] self.phases[i]) is Inspect
    }

    /// Where context `i` stands after its next step.
    pub open spec fn next_phase(self, i: int) -> Phase<T> {
        match self.phases[i] {
            Phase::Inspect => match self.cell.value() {
                Some(v) => Phase::Done(v),
                None => Phase::Claim,
            },
            Phase::Claim => if !self.cell._lock {
                Phase::Produce
            } else if self.yields {
                Phase::Inspect
            } else {
                Phase::Failed
            },
            Phase::Produce => Phase::Inspect,
            Phase::Done(_) => Phase::Inspect,
            Phase::Failed => Phase::Failed,
        }
    }

    /// `cell` is what the next step of context `i` can make of the cell.
    pub open spec fn next_cell(self, i: int, cell: Lazy<T, F>) -> bool {
        match self.phases[i] {
            Phase::Claim => cell == self.cell.claimed(),
            Phase::Produce => self.cell.produced(cell),
            _ => cell == self.cell,
        }
    }

    /// Context `i` takes one step from `self` to `post`. A context that has
    /// come back with the value may begin another access; one that has
    /// stopped takes no step.
    pub open spec fn step(self, i: int, post: Self) -> bool {
        &&& self.has(i)
        &&& self.phases[i] !is Failed
        &&& self.next_cell(i, post.cell)
        &&& post.phases == self.phases.update(i, self.next_phase(i))
        &&& post.yields == self.yields
    }

    /// What every interleaving keeps true.
    ///
    /// A context is in `Produce` only while the cell is contended, at most
    /// one context is, and whenever the cell is contended one is. A context
    /// that is `Done` holds the value of the slot. No context has stopped in
    /// the mode that waits.
    pub open spec fn safe(self) -> bool {
        &&& self.cell.wf()
        &&& forall|i: int|
            self.has(i) && (#[trigger] self.phases[i]) is Produce ==> self.cell.contended()
        &&& forall|i: int, j: int|
            self.has(i) && self.has(j) && (#[trigger] self.phases[i]) is Produce
                && (#[trigger] self.phases[j]) is Produce ==> i == j
        &&& self.cell.contended() ==> exists|i: int|
            self.has(i) && (#[trigger] self.phases[i]) is Produce
        &&& forall|i: int|
            self.has(i) && (#[trigger] self.phases[i]) is Done ==> self.cell.value()
                == self.phases[i].value()
        &&& forall|i: int|
            self.has(i) && (#[trigger] self.phases[i]) is Failed ==> !self.yields
    }

    /// What holds besides where there is one context only: it never finds
    /// the guard taken, and so it never stops.
    pub open spec fn alone(self) -> bool {
        &&& self.phases.len() == 1
        &&& self.phases[0] is Claim ==> !self.cell._lock
        &&& self.phases[0] !is Failed
    }
}

/// Some context takes a step from `trace[k]` to `trace[k + 1]`.
pub open spec fn advances<T: Sync + 'static, F: Fn() -> T>(trace: Seq<Race<T, F>>, k: int) -> bool {
    exists|i: int| #[trigger] trace[k].step(i, trace[k + 1])
}

/// `trace` is an interleaving: it begins with a cell as it is declared, and
/// each state comes from the one before by a step of some context.
pub open spec fn interleaving<T: Sync + 'static, F: Fn() -> T>(trace: Seq<Race<T, F>>) -> bool {
    &&& trace.len() > 0
    &&& trace[0].started()
    &&& forall|k: int| 0 <= k < trace.len() - 1 ==> #[trigger] advances(trace, k)
}

/// The beginning is safe.
pub proof fn lemma_started_is_safe<T: Sync + 'static, F: Fn() -> T>(r: Race<T, F>)
    requires
        r.started(),
    ensures
        r.safe(),
        r.phases.len() == 1 ==> r.alone(),
{
}

/// A step keeps a safe state safe, and keeps the number of contexts.
pub proof fn lemma_step_keeps_safe<T: Sync + 'static, F: Fn() -> T>(
    pre: Race<T, F>,
    i: int,
    post: Race<T, F>,
)
    requires
        pre.safe(),
        pre.step(i, post),
    ensures
        post.safe(),
        post.phases.len() == pre.phases.len(),
        pre.alone() ==> post.alone(),
{
    // Who is about to produce where the cell is contended afterwards: the
    // context that has just won the guard, or the one that was before.
    if post.cell.contended() {
        if pre.phases[i] is Claim && !pre.cell._lock {
            assert(post.has(i) && post.phases[i] is Produce);
        } else {
            let j = choose|j: int| pre.has(j) && (#[trigger] pre.phases[j]) is Produce;
            assert(post.has(j) && post.phases[j] is Produce);
        }
    }
}

/// A step leaves a cell that has a value exactly as it is, never frees a
/// claimed guard, and never lowers the count of the producer's runs.
pub proof fn lemma_step_keeps_value<T: Sync + 'static, F: Fn() -> T>(
    pre: Race<T, F>,
    i: int,
    post: Race<T, F>,
)
    requires
        pre.safe(),
        pre.step(i, post),
    ensures
        pre.cell._lock ==> post.cell._lock,
        pre.cell._cell is Initialized ==> post.cell == pre.cell,
        post.cell.runs@ >= pre.cell.runs@,
{
}

/// Every state of an interleaving is safe, and has as many contexts as the
/// first.
pub proof fn lemma_interleaving_is_safe<T: Sync + 'static, F: Fn() -> T>(
    trace: Seq<Race<T, F>>,
    k: int,
)
    requires
        interleaving(trace),
        0 <= k < trace.len(),
    ensures
        trace[k].safe(),
        trace[k].phases.len() == trace[0].phases.len(),
        trace[0].phases.len() == 1 ==> trace[k].alone(),
    decreases k,
{
    if k == 0 {
        lemma_started_is_safe(trace[0]);
    } else {
        lemma_interleaving_is_safe(trace, k - 1);
        assert(advances(trace, k - 1));
        let (pre, post) = (trace[k - 1], trace[k]);
        let i = choose|i: int| pre.step(i, post);
        lemma_step_keeps_safe(pre, i, post);
    }
}

/// Between two states of an interleaving a claimed guard stays claimed, a cell
/// that has a value stays exactly as it is, and the count of the producer's
/// runs does not fall.
pub proof fn lemma_interleaving_keeps_value<T: Sync + 'static, F: Fn() -> T>(
    trace: Seq<Race<T, F>>,
    k: int,
    l: int,
)
    requires
        interleaving(trace),
        0 <= k <= l < trace.len(),
    ensures
        trace[k].cell._lock ==> trace[l].cell._lock,
        trace[k].cell._cell is Initialized ==> trace[l].cell == trace[k].cell,
        trace[l].cell.runs@ >= trace[k].cell.runs@,
    decreases l - k,
{
    if k < l {
        lemma_interleaving_keeps_value(trace, k, l - 1);
        lemma_interleaving_is_safe(trace, l - 1);
        assert(advances(trace, l - 1));
        let (pre, post) = (trace[l - 1], trace[l]);
        let i = choose|i: int| pre.step(i, post);
        lemma_step_keeps_value(pre, i, post);
    }
}

/// However many contexts access the cell, and in whatever order their steps
/// fall, the producer has run at most once; and it has run exactly once as
/// soon as any access has come back.
pub proof fn producer_runs_once<T: Sync + 'static, F: Fn() -> T>(trace: Seq<Race<T, F>>, k: int)
    requires
        interleaving(trace),
        0 <= k < trace.len(),
    ensures
        trace[k].cell.runs@ <= 1,
        forall|i: int|
            trace[k].has(i) && (#[trigger] trace[k].phases[i]) is Done ==> trace[k].cell.runs@
                == 1,
{
    lemma_interleaving_is_safe(trace, k);
}

/// Every access comes back with the same value, whichever context made it
/// and whenever it did, and that value is the one in the slot.
pub proof fn all_see_one_value<T: Sync + 'static, F: Fn() -> T>(
    trace: Seq<Race<T, F>>,
    k: int,
    i: int,
    l: int,
    j: int,
)
    requires
        interleaving(trace),
        0 <= k < trace.len(),
        0 <= l < trace.len(),
        trace[k].has(i),
        trace[l].has(j),
        trace[k].phases[i] is Done,
        trace[l].phases[j] is Done,
    ensures
        trace[k].phases[i].value() == trace[l].phases[j].value(),
        trace[k].phases[i].value() == trace[k].cell.value(),
{
    lemma_interleaving_is_safe(trace, k);
    lemma_interleaving_is_safe(trace, l);
    if k <= l {
        lemma_interleaving_keeps_value(trace, k, l);
    } else {
        lemma_interleaving_keeps_value(trace, l, k);
    }
}

/// Once the slot holds a value, nothing that any context does changes the
/// cell again: the value stays, the guard stays claimed, and the producer is
/// not run another time.
pub proof fn value_never_changes<T: Sync + 'static, F: Fn() -> T>(
    trace: Seq<Race<T, F>>,
    k: int,
    l: int,
)
    requires
        interleaving(trace),
        0 <= k <= l < trace.len(),
        trace[k].cell._cell is Initialized,
    ensures
        trace[l].cell == trace[k].cell,
{
    lemma_interleaving_keeps_value(trace, k, l);
}

/// A guard that has been claimed is never freed.
pub proof fn guard_is_never_freed<T: Sync + 'static, F: Fn() -> T>(
    trace: Seq<Race<T, F>>,
    k: int,
    l: int,
)
    requires
        interleaving(trace),
        0 <= k <= l < trace.len(),
        trace[k].cell._lock,
    ensures
        trace[l].cell._lock,
{
    lemma_interleaving_keeps_value(trace, k, l);
}

/// At no time are two contexts at once about to run the producer. While one
/// is, the guard is claimed and the slot holds no value, so that no access
/// has come back: every other context is kept waiting for as long as the
/// producer takes, and for ever if it never returns.
pub proof fn one_producer_at_a_time<T: Sync + 'static, F: Fn() -> T>(
    trace: Seq<Race<T, F>>,
    k: int,
    i: int,
    j: int,
)
    requires
        interleaving(trace),
        0 <= k < trace.len(),
        trace[k].has(i),
        trace[k].has(j),
        trace[k].phases[i] is Produce,
    ensures
        trace[k].cell.contended(),
        trace[k].phases[j] is Produce ==> i == j,
        trace[k].phases[j] !is Done,
{
    lemma_interleaving_is_safe(trace, k);
}

/// A cell is contended only while some context is about to run the producer
/// and store the value.
pub proof fn contended_cell_has_its_producer<T: Sync + 'static, F: Fn() -> T>(
    trace: Seq<Race<T, F>>,
    k: int,
)
    requires
        interleaving(trace),
        0 <= k < trace.len(),
        trace[k].cell.contended(),
    ensures
        exists|i: int| trace[k].has(i) && (#[trigger] trace[k].phases[i]) is Produce,
{
    lemma_interleaving_is_safe(trace, k);
}

/// In the mode that waits no context ever stops: one that finds the guard
/// taken starts its access over.
pub proof fn waiting_context_never_stops<T: Sync + 'static, F: Fn() -> T>(
    trace: Seq<Race<T, F>>,
    k: int,
    i: int,
)
    requires
        interleaving(trace),
        0 <= k < trace.len(),
        trace[k].has(i),
        trace[k].yields,
    ensures
        trace[k].phases[i] !is Failed,
{
    lemma_interleaving_is_safe(trace, k);
}

/// A context that is alone with the cell never finds the guard taken, so it
/// never stops, in either mode.
pub proof fn lone_context_never_stops<T: Sync + 'static, F: Fn() -> T>(
    trace: Seq<Race<T, F>>,
    k: int,
)
    requires
        interleaving(trace),
        0 <= k < trace.len(),
        trace[0].phases.len() == 1,
    ensures
        trace[k].phases.len() == 1,
        trace[k].phases[0] !is Failed,
{
    lemma_interleaving_is_safe(trace, k);
}

/// A context that takes its steps without another context stepping in between
/// makes a forced access, as `Lazy::deref` does under exclusive access: on a
/// cell that has its value it is back after one step, and on a cell without
/// one, whose guard is free, after four, having claimed the guard and filled
/// the slot.
pub proof fn uninterrupted_access_is_forced<T: Sync + 'static, F: Fn() -> T>(
    i: int,
    r0: Race<T, F>,
    r1: Race<T, F>,
    r2: Race<T, F>,
    r3: Race<T, F>,
    r4: Race<T, F>,
)
    requires
        !r0.cell.contended(),
        r0.has(i),
        r0.phases[i] is Inspect,
        r0.step(i, r1),
        r0.cell._cell is NotInitialized ==> r1.step(i, r2) && r2.step(i, r3) && r3.step(i, r4),
    ensures
        r0.cell._cell is Initialized ==> r1.phases[i] is Done && r0.cell.forced(r1.cell),
        r0.cell._cell is NotInitialized ==> r4.phases[i] is Done && r0.cell.forced(r4.cell),
{
}

} // verus!
