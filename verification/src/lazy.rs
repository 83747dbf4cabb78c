//! The cell: a slot and the guard that serialises its one initialisation.

use crate::state::State;
use vstd::prelude::*;

verus! {

/// A lazily initialised cell.
///
/// `_cell` is the slot and `_lock` the guard: `false` is free, `true` is
/// claimed. The guard is claimed by the one access that goes on to run the
/// producer, and it is never freed again. `runs` counts the calls of the
/// producer that this cell has made.
#[verifier::reject_recursive_types(T)]
pub struct Lazy<T: Sync + 'static, F: Fn() -> T> {
    pub _cell: State<T, F>,
    pub _lock: bool,
    pub runs: Ghost<nat>,
}

impl<T: Sync + 'static, F: Fn() -> T> Lazy<T, F> {
    /// The states that a cell passes through: the producer may be called for
    /// as long as it is held, a value is only ever stored under a claimed
    /// guard, and the producer has run once if there is a value and never if
    /// there is none.
    pub open spec fn wf(self) -> bool {
        &&& self._cell.callable()
        &&& self._cell is Initialized ==> self._lock
        &&& self.runs@ == if self._cell is Initialized { 1nat } else { 0nat }
    }

    /// The constructed value, if there is one.
    pub open spec fn value(self) -> Option<T> {
        self._cell.value()
    }

    /// The cell as it is declared: it holds the producer, its guard is free,
    /// and nothing has run.
    pub open spec fn fresh(self) -> bool {
        &&& self._cell is NotInitialized
        &&& !self._lock
        &&& self.runs@ == 0
    }

    /// The guard is claimed and there is no value yet: the producer is
    /// running, or it was started and never came back. An access that finds
    /// the cell so cannot go on.
    pub open spec fn contended(self) -> bool {
        self._cell is NotInitialized && self._lock
    }

    /// The cell after a swap of its guard.
    pub open spec fn claimed(self) -> Self {
        Lazy { _lock: true, ..self }
    }

    /// `post` is a cell that the holder of the guard can leave behind when it
    /// fills the slot. A cell with a value is not touched. In a cell without
    /// one the slot is filled, the guard is left as it is, and the call of the
    /// producer is counted.
    pub open spec fn produced(self, post: Self) -> bool {
        match self._cell {
            State::Initialized(_) => post == self,
            State::NotInitialized(_) => {
                &&& self._cell.filled(post._cell)
                &&& post._lock == self._lock
                &&& post.runs@ == self.runs@ + 1
            },
        }
    }

    /// `post` is a cell that one whole access to `self` can leave behind. A
    /// cell with a value is not touched at all. A cell without one must have
    /// its guard free; the access claims it and fills the slot.
    pub open spec fn forced(self, post: Self) -> bool {
        match self._cell {
            State::Initialized(_) => post == self,
            State::NotInitialized(_) => !self._lock && self.claimed().produced(post),
        }
    }

    /// Declares a cell with its producer. The producer is not run.
    pub fn new(producer: F) -> (cell: Self)
        requires
            call_requires(producer, ()),
        ensures
            cell._cell == State::<T, F>::NotInitialized(producer),
            cell.fresh(),
            cell.wf(),
    {
        Lazy { _cell: State::NotInitialized(producer), _lock: false, runs: Ghost(0) }
    }

    /// Reads the cell: a reference to the value, or `None` while there is
    /// none. The guard is not touched and nothing is run.
    pub fn get(&self) -> (r: Option<&T>)
        ensures
            r is Some <==> self._cell is Initialized,
            r matches Some(v) ==> self.value() == Some(*v),
    {
        self._cell.get()
    }

    /// Swaps the guard: sets it to claimed and returns what it was. `false`
    /// tells the caller that it has won the guard and must fill the slot;
    /// `true` that the guard was taken before.
    pub fn claim(&mut self) -> (prev: bool)
        ensures
            prev == old(self)._lock,
            *final(self) == old(self).claimed(),
    {
        let prev = self._lock;
        self._lock = true;
        prev
    }

    /// Fills the slot. This is for the holder of the guard alone.
    pub fn fill(&mut self)
        requires
            old(self).wf(),
            old(self)._lock,
        ensures
            final(self).wf(),
            old(self).produced(*final(self)),
    {
        if self._cell.get().is_none() {
            self._cell.fill();
            self.runs = Ghost(self.runs@ + 1);
        }
    }

    /// One attempt at an access. Returns the value, constructing it first if
    /// the cell has none and its guard is free. Returns `None`, and leaves the
    /// cell as it is, if the cell is contended: the caller may then try again
    /// later or give up.
    pub fn try_deref(&mut self) -> (r: Option<&T>)
        requires
            old(self).wf(),
        ensures
            final(self).wf(),
            r is None <==> old(self).contended(),
            old(self).contended() ==> *final(self) == *old(self),
            !old(self).contended() ==> old(self).forced(*final(self)),
            r matches Some(v) ==> final(self).value() == Some(*v),
    {
        if self._cell.get().is_none() {
            if self.claim() {
                return None;
            }
            self.fill();
        }
        self._cell.get()
    }

    /// An access: returns the value, constructing it first if the cell has
    /// none. The cell must not be contended, as the access could then never
    /// come back with a value.
    pub fn deref(&mut self) -> (r: &T)
        requires
            old(self).wf(),
            !old(self).contended(),
        ensures
            final(self).wf(),
            old(self).forced(*final(self)),
            final(self).value() == Some(*r),
    {
        if self._cell.get().is_none() {
            // The guard is free, so this swap wins it.
            self.claim();
            self.fill();
        }
        self._cell.get().unwrap()
    }
}

/// Forces the cell now, so that a later access finds the value ready.
pub fn initialize<T: Sync + 'static, F: Fn() -> T>(t: &mut Lazy<T, F>)
    requires
        old(t).wf(),
        !old(t).contended(),
    ensures
        final(t).wf(),
        old(t).forced(*final(t)),
{
    let _ = t.deref();
}

/// The first access runs the producer, and after any access the producer
/// has run exactly once: the cell holds a value, which is one that the
/// producer can return, and its guard is claimed.
pub proof fn access_runs_producer_once<T: Sync + 'static, F: Fn() -> T>(
    pre: Lazy<T, F>,
    post: Lazy<T, F>,
)
    requires
        pre.wf(),
        pre.forced(post),
    ensures
        post.wf(),
        post.runs@ == 1,
        post._lock,
        post._cell is Initialized,
        pre._cell matches State::NotInitialized(f) ==> pre.runs@ == 0 && call_ensures(
            f,
            (),
            post._cell->Initialized_0,
        ),
{
}

/// An access to a cell that has its value does not run the producer again
/// and changes neither the value nor anything else in the cell.
pub proof fn access_after_initialization_changes_nothing<T: Sync + 'static, F: Fn() -> T>(
    pre: Lazy<T, F>,
    post: Lazy<T, F>,
)
    requires
        pre._cell is Initialized,
        pre.forced(post),
    ensures
        post == pre,
{
}

/// Forcing a cell and then accessing it comes to the same as accessing it
/// alone. The access finds the value that the force stored and leaves the cell
/// as the force left it, so the producer is not run a second time; and what
/// the two do to the cell together, one access could have done by itself.
pub proof fn force_then_access_is_one_access<T: Sync + 'static, F: Fn() -> T>(
    pre: Lazy<T, F>,
    mid: Lazy<T, F>,
    post: Lazy<T, F>,
)
    requires
        pre.forced(mid),
        mid.forced(post),
    ensures
        post == mid,
        pre.forced(post),
{
}

} // verus!
