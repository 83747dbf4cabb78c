//! The slot of a lazy cell.

use vstd::prelude::*;

verus! {

/// What a slot holds: the value, once it has been constructed, and until then
/// the producer that will construct it.
#[verifier::reject_recursive_types(T)]
pub enum State<T: Sync + 'static, F: Fn() -> T> {
    Initialized(T),
    NotInitialized(F),
}

impl<T: Sync + 'static, F: Fn() -> T> State<T, F> {
    /// The constructed value, if there is one.
    pub open spec fn value(self) -> Option<T> {
        match self {
            State::Initialized(v) => Some(v),
            State::NotInitialized(_) => None,
        }
    }

    /// A producer that is still held may be called.
    pub open spec fn callable(self) -> bool {
        self matches State::NotInitialized(f) ==> call_requires(f, ())
    }

    /// `post` is a slot that filling `self` can leave behind: a slot that holds
    /// a value keeps it, and a slot that holds a producer comes to hold one of
    /// the values that a call of the producer can return.
    pub open spec fn filled(self, post: Self) -> bool {
        match self {
            State::Initialized(_) => post == self,
            State::NotInitialized(f) => post matches State::Initialized(v) && call_ensures(
                f,
                (),
                v,
            ),
        }
    }

    /// Reads the slot: a reference to the value, or `None` while the slot
    /// still holds the producer. Nothing is run and nothing changes.
    pub fn get(&self) -> (r: Option<&T>)
        ensures
            r is Some <==> self is Initialized,
            r matches Some(v) ==> self.value() == Some(*v),
    {
        match self {
            State::Initialized(v) => Some(v),
            State::NotInitialized(_) => None,
        }
    }

    /// Runs the producer, if the slot still holds it, and stores the result in
    /// its place. A slot that holds a value is left as it is.
    pub fn fill(&mut self)
        requires
            old(self).callable(),
        ensures
            old(self).filled(*final(self)),
    {
        match &*self {
            State::Initialized(_) => {},
            State::NotInitialized(f) => {
                let v = f();
                *self = State::Initialized(v);
            },
        }
    }
}

} // verus!
