//! A lazily initialised cell: it starts out holding a producer, and the first
//! access that wins the cell's guard runs the producer and stores its value.
//!
//! * [`state`] is the slot, which holds either the producer or the value.
//! * [`lazy`] is the cell, a slot with its guard, and the access operations.
//! * [`race`] is the access protocol run by many execution contexts at once,
//!   with the proofs that the producer runs once and that all see one value.

pub mod lazy;
pub mod race;
pub mod state;

pub use lazy::initialize;
pub use lazy::Lazy;
pub use state::State;
