//! Interfaces to the platform keyboard backends.
//!
//! Exactly one concrete backend exists per target platform; it lives outside
//! the verified library and hands keys over as canonical [`Keycode`] values.

use vstd::prelude::*;

use crate::keycode::Keycode;

verus! {

/// A source of "which keys are down right now", implemented once per platform
/// by an unverified backend. Nothing can be promised about what a keyboard
/// reports, so the methods carry no contracts: callers must state what holds
/// of whatever `get_state` returns.
pub trait KeyboardState {
    /// Refresh the backend's snapshot of currently pressed keys.
    /// May block briefly on an OS call.
    fn poll(&mut self);

    /// The keys reported down by the most recent `poll`, translated to
    /// canonical keycodes.
    fn get_state(&self) -> Vec<Keycode>;
}

/// A key representation with a dense ordinal, suitable for indexing a
/// fixed-size lookup table.
pub trait KeycodeType {
    /// The ordinal as a mathematical value.
    spec fn spec_index(&self) -> int;

    /// Upper bound on the ordinals of all values of the type.
    spec fn spec_num_variants() -> int;

    /// Number of distinct values: the size a lookup table must have.
    fn num_variants() -> (n: usize)
        ensures
            n == Self::spec_num_variants(),
    ;

    /// The ordinal of this value, always below `num_variants()`.
    fn index(&self) -> (i: usize)
        ensures
            i == self.spec_index(),
            0 <= i < Self::spec_num_variants(),
    ;
}

} // verus!
