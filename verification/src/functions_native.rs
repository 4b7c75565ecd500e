//! The function that the host provides.

use vstd::prelude::*;

verus! {

/// The native `clock()`: no arguments; the host answers with the number of
/// milliseconds since the Unix epoch.
#[derive(PartialEq, Eq, Structural, Clone, Copy, Debug)]
pub struct NativeClock {}

impl NativeClock {
    /// The number of arguments `clock` takes: none.
    pub fn arity(&self) -> (n: usize)
        ensures
            n == 0,
    {
        0
    }
}

} // verus!
