//! The native functions pre-defined in the globals frame: only `clock`.

use std::time::SystemTime;
use std::time::UNIX_EPOCH;
use vstd::prelude::*;

verus! {

/// The `clock()` builtin: no arguments; returns the whole seconds since
/// the Unix epoch as a number.
#[derive(Debug)]
pub struct Clock();

impl Clock {
    /// `clock` takes no arguments.
    pub fn arity(&self) -> (r: usize)
        ensures
            r == 0,
    {
        0
    }
}

/// Relies on `SystemTime::now`: the whole seconds since the Unix epoch at
/// the call, or zero before the epoch. Nothing is promised of the value.
#[verifier::external_body]
pub fn clock_seconds() -> u64 {
    match SystemTime::now().duration_since(UNIX_EPOCH) {
        Ok(elapsed) => elapsed.as_secs(),
        Err(_) => 0,
    }
}

} // verus!
