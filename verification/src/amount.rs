//! A monetary amount as a count of minor units.
//!
//! The integer count is the authoritative representation; the presentation
//! layer alone turns it into a major-unit value for display.

use vstd::prelude::*;

verus! {

/// A non-negative count of the smallest indivisible unit of value,
/// immutable once constructed.
#[derive(Debug, Clone, Copy, PartialEq, Eq, Structural)]
pub struct Amount(u64);

impl View for Amount {
    type V = u64;

    closed spec fn view(&self) -> u64 {
        self.0
    }
}

impl Amount {
    pub fn from_sat(satoshi: u64) -> (a: Amount)
        ensures
            a@ == satoshi,
    {
        Amount(satoshi)
    }

    pub fn to_sat(&self) -> (n: u64)
        ensures
            n == self@,
    {
        self.0
    }
}

} // verus!
