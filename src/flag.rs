//! The validity flag shared by the checks of one run.

use vstd::prelude::*;

verus! {

/// The flag after `results` were recorded one after another, starting from
/// `start`.
pub open spec fn recorded(start: bool, results: Seq<bool>) -> bool
    decreases results.len(),
{
    if results.len() == 0 {
        start
    } else {
        recorded(start, results.drop_last()) && results.last()
    }
}

/// Starts true and turns false, for good, once a failed check is recorded.
#[derive(Clone, Copy, Debug)]
pub struct ValidityFlag {
    valid: bool,
}

impl View for ValidityFlag {
    type V = bool;

    closed spec fn view(&self) -> bool {
        self.valid
    }
}

impl ValidityFlag {
    /// A flag on which nothing has failed yet.
    pub fn new() -> (r: Self)
        ensures
            r@,
    {
        ValidityFlag { valid: true }
    }

    /// Records the outcome of one group check.
    pub fn record(&mut self, group_ok: bool)
        ensures
            final(self)@ == (old(self)@ && group_ok),
    {
        if !group_ok {
            self.valid = false;
        }
    }

    /// Whether every outcome recorded so far was a pass.
    pub fn is_valid(&self) -> (r: bool)
        ensures
            r == self@,
    {
        self.valid
    }
}

} // verus!
