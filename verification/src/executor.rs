//! The first judge of submissions, kept beside the current one.

use vstd::prelude::*;

verus! {

/// The first judge of submissions; it holds nothing.
#[derive(Debug, PartialEq, Eq, Structural)]
pub struct ProblemExecutor;

impl ProblemExecutor {
    /// The judge.
    pub fn new() -> (r: ProblemExecutor)
        ensures
            r == ProblemExecutor,
    {
        ProblemExecutor
    }
}

impl Default for ProblemExecutor {
    fn default() -> (r: ProblemExecutor)
        ensures
            r == ProblemExecutor,
    {
        ProblemExecutor::new()
    }
}

} // verus!
