//! Sizing the pool of workers that run test cases, and where a worker finds
//! a test case's input.

use vstd::prelude::*;
use crate::code_executor::push_u128;
use crate::text::{decimal, owned, push_str};

verus! {

/// The number of workers: four.
pub fn get_threads() -> (r: usize)
    ensures
        r == 4,
{
    4
}

/// The capacity of the queue of work: two items per worker.
pub fn queue_capacity() -> (r: usize)
    ensures
        r == 8,
{
    get_threads() * 2
}

/// `"/resources/{problem}/input_{test case}.in"`: a test case's input as the
/// sandbox sees it.
pub fn sandbox_input_file(problem_id: u32, test_case_id: &str) -> (r: String)
    ensures
        r@ == "/resources/"@ + decimal(problem_id as nat) + "/input_"@ + test_case_id@ + ".in"@,
{
    let mut s = owned("/resources/");
    push_u128(&mut s, problem_id as u128);
    push_str(&mut s, "/input_");
    push_str(&mut s, test_case_id);
    push_str(&mut s, ".in");
    s
}

} // verus!
