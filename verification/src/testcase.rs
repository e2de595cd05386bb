//! Where a problem's test cases are written on disk.

use vstd::prelude::*;
use crate::code_executor::push_u128;
use crate::text::{decimal, owned, push_str};

verus! {

/// `"./resources/{problem}"`: the problem's directory.
pub fn problem_directory(problem_id: u32) -> (r: String)
    ensures
        r@ == "./resources/"@ + decimal(problem_id as nat),
{
    let mut s = owned("./resources/");
    push_u128(&mut s, problem_id as u128);
    s
}

/// `"{dir}/input_{id}.in"`: a test case's input file, `id` being the test
/// case's identifier as text (a uuid in its hyphenated form).
pub fn input_file(dir: &str, test_case_id: &str) -> (r: String)
    ensures
        r@ == dir@ + "/input_"@ + test_case_id@ + ".in"@,
{
    let mut s = owned(dir);
    push_str(&mut s, "/input_");
    push_str(&mut s, test_case_id);
    push_str(&mut s, ".in");
    s
}

/// `"{dir}/output_{id}.out"`: a test case's expected output file, `id`
/// being the test case's identifier as text.
pub fn output_file(dir: &str, test_case_id: &str) -> (r: String)
    ensures
        r@ == dir@ + "/output_"@ + test_case_id@ + ".out"@,
{
    let mut s = owned(dir);
    push_str(&mut s, "/output_");
    push_str(&mut s, test_case_id);
    push_str(&mut s, ".out");
    s
}

} // verus!
