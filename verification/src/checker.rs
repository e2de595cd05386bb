//! Checking a run with a testlib checker built in the playground, with the
//! test case's files written next to it.

use vstd::prelude::*;
use crate::command::ProgramCommand;
use crate::text::{owned, push_str};
use crate::types::{testlib_code, Status, TestLibExitCodes};

verus! {

/// `"{prefix}{id}{suffix}"`.
fn named(prefix: &str, id: &str, suffix: &str) -> (r: String)
    ensures
        r@ == prefix@ + id@ + suffix@,
{
    let mut s = owned(prefix);
    push_str(&mut s, id);
    push_str(&mut s, suffix);
    s
}

/// The three files written for a test case, as paths from the working
/// directory: the judge's input, the submission's output, the judge's output.
pub fn judge_files(test_case_id: &str) -> (r: (String, String, String))
    ensures
        r.0@ == "./playground/judge_input_"@ + test_case_id@ + ".in"@,
        r.1@ == "./playground/user_output_"@ + test_case_id@ + ".out"@,
        r.2@ == "./playground/judge_output_"@ + test_case_id@ + ".out"@,
{
    (
        named("./playground/judge_input_", test_case_id, ".in"),
        named("./playground/user_output_", test_case_id, ".out"),
        named("./playground/judge_output_", test_case_id, ".out"),
    )
}

/// The checker run in the playground on the three files.
pub fn checker_command(test_case_id: &str) -> (r: ProgramCommand)
    ensures
        r.program@ == "./checker"@,
        r.current_dir matches Some(d) && d@ == "./playground"@,
        r.args@.len() == 3,
        r.args@[0]@ == "judge_input_"@ + test_case_id@ + ".in"@,
        r.args@[1]@ == "user_output_"@ + test_case_id@ + ".out"@,
        r.args@[2]@ == "judge_output_"@ + test_case_id@ + ".out"@,
{
    let mut args: Vec<String> = Vec::new();
    args.push(named("judge_input_", test_case_id, ".in"));
    args.push(named("user_output_", test_case_id, ".out"));
    args.push(named("judge_output_", test_case_id, ".out"));
    ProgramCommand { program: owned("./checker"), args, current_dir: Some(owned("./playground")) }
}

/// The verdict the checker's exit code reports: accepted, wrong answer (also
/// for a format error), partial points, or an unknown error.
pub fn checker_status(code: Option<i32>) -> (r: Status)
    ensures
        code matches Some(c) && testlib_code(c) == Some(TestLibExitCodes::Accepted) ==> r
            == Status::Accepted,
        code matches Some(c) && (testlib_code(c) == Some(TestLibExitCodes::WrongAnswer) || testlib_code(c)
            == Some(TestLibExitCodes::FormatError)) ==> r == Status::WrongAnswer,
        code matches Some(c) && testlib_code(c) == Some(TestLibExitCodes::PartialExecution) ==> r
            == Status::PartialPoints,
        code matches Some(c) && testlib_code(c) is None ==> (r matches Status::UnknownError(m) && m@
            == "found ()"@),
        code is None ==> (r matches Status::UnknownError(m) && m@ == "testlib execution fails"@),
{
    match code {
        Some(c) => match TestLibExitCodes::from_exit_code(c) {
            Some(TestLibExitCodes::Accepted) => Status::Accepted,
            Some(TestLibExitCodes::WrongAnswer) => Status::WrongAnswer,
            Some(TestLibExitCodes::FormatError) => Status::WrongAnswer,
            Some(TestLibExitCodes::PartialExecution) => Status::PartialPoints,
            None => Status::UnknownError(owned("found ()")),
        },
        None => Status::UnknownError(owned("testlib execution fails")),
    }
}

} // verus!
