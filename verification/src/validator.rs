//! Checking a submission's output for one test case, with a testlib checker
//! or by literal comparison, and preparing the checker.

use vstd::prelude::*;
use crate::code_executor::{dec, push_u128, CodeExecutorError};
use crate::command::ProgramCommand;
use crate::configuration::LanguageBinary;
use crate::text::{i32_to_string, lossy_string, lossy_utf8, owned, push_str, decimal_i32};
use crate::types::{
    cmp_code, testlib_code, CmpExitCodes, EvaluatorError, Language, ProcessOutput, Status,
    TestCaseError, TestCaseResult, TestLibExitCodes,
};
use vstd::utf8::{decode_utf8, valid_utf8};

verus! {

/// How a problem's outputs are checked.
#[derive(Debug, PartialEq, Eq, Structural, Clone, Copy)]
pub enum ValidationType {
    TestlibChecker,
    LiteralChecker,
    Interactive,
}

/// Where a test case's files are.
#[derive(Debug)]
pub struct TestCaseInfo {
    pub id: String,
    pub problem_id: u32,
    pub stdin_path: String,
    pub stdout_path: String,
}

/// The checker of one submission to one problem.
#[derive(Debug)]
pub struct Validator {
    pub validation_type: ValidationType,
    pub problem_id: u32,
    pub submission_id: u128,
    pub resources: String,
    pub playground: String,
}

/// `"{playground}/{submission}/{test case}.out"`: where a run's output goes.
pub open spec fn user_output_path(playground: Seq<char>, submission_id: u128, test_case_id: Seq<char>) -> Seq<char> {
    playground + "/"@ + dec(submission_id) + "/"@ + test_case_id + ".out"@
}

/// `"{resources}/{problem}"`: the problem's directory.
pub open spec fn problem_dir(resources: Seq<char>, problem_id: u32) -> Seq<char> {
    resources + "/"@ + decimal_u32(problem_id)
}

/// The decimal rendering of a problem identifier.
pub open spec fn decimal_u32(n: u32) -> Seq<char> {
    dec(n as u128)
}

/// Whether preparing a checker of kind `validation_type` compiles it, given
/// whether the built checker is already a file.
pub open spec fn checker_build_needed(validation_type: ValidationType, built: bool) -> bool {
    validation_type == ValidationType::TestlibChecker && !built
}

/// A test case result with no measured time.
pub open spec fn tc_result(status: Status, id: String, output: ProcessOutput) -> TestCaseResult {
    TestCaseResult { status, id, output: Some(output), duration_nanos: 0 }
}

/// The outcome a testlib checker's exit reports.
pub open spec fn testlib_outcome_ok(id: String, output: ProcessOutput, r: Result<TestCaseResult, TestCaseError>) -> bool {
    match output.status_code {
        Some(c) => match testlib_code(c) {
            Some(TestLibExitCodes::Accepted) => r == Ok::<TestCaseResult, TestCaseError>(
                tc_result(Status::Accepted, id, output),
            ),
            Some(TestLibExitCodes::WrongAnswer) | Some(TestLibExitCodes::FormatError) => r == Err::<
                TestCaseResult,
                TestCaseError,
            >(TestCaseError::InternalError(tc_result(Status::WrongAnswer, id, output))),
            Some(TestLibExitCodes::PartialExecution) => r == Err::<TestCaseResult, TestCaseError>(
                TestCaseError::InternalError(tc_result(Status::PartialPoints, id, output)),
            ),
            None => r matches Err(TestCaseError::ExternalError(EvaluatorError::GenericError(m)))
                && m@ == "found ()"@,
        },
        None => r matches Err(TestCaseError::ExternalError(EvaluatorError::GenericError(m)))
            && m@ == "Testlib Failed"@,
    }
}

/// The outcome a `cmp` exit reports.
pub open spec fn literal_outcome_ok(id: String, output: ProcessOutput, r: Result<TestCaseResult, TestCaseError>) -> bool {
    match output.status_code {
        Some(c) => match cmp_code(c) {
            Some(CmpExitCodes::Equal) => r == Ok::<TestCaseResult, TestCaseError>(
                tc_result(Status::Accepted, id, output),
            ),
            Some(CmpExitCodes::Different) => r == Err::<TestCaseResult, TestCaseError>(
                TestCaseError::InternalError(tc_result(Status::WrongAnswer, id, output)),
            ),
            Some(CmpExitCodes::Problem) => r matches Err(
                TestCaseError::ExternalError(EvaluatorError::GenericError(m)),
            ) && m@ == "Something went wrong with CMP finished with status 2"@,
            None => r matches Err(TestCaseError::ExternalError(EvaluatorError::GenericError(m)))
                && m@ == "This "@ + decimal_i32(c) + " is inexistent in cmp documentation"@,
        },
        None => r matches Err(TestCaseError::ExternalError(EvaluatorError::GenericError(m)))
            && m@ == "Something went wrong with Cmp"@,
    }
}

fn generic_error(m: &str) -> (r: TestCaseError)
    ensures
        r matches TestCaseError::ExternalError(EvaluatorError::GenericError(s)) && s@ == m@,
{
    TestCaseError::ExternalError(EvaluatorError::GenericError(owned(m)))
}

/// The verdict a testlib checker reports through its exit code: accepted,
/// wrong answer (also for a format error), partial points, or a failure of
/// the checker.
pub fn testlib_verdict(id: String, output: ProcessOutput) -> (r: Result<TestCaseResult, TestCaseError>)
    ensures
        testlib_outcome_ok(id, output, r),
{
    match output.status_code {
        Some(c) => match TestLibExitCodes::from_exit_code(c) {
            Some(TestLibExitCodes::Accepted) => Ok(
                TestCaseResult { status: Status::Accepted, id, output: Some(output), duration_nanos: 0 },
            ),
            Some(TestLibExitCodes::WrongAnswer) | Some(TestLibExitCodes::FormatError) => Err(
                TestCaseError::InternalError(
                    TestCaseResult {
                        status: Status::WrongAnswer,
                        id,
                        output: Some(output),
                        duration_nanos: 0,
                    },
                ),
            ),
            Some(TestLibExitCodes::PartialExecution) => Err(
                TestCaseError::InternalError(
                    TestCaseResult {
                        status: Status::PartialPoints,
                        id,
                        output: Some(output),
                        duration_nanos: 0,
                    },
                ),
            ),
            None => Err(generic_error("found ()")),
        },
        None => Err(generic_error("Testlib Failed")),
    }
}

/// The verdict `cmp --silent` reports through its exit code: accepted when
/// the outputs are the same, wrong answer when they differ, a failure of the
/// judge otherwise.
pub fn literal_verdict(id: String, output: ProcessOutput) -> (r: Result<TestCaseResult, TestCaseError>)
    ensures
        literal_outcome_ok(id, output, r),
{
    match output.status_code {
        Some(c) => match CmpExitCodes::from_exit_code(c) {
            Some(CmpExitCodes::Equal) => Ok(
                TestCaseResult { status: Status::Accepted, id, output: Some(output), duration_nanos: 0 },
            ),
            Some(CmpExitCodes::Different) => Err(
                TestCaseError::InternalError(
                    TestCaseResult {
                        status: Status::WrongAnswer,
                        id,
                        output: Some(output),
                        duration_nanos: 0,
                    },
                ),
            ),
            Some(CmpExitCodes::Problem) => Err(
                generic_error("Something went wrong with CMP finished with status 2"),
            ),
            None => {
                let mut m = owned("This ");
                let d = i32_to_string(c);
                push_str(&mut m, d.as_str());
                push_str(&mut m, " is inexistent in cmp documentation");
                Err(TestCaseError::ExternalError(EvaluatorError::GenericError(m)))
            },
        },
        None => Err(generic_error("Something went wrong with Cmp")),
    }
}

impl Validator {
    /// The checker of `submission_id` to `problem_id`.
    pub fn new(
        validation_type: ValidationType,
        problem_id: u32,
        submission_id: u128,
        resources: &str,
        playground: &str,
    ) -> (r: Validator)
        ensures
            r.validation_type == validation_type,
            r.problem_id == problem_id,
            r.submission_id == submission_id,
            r.resources@ == resources@,
            r.playground@ == playground@,
    {
        Validator {
            validation_type,
            problem_id,
            submission_id,
            resources: owned(resources),
            playground: owned(playground),
        }
    }

    /// Where the submission's output for a test case is written.
    pub fn user_output_file_name(&self, test_case_id: &str) -> (r: String)
        ensures
            r@ == user_output_path(self.playground@, self.submission_id, test_case_id@),
    {
        let mut s = self.playground.clone();
        push_str(&mut s, "/");
        push_u128(&mut s, self.submission_id);
        push_str(&mut s, "/");
        push_str(&mut s, test_case_id);
        push_str(&mut s, ".out");
        s
    }

    /// The problem's directory, where its checker lives.
    pub fn checker_dir(&self) -> (r: String)
        ensures
            r@ == problem_dir(self.resources@, self.problem_id),
    {
        let mut s = self.resources.clone();
        push_str(&mut s, "/");
        push_u128(&mut s, self.problem_id as u128);
        s
    }

    /// The built checker, `"{resources}/{problem}/checker"`.
    pub fn checker_path(&self) -> (r: String)
        ensures
            r@ == problem_dir(self.resources@, self.problem_id) + "/checker"@,
    {
        let mut s = self.checker_dir();
        push_str(&mut s, "/checker");
        s
    }

    /// The checker run on one test case: the judge's input, the submission's
    /// output and the judge's output.
    pub fn testlib_command(&self, test_case: &TestCaseInfo) -> (r: ProgramCommand)
        ensures
            r.program@ == problem_dir(self.resources@, self.problem_id) + "/checker"@,
            r.args@.len() == 3,
            r.args@[0]@ == test_case.stdin_path@,
            r.args@[1]@ == user_output_path(self.playground@, self.submission_id, test_case.id@),
            r.args@[2]@ == test_case.stdout_path@,
            r.current_dir is None,
    {
        let mut args: Vec<String> = Vec::new();
        args.push(test_case.stdin_path.clone());
        args.push(self.user_output_file_name(test_case.id.as_str()));
        args.push(test_case.stdout_path.clone());
        ProgramCommand { program: self.checker_path(), args, current_dir: None }
    }

    /// `cmp --silent` on the submission's output and the judge's output.
    pub fn literal_command(&self, test_case: &TestCaseInfo, table: &LanguageBinary) -> (r: ProgramCommand)
        requires
            table.spec_get(Language::Cmp) is Some,
        ensures
            r.program@ == table.spec_get(Language::Cmp)->0.path@,
            r.args@.len() == 3,
            r.args@[0]@ == "--silent"@,
            r.args@[1]@ == user_output_path(self.playground@, self.submission_id, test_case.id@),
            r.args@[2]@ == test_case.stdout_path@,
            r.current_dir is None,
    {
        let cmp = table.get(Language::Cmp).unwrap();
        let mut args: Vec<String> = Vec::new();
        args.push(owned("--silent"));
        args.push(self.user_output_file_name(test_case.id.as_str()));
        args.push(test_case.stdout_path.clone());
        ProgramCommand { program: cmp.path.clone(), args, current_dir: None }
    }

    /// The verdict of this problem's kind of check on a finished checker run.
    pub fn check_input(&self, test_case: &TestCaseInfo, output: ProcessOutput) -> (r: Result<
        TestCaseResult,
        TestCaseError,
    >)
        requires
            self.validation_type != ValidationType::Interactive,
        ensures
            self.validation_type == ValidationType::TestlibChecker ==> testlib_outcome_ok(
                test_case.id,
                output,
                r,
            ),
            self.validation_type == ValidationType::LiteralChecker ==> literal_outcome_ok(
                test_case.id,
                output,
                r,
            ),
    {
        match self.validation_type {
            ValidationType::TestlibChecker => testlib_verdict(test_case.id.clone(), output),
            _ => literal_verdict(test_case.id.clone(), output),
        }
    }

    /// Whether the checker has to be present before test cases run: only for
    /// testlib checkers.
    pub fn needs_checker(&self) -> (r: bool)
        ensures
            r == (self.validation_type == ValidationType::TestlibChecker),
    {
        self.validation_type == ValidationType::TestlibChecker
    }

    /// Whether preparing the checker compiles it, once the caller has looked
    /// whether the built checker is a file: only for testlib checkers that
    /// are not built yet. Otherwise preparing does nothing and succeeds.
    pub fn should_build_checker(&self, built: bool) -> (r: bool)
        ensures
            r == checker_build_needed(self.validation_type, built),
    {
        self.validation_type == ValidationType::TestlibChecker && !built
    }

    /// Building the checker: the C++17 compiler on `checker.cpp`, writing
    /// `checker`, in the problem's directory.
    pub fn checker_build_command(&self, table: &LanguageBinary) -> (r: ProgramCommand)
        requires
            table.spec_get(Language::Cpp17) is Some,
        ensures
            r.program@ == table.spec_get(Language::Cpp17)->0.path@,
            r.args@.len() == 3,
            r.args@[0]@ == "checker.cpp"@,
            r.args@[1]@ == "-o"@,
            r.args@[2]@ == "checker"@,
            r.current_dir matches Some(d) && d@ == problem_dir(self.resources@, self.problem_id),
    {
        let cpp = table.get(Language::Cpp17).unwrap();
        let mut args: Vec<String> = Vec::new();
        args.push(owned("checker.cpp"));
        args.push(owned("-o"));
        args.push(owned("checker"));
        ProgramCommand { program: cpp.path.clone(), args, current_dir: Some(self.checker_dir()) }
    }
}

/// The outcome of building the checker: done when the compiler succeeded, a
/// failure carrying the compiler's error stream, decoded as UTF-8 with
/// invalid sequences replaced, otherwise.
pub fn checker_build_outcome(output: &ProcessOutput) -> (r: Result<(), CodeExecutorError>)
    ensures
        output.spec_success() <==> r is Ok,
        !output.spec_success() && valid_utf8(output.stderr@) ==> (r matches Err(
            CodeExecutorError::ExternalError(m),
        ) && m@ == decode_utf8(output.stderr@)),
        !output.spec_success() ==> (r matches Err(CodeExecutorError::ExternalError(m)) && m@
            == lossy_utf8(output.stderr@)),
{
    if output.success() {
        Ok(())
    } else {
        Err(CodeExecutorError::ExternalError(lossy_string(output.stderr.as_slice())))
    }
}

} // verus!
