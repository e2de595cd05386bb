//! Verdicts, languages, process outputs and the error types that the judge
//! passes between its stages.

use vstd::prelude::*;

verus! {

/// Verdict of a submission or of one test case.
#[derive(Debug)]
pub enum Status {
    Pending,
    WrongAnswer,
    Accepted,
    RuntimeError,
    TimeLimitExceeded,
    PartialPoints,
    CompilationError,
    UnknownError(String),
}

/// Whether two verdicts are the same, by variant and by the message text
/// for `UnknownError`.
pub open spec fn same_status(a: Status, b: Status) -> bool {
    match (a, b) {
        (Status::UnknownError(x), Status::UnknownError(y)) => x@ == y@,
        (Status::Pending, Status::Pending) => true,
        (Status::WrongAnswer, Status::WrongAnswer) => true,
        (Status::Accepted, Status::Accepted) => true,
        (Status::RuntimeError, Status::RuntimeError) => true,
        (Status::TimeLimitExceeded, Status::TimeLimitExceeded) => true,
        (Status::PartialPoints, Status::PartialPoints) => true,
        (Status::CompilationError, Status::CompilationError) => true,
        _ => false,
    }
}

impl Status {
    /// A copy of the verdict.
    pub fn duplicate(&self) -> (r: Status)
        ensures
            r == *self,
    {
        match self {
            Status::Pending => Status::Pending,
            Status::WrongAnswer => Status::WrongAnswer,
            Status::Accepted => Status::Accepted,
            Status::RuntimeError => Status::RuntimeError,
            Status::TimeLimitExceeded => Status::TimeLimitExceeded,
            Status::PartialPoints => Status::PartialPoints,
            Status::CompilationError => Status::CompilationError,
            Status::UnknownError(m) => Status::UnknownError(m.clone()),
        }
    }

    /// Whether two verdicts are the same verdict.
    pub fn same_as(&self, other: &Status) -> (r: bool)
        ensures
            r == same_status(*self, *other),
    {
        match (self, other) {
            (Status::UnknownError(x), Status::UnknownError(y)) => x.eq(y),
            (Status::Pending, Status::Pending) => true,
            (Status::WrongAnswer, Status::WrongAnswer) => true,
            (Status::Accepted, Status::Accepted) => true,
            (Status::RuntimeError, Status::RuntimeError) => true,
            (Status::TimeLimitExceeded, Status::TimeLimitExceeded) => true,
            (Status::PartialPoints, Status::PartialPoints) => true,
            (Status::CompilationError, Status::CompilationError) => true,
            _ => false,
        }
    }
}

/// The verdict as the `status` column of the database stores it.
#[derive(Debug, PartialEq, Eq, Structural, Clone, Copy)]
pub enum StatusPG {
    Pending,
    WrongAnswer,
    Accepted,
    RuntimeError,
    TimeLimitExceeded,
    PartialPoints,
    CompilationError,
    UnknownError,
}

/// Languages a submission can be written in, and the tools the judge runs.
#[derive(Debug, PartialEq, Eq, Structural, Clone, Copy)]
pub enum Language {
    Python3,
    Cpp,
    Cpp11,
    Cpp17,
    Java,
    Cmp,
}

/// Exit codes of a testlib checker (`testlib.h`: `_ok`, `_wa`, `_pe`, `_points`).
#[derive(Debug, PartialEq, Eq, Structural, Clone, Copy)]
pub enum TestLibExitCodes {
    Accepted,
    WrongAnswer,
    FormatError,
    PartialExecution,
}

/// The testlib meaning of an exit code, if it has one.
pub open spec fn testlib_code(code: i32) -> Option<TestLibExitCodes> {
    if code == 0 {
        Some(TestLibExitCodes::Accepted)
    } else if code == 1 {
        Some(TestLibExitCodes::WrongAnswer)
    } else if code == 2 {
        Some(TestLibExitCodes::FormatError)
    } else if code == 7 {
        Some(TestLibExitCodes::PartialExecution)
    } else {
        None
    }
}

impl TestLibExitCodes {
    /// Reads a checker's exit code.
    pub fn from_exit_code(code: i32) -> (r: Option<TestLibExitCodes>)
        ensures
            r == testlib_code(code),
    {
        if code == 0 {
            Some(TestLibExitCodes::Accepted)
        } else if code == 1 {
            Some(TestLibExitCodes::WrongAnswer)
        } else if code == 2 {
            Some(TestLibExitCodes::FormatError)
        } else if code == 7 {
            Some(TestLibExitCodes::PartialExecution)
        } else {
            None
        }
    }
}

/// Exit codes of `cmp`: same contents, different contents, trouble.
#[derive(Debug, PartialEq, Eq, Structural, Clone, Copy)]
pub enum CmpExitCodes {
    Equal,
    Different,
    Problem,
}

/// The `cmp` meaning of an exit code, if it has one.
pub open spec fn cmp_code(code: i32) -> Option<CmpExitCodes> {
    if code == 0 {
        Some(CmpExitCodes::Equal)
    } else if code == 1 {
        Some(CmpExitCodes::Different)
    } else if code == 2 {
        Some(CmpExitCodes::Problem)
    } else {
        None
    }
}

impl CmpExitCodes {
    /// Reads an exit code of `cmp`.
    pub fn from_exit_code(code: i32) -> (r: Option<CmpExitCodes>)
        ensures
            r == cmp_code(code),
    {
        if code == 0 {
            Some(CmpExitCodes::Equal)
        } else if code == 1 {
            Some(CmpExitCodes::Different)
        } else if code == 2 {
            Some(CmpExitCodes::Problem)
        } else {
            None
        }
    }
}

/// What a finished process left: its exit code (none when a signal ended it)
/// and what it wrote.
#[derive(Debug)]
pub struct ProcessOutput {
    pub status_code: Option<i32>,
    pub stdout: Vec<u8>,
    pub stderr: Vec<u8>,
}

impl ProcessOutput {
    /// Whether the process exited with code zero (`ExitStatus::success`).
    pub open spec fn spec_success(&self) -> bool {
        self.status_code == Some(0i32)
    }

    /// Whether the process exited with code zero.
    pub fn success(&self) -> (r: bool)
        ensures
            r == self.spec_success(),
    {
        match self.status_code {
            Some(c) => c == 0,
            None => false,
        }
    }
}

/// The outcome of running a submission on one test case.
#[derive(Debug)]
pub struct TestCaseResult {
    pub status: Status,
    pub id: String,
    pub output: Option<ProcessOutput>,
    pub duration_nanos: u128,
}

/// The outcome of judging a whole submission.
#[derive(Debug)]
pub struct ProblemExecutorResult {
    pub overall_result: Status,
    pub test_cases_results: Vec<TestCaseResult>,
    pub prepare_output: Option<ProcessOutput>,
}

/// Failures that are not a verdict on the submission.
#[derive(Debug)]
pub enum EvaluatorError {
    ProblemNotFound,
    SubmissionIdNotFound,
    FailedTestLibCheckerCompilation(String),
    GenericError(String),
}

/// A test case that ended with a verdict other than acceptance, or a failure
/// of the judge itself.
#[derive(Debug)]
pub enum TestCaseError {
    InternalError(TestCaseResult),
    ExternalError(EvaluatorError),
}

/// Failures of the judge while handling a test case.
#[derive(Debug)]
pub enum TestCaseErrorExternalError {
    ProblemNotFound,
    GenericError(String),
}

impl TestCaseError {
    /// A failure of the judge carrying a message.
    pub fn generic(message: String) -> (r: TestCaseError)
        ensures
            r == TestCaseError::ExternalError(EvaluatorError::GenericError(message)),
    {
        TestCaseError::ExternalError(EvaluatorError::GenericError(message))
    }
}

} // verus!
