//! Classifying a finished run of a submission.

use vstd::prelude::*;
use vstd::string::*;
use crate::code_executor::{CodeExecutorError, CodeExecutorInternalError, CodeExecutorResult};
use crate::text::bytes_start_with;
use crate::types::{ProcessOutput, Status};

verus! {

/// What the sandbox writes first on its error stream when the time limit hit.
pub open spec fn time_limit_marker() -> Seq<u8> {
    "[>>EVALUATOR<<][TIME_LIMIT]".spec_bytes()
}

/// Whether a run's error stream begins with the time-limit marker.
pub open spec fn hit_time_limit(output: ProcessOutput) -> bool {
    time_limit_marker().len() <= output.stderr@.len() && output.stderr@.subrange(
        0,
        time_limit_marker().len() as int,
    ) == time_limit_marker()
}

/// The verdict on a failed run: time limit exceeded when the error stream
/// begins with the marker, runtime error otherwise.
pub fn match_stderr(output: &ProcessOutput) -> (r: Status)
    ensures
        hit_time_limit(*output) ==> r == Status::TimeLimitExceeded,
        !hit_time_limit(*output) ==> r == Status::RuntimeError,
{
    if bytes_start_with(&output.stderr, "[>>EVALUATOR<<][TIME_LIMIT]".as_bytes()) {
        Status::TimeLimitExceeded
    } else {
        Status::RuntimeError
    }
}

/// The outcome of a measured run: the output and time when the program
/// exited with code zero, the verdict of `match_stderr` with them otherwise.
pub fn measured_outcome(output: ProcessOutput, duration_nanos: u128) -> (r: Result<
    CodeExecutorResult,
    CodeExecutorError,
>)
    ensures
        output.spec_success() ==> r == Ok::<CodeExecutorResult, CodeExecutorError>(CodeExecutorResult {
            status: output.status_code,
            output: Some(output),
            duration_nanos,
        }),
        !output.spec_success() && hit_time_limit(output) ==> r == Err::<
            CodeExecutorResult,
            CodeExecutorError,
        >(
            CodeExecutorError::InternalError(CodeExecutorInternalError {
                status: Status::TimeLimitExceeded,
                output: Some(output),
                duration_nanos,
            }),
        ),
        !output.spec_success() && !hit_time_limit(output) ==> r == Err::<
            CodeExecutorResult,
            CodeExecutorError,
        >(
            CodeExecutorError::InternalError(CodeExecutorInternalError {
                status: Status::RuntimeError,
                output: Some(output),
                duration_nanos,
            }),
        ),
{
    if output.success() {
        let code = output.status_code;
        Ok(CodeExecutorResult { status: code, output: Some(output), duration_nanos })
    } else {
        let status = match_stderr(&output);
        Err(
            CodeExecutorError::InternalError(
                CodeExecutorInternalError { status, output: Some(output), duration_nanos },
            ),
        )
    }
}

} // verus!
