//! Handling one queued submission: what gets stored, and whether the queue
//! message is done with.

use vstd::prelude::*;
use crate::problem_executor::ProblemExecutorError;
use crate::types::{EvaluatorError, ProblemExecutorResult};

verus! {

/// What judging a submission leaves to store: the result, whether the
/// submission passed or ended early with a verdict; or the judge's failure.
pub fn process_outcome(judged: Result<ProblemExecutorResult, ProblemExecutorError>) -> (r: Result<
    ProblemExecutorResult,
    EvaluatorError,
>)
    ensures
        judged matches Ok(a) ==> r == Ok::<ProblemExecutorResult, EvaluatorError>(a),
        judged matches Err(ProblemExecutorError::InternalError(a)) ==> r == Ok::<
            ProblemExecutorResult,
            EvaluatorError,
        >(a),
        judged matches Err(ProblemExecutorError::ExternalError(e)) ==> r == Err::<
            ProblemExecutorResult,
            EvaluatorError,
        >(e),
{
    match judged {
        Ok(a) => Ok(a),
        Err(ProblemExecutorError::InternalError(a)) => Ok(a),
        Err(ProblemExecutorError::ExternalError(e)) => Err(e),
    }
}

/// The queue message is deleted once the submission was handled, or when its
/// problem does not exist; otherwise it stays to be tried again.
pub fn should_delete_message(handled: &Result<(), EvaluatorError>) -> (r: bool)
    ensures
        r == (handled is Ok || handled matches Err(EvaluatorError::ProblemNotFound)),
{
    match handled {
        Ok(_) => true,
        Err(EvaluatorError::ProblemNotFound) => true,
        _ => false,
    }
}

} // verus!
