//! Judging a whole submission: turning step failures into outcomes,
//! collecting the results of test cases chunk by chunk, ordering them as the
//! problem lists its test cases, and deciding the overall verdict.

use vstd::prelude::*;
use crate::code_executor::{CodeExecutorError, CodeExecutorResult};
use crate::configuration::{EvaluationType, LanguageBinary};
use crate::text::{owned, views};
use crate::types::{
    same_status, EvaluatorError, Language, ProblemExecutorResult, ProcessOutput, Status,
    TestCaseError, TestCaseResult,
};
use crate::validator::user_output_path;
use crate::code_executor::push_u128;
use crate::text::push_str;

verus! {

/// Test cases run in parallel in chunks of this many.
pub const TEST_CASE_CHUNK: usize = 6;

/// The judge of submissions, working in `playground` with the problems'
/// files under `resources`.
pub struct ProblemExecutor {
    pub playground: String,
    pub resources: String,
}

/// A judged submission that ended early with a verdict, or a failure of the judge.
#[derive(Debug)]
pub enum ProblemExecutorError {
    InternalError(ProblemExecutorResult),
    ExternalError(EvaluatorError),
}

/// A test case that ended with a verdict against the submission, or a
/// failure of the judge.
#[derive(Debug)]
pub enum TestExecutionError {
    InternalError(TestCaseResult),
    ExternalError(String),
}

/// `r` is what a failed step `err` makes of the whole submission: its
/// verdict and output with no test case results, or the judge's failure.
pub open spec fn converted_code_executor_error(err: CodeExecutorError, r: ProblemExecutorError) -> bool {
    match err {
        CodeExecutorError::InternalError(e) => r matches ProblemExecutorError::InternalError(p)
            && p.overall_result == e.status && p.prepare_output == e.output
            && p.test_cases_results@.len() == 0,
        CodeExecutorError::ExternalError(m) => r == ProblemExecutorError::ExternalError(
            EvaluatorError::GenericError(m),
        ),
    }
}

/// `r` is what a failed test case `err` makes of the whole submission: its
/// verdict and output with no test case results, or the judge's failure.
pub open spec fn converted_test_case_error(err: TestCaseError, r: ProblemExecutorError) -> bool {
    match err {
        TestCaseError::InternalError(e) => r matches ProblemExecutorError::InternalError(p)
            && p.overall_result == e.status && p.prepare_output == e.output
            && p.test_cases_results@.len() == 0,
        TestCaseError::ExternalError(e) => r == ProblemExecutorError::ExternalError(e),
    }
}

/// The outcome of a failed step of a submission: a verdict with no test case
/// results, or the judge's failure.
pub fn from_code_executor_error(err: CodeExecutorError) -> (r: ProblemExecutorError)
    ensures
        converted_code_executor_error(err, r),
{
    match err {
        CodeExecutorError::InternalError(e) => ProblemExecutorError::InternalError(
            ProblemExecutorResult {
                overall_result: e.status,
                test_cases_results: Vec::new(),
                prepare_output: e.output,
            },
        ),
        CodeExecutorError::ExternalError(m) => ProblemExecutorError::ExternalError(
            EvaluatorError::GenericError(m),
        ),
    }
}

/// The outcome of a failed test case: its verdict with no test case
/// results, or the judge's failure.
pub fn from_test_case_error(err: TestCaseError) -> (r: ProblemExecutorError)
    ensures
        converted_test_case_error(err, r),
{
    match err {
        TestCaseError::InternalError(e) => ProblemExecutorError::InternalError(
            ProblemExecutorResult {
                overall_result: e.status,
                test_cases_results: Vec::new(),
                prepare_output: e.output,
            },
        ),
        TestCaseError::ExternalError(e) => ProblemExecutorError::ExternalError(e),
    }
}

/// The failure of running a test case, as the failure of that test case.
pub fn to_test_case_error(op: CodeExecutorError, id: String) -> (r: TestCaseError)
    ensures
        op matches CodeExecutorError::InternalError(e) ==> r == TestCaseError::InternalError(
            TestCaseResult { status: e.status, id, output: e.output, duration_nanos: e.duration_nanos },
        ),
        op matches CodeExecutorError::ExternalError(m) ==> r == TestCaseError::ExternalError(
            EvaluatorError::GenericError(m),
        ),
{
    match op {
        CodeExecutorError::InternalError(e) => TestCaseError::InternalError(
            TestCaseResult {
                status: e.status,
                id,
                output: e.output,
                duration_nanos: e.duration_nanos,
            },
        ),
        CodeExecutorError::ExternalError(m) => TestCaseError::ExternalError(
            EvaluatorError::GenericError(m),
        ),
    }
}

/// A test case result whose recorded output now shows, as its standard
/// output, what the submission wrote.
pub open spec fn with_user_stdout(t: TestCaseResult, user_output: Vec<u8>) -> TestCaseResult {
    match t.output {
        Some(o) => TestCaseResult {
            output: Some(ProcessOutput { stdout: user_output, ..o }),
            ..t
        },
        None => t,
    }
}

/// The checker's verdict with the submission's output put where the
/// checker's standard output was, when an output is recorded.
pub fn attach_user_output(checked: Result<TestCaseResult, TestCaseError>, user_output: Vec<u8>) -> (r: Result<TestCaseResult, TestCaseError>)
    ensures
        checked matches Ok(t) ==> r == Ok::<TestCaseResult, TestCaseError>(with_user_stdout(t, user_output)),
        checked matches Err(TestCaseError::InternalError(t)) ==> r == Err::<TestCaseResult, TestCaseError>(
            TestCaseError::InternalError(with_user_stdout(t, user_output)),
        ),
        checked matches Err(TestCaseError::ExternalError(_)) ==> r == checked,
{
    match checked {
        Ok(t) => Ok(set_stdout(t, user_output)),
        Err(TestCaseError::InternalError(t)) => Err(TestCaseError::InternalError(set_stdout(t, user_output))),
        other => other,
    }
}

fn set_stdout(t: TestCaseResult, user_output: Vec<u8>) -> (r: TestCaseResult)
    ensures
        r == with_user_stdout(t, user_output),
{
    let mut t = t;
    match t.output {
        Some(o) => {
            t.output = Some(ProcessOutput { stdout: user_output, ..o });
            t
        },
        None => t,
    }
}

/// The result of a test case once both the run and the check are done: an
/// accepted check takes the run's output and time; a rejected check stands
/// as it is.
pub fn combine_run_and_check(run: CodeExecutorResult, checked: Result<TestCaseResult, TestCaseError>) -> (r: Result<TestCaseResult, TestCaseError>)
    ensures
        checked matches Ok(t) ==> r == Ok::<TestCaseResult, TestCaseError>(
            TestCaseResult { duration_nanos: run.duration_nanos, output: run.output, ..t },
        ),
        checked is Err ==> r == checked,
{
    match checked {
        Ok(t) => {
            let mut t = t;
            t.duration_nanos = run.duration_nanos;
            t.output = run.output;
            Ok(t)
        },
        Err(e) => Err(e),
    }
}

/// The accepted results of a chunk, in order.
pub open spec fn chunk_oks(c: Seq<Result<TestCaseResult, TestCaseError>>) -> Seq<TestCaseResult>
    decreases c.len(),
{
    if c.len() == 0 {
        seq![]
    } else {
        chunk_oks(c.drop_last()) + match c.last() {
            Ok(t) => seq![t],
            Err(_) => seq![],
        }
    }
}

/// The results of a chunk's test cases that ended with a verdict against the
/// submission, in order.
pub open spec fn chunk_verdicts(c: Seq<Result<TestCaseResult, TestCaseError>>) -> Seq<TestCaseResult>
    decreases c.len(),
{
    if c.len() == 0 {
        seq![]
    } else {
        chunk_verdicts(c.drop_last()) + match c.last() {
            Err(TestCaseError::InternalError(t)) => seq![t],
            _ => seq![],
        }
    }
}

/// The judge's failures in a chunk, in order.
pub open spec fn chunk_failures(c: Seq<Result<TestCaseResult, TestCaseError>>) -> Seq<TestCaseError>
    decreases c.len(),
{
    if c.len() == 0 {
        seq![]
    } else {
        chunk_failures(c.drop_last()) + match c.last() {
            Err(TestCaseError::ExternalError(e)) => seq![TestCaseError::ExternalError(e)],
            _ => seq![],
        }
    }
}

/// Whether some test case of a chunk did not end accepted.
pub open spec fn chunk_has_error(c: Seq<Result<TestCaseResult, TestCaseError>>) -> bool {
    exists|i: int| 0 <= i < c.len() && #[trigger] c[i] is Err
}

/// What the test cases run so far left: the results to report and the
/// judge's failures.
pub struct TestResults {
    pub test_ok: Vec<TestCaseResult>,
    pub test_err: Vec<TestCaseError>,
}

impl TestResults {
    /// Nothing run yet.
    pub fn new() -> (r: TestResults)
        ensures
            r.test_ok@.len() == 0,
            r.test_err@.len() == 0,
    {
        TestResults { test_ok: Vec::new(), test_err: Vec::new() }
    }

    /// Takes in the results of one chunk: its accepted results, then the
    /// results that ended with a verdict, join the reported results; its
    /// judge failures join the failures. Returns whether the next chunk runs,
    /// which it does only when every test case of this chunk was accepted.
    pub fn absorb_chunk(&mut self, chunk: Vec<Result<TestCaseResult, TestCaseError>>) -> (go_on: bool)
        ensures
            final(self).test_ok@ == old(self).test_ok@ + chunk_oks(chunk@) + chunk_verdicts(chunk@),
            final(self).test_err@ == old(self).test_err@ + chunk_failures(chunk@),
            go_on == !chunk_has_error(chunk@),
    {
        let ghost c = chunk@;
        let mut rest = chunk;
        let mut oks: Vec<TestCaseResult> = Vec::new();
        let mut verdicts: Vec<TestCaseResult> = Vec::new();
        let mut failures: Vec<TestCaseError> = Vec::new();
        let mut any_err = false;
        let mut k: usize = 0;
        let n = rest.len();
        while rest.len() > 0
            invariant
                n == c.len(),
                k <= n,
                rest@ == c.skip(k as int),
                oks@ == chunk_oks(c.take(k as int)),
                verdicts@ == chunk_verdicts(c.take(k as int)),
                failures@ == chunk_failures(c.take(k as int)),
                any_err == chunk_has_error(c.take(k as int)),
            decreases rest.len(),
        {
            let item = rest.remove(0);
            proof {
                assert(item == c[k as int]);
                assert(c.take(k + 1).drop_last() =~= c.take(k as int));
                assert(c.take(k + 1).last() == item);
                assert(rest@ =~= c.skip(k + 1));
            }
            match item {
                Ok(t) => {
                    oks.push(t);
                },
                Err(TestCaseError::InternalError(t)) => {
                    verdicts.push(t);
                    any_err = true;
                },
                Err(e) => {
                    failures.push(e);
                    any_err = true;
                },
            }
            proof {
                let p = c.take(k + 1);
                if any_err {
                    if c[k as int] is Err {
                        assert(p[k as int] is Err);
                    } else {
                        let w = choose|i: int| 0 <= i < k && #[trigger] c.take(k as int)[i] is Err;
                        assert(p[w] is Err);
                    }
                } else {
                    assert forall|i: int| 0 <= i < p.len() implies !(#[trigger] p[i] is Err) by {
                        if i < k {
                            assert(c.take(k as int)[i] == p[i]);
                        }
                    }
                }
                assert(oks@ =~= chunk_oks(p));
                assert(verdicts@ =~= chunk_verdicts(p));
                assert(failures@ =~= chunk_failures(p));
            }
            k = k + 1;
        }
        assert(c.take(n as int) =~= c);
        self.test_ok.append(&mut oks);
        self.test_ok.append(&mut verdicts);
        self.test_err.append(&mut failures);
        !any_err
    }
}


/// The identifiers of test case results.
pub open spec fn result_ids(tests: Seq<TestCaseResult>) -> Seq<Seq<char>> {
    tests.map_values(|t: TestCaseResult| t.id@)
}

/// The position of the last `id` in `ids`, or -1 when there is none.
pub open spec fn last_index(ids: Seq<Seq<char>>, id: Seq<char>) -> int
    decreases ids.len(),
{
    if ids.len() == 0 {
        -1
    } else if ids.last() == id {
        ids.len() - 1
    } else {
        last_index(ids.drop_last(), id)
    }
}

/// The results in the order the configuration lists test cases: for each
/// identifier at its first listing, the last result with that identifier,
/// if any; results whose identifier is not listed are left out.
pub open spec fn order_by_config(tests: Seq<TestCaseResult>, config: Seq<Seq<char>>) -> Seq<TestCaseResult>
    decreases config.len(),
{
    if config.len() == 0 {
        seq![]
    } else {
        let prev = order_by_config(tests, config.drop_last());
        let id = config.last();
        let k = last_index(result_ids(tests), id);
        if k >= 0 && !config.drop_last().contains(id) {
            prev.push(tests[k])
        } else {
            prev
        }
    }
}

proof fn lemma_last_index(ids: Seq<Seq<char>>, id: Seq<char>)
    ensures
        -1 <= last_index(ids, id) < ids.len(),
        last_index(ids, id) >= 0 ==> ids[last_index(ids, id)] == id,
        forall|j: int| last_index(ids, id) < j < ids.len() ==> ids[j] != id,
        last_index(ids, id) == -1 <==> !ids.contains(id),
    decreases ids.len(),
{
    if ids.len() > 0 {
        lemma_last_index(ids.drop_last(), id);
        if ids.last() != id {
            if ids.contains(id) {
                let w = choose|w: int| 0 <= w < ids.len() && ids[w] == id;
                assert(ids.drop_last()[w] == id);
            }
            assert forall|j: int| last_index(ids, id) < j < ids.len() implies ids[j] != id by {
                if j < ids.len() - 1 {
                    assert(ids.drop_last()[j] == ids[j]);
                }
            }
        } else {
            assert(ids[ids.len() - 1] == id);
        }
    }
}

fn last_index_exec(ids: &Vec<String>, id: &String) -> (r: Option<usize>)
    ensures
        r matches Some(k) ==> k == last_index(views(ids@), id@),
        r is None ==> last_index(views(ids@), id@) == -1,
{
    let mut i: usize = ids.len();
    assert(views(ids@).take(i as int) =~= views(ids@));
    while i > 0
        invariant
            i <= ids@.len(),
            last_index(views(ids@), id@) == last_index(views(ids@).take(i as int), id@),
        decreases i,
    {
        let ghost t = views(ids@).take(i as int);
        if ids[i - 1].eq(id) {
            assert(t.last() == id@);
            return Some(i - 1);
        }
        assert(t.drop_last() =~= views(ids@).take(i - 1));
        i = i - 1;
    }
    None
}

fn listed_before(config: &Vec<String>, j: usize) -> (r: bool)
    requires
        j < config@.len(),
    ensures
        r == views(config@).take(j as int).contains(config@[j as int]@),
{
    let mut i: usize = 0;
    while i < j
        invariant
            j < config@.len(),
            i <= j,
            forall|k: int| 0 <= k < i ==> config@[k]@ != config@[j as int]@,
        decreases j - i,
    {
        if config[i].eq(&config[j]) {
            assert(views(config@).take(j as int)[i as int] == config@[j as int]@);
            return true;
        }
        i = i + 1;
    }
    proof {
        if views(config@).take(j as int).contains(config@[j as int]@) {
            let w = choose|w: int| 0 <= w < j && views(config@).take(j as int)[w] == config@[j as int]@;
            assert(config@[w]@ == config@[j as int]@);
        }
    }
    false
}

impl ProblemExecutor {
    /// The judge of submissions working in the given directories.
    pub fn new(playground: &str, resources: &str) -> (r: ProblemExecutor)
        ensures
            r.playground@ == playground@,
            r.resources@ == resources@,
    {
        ProblemExecutor { playground: owned(playground), resources: owned(resources) }
    }

    /// Where the submission's output for a test case is written.
    pub fn user_output_file(&self, submission_id: u128, test_case_id: &str) -> (r: String)
        ensures
            r@ == user_output_path(self.playground@, submission_id, test_case_id@),
    {
        let mut s = self.playground.clone();
        push_str(&mut s, "/");
        push_u128(&mut s, submission_id);
        push_str(&mut s, "/");
        push_str(&mut s, test_case_id);
        push_str(&mut s, ".out");
        s
    }

    /// The results ordered as the configuration lists the test cases.
    pub fn sort_test_cases_by_config_file(tests: Vec<TestCaseResult>, config: &Vec<String>) -> (r: Vec<TestCaseResult>)
        ensures
            r@ == order_by_config(tests@, views(config@)),
    {
        let ghost t0 = tests@;
        let n = tests.len();
        let mut rest = tests;
        let mut slots: Vec<Option<TestCaseResult>> = Vec::new();
        let mut ids: Vec<String> = Vec::new();
        while rest.len() > 0
            invariant
                rest@ == t0.skip(slots@.len() as int),
                slots@.len() == ids@.len(),
                slots@.len() <= t0.len(),
                n == t0.len(),
                forall|k: int| 0 <= k < slots@.len() ==> #[trigger] slots@[k] == Some(t0[k]),
                forall|k: int| 0 <= k < ids@.len() ==> #[trigger] ids@[k]@ == t0[k].id@,
            decreases rest.len(),
        {
            let ghost i = slots@.len();
            let item = rest.remove(0);
            assert(item == t0[i as int]);
            ids.push(item.id.clone());
            slots.push(Some(item));
            assert(rest@ =~= t0.skip(slots@.len() as int));
        }
        assert(views(ids@) =~= result_ids(t0));
        let ghost cfg = views(config@);
        let mut out: Vec<TestCaseResult> = Vec::new();
        let mut j: usize = 0;
        while j < config.len()
            invariant
                cfg == views(config@),
                j <= config@.len(),
                slots@.len() == t0.len(),
                views(ids@) == result_ids(t0),
                out@ == order_by_config(t0, cfg.take(j as int)),
                forall|k: int|
                    0 <= k < t0.len() ==> #[trigger] slots@[k] == Some(t0[k]) || (slots@[k] is None
                        && cfg.take(j as int).contains(t0[k].id@) && k == last_index(
                        result_ids(t0),
                        t0[k].id@,
                    )),
            decreases config.len() - j,
        {
            let ghost pre = cfg.take(j as int);
            let ghost now = cfg.take(j + 1);
            proof {
                assert(now.drop_last() =~= pre);
                assert(now.last() == config@[j as int]@);
            }
            if !listed_before(config, j) {
                match last_index_exec(&ids, &config[j]) {
                    Some(k) => {
                        proof {
                            lemma_last_index(result_ids(t0), config@[j as int]@);
                            assert(result_ids(t0)[k as int] == t0[k as int].id@);
                        }
                        let slot = slots.remove(k);
                        slots.insert(k, None);
                        match slot {
                            Some(t) => {
                                out.push(t);
                            },
                            None => {
                                assert(false);
                            },
                        }
                        proof {
                            assert forall|q: int| 0 <= q < t0.len() implies #[trigger] slots@[q]
                                == Some(t0[q]) || (slots@[q] is None && now.contains(t0[q].id@)
                                && q == last_index(result_ids(t0), t0[q].id@)) by {
                                if q == k {
                                    assert(now[j as int] == t0[q].id@);
                                } else if slots@[q] is None {
                                    let w = choose|w: int| 0 <= w < pre.len() && pre[w] == t0[q].id@;
                                    assert(now[w] == t0[q].id@);
                                }
                            }
                        }
                    },
                    None => {
                        proof {
                            assert forall|q: int| 0 <= q < t0.len() implies #[trigger] slots@[q]
                                == Some(t0[q]) || (slots@[q] is None && now.contains(t0[q].id@)
                                && q == last_index(result_ids(t0), t0[q].id@)) by {
                                if slots@[q] is None {
                                    let w = choose|w: int| 0 <= w < pre.len() && pre[w] == t0[q].id@;
                                    assert(now[w] == t0[q].id@);
                                }
                            }
                        }
                    },
                }
            } else {
                proof {
                    assert forall|q: int| 0 <= q < t0.len() implies #[trigger] slots@[q] == Some(t0[q])
                        || (slots@[q] is None && now.contains(t0[q].id@) && q == last_index(
                        result_ids(t0),
                        t0[q].id@,
                    )) by {
                        if slots@[q] is None {
                            let w = choose|w: int| 0 <= w < pre.len() && pre[w] == t0[q].id@;
                            assert(now[w] == t0[q].id@);
                        }
                    }
                }
            }
            j = j + 1;
        }
        assert(cfg.take(config@.len() as int) =~= cfg);
        out
    }
}


/// The precedence a table gives a verdict, from its first entry for that verdict,
/// 10 when it has none.
pub open spec fn precedence_of(table: Seq<(Status, i32)>, s: Status) -> int
    decreases table.len(),
{
    if table.len() == 0 {
        10
    } else if same_status(table[0].0, s) {
        table[0].1 as int
    } else {
        precedence_of(table.skip(1), s)
    }
}

/// The position of the last result of highest precedence (0 when there are none).
pub open spec fn last_max_index(results: Seq<TestCaseResult>, table: Seq<(Status, i32)>) -> int
    decreases results.len(),
{
    if results.len() <= 1 {
        0
    } else {
        let k = last_max_index(results.drop_last(), table);
        if precedence_of(table, results.last().status) >= precedence_of(table, results[k].status) {
            results.len() - 1
        } else {
            k
        }
    }
}

/// The precedence of a verdict in the table.
pub fn precedence(table: &Vec<(Status, i32)>, s: &Status) -> (r: i32)
    ensures
        r == precedence_of(table@, *s),
{
    let mut i: usize = 0;
    assert(table@.skip(0) =~= table@);
    while i < table.len()
        invariant
            i <= table@.len(),
            precedence_of(table@, *s) == precedence_of(table@.skip(i as int), *s),
        decreases table.len() - i,
    {
        assert(table@.skip(i as int).skip(1) =~= table@.skip(i + 1));
        if table[i].0.same_as(s) {
            return table[i].1;
        }
        i = i + 1;
    }
    10
}

/// The overall verdict is the verdict of the last result of highest precedence,
/// or an unknown error when there are no results.
pub fn overall_result(results: &Vec<TestCaseResult>, table: &Vec<(Status, i32)>) -> (r: Status)
    ensures
        results@.len() == 0 ==> (r matches Status::UnknownError(m) && m@ == "Status can't be infered"@),
        results@.len() > 0 ==> r == results@[last_max_index(results@, table@)].status,
{
    if results.len() == 0 {
        return Status::UnknownError(owned("Status can't be infered"));
    }
    let mut best: usize = 0;
    let mut best_key = precedence(table, &results[0].status);
    let mut i: usize = 1;
    while i < results.len()
        invariant
            1 <= i <= results@.len(),
            best == last_max_index(results@.take(i as int), table@),
            best < i,
            best_key == precedence_of(table@, results@[best as int].status),
        decreases results.len() - i,
    {
        let ghost p = results@.take(i + 1);
        assert(p.drop_last() =~= results@.take(i as int));
        let key = precedence(table, &results[i].status);
        if key >= best_key {
            best = i;
            best_key = key;
        }
        i = i + 1;
    }
    assert(results@.take(results@.len() as int) =~= results@);
    results[best].status.duplicate()
}

/// The last result of highest precedence has a precedence at least that of
/// every result, and greater than that of every later result.
pub proof fn lemma_overall_is_last_maximum(results: Seq<TestCaseResult>, table: Seq<(Status, i32)>)
    requires
        results.len() > 0,
    ensures
        0 <= last_max_index(results, table) < results.len(),
        forall|j: int|
            0 <= j < results.len() ==> #[trigger] precedence_of(table, results[j].status)
                <= precedence_of(table, results[last_max_index(results, table)].status),
        forall|j: int|
            last_max_index(results, table) < j < results.len() ==> #[trigger] precedence_of(
                table,
                results[j].status,
            ) < precedence_of(table, results[last_max_index(results, table)].status),
    decreases results.len(),
{
    if results.len() > 1 {
        let d = results.drop_last();
        lemma_overall_is_last_maximum(d, table);
        assert forall|j: int| 0 <= j < results.len() - 1 implies results[j] == d[j] by {}
    }
}

/// The outcome of judging a submission once its test cases have run: the
/// first failure of the judge, if any; otherwise the results ordered as the
/// configuration lists the test cases, with their overall verdict and the
/// output of the build.
pub fn finish(
    results: TestResults,
    config: &Vec<String>,
    table: &Vec<(Status, i32)>,
    compilation_output: Option<ProcessOutput>,
) -> (r: Result<ProblemExecutorResult, ProblemExecutorError>)
    ensures
        results.test_err@.len() > 0 ==> (r matches Err(e) && converted_test_case_error(
            results.test_err@[0],
            e,
        )),
        results.test_err@.len() == 0 ==> (r matches Ok(p) && p.test_cases_results@
            == order_by_config(results.test_ok@, views(config@)) && p.prepare_output
            == compilation_output && (p.test_cases_results@.len() == 0 ==> (
        p.overall_result matches Status::UnknownError(m) && m@ == "Status can't be infered"@))
            && (p.test_cases_results@.len() > 0 ==> p.overall_result
            == p.test_cases_results@[last_max_index(p.test_cases_results@, table@)].status)),
{
    let TestResults { test_ok, test_err } = results;
    let sorted = ProblemExecutor::sort_test_cases_by_config_file(test_ok, config);
    if test_err.len() > 0 {
        let mut test_err = test_err;
        let first = test_err.remove(0);
        return Err(from_test_case_error(first));
    }
    let overall = overall_result(&sorted, table);
    Ok(
        ProblemExecutorResult {
            overall_result: overall,
            test_cases_results: sorted,
            prepare_output: compilation_output,
        },
    )
}

/// How a language's submissions are run.
#[derive(Debug, PartialEq, Eq, Structural, Clone, Copy)]
pub enum ExecutorKind {
    Compiled,
    Interpreted,
}

/// The kind of executor for a language: built then run for compiled
/// languages and Java, run from source for interpreted ones.
pub fn get_executor(language: Language, table: &LanguageBinary) -> (r: ExecutorKind)
    requires
        table.spec_get(language) is Some,
    ensures
        r == (if table.spec_get(language)->0.eval_type == EvaluationType::Interpreted {
            ExecutorKind::Interpreted
        } else {
            ExecutorKind::Compiled
        }),
{
    let cmd = table.get(language).unwrap();
    match cmd.eval_type {
        EvaluationType::Compiled => ExecutorKind::Compiled,
        EvaluationType::Interpreted => ExecutorKind::Interpreted,
        EvaluationType::Java => ExecutorKind::Compiled,
    }
}

/// `get_executor` when the table has the language, `None` otherwise.
pub fn try_get_executor(language: Language, table: &LanguageBinary) -> (r: Option<ExecutorKind>)
    ensures
        r is None <==> table.spec_get(language) is None,
        r matches Some(k) ==> k == (if table.spec_get(language)->0.eval_type
            == EvaluationType::Interpreted {
            ExecutorKind::Interpreted
        } else {
            ExecutorKind::Compiled
        }),
{
    if table.get(language).is_some() {
        Some(get_executor(language, table))
    } else {
        None
    }
}

} // verus!
