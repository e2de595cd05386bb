use evaluator::code_executor::{CodeExecutorError, CodeExecutorInternalError, CodeExecutorResult};
use evaluator::configuration::{CmdStr, EvaluationType, LanguageBinary};
use evaluator::problem_executor::{
    attach_user_output, combine_run_and_check, finish, from_code_executor_error,
    from_test_case_error, get_executor, overall_result, to_test_case_error, try_get_executor,
    ExecutorKind, ProblemExecutor, ProblemExecutorError, TestResults, TEST_CASE_CHUNK,
};
use evaluator::types::{EvaluatorError, Language, ProcessOutput, Status, TestCaseError, TestCaseResult};

fn res(id: &str, status: Status) -> TestCaseResult {
    TestCaseResult { status, id: id.to_string(), output: None, duration_nanos: 0 }
}

fn ids(v: &[TestCaseResult]) -> Vec<String> {
    v.iter().map(|t| t.id.clone()).collect()
}

fn table() -> Vec<(Status, i32)> {
    vec![
        (Status::Accepted, 0),
        (Status::PartialPoints, 1),
        (Status::WrongAnswer, 2),
        (Status::RuntimeError, 3),
        (Status::TimeLimitExceeded, 4),
    ]
}

#[test]
fn chunk_size_is_six() {
    assert_eq!(TEST_CASE_CHUNK, 6);
}

#[test]
fn absorb_chunk_keeps_order_and_stops_on_error() {
    let mut r = TestResults::new();
    let go = r.absorb_chunk(vec![Ok(res("1", Status::Accepted)), Ok(res("2", Status::Accepted))]);
    assert!(go);
    let go = r.absorb_chunk(vec![
        Err(TestCaseError::InternalError(res("3", Status::WrongAnswer))),
        Ok(res("4", Status::Accepted)),
        Err(TestCaseError::ExternalError(EvaluatorError::GenericError("boom".into()))),
        Err(TestCaseError::InternalError(res("5", Status::RuntimeError))),
        Ok(res("6", Status::Accepted)),
    ]);
    assert!(!go);
    assert_eq!(ids(&r.test_ok), vec!["1", "2", "4", "6", "3", "5"]);
    assert_eq!(r.test_err.len(), 1);
    assert_eq!(r.test_ok.len() + r.test_err.len(), 7);
}

#[test]
fn sort_by_config_order_last_wins_and_unlisted_dropped() {
    let tests = vec![
        res("b", Status::Accepted),
        res("x", Status::Accepted),
        res("a", Status::WrongAnswer),
        res("b", Status::RuntimeError),
    ];
    let config: Vec<String> = vec!["a".into(), "b".into(), "c".into(), "a".into()];
    let sorted = ProblemExecutor::sort_test_cases_by_config_file(tests, &config);
    assert_eq!(ids(&sorted), vec!["a", "b"]);
    assert!(matches!(sorted[1].status, Status::RuntimeError));
}

#[test]
fn sort_by_config_is_a_permutation_when_ids_match() {
    let tests = vec![res("3", Status::Accepted), res("1", Status::Accepted), res("2", Status::Accepted)];
    let config: Vec<String> = vec!["1".into(), "2".into(), "3".into()];
    assert_eq!(ids(&ProblemExecutor::sort_test_cases_by_config_file(tests, &config)), vec!["1", "2", "3"]);
}

#[test]
fn overall_is_last_highest_precedence() {
    let t = table();
    let rs = vec![res("1", Status::Accepted), res("2", Status::WrongAnswer), res("3", Status::Accepted)];
    assert!(matches!(overall_result(&rs, &t), Status::WrongAnswer));
    let rs = vec![res("1", Status::Accepted), res("2", Status::Accepted)];
    assert!(matches!(overall_result(&rs, &t), Status::Accepted));
    let rs = vec![res("1", Status::RuntimeError), res("2", Status::UnknownError("z".into()))];
    assert!(matches!(overall_result(&rs, &t), Status::UnknownError(ref m) if m == "z"));
    match overall_result(&vec![], &t) {
        Status::UnknownError(m) => assert_eq!(m, "Status can't be infered"),
        _ => panic!(),
    }
    let tie = vec![
        TestCaseResult { status: Status::WrongAnswer, id: "first".into(), output: None, duration_nanos: 0 },
        TestCaseResult { status: Status::WrongAnswer, id: "second".into(), output: None, duration_nanos: 0 },
    ];
    assert!(matches!(overall_result(&tie, &t), Status::WrongAnswer));
}

#[test]
fn finish_reports_first_failure() {
    let mut r = TestResults::new();
    r.absorb_chunk(vec![
        Ok(res("1", Status::Accepted)),
        Err(TestCaseError::ExternalError(EvaluatorError::ProblemNotFound)),
        Err(TestCaseError::ExternalError(EvaluatorError::GenericError("second".into()))),
    ]);
    match finish(r, &vec!["1".into()], &table(), None) {
        Err(ProblemExecutorError::ExternalError(EvaluatorError::ProblemNotFound)) => {},
        _ => panic!(),
    }
}

#[test]
fn finish_orders_and_decides() {
    let mut r = TestResults::new();
    r.absorb_chunk(vec![Ok(res("2", Status::Accepted)), Err(TestCaseError::InternalError(res("1", Status::TimeLimitExceeded)))]);
    let compile = Some(ProcessOutput { status_code: Some(0), stdout: vec![], stderr: vec![] });
    match finish(r, &vec!["1".into(), "2".into()], &table(), compile) {
        Ok(p) => {
            assert_eq!(ids(&p.test_cases_results), vec!["1", "2"]);
            assert!(matches!(p.overall_result, Status::TimeLimitExceeded));
            assert!(p.prepare_output.is_some());
        },
        _ => panic!(),
    }
    match finish(TestResults::new(), &vec![], &table(), None) {
        Ok(p) => assert!(matches!(p.overall_result, Status::UnknownError(_))),
        _ => panic!(),
    }
}

#[test]
fn error_conversions() {
    let e = CodeExecutorError::InternalError(CodeExecutorInternalError {
        status: Status::CompilationError,
        output: None,
        duration_nanos: 5,
    });
    match from_code_executor_error(e) {
        ProblemExecutorError::InternalError(p) => {
            assert!(matches!(p.overall_result, Status::CompilationError));
            assert!(p.test_cases_results.is_empty());
        },
        _ => panic!(),
    }
    match from_code_executor_error(CodeExecutorError::ExternalError("io".into())) {
        ProblemExecutorError::ExternalError(EvaluatorError::GenericError(m)) => assert_eq!(m, "io"),
        _ => panic!(),
    }
    match from_test_case_error(TestCaseError::InternalError(res("9", Status::WrongAnswer))) {
        ProblemExecutorError::InternalError(p) => assert!(matches!(p.overall_result, Status::WrongAnswer)),
        _ => panic!(),
    }
    let run_failed = CodeExecutorError::InternalError(CodeExecutorInternalError {
        status: Status::RuntimeError,
        output: None,
        duration_nanos: 42,
    });
    match to_test_case_error(run_failed, "t9".into()) {
        TestCaseError::InternalError(t) => {
            assert_eq!(t.id, "t9");
            assert_eq!(t.duration_nanos, 42);
            assert!(matches!(t.status, Status::RuntimeError));
        },
        _ => panic!(),
    }
}

#[test]
fn run_and_check_combination() {
    let checked = Ok(TestCaseResult {
        status: Status::Accepted,
        id: "1".into(),
        output: Some(ProcessOutput { status_code: Some(0), stdout: b"checker".to_vec(), stderr: vec![] }),
        duration_nanos: 0,
    });
    let with_user = attach_user_output(checked, b"user".to_vec());
    match &with_user {
        Ok(t) => assert_eq!(t.output.as_ref().unwrap().stdout, b"user".to_vec()),
        _ => panic!(),
    }
    let run = CodeExecutorResult {
        status: Some(0),
        output: Some(ProcessOutput { status_code: Some(0), stdout: b"run".to_vec(), stderr: vec![] }),
        duration_nanos: 99,
    };
    match combine_run_and_check(run, with_user) {
        Ok(t) => {
            assert_eq!(t.duration_nanos, 99);
            assert_eq!(t.output.unwrap().stdout, b"run".to_vec());
        },
        _ => panic!(),
    }
    let rejected = Err(TestCaseError::InternalError(res("2", Status::WrongAnswer)));
    let run = CodeExecutorResult { status: None, output: None, duration_nanos: 1 };
    assert!(matches!(combine_run_and_check(run, rejected), Err(TestCaseError::InternalError(t)) if t.duration_nanos == 0));
}

#[test]
fn executor_kind_by_evaluation_type() {
    let tool = |e| CmdStr { path: "p".into(), args: vec![], eval_type: e, file_type: "x".into() };
    let t = LanguageBinary(vec![
        (Language::Cpp17, tool(EvaluationType::Compiled)),
        (Language::Python3, tool(EvaluationType::Interpreted)),
        (Language::Java, tool(EvaluationType::Java)),
    ]);
    assert_eq!(get_executor(Language::Cpp17, &t), ExecutorKind::Compiled);
    assert_eq!(get_executor(Language::Python3, &t), ExecutorKind::Interpreted);
    assert_eq!(get_executor(Language::Java, &t), ExecutorKind::Compiled);
    assert_eq!(try_get_executor(Language::Cmp, &t), None);
}

#[test]
fn user_output_file_path() {
    let p = ProblemExecutor::new("./play", "./res");
    assert_eq!(p.user_output_file(77, "case3"), "./play/77/case3.out");
}
