use evaluator::code_executor::CodeExecutorError;
use evaluator::configuration::{CmdStr, EvaluationType, LanguageBinary};
use evaluator::types::{EvaluatorError, Language, ProcessOutput, Status, TestCaseError};
use evaluator::validator::{
    checker_build_outcome, literal_verdict, testlib_verdict, TestCaseInfo, ValidationType, Validator,
};

fn out(code: Option<i32>) -> ProcessOutput {
    ProcessOutput { status_code: code, stdout: b"ok".to_vec(), stderr: vec![] }
}

fn message(r: &Result<evaluator::types::TestCaseResult, TestCaseError>) -> String {
    match r {
        Err(TestCaseError::ExternalError(EvaluatorError::GenericError(m))) => m.clone(),
        _ => panic!("expected a failure of the judge"),
    }
}

fn tool(path: &str) -> CmdStr {
    CmdStr { path: path.to_string(), args: vec![], eval_type: EvaluationType::Compiled, file_type: "cpp".to_string() }
}

#[test]
fn testlib_exit_codes() {
    match testlib_verdict("t1".to_string(), out(Some(0))) {
        Ok(r) => {
            assert!(matches!(r.status, Status::Accepted));
            assert_eq!(r.id, "t1");
            assert_eq!(r.output.unwrap().stdout, b"ok".to_vec());
        },
        _ => panic!(),
    }
    assert!(matches!(testlib_verdict("t".into(), out(Some(1))), Err(TestCaseError::InternalError(r)) if matches!(r.status, Status::WrongAnswer)));
    assert!(matches!(testlib_verdict("t".into(), out(Some(2))), Err(TestCaseError::InternalError(r)) if matches!(r.status, Status::WrongAnswer)));
    assert!(matches!(testlib_verdict("t".into(), out(Some(7))), Err(TestCaseError::InternalError(r)) if matches!(r.status, Status::PartialPoints)));
    assert_eq!(message(&testlib_verdict("t".into(), out(Some(3)))), "found ()");
    assert_eq!(message(&testlib_verdict("t".into(), out(None))), "Testlib Failed");
}

#[test]
fn cmp_exit_codes() {
    assert!(matches!(literal_verdict("t".into(), out(Some(0))), Ok(r) if matches!(r.status, Status::Accepted)));
    assert!(matches!(literal_verdict("t".into(), out(Some(1))), Err(TestCaseError::InternalError(r)) if matches!(r.status, Status::WrongAnswer)));
    assert_eq!(
        message(&literal_verdict("t".into(), out(Some(2)))),
        "Something went wrong with CMP finished with status 2"
    );
    assert_eq!(message(&literal_verdict("t".into(), out(Some(-5)))), "This -5 is inexistent in cmp documentation");
    assert_eq!(message(&literal_verdict("t".into(), out(Some(17)))), "This 17 is inexistent in cmp documentation");
    assert_eq!(message(&literal_verdict("t".into(), out(None))), "Something went wrong with Cmp");
}

#[test]
fn checkers_accept_only_exit_zero() {
    for code in [None, Some(-1), Some(0), Some(1), Some(2), Some(3), Some(7), Some(255)] {
        assert_eq!(testlib_verdict("t".into(), out(code)).is_ok(), code == Some(0));
        assert_eq!(literal_verdict("t".into(), out(code)).is_ok(), code == Some(0));
    }
}

#[test]
fn validator_paths_and_commands() {
    let v = Validator::new(ValidationType::TestlibChecker, 12, 340, "res", "play");
    assert_eq!(v.user_output_file_name("a1"), "play/340/a1.out");
    assert_eq!(v.checker_dir(), "res/12");
    assert_eq!(v.checker_path(), "res/12/checker");
    let tc = TestCaseInfo {
        id: "a1".to_string(),
        problem_id: 12,
        stdin_path: "res/12/a1.in".to_string(),
        stdout_path: "res/12/a1.out".to_string(),
    };
    let c = v.testlib_command(&tc);
    assert_eq!(c.program, "res/12/checker");
    assert_eq!(c.args, vec!["res/12/a1.in", "play/340/a1.out", "res/12/a1.out"]);
    assert!(c.current_dir.is_none());
    let table = LanguageBinary(vec![(Language::Cmp, tool("/usr/bin/cmp")), (Language::Cpp17, tool("/usr/bin/g++"))]);
    let l = v.literal_command(&tc, &table);
    assert_eq!(l.program, "/usr/bin/cmp");
    assert_eq!(l.args, vec!["--silent", "play/340/a1.out", "res/12/a1.out"]);
    let b = v.checker_build_command(&table);
    assert_eq!(b.program, "/usr/bin/g++");
    assert_eq!(b.args, vec!["checker.cpp", "-o", "checker"]);
    assert_eq!(b.current_dir.unwrap(), "res/12");
    assert!(v.needs_checker());
    let lit = Validator::new(ValidationType::LiteralChecker, 1, 2, "r", "p");
    assert!(!lit.needs_checker());
    assert!(v.should_build_checker(false));
    assert!(!v.should_build_checker(true));
    assert!(!lit.should_build_checker(false));
    assert!(!lit.should_build_checker(true));
    assert!(matches!(lit.check_input(&tc, out(Some(1))), Err(TestCaseError::InternalError(_))));
    assert!(matches!(v.check_input(&tc, out(Some(7))), Err(TestCaseError::InternalError(r)) if matches!(r.status, Status::PartialPoints)));
}

#[test]
fn checker_build_failure_carries_stderr() {
    let ok = ProcessOutput { status_code: Some(0), stdout: vec![], stderr: vec![] };
    assert!(checker_build_outcome(&ok).is_ok());
    let bad = ProcessOutput { status_code: Some(1), stdout: vec![], stderr: b"checker.cpp:1: error".to_vec() };
    match checker_build_outcome(&bad) {
        Err(CodeExecutorError::ExternalError(m)) => assert_eq!(m, "checker.cpp:1: error"),
        _ => panic!(),
    }
    let killed = ProcessOutput { status_code: None, stdout: vec![], stderr: vec![0xff, b'x'] };
    match checker_build_outcome(&killed) {
        Err(CodeExecutorError::ExternalError(m)) => assert_eq!(m, "\u{fffd}x"),
        _ => panic!(),
    }
}
