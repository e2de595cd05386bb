use evaluator::benchmark::{match_stderr, measured_outcome};
use evaluator::broker::{amqp_address, has_broken_state, is_valid_state, BrokerConnectionState};
use evaluator::checker::{checker_command, checker_status, judge_files};
use evaluator::cli::{get_tracing_mode, TracingMode};
use evaluator::code_executor::{compilation_outcome, CodeExecutor, CodeExecutorError};
use evaluator::configuration::{
    parse_bool, CmdStr, EvaluationType, LanguageBinary, PostgresSettings, RabbitMqSettings,
    RedisSettings,
};
use evaluator::consts::NSJAIL_DIR;
use evaluator::executor;
use evaluator::languages::compiled::Compiled;
use evaluator::languages::cpp::{Cpp11, Cpp17};
use evaluator::languages::java::Java;
use evaluator::languages::python_3::Python3;
use evaluator::postgres::{execution_time_millis, match_status_to_pg_status, pg_uri, store_plan};
use evaluator::redis::{cache_client, notification_channel, notifier_client, redis_address};
use evaluator::store::{problem_from_row, test_case_config_outcome, FileSystemStore, ProblemRow, TestCaseConfig};
use evaluator::submission::{process_outcome, should_delete_message};
use evaluator::problem_executor::ProblemExecutorError;
use evaluator::testcase::{input_file, output_file, problem_directory};
use evaluator::threadpool::{get_threads, queue_capacity, sandbox_input_file};
use evaluator::types::{EvaluatorError, Language, ProblemExecutorResult, ProcessOutput, Status, StatusPG, TestCaseError};
use evaluator::validator::ValidationType;

fn v(s: &[&str]) -> Vec<String> {
    s.iter().map(|x| x.to_string()).collect()
}

fn table() -> LanguageBinary {
    LanguageBinary(vec![
        (Language::Cpp17, CmdStr { path: "/usr/bin/g++".into(), args: v(&["-std=c++17", "$file", "-o", "$executable"]), eval_type: EvaluationType::Compiled, file_type: "cpp".into() }),
        (Language::Python3, CmdStr { path: "/usr/bin/python3".into(), args: v(&["$file"]), eval_type: EvaluationType::Interpreted, file_type: "py".into() }),
        (Language::Java, CmdStr { path: "/usr/bin/javac".into(), args: vec![], eval_type: EvaluationType::Java, file_type: "java".into() }),
        (Language::Cpp17, CmdStr { path: "/other".into(), args: vec![], eval_type: EvaluationType::Compiled, file_type: "c".into() }),
    ])
}

#[test]
fn postgres_uri() {
    let c = PostgresSettings { host: "db".into(), user: "judge".into(), database: "contest".into(), port: 5432, password: "SECRET-REDACTED".into() };
    assert_eq!(pg_uri(&c), "postgres://judge:SECRET-REDACTED@db:5432/contest");
}

#[test]
fn pg_status_mapping() {
    assert_eq!(match_status_to_pg_status(&Status::Pending), StatusPG::Pending);
    assert_eq!(match_status_to_pg_status(&Status::WrongAnswer), StatusPG::WrongAnswer);
    assert_eq!(match_status_to_pg_status(&Status::Accepted), StatusPG::Accepted);
    assert_eq!(match_status_to_pg_status(&Status::RuntimeError), StatusPG::RuntimeError);
    assert_eq!(match_status_to_pg_status(&Status::TimeLimitExceeded), StatusPG::TimeLimitExceeded);
    assert_eq!(match_status_to_pg_status(&Status::PartialPoints), StatusPG::PartialPoints);
    assert_eq!(match_status_to_pg_status(&Status::CompilationError), StatusPG::CompilationError);
    assert_eq!(match_status_to_pg_status(&Status::UnknownError("x".into())), StatusPG::UnknownError);
}

#[test]
fn db_execution_time_and_tables() {
    assert_eq!(execution_time_millis(1_999_999), Some(1));
    assert_eq!(execution_time_millis(2_147_483_647_000_000), Some(i32::MAX));
    assert_eq!(execution_time_millis(2_147_483_648_000_000), None);
    assert!(store_plan(Some(3)).contest_submission_table);
    assert!(!store_plan(None).contest_submission_table);
    assert!(store_plan(None).submission_table);
}

#[test]
fn tracing_mode_from_args() {
    assert_eq!(get_tracing_mode(&v(&["evaluator", "--debug"])), TracingMode::Debug);
    assert_eq!(get_tracing_mode(&v(&["evaluator"])), TracingMode::Info);
    assert_eq!(get_tracing_mode(&v(&["evaluator", "--verbose", "--debug"])), TracingMode::Info);
}

#[test]
fn bool_flag() {
    assert_eq!(parse_bool("true"), Some(true));
    assert_eq!(parse_bool("false"), Some(false));
    assert_eq!(parse_bool("True"), None);
    assert_eq!(parse_bool(""), None);
}

#[test]
fn language_table_lookup_takes_first_entry() {
    let t = table();
    assert_eq!(t.get(Language::Cpp17).unwrap().path, "/usr/bin/g++");
    assert!(t.get(Language::Cmp).is_none());
}

#[test]
fn stderr_marker_decides_time_limit() {
    let tle = ProcessOutput { status_code: Some(1), stdout: vec![], stderr: b"[>>EVALUATOR<<][TIME_LIMIT] killed".to_vec() };
    assert!(matches!(match_stderr(&tle), Status::TimeLimitExceeded));
    let rte = ProcessOutput { status_code: Some(1), stdout: vec![], stderr: b"Traceback".to_vec() };
    assert!(matches!(match_stderr(&rte), Status::RuntimeError));
    match measured_outcome(tle, 10) {
        Err(CodeExecutorError::InternalError(e)) => {
            assert!(matches!(e.status, Status::TimeLimitExceeded));
            assert_eq!(e.duration_nanos, 10);
        },
        _ => panic!(),
    }
    let ok = ProcessOutput { status_code: Some(0), stdout: b"3".to_vec(), stderr: b"[>>EVALUATOR<<][TIME_LIMIT]".to_vec() };
    assert!(measured_outcome(ok, 3).is_ok());
    let signalled = ProcessOutput { status_code: None, stdout: vec![], stderr: vec![] };
    assert!(matches!(measured_outcome(signalled, 0), Err(CodeExecutorError::InternalError(e)) if matches!(e.status, Status::RuntimeError)));
}

#[test]
fn compilation_outcomes() {
    let ok = ProcessOutput { status_code: Some(0), stdout: vec![], stderr: vec![] };
    assert!(matches!(compilation_outcome(ok), Ok(r) if r.status == Some(0)));
    let bad = ProcessOutput { status_code: Some(1), stdout: vec![], stderr: b"error".to_vec() };
    assert!(matches!(compilation_outcome(bad), Err(CodeExecutorError::InternalError(e)) if matches!(e.status, Status::CompilationError)));
}

#[test]
fn executor_paths_and_arguments() {
    let t = table();
    let mut e = CodeExecutor::<Compiled>::new2("play", Language::Cpp17, &t);
    e.set_id(42);
    e.set_code("int main(){}".into());
    assert_eq!(e.id_dir(), "play/42");
    e.set_paths();
    assert_eq!(e.user_code_file, "play/42/42.cpp");
    assert_eq!(e.directory, "play/42");
    assert_eq!(e.exec_code_file, "/play/42/42");
    assert_eq!(e.code_file_name(), "play/42/42.cpp");
    let build = e.prepare_command();
    assert_eq!(build.program, "/usr/bin/g++");
    assert_eq!(build.args, v(&["-std=c++17", "play/42/42.cpp", "-o", "/play/42/42"]));
    assert_eq!(build.current_dir.unwrap(), "./play/42/42");
    assert_eq!(e.execute_command().program, "/play/42/42");
    assert_eq!(e.nsjail_execute_command().generate_nsjail_args(), v(&["--", "/bin/sh", "-c", "/play/42/42"]));
    assert!(CodeExecutor::<Compiled>::try_new2("play", Language::Cmp, &t).is_none());
}

#[test]
fn java_executor() {
    let t = table();
    let mut e = CodeExecutor::<Java>::new2("play", Language::Java, &t);
    e.set_id(5);
    e.set_paths();
    assert_eq!(e.code_file_name(), "play/5/Main.java");
    let b = e.prepare_command();
    assert_eq!(b.program, "/usr/bin/javac");
    assert_eq!(b.args, v(&["Main.java"]));
    assert_eq!(e.execute_command().args, v(&["-cp", "play/5", "Main"]));
    assert_eq!(e.nsjail_execute_command().generate_nsjail_args(), v(&["--", "/bin/sh", "-c", "/usr/bin/java -cp play/5 Main"]));
    assert_eq!(CodeExecutor::<Java>::get_file_type(), "java");
    assert!(CodeExecutor::<Java>::is_compiled());
    assert_eq!(CodeExecutor::<Java>::language(), Language::Java);
}

#[test]
fn cpp_executors() {
    let t = table();
    let mut e = CodeExecutor::<Cpp17>::new2("play", Language::Cpp17, &t);
    e.set_id(3);
    e.set_paths();
    assert_eq!(e.get_cpp_version(), "-std=c++1z");
    let b = e.prepare_command();
    assert_eq!(b.program, "/usr/bin/g++");
    assert_eq!(b.args, v(&["-std=c++1z", "3.cpp", "-o", "3"]));
    assert_eq!(e.execute_command().program, "./3");
    assert_eq!(e.nsjail_execute_command().generate_nsjail_args(), v(&["--", "/bin/sh", "-c", "/playground/3/3"]));
    let e11 = CodeExecutor::<Cpp11>::new2("play", Language::Cpp17, &t);
    assert_eq!(e11.get_cpp_version(), "-std=c++11");
    assert_eq!(e11.prepare_command().args[0], "-std=c++11");
    assert_eq!(CodeExecutor::<Cpp11>::language(), Language::Cpp11);
    assert_eq!(CodeExecutor::<Cpp17>::get_file_type(), "cpp");
}

#[test]
fn python_executor() {
    let t = table();
    let mut e = CodeExecutor::<Python3>::new2("play", Language::Python3, &t);
    e.set_id(8);
    e.resources = "res".into();
    assert_eq!(e.execute_command(&t).program, "/usr/bin/python3");
    assert_eq!(e.nsjail_execute_command(&t).generate_nsjail_args(), v(&["--", "/bin/sh", "-c", "/usr/bin/python3 res/8/8.py"]));
    assert!(!CodeExecutor::<Python3>::is_compiled());
    assert_eq!(CodeExecutor::<Python3>::get_file_type(), "py");
}

#[test]
fn interpreted_parse_args_fills_placeholders() {
    let mut e = CodeExecutor::<Compiled>::new2("p", Language::Cpp17, &table());
    e.user_code_file = "src.c".into();
    e.exec_code_file = "bin".into();
    assert_eq!(e.parse_args(&v(&["$file", "-o", "$executable", "x$file$file"])), v(&["src.c", "-o", "bin", "xsrc.csrc.c"]));
}

#[test]
fn broker_and_redis() {
    let r = RabbitMqSettings { host: "mq".into(), queue: "q".into(), consumer: "c".into(), port: 5672 };
    assert_eq!(amqp_address(&r), "amqp://mq:5672");
    assert!(is_valid_state(BrokerConnectionState::Connecting));
    assert!(!is_valid_state(BrokerConnectionState::Reconnecting));
    assert!(has_broken_state(BrokerConnectionState::Error));
    assert!(!has_broken_state(BrokerConnectionState::Closing));
    let s = RedisSettings { host: "cache".into(), port: 6379, channel: "ch".into() };
    assert_eq!(redis_address(&s), "redis://cache:6379");
    assert_eq!(notification_channel(), "channel_1");
    assert_eq!(notifier_client(0), None);
    assert_eq!(notifier_client(2), Some(0));
    assert_eq!(cache_client(1), None);
    assert_eq!(cache_client(2), Some(1));
}

#[test]
fn store_paths_and_rows() {
    let st = FileSystemStore::new("res", "http://up");
    assert_eq!(st.testcase_paths(4, "a"), ("res/4/a.in".to_string(), "res/4/a.out".to_string()));
    assert_eq!(st.test_case_config_url(4), "http://up/4");
    let info = st.load_testcase(4, "a", true, true).unwrap();
    assert_eq!(info.stdout_path, "res/4/a.out");
    for (i, o) in [(false, true), (true, false), (false, false)] {
        match st.load_testcase(4, "a", i, o) {
            Err(TestCaseError::ExternalError(EvaluatorError::GenericError(m))) => assert_eq!(m, "File: res/4/a.in not found"),
            _ => panic!(),
        }
    }
    let row = ProblemRow { id: -1, checker: Some("c".into()), body: "{}".into(), memory_limit: 65536 + 256, time_limit: 2, is_public: true, validation: ValidationType::LiteralChecker, testcases: None };
    let p = problem_from_row(row);
    assert_eq!(p.id, u32::MAX);
    assert_eq!(p.memory_limit, 256);
    assert!(p.test_cases.is_empty());
    assert_eq!(p.checker.unwrap().checker, "c");
    assert!(test_case_config_outcome(Some(Some(TestCaseConfig { test_cases: v(&["1"]), problem_id: 4 }))).is_ok());
    for d in [None, Some(None)] {
        match test_case_config_outcome(d) {
            Err(TestCaseError::ExternalError(EvaluatorError::GenericError(m))) => assert_eq!(m, "Unable to fetch test case config"),
            _ => panic!(),
        }
    }
}

#[test]
fn submission_decisions() {
    let judged = ProblemExecutorResult { overall_result: Status::CompilationError, test_cases_results: vec![], prepare_output: None };
    assert!(process_outcome(Err(ProblemExecutorError::InternalError(judged))).is_ok());
    assert!(matches!(process_outcome(Err(ProblemExecutorError::ExternalError(EvaluatorError::SubmissionIdNotFound))), Err(EvaluatorError::SubmissionIdNotFound)));
    assert!(should_delete_message(&Ok(())));
    assert!(should_delete_message(&Err(EvaluatorError::ProblemNotFound)));
    assert!(!should_delete_message(&Err(EvaluatorError::GenericError("db".into()))));
    assert!(!should_delete_message(&Err(EvaluatorError::FailedTestLibCheckerCompilation("x".into()))));
}

#[test]
fn worker_and_file_layout() {
    assert_eq!(get_threads(), 4);
    assert_eq!(queue_capacity(), 8);
    assert_eq!(sandbox_input_file(9, "t2"), "/resources/9/input_t2.in");
    assert_eq!(problem_directory(9), "./resources/9");
    assert_eq!(input_file("./resources/9", "5"), "./resources/9/input_5.in");
    assert_eq!(output_file("./resources/9", "5"), "./resources/9/output_5.out");
    assert_eq!(NSJAIL_DIR, "/bin/nsjail");
}

#[test]
fn old_checker_layout_and_status() {
    let (a, b, c) = judge_files("7");
    assert_eq!(a, "./playground/judge_input_7.in");
    assert_eq!(b, "./playground/user_output_7.out");
    assert_eq!(c, "./playground/judge_output_7.out");
    let cmd = checker_command("7");
    assert_eq!(cmd.program, "./checker");
    assert_eq!(cmd.args, v(&["judge_input_7.in", "user_output_7.out", "judge_output_7.out"]));
    assert!(matches!(checker_status(Some(0)), Status::Accepted));
    assert!(matches!(checker_status(Some(7)), Status::PartialPoints));
    assert!(matches!(checker_status(None), Status::UnknownError(ref m) if m == "testlib execution fails"));
    assert!(executor::ProblemExecutor::new() == executor::ProblemExecutor::default());
}

#[test]
fn test_case_files_are_named_by_the_uuid_text() {
    let id = uuid::Uuid::parse_str("67e55044-10b1-426f-9247-bb680e5fe0c8").unwrap().to_string();
    assert_eq!(
        input_file("./resources/9", &id),
        "./resources/9/input_67e55044-10b1-426f-9247-bb680e5fe0c8.in"
    );
    assert_eq!(
        output_file("./resources/9", &id),
        "./resources/9/output_67e55044-10b1-426f-9247-bb680e5fe0c8.out"
    );
    assert_eq!(
        sandbox_input_file(9, &id),
        "/resources/9/input_67e55044-10b1-426f-9247-bb680e5fe0c8.in"
    );
    let nil = uuid::Uuid::nil().to_string();
    assert_eq!(input_file("d", &nil), "d/input_00000000-0000-0000-0000-000000000000.in");
}
