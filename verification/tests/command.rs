use evaluator::code_executor::CodeExecutor;
use evaluator::command::JailedCommand;
use evaluator::configuration::{CmdStr, EvaluationType, LanguageBinary};
use evaluator::languages::interpreted::Interpreted;
use evaluator::types::Language;

fn strings(v: &[&str]) -> Vec<String> {
    v.iter().map(|s| s.to_string()).collect()
}

#[test]
pub fn test_command() -> () {
    let process = "python3".to_string();
    let _ = JailedCommand::new(process)
        .arg("Python3 ")
        .arg("Python3 ")
        .mount("/bin/python3/", "/src/bin/python3")
        .time_limit(2);
}

#[test]
pub fn test_generate_nsjail_commands() -> () {
    let c = JailedCommand::new("/usr/bin/python3".to_string());
    let m = c
        .arg("/code/script.py")
        .arg("<")
        .arg("/code/b.in")
        .mount("/bin/python3/", "/src/bin/python3")
        .mount("/usr/lib/", "/usr/libi")
        .mount("/dev/null", "/tmp/null")
        .time_limit(2);
    println!("{:?}", m.generate_nsjail_args());
}

#[test]
fn nsjail_args_are_time_limit_mounts_then_shell_command() {
    let m = JailedCommand::new("/usr/bin/python3".to_string())
        .arg("/code/script.py")
        .arg("<")
        .arg("/code/b.in")
        .mount("/bin/python3/", "/src/bin/python3")
        .mount("/usr/lib/", "/usr/libi")
        .mount("/dev/null", "/tmp/null")
        .time_limit(2);
    assert_eq!(
        m.generate_nsjail_args(),
        strings(&[
            "--time_limit",
            "2",
            "-R",
            "/bin/python3/:/src/bin/python3",
            "-R",
            "/usr/lib/:/usr/libi",
            "-R",
            "/dev/null:/tmp/null",
            "--",
            "/bin/sh",
            "-c",
            "/usr/bin/python3 /code/script.py < /code/b.in",
        ])
    );
}

#[test]
fn nsjail_args_start_with_config_file() {
    let m = JailedCommand::new("./a".to_string()).config_file("/etc/nsjail.cfg").input_file("in");
    assert_eq!(
        m.generate_nsjail_args(),
        strings(&["--config", "/etc/nsjail.cfg", "--", "/bin/sh", "-c", "./a"])
    );
}

#[test]
fn nsjail_args_shape_counts() {
    let m = JailedCommand::new("x".to_string()).mount("a", "b").config_file("c");
    let args = m.generate_nsjail_args();
    assert_eq!(args.len(), 2 + 2 * 1 + 4);
    assert_eq!(args[args.len() - 4], "--");
    assert_eq!(args.last().unwrap(), "x");
}

#[test]
fn sandboxed_run_sets_directory_mounts_config_and_input() {
    let table = LanguageBinary(vec![(
        Language::Python3,
        CmdStr {
            path: "/usr/bin/python3".to_string(),
            args: strings(&["$file"]),
            eval_type: EvaluationType::Interpreted,
            file_type: "py".to_string(),
        },
    )]);
    let mut e = CodeExecutor::<Interpreted>::new2("playground", Language::Python3, &table);
    e.set_id(7);
    e.set_paths();
    let base = e.nsjail_execute_command();
    let run = e.sandboxed_run(base, "/resources/1/a.in");
    assert_eq!(run.get_current_dir(), "/app/evaluator");
    assert_eq!(
        run.generate_nsjail_args(),
        strings(&[
            "--config",
            "/app/evaluator/resources/nsjail.cfg",
            "-R",
            "/app/evaluator/resources/:/resources",
            "-R",
            "/app/evaluator/playground/:/playground",
            "--",
            "/bin/sh",
            "-c",
            "/usr/bin/python3 playground/7/7.py < /resources/1/a.in",
        ])
    );
}

#[test]
fn jailed_args_appends_in_order() {
    let m = JailedCommand::new("run".to_string()).args(&strings(&["a", "b"])).arg("c");
    assert_eq!(m.generate_nsjail_args(), strings(&["--", "/bin/sh", "-c", "run a b c"]));
}

#[test]
fn time_limit_reaches_the_sandbox_before_the_config_file() {
    let m = JailedCommand::new("./a".to_string()).config_file("c.cfg").time_limit(15);
    assert_eq!(m.generate_nsjail_args(), strings(&["--time_limit", "15", "--config", "c.cfg", "--", "/bin/sh", "-c", "./a"]));
    let unlimited = JailedCommand::new("./a".to_string());
    assert_eq!(unlimited.generate_nsjail_args(), strings(&["--", "/bin/sh", "-c", "./a"]));
}
