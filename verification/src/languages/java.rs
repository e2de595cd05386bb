//! Java submissions: `Main.java` built with the configured compiler and run
//! with `java -cp`.

use vstd::prelude::*;
use crate::code_executor::{dec, id_dir_path, CodeExecutor};
use crate::command::{fresh_command, JailedCommand, JailedCommandView, ProgramCommand};
use crate::languages::compiled::{build_dir, build_dir_of};
use crate::text::owned;
use crate::types::Language;

verus! {

/// Marks executors of Java submissions.
pub struct Java;

impl CodeExecutor<Java> {
    /// The build: the configured compiler on `Main.java`, started in
    /// `"./{directory}/{id}"`.
    pub fn prepare_command(&self) -> (r: ProgramCommand)
        ensures
            r.program@ == self.executable.path@,
            r.args@.len() == 1,
            r.args@[0]@ == "Main.java"@,
            r.current_dir matches Some(d) && d@ == build_dir(self.directory@, self.id),
    {
        let mut args: Vec<String> = Vec::new();
        args.push(owned("Main.java"));
        ProgramCommand {
            program: self.executable.path.clone(),
            args,
            current_dir: Some(build_dir_of(self)),
        }
    }

    /// Running the class `Main` from the submission's directory.
    pub fn execute_command(&self) -> (r: ProgramCommand)
        ensures
            r.program@ == "/usr/bin/java"@,
            r.args@.len() == 3,
            r.args@[0]@ == "-cp"@,
            r.args@[1]@ == id_dir_path(self.playground@, self.id),
            r.args@[2]@ == "Main"@,
            r.current_dir is None,
    {
        let mut args: Vec<String> = Vec::new();
        args.push(owned("-cp"));
        args.push(self.id_dir());
        args.push(owned("Main"));
        ProgramCommand { program: owned("/usr/bin/java"), args, current_dir: None }
    }

    /// Running the class `Main` in the sandbox.
    pub fn nsjail_execute_command(&self) -> (r: JailedCommand)
        ensures
            r@ == (JailedCommandView {
                args: seq![
                    "/usr/bin/java"@,
                    "-cp"@,
                    id_dir_path(self.playground@, self.id),
                    "Main"@,
                ],
                ..fresh_command("/usr/bin/java"@)
            }),
    {
        let dir = self.id_dir();
        let r = JailedCommand::new(owned("/usr/bin/java")).arg("-cp").arg(dir.as_str()).arg("Main");
        assert(r@.args =~= seq![
            "/usr/bin/java"@,
            "-cp"@,
            id_dir_path(self.playground@, self.id),
            "Main"@,
        ]);
        r
    }

    /// The extension of source files.
    pub fn get_file_type() -> (r: String)
        ensures
            r@ == "java"@,
    {
        owned("java")
    }

    /// Java is built before it runs.
    pub fn is_compiled() -> (r: bool)
        ensures
            r,
    {
        true
    }

    /// The language these executors report.
    pub fn language() -> (r: Language)
        ensures
            r == Language::Java,
    {
        Language::Java
    }
}

} // verus!
