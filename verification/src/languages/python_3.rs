//! Python 3 submissions, run by the interpreter the table gives.

use vstd::prelude::*;
use crate::code_executor::{dec, push_u128, CodeExecutor};
use crate::command::{fresh_command, JailedCommand, JailedCommandView, ProgramCommand};
use crate::configuration::LanguageBinary;
use crate::text::{push_str, owned};
use crate::types::Language;

verus! {

/// Marks executors of Python 3 submissions.
pub struct Python3;

impl CodeExecutor<Python3> {
    /// Running the interpreter that the table gives Python 3.
    pub fn execute_command(&self, table: &LanguageBinary) -> (r: ProgramCommand)
        requires
            table.spec_get(Language::Python3) is Some,
        ensures
            r.program@ == table.spec_get(Language::Python3)->0.path@,
            r.args@.len() == 0,
            r.current_dir is None,
    {
        let python3 = table.get(Language::Python3).unwrap();
        ProgramCommand { program: python3.path.clone(), args: Vec::new(), current_dir: None }
    }

    /// The extension of source files.
    pub fn get_file_type() -> (r: String)
        ensures
            r@ == "py"@,
    {
        owned("py")
    }

    /// Running the source file `"{resources}/{id}/{id}.{file_type}"` with the
    /// interpreter in the sandbox.
    pub fn nsjail_execute_command(&self, table: &LanguageBinary) -> (r: JailedCommand)
        requires
            table.spec_get(Language::Python3) is Some,
        ensures
            r@ == (JailedCommandView {
                args: seq![
                    table.spec_get(Language::Python3)->0.path@,
                    self.resources@ + "/"@ + dec(self.id) + "/"@ + dec(self.id) + "."@
                        + self.executable.file_type@,
                ],
                ..fresh_command(table.spec_get(Language::Python3)->0.path@)
            }),
    {
        let python3 = table.get(Language::Python3).unwrap();
        let mut file = self.resources.clone();
        push_str(&mut file, "/");
        push_u128(&mut file, self.id);
        push_str(&mut file, "/");
        push_u128(&mut file, self.id);
        push_str(&mut file, ".");
        push_str(&mut file, self.executable.file_type.as_str());
        let r = JailedCommand::new(python3.path.clone()).arg(file.as_str());
        assert(r@.args =~= seq![
            table.spec_get(Language::Python3)->0.path@,
            self.resources@ + "/"@ + dec(self.id) + "/"@ + dec(self.id) + "."@
                + self.executable.file_type@,
        ]);
        r
    }

    /// Python is not built before it runs.
    pub fn is_compiled() -> (r: bool)
        ensures
            !r,
    {
        false
    }

    /// The language these executors report.
    pub fn language() -> (r: Language)
        ensures
            r == Language::Python3,
    {
        Language::Python3
    }
}

} // verus!
