//! Languages whose toolchain runs the source file directly.

use vstd::prelude::*;
use crate::code_executor::{fill_arg, CodeExecutor, Execution};
use crate::command::{fresh_command, JailedCommand, JailedCommandView, ProgramCommand};
use crate::text::views;

verus! {

/// Marks executors of interpreted languages.
pub struct Interpreted;

impl Execution for CodeExecutor<Interpreted> {

}

impl CodeExecutor<Interpreted> {
    /// Running the interpreter with its filled-in arguments in the sandbox.
    pub fn nsjail_execute_command(&self) -> (r: JailedCommand)
        ensures
            r@.args.len() == 1 + self.executable.args@.len(),
            r@.args[0] == self.executable.path@,
            forall|i: int|
                0 <= i < self.executable.args@.len() ==> #[trigger] r@.args[i + 1] == fill_arg(
                    self.executable.args@[i]@,
                    self.user_code_file@,
                    self.exec_code_file@,
                ),
            r@ == (JailedCommandView { args: r@.args, ..fresh_command(self.executable.path@) }),
    {
        let args = self.toolchain_args();
        let r = JailedCommand::new(self.executable.path.clone()).args(&args);
        proof {
            assert forall|i: int| 0 <= i < self.executable.args@.len() implies #[trigger] r@.args[i
                + 1] == fill_arg(
                self.executable.args@[i]@,
                self.user_code_file@,
                self.exec_code_file@,
            ) by {
                assert(r@.args[i + 1] == views(args@)[i]);
                assert(args@[i]@ == fill_arg(
                    self.executable.args@[i]@,
                    self.user_code_file@,
                    self.exec_code_file@,
                ));
            }
        }
        r
    }

    /// Running the interpreter with its filled-in arguments directly.
    pub fn execute_command(&self) -> (r: ProgramCommand)
        ensures
            r.program@ == self.executable.path@,
            r.args@.len() == self.executable.args@.len(),
            forall|i: int|
                0 <= i < r.args@.len() ==> #[trigger] r.args@[i]@ == fill_arg(
                    self.executable.args@[i]@,
                    self.user_code_file@,
                    self.exec_code_file@,
                ),
            r.current_dir is None,
    {
        ProgramCommand {
            program: self.executable.path.clone(),
            args: self.toolchain_args(),
            current_dir: None,
        }
    }
}

} // verus!
