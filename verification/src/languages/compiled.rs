//! Languages whose toolchain builds a program that is then run.

use vstd::prelude::*;
use crate::code_executor::{fill_arg, CodeExecutor, Execution};
use crate::command::{fresh_command, JailedCommand, ProgramCommand};
use crate::text::{owned, push_str};
use crate::code_executor::{dec, push_u128};

verus! {

/// Marks executors of compiled languages.
pub struct Compiled;

impl Execution for CodeExecutor<Compiled> {

}

/// `"./{directory}/{id}"`: where the toolchain is started.
pub open spec fn build_dir(directory: Seq<char>, id: u128) -> Seq<char> {
    "./"@ + directory + "/"@ + dec(id)
}

/// `"./{directory}/{id}"` for an executor.
pub fn build_dir_of<L>(e: &CodeExecutor<L>) -> (r: String)
    ensures
        r@ == build_dir(e.directory@, e.id),
{
    let mut s = owned("./");
    push_str(&mut s, e.directory.as_str());
    push_str(&mut s, "/");
    push_u128(&mut s, e.id);
    s
}

impl CodeExecutor<Compiled> {
    /// The build: the toolchain's program with its filled-in arguments,
    /// started in `"./{directory}/{id}"`.
    pub fn prepare_command(&self) -> (r: ProgramCommand)
        ensures
            r.program@ == self.executable.path@,
            r.args@.len() == self.executable.args@.len(),
            forall|i: int|
                0 <= i < r.args@.len() ==> #[trigger] r.args@[i]@ == fill_arg(
                    self.executable.args@[i]@,
                    self.user_code_file@,
                    self.exec_code_file@,
                ),
            r.current_dir matches Some(d) && d@ == build_dir(self.directory@, self.id),
    {
        ProgramCommand {
            program: self.executable.path.clone(),
            args: self.toolchain_args(),
            current_dir: Some(build_dir_of(self)),
        }
    }

    /// Running the built program directly.
    pub fn execute_command(&self) -> (r: ProgramCommand)
        ensures
            r.program@ == self.exec_code_file@,
            r.args@.len() == 0,
            r.current_dir is None,
    {
        ProgramCommand { program: self.exec_code_file.clone(), args: Vec::new(), current_dir: None }
    }

    /// Running the built program in the sandbox.
    pub fn nsjail_execute_command(&self) -> (r: JailedCommand)
        ensures
            r@ == fresh_command(self.exec_code_file@),
    {
        JailedCommand::new(self.exec_code_file.clone())
    }
}

} // verus!
