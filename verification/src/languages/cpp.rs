//! C++ submissions built with `g++` in a fixed standard.

use vstd::prelude::*;
use crate::code_executor::{dec, push_u128, CodeExecutor};
use crate::command::{fresh_command, JailedCommand, ProgramCommand};
use crate::languages::compiled::{build_dir, build_dir_of};
use crate::text::{owned, push_str};
use crate::types::Language;

verus! {

/// Marks executors of C++17 submissions.
pub struct Cpp17;

/// Marks executors of C++11 submissions.
pub struct Cpp11;

/// The build of a C++ submission: `g++ {standard} {id}.cpp -o {id}` started
/// in `"./{directory}/{id}"`.
pub open spec fn cpp_build_ok<L>(e: CodeExecutor<L>, standard: Seq<char>, r: ProgramCommand) -> bool {
    &&& r.program@ == "/usr/bin/g++"@
    &&& r.args@.len() == 4
    &&& r.args@[0]@ == standard
    &&& r.args@[1]@ == dec(e.id) + ".cpp"@
    &&& r.args@[2]@ == "-o"@
    &&& r.args@[3]@ == dec(e.id)
    &&& r.current_dir matches Some(d) && d@ == build_dir(e.directory@, e.id)
}

fn cpp_build<L>(e: &CodeExecutor<L>, standard: &str) -> (r: ProgramCommand)
    ensures
        cpp_build_ok(*e, standard@, r),
{
    let mut file = String::new();
    push_u128(&mut file, e.id);
    push_str(&mut file, ".cpp");
    let mut exe = String::new();
    push_u128(&mut exe, e.id);
    let mut args: Vec<String> = Vec::new();
    args.push(owned(standard));
    args.push(file);
    args.push(owned("-o"));
    args.push(exe);
    ProgramCommand { program: owned("/usr/bin/g++"), args, current_dir: Some(build_dir_of(e)) }
}

/// Running a built C++ program directly: `./{id}`.
fn cpp_run<L>(e: &CodeExecutor<L>) -> (r: ProgramCommand)
    ensures
        r.program@ == "./"@ + dec(e.id),
        r.args@.len() == 0,
        r.current_dir is None,
{
    let mut p = owned("./");
    push_u128(&mut p, e.id);
    ProgramCommand { program: p, args: Vec::new(), current_dir: None }
}

/// Running a built C++ program in the sandbox: `/playground/{id}/{id}`.
fn cpp_jailed<L>(e: &CodeExecutor<L>) -> (r: JailedCommand)
    ensures
        r@ == fresh_command("/playground/"@ + dec(e.id) + "/"@ + dec(e.id)),
{
    let mut p = owned("/playground/");
    push_u128(&mut p, e.id);
    push_str(&mut p, "/");
    push_u128(&mut p, e.id);
    JailedCommand::new(p)
}

impl CodeExecutor<Cpp17> {
    /// The compiler flag of the standard: `-std=c++1z`.
    pub fn get_cpp_version(&self) -> (r: String)
        ensures
            r@ == "-std=c++1z"@,
    {
        owned("-std=c++1z")
    }

    /// The build command.
    pub fn prepare_command(&self) -> (r: ProgramCommand)
        ensures
            cpp_build_ok(*self, "-std=c++1z"@, r),
    {
        cpp_build(self, "-std=c++1z")
    }

    /// Running the built program directly.
    pub fn execute_command(&self) -> (r: ProgramCommand)
        ensures
            r.program@ == "./"@ + dec(self.id),
            r.args@.len() == 0,
            r.current_dir is None,
    {
        cpp_run(self)
    }

    /// Running the built program in the sandbox.
    pub fn nsjail_execute_command(&self) -> (r: JailedCommand)
        ensures
            r@ == fresh_command("/playground/"@ + dec(self.id) + "/"@ + dec(self.id)),
    {
        cpp_jailed(self)
    }

    /// The extension of source files.
    pub fn get_file_type() -> (r: String)
        ensures
            r@ == "cpp"@,
    {
        owned("cpp")
    }

    /// C++ is built before it runs.
    pub fn is_compiled() -> (r: bool)
        ensures
            r,
    {
        true
    }

    /// The language these executors report.
    pub fn language() -> (r: Language)
        ensures
            r == Language::Cpp11,
    {
        Language::Cpp11
    }
}

impl CodeExecutor<Cpp11> {
    /// The compiler flag of the standard: `-std=c++11`.
    pub fn get_cpp_version(&self) -> (r: String)
        ensures
            r@ == "-std=c++11"@,
    {
        owned("-std=c++11")
    }

    /// The build command.
    pub fn prepare_command(&self) -> (r: ProgramCommand)
        ensures
            cpp_build_ok(*self, "-std=c++11"@, r),
    {
        cpp_build(self, "-std=c++11")
    }

    /// Running the built program directly.
    pub fn execute_command(&self) -> (r: ProgramCommand)
        ensures
            r.program@ == "./"@ + dec(self.id),
            r.args@.len() == 0,
            r.current_dir is None,
    {
        cpp_run(self)
    }

    /// Running the built program in the sandbox.
    pub fn nsjail_execute_command(&self) -> (r: JailedCommand)
        ensures
            r@ == fresh_command("/playground/"@ + dec(self.id) + "/"@ + dec(self.id)),
    {
        cpp_jailed(self)
    }

    /// The extension of source files.
    pub fn get_file_type() -> (r: String)
        ensures
            r@ == "cpp"@,
    {
        owned("cpp")
    }

    /// C++ is built before it runs.
    pub fn is_compiled() -> (r: bool)
        ensures
            r,
    {
        true
    }

    /// The language these executors report.
    pub fn language() -> (r: Language)
        ensures
            r == Language::Cpp11,
    {
        Language::Cpp11
    }
}

} // verus!
