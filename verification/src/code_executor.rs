//! The executor of one submission: where its files go, how its toolchain's
//! arguments are filled in, and how a run is classified.

use vstd::prelude::*;
use core::marker::PhantomData;
use crate::command::{JailedCommand, JailedCommandView};
use crate::configuration::{CmdStr, EvaluationType, LanguageBinary};
use crate::text::{decimal, owned, push_str, replace_all, replace_str, u128_to_string, views};
use crate::types::{Language, ProcessOutput, Status};

verus! {

/// A successful step: the exit code and output of the process, if one ran,
/// and how long it took.
#[derive(Debug)]
pub struct CodeExecutorResult {
    pub status: Option<i32>,
    pub output: Option<ProcessOutput>,
    pub duration_nanos: u128,
}

/// A step that ended with a verdict against the submission.
#[derive(Debug)]
pub struct CodeExecutorInternalError {
    pub status: Status,
    pub output: Option<ProcessOutput>,
    pub duration_nanos: u128,
}

/// A failed step: a verdict against the submission, or a failure of the judge.
#[derive(Debug)]
pub enum CodeExecutorError {
    InternalError(CodeExecutorInternalError),
    ExternalError(String),
}

/// Marks the executors whose steps the judge knows how to run.
pub trait Execution {
}

/// The executor of a submission in a language of kind `L`.
pub struct CodeExecutor<L> {
    pub id: u128,
    pub time_limit: i32,
    pub code: String,
    pub checker: Option<String>,
    pub directory: String,
    pub executable: CmdStr,
    pub _marker: PhantomData<L>,
    pub playground: String,
    pub resources: String,
    pub user_code_file: String,
    pub exec_code_file: String,
}

/// The decimal rendering of an identifier.
pub open spec fn dec(id: u128) -> Seq<char> {
    decimal(id as nat)
}

/// `"{playground}/{id}"`.
pub open spec fn id_dir_path(playground: Seq<char>, id: u128) -> Seq<char> {
    playground + "/"@ + dec(id)
}

/// `"{playground}/{id}/{id}.{file_type}"`.
pub open spec fn user_code_path(playground: Seq<char>, id: u128, file_type: Seq<char>) -> Seq<char> {
    playground + "/"@ + dec(id) + "/"@ + dec(id) + "."@ + file_type
}

/// `"/{playground}/{id}/{id}"`.
pub open spec fn exec_code_path(playground: Seq<char>, id: u128) -> Seq<char> {
    "/"@ + playground + "/"@ + dec(id) + "/"@ + dec(id)
}

/// An argument of a toolchain with `$file` and `$executable` filled in.
pub open spec fn fill_arg(arg: Seq<char>, file: Seq<char>, executable: Seq<char>) -> Seq<char> {
    replace_all(replace_all(arg, "$file"@, file), "$executable"@, executable)
}

/// The result of a step that ran no process.
pub fn no_process_result() -> (r: CodeExecutorResult)
    ensures
        r.status is None,
        r.output is None,
        r.duration_nanos == 0,
{
    CodeExecutorResult { status: None, output: None, duration_nanos: 0 }
}

/// The outcome of building a submission: the build's output when it
/// succeeded, a compilation error carrying that output otherwise.
pub fn compilation_outcome(output: ProcessOutput) -> (r: Result<CodeExecutorResult, CodeExecutorError>)
    ensures
        output.spec_success() ==> r == Ok::<CodeExecutorResult, CodeExecutorError>(CodeExecutorResult {
            status: output.status_code,
            output: Some(output),
            duration_nanos: 0,
        }),
        !output.spec_success() ==> r == Err::<CodeExecutorResult, CodeExecutorError>(
            CodeExecutorError::InternalError(CodeExecutorInternalError {
                status: Status::CompilationError,
                output: Some(output),
                duration_nanos: 0,
            }),
        ),
{
    if output.success() {
        let code = output.status_code;
        Ok(CodeExecutorResult { status: code, output: Some(output), duration_nanos: 0 })
    } else {
        Err(
            CodeExecutorError::InternalError(
                CodeExecutorInternalError {
                    status: Status::CompilationError,
                    output: Some(output),
                    duration_nanos: 0,
                },
            ),
        )
    }
}

/// Appends the decimal rendering of `n`.
pub fn push_u128(s: &mut String, n: u128)
    ensures
        final(s)@ == old(s)@ + decimal(n as nat),
{
    let d = u128_to_string(n);
    push_str(s, d.as_str());
}

impl<L> CodeExecutor<L> {
    /// An executor working in `playground` with the toolchain that the table
    /// gives `language`; everything else starts empty.
    pub fn new2(playground: &str, language: Language, table: &LanguageBinary) -> (r: Self)
        requires
            table.spec_get(language) is Some,
        ensures
            r.playground@ == playground@,
            r.executable.path@ == table.spec_get(language)->0.path@,
            r.executable.args@ == table.spec_get(language)->0.args@,
            r.executable.eval_type == table.spec_get(language)->0.eval_type,
            r.executable.file_type@ == table.spec_get(language)->0.file_type@,
            r.id == 0,
            r.time_limit == 0,
            r.code@.len() == 0,
            r.checker is None,
            r.directory@.len() == 0,
            r.resources@.len() == 0,
            r.user_code_file@.len() == 0,
            r.exec_code_file@.len() == 0,
    {
        let cmd = table.get(language).unwrap();
        CodeExecutor {
            id: 0,
            time_limit: 0,
            code: String::new(),
            checker: None,
            directory: String::new(),
            executable: cmd.duplicate(),
            _marker: PhantomData,
            playground: owned(playground),
            resources: String::new(),
            user_code_file: String::new(),
            exec_code_file: String::new(),
        }
    }

    /// `new2` when the table has a toolchain for `language`, `None` otherwise.
    pub fn try_new2(playground: &str, language: Language, table: &LanguageBinary) -> (r: Option<Self>)
        ensures
            r is None <==> table.spec_get(language) is None,
            r matches Some(e) ==> e.playground@ == playground@ && e.executable.path@
                == table.spec_get(language)->0.path@ && e.executable.args@ == table.spec_get(
                language,
            )->0.args@ && e.executable.eval_type == table.spec_get(language)->0.eval_type
                && e.executable.file_type@ == table.spec_get(language)->0.file_type@ && e.id == 0,
    {
        if table.get(language).is_some() {
            Some(Self::new2(playground, language, table))
        } else {
            None
        }
    }

    /// Sets the source code.
    pub fn set_code(&mut self, code: String)
        ensures
            *final(self) == (CodeExecutor { code, ..*old(self) }),
    {
        self.code = code;
    }

    /// Sets the identifier of the submission.
    pub fn set_id(&mut self, id: u128)
        ensures
            *final(self) == (CodeExecutor { id, ..*old(self) }),
    {
        self.id = id;
    }

    /// The directory of this submission, `"{playground}/{id}"`.
    pub fn id_dir(&self) -> (r: String)
        ensures
            r@ == id_dir_path(self.playground@, self.id),
    {
        let mut s = self.playground.clone();
        push_str(&mut s, "/");
        push_u128(&mut s, self.id);
        s
    }

    /// Fills in where the source file, the submission's directory and the
    /// built program are, before the environment is created.
    pub fn set_paths(&mut self)
        ensures
            final(self).user_code_file@ == user_code_path(
                old(self).playground@,
                old(self).id,
                old(self).executable.file_type@,
            ),
            final(self).directory@ == id_dir_path(old(self).playground@, old(self).id),
            final(self).exec_code_file@ == exec_code_path(old(self).playground@, old(self).id),
            final(self).id == old(self).id,
            final(self).time_limit == old(self).time_limit,
            final(self).code == old(self).code,
            final(self).checker == old(self).checker,
            final(self).executable == old(self).executable,
            final(self).playground == old(self).playground,
            final(self).resources == old(self).resources,
    {
        let dir = self.id_dir();
        let mut file = dir.clone();
        push_str(&mut file, "/");
        push_u128(&mut file, self.id);
        push_str(&mut file, ".");
        push_str(&mut file, self.executable.file_type.as_str());
        let mut exe = owned("/");
        push_str(&mut exe, dir.as_str());
        push_str(&mut exe, "/");
        push_u128(&mut exe, self.id);
        self.user_code_file = file;
        self.directory = dir;
        self.exec_code_file = exe;
    }

    /// The file the source code is written to: `Main.java` in the
    /// submission's directory for Java, the source file otherwise.
    pub fn code_file_name(&self) -> (r: String)
        ensures
            self.executable.eval_type == EvaluationType::Java ==> r@ == id_dir_path(
                self.playground@,
                self.id,
            ) + "/Main.java"@,
            self.executable.eval_type != EvaluationType::Java ==> r@ == self.user_code_file@,
    {
        match self.executable.eval_type {
            EvaluationType::Java => {
                let mut s = self.id_dir();
                push_str(&mut s, "/Main.java");
                s
            },
            _ => self.user_code_file.clone(),
        }
    }

    /// The toolchain arguments with `$file` replaced by the source file and
    /// then `$executable` by the built program.
    pub fn parse_args(&self, data: &Vec<String>) -> (r: Vec<String>)
        ensures
            r@.len() == data@.len(),
            forall|i: int|
                0 <= i < data@.len() ==> #[trigger] r@[i]@ == fill_arg(
                    data@[i]@,
                    self.user_code_file@,
                    self.exec_code_file@,
                ),
    {
        let mut out: Vec<String> = Vec::new();
        let mut i: usize = 0;
        while i < data.len()
            invariant
                i <= data@.len(),
                out@.len() == i,
                forall|j: int|
                    0 <= j < i ==> #[trigger] out@[j]@ == fill_arg(
                        data@[j]@,
                        self.user_code_file@,
                        self.exec_code_file@,
                    ),
            decreases data.len() - i,
        {
            proof {
                reveal_strlit("$file");
                reveal_strlit("$executable");
            }
            let a = replace_str(data[i].as_str(), "$file", self.user_code_file.as_str());
            let b = replace_str(a.as_str(), "$executable", self.exec_code_file.as_str());
            out.push(b);
            i = i + 1;
        }
        out
    }

    /// The toolchain's arguments, filled in.
    pub fn toolchain_args(&self) -> (r: Vec<String>)
        ensures
            r@.len() == self.executable.args@.len(),
            forall|i: int|
                0 <= i < r@.len() ==> #[trigger] r@[i]@ == fill_arg(
                    self.executable.args@[i]@,
                    self.user_code_file@,
                    self.exec_code_file@,
                ),
    {
        self.parse_args(&self.executable.args)
    }

    /// The sandboxed command that runs `base` on one input file: started in
    /// `/app/evaluator`, with the resources and playground mounted, the
    /// sandbox configuration given, and the input file fed on standard input.
    pub fn sandboxed_run(&self, base: JailedCommand, input_file: &str) -> (r: JailedCommand)
        ensures
            r@ == (JailedCommandView {
                current_dir: "/app/evaluator"@,
                mounts: base@.mounts + seq![
                    ("/app/evaluator/resources/"@, "/resources"@),
                    ("/app/evaluator/playground/"@, "/playground"@),
                ],
                config_file: Some("/app/evaluator/resources/nsjail.cfg"@),
                args: base@.args + seq!["<"@, input_file@],
                ..base@
            }),
    {
        let ghost b = base@;
        let r = base.current_dir("/app/evaluator").mount("/app/evaluator/resources/", "/resources").mount(
            "/app/evaluator/playground/",
            "/playground",
        ).config_file("/app/evaluator/resources/nsjail.cfg").arg("<").arg(input_file);
        assert(r@.mounts =~= b.mounts + seq![
            ("/app/evaluator/resources/"@, "/resources"@),
            ("/app/evaluator/playground/"@, "/playground"@),
        ]);
        assert(r@.args =~= b.args + seq!["<"@, input_file@]);
        r
    }
}

} // verus!
