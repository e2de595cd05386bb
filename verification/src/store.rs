//! Where the judge finds problems and their test cases.

use vstd::prelude::*;
use crate::code_executor::push_u128;
use crate::text::{decimal, owned, push_str};
use crate::types::{EvaluatorError, TestCaseError};
use crate::validator::{TestCaseInfo, ValidationType};

verus! {

/// The source of a problem's testlib checker.
pub struct Checker {
    pub checker: String,
}

/// A problem: its limits, how outputs are checked and its test cases. The
/// statement is kept as the JSON text the database stores.
pub struct Problem {
    pub id: u32,
    pub checker: Option<Checker>,
    pub body: String,
    pub memory_limit: u16,
    pub time_limit: u16,
    pub is_public: bool,
    pub validation: ValidationType,
    pub test_cases: Vec<String>,
}

/// The test cases of a problem, in the order they are reported.
pub struct TestCaseConfig {
    pub test_cases: Vec<String>,
    pub problem_id: u32,
}

/// A problem as a row of the `problem` table holds it.
pub struct ProblemRow {
    pub id: i32,
    pub checker: Option<String>,
    pub body: String,
    pub memory_limit: i32,
    pub time_limit: i32,
    pub is_public: bool,
    pub validation: ValidationType,
    pub testcases: Option<Vec<String>>,
}

/// The problem a row describes; the numbers are cast to their narrower
/// types as `as` casts do, and a missing test-case list is empty.
pub fn problem_from_row(row: ProblemRow) -> (r: Problem)
    ensures
        r.id == row.id as u32,
        r.memory_limit == row.memory_limit as u16,
        r.time_limit == row.time_limit as u16,
        r.is_public == row.is_public,
        r.validation == row.validation,
        r.body == row.body,
        row.checker matches Some(c) ==> (r.checker matches Some(k) && k.checker == c),
        row.checker is None ==> r.checker is None,
        row.testcases matches Some(t) ==> r.test_cases == t,
        row.testcases is None ==> r.test_cases@.len() == 0,
{
    Problem {
        id: row.id as u32,
        checker: match row.checker {
            Some(s) => Some(Checker { checker: s }),
            None => None,
        },
        body: row.body,
        memory_limit: row.memory_limit as u16,
        time_limit: row.time_limit as u16,
        is_public: row.is_public,
        validation: row.validation,
        test_cases: match row.testcases {
            Some(t) => t,
            None => Vec::new(),
        },
    }
}

/// The test-case configuration fetched from upstream, once decoded: the
/// configuration when the answer held one, a failure otherwise (`None` when
/// the answer did not decode, `Some(None)` when it held none).
pub fn test_case_config_outcome(decoded: Option<Option<TestCaseConfig>>) -> (r: Result<
    TestCaseConfig,
    TestCaseError,
>)
    ensures
        decoded matches Some(Some(c)) ==> r == Ok::<TestCaseConfig, TestCaseError>(c),
        !(decoded matches Some(Some(_))) ==> (r matches Err(
            TestCaseError::ExternalError(EvaluatorError::GenericError(m)),
        ) && m@ == "Unable to fetch test case config"@),
{
    match decoded {
        Some(Some(c)) => Ok(c),
        _ => Err(
            TestCaseError::ExternalError(
                EvaluatorError::GenericError(owned("Unable to fetch test case config")),
            ),
        ),
    }
}

/// The problems of the file system: test cases under `resources`, their
/// configurations fetched from `upstream_uri`.
pub struct FileSystemStore {
    pub resources: String,
    pub upstream_uri: String,
}

/// `"{resources}/{problem}/{test case}"` followed by `ext`.
pub open spec fn testcase_path(resources: Seq<char>, problem_id: u32, test_case_id: Seq<char>, ext: Seq<char>) -> Seq<char> {
    resources + "/"@ + decimal(problem_id as nat) + "/"@ + test_case_id + ext
}

impl FileSystemStore {
    /// A store reading from `resources` and `upstream_uri`.
    pub fn new(resources: &str, upstream_uri: &str) -> (r: FileSystemStore)
        ensures
            r.resources@ == resources@,
            r.upstream_uri@ == upstream_uri@,
    {
        FileSystemStore { resources: owned(resources), upstream_uri: owned(upstream_uri) }
    }

    fn path_with(&self, problem_id: u32, test_case_id: &str, ext: &str) -> (r: String)
        ensures
            r@ == testcase_path(self.resources@, problem_id, test_case_id@, ext@),
    {
        let mut s = self.resources.clone();
        push_str(&mut s, "/");
        push_u128(&mut s, problem_id as u128);
        push_str(&mut s, "/");
        push_str(&mut s, test_case_id);
        push_str(&mut s, ext);
        s
    }

    /// The input and the expected output of a test case:
    /// `"{resources}/{problem}/{test case}.in"` and `".out"`.
    pub fn testcase_paths(&self, problem_id: u32, test_case_id: &str) -> (r: (String, String))
        ensures
            r.0@ == testcase_path(self.resources@, problem_id, test_case_id@, ".in"@),
            r.1@ == testcase_path(self.resources@, problem_id, test_case_id@, ".out"@),
    {
        (self.path_with(problem_id, test_case_id, ".in"), self.path_with(problem_id, test_case_id, ".out"))
    }

    /// A test case of a problem, once the caller has looked whether its two
    /// files exist: both must be files. The failure names the input file
    /// whichever of the two is missing.
    pub fn load_testcase(
        &self,
        problem_id: u32,
        test_case_id: &str,
        stdin_is_file: bool,
        stdout_is_file: bool,
    ) -> (r: Result<TestCaseInfo, TestCaseError>)
        ensures
            stdin_is_file && stdout_is_file ==> (r matches Ok(info) && info.id@ == test_case_id@
                && info.problem_id == problem_id && info.stdin_path@ == testcase_path(
                self.resources@,
                problem_id,
                test_case_id@,
                ".in"@,
            ) && info.stdout_path@ == testcase_path(
                self.resources@,
                problem_id,
                test_case_id@,
                ".out"@,
            )),
            !(stdin_is_file && stdout_is_file) ==> (r matches Err(
                TestCaseError::ExternalError(EvaluatorError::GenericError(m)),
            ) && m@ == "File: "@ + testcase_path(self.resources@, problem_id, test_case_id@, ".in"@)
                + " not found"@),
    {
        let (stdin_path, stdout_path) = self.testcase_paths(problem_id, test_case_id);
        if !stdin_is_file || !stdout_is_file {
            let mut m = owned("File: ");
            push_str(&mut m, stdin_path.as_str());
            push_str(&mut m, " not found");
            return Err(TestCaseError::ExternalError(EvaluatorError::GenericError(m)));
        }
        Ok(TestCaseInfo { id: owned(test_case_id), problem_id, stdin_path, stdout_path })
    }

    /// Where the test-case configuration of a problem is fetched:
    /// `"{upstream}/{problem}"`.
    pub fn test_case_config_url(&self, problem_id: u32) -> (r: String)
        ensures
            r@ == self.upstream_uri@ + "/"@ + decimal(problem_id as nat),
    {
        let mut s = self.upstream_uri.clone();
        push_str(&mut s, "/");
        push_u128(&mut s, problem_id as u128);
        s
    }
}


/// The testlib checker of the sample problem: reads the array and target from
/// the input and accepts two positions whose values sum to the target, or
/// `IMPOSSIBLE` when the judge's answer says so.
pub const CHECKER_PROBLEM_0: &'static str = r#"
#include "testlib.h"
#include <vector>

using namespace std;

const double EPS = 1.5E-5;
//inf ouf ans
int main(int argc, char *argv[]) {
    //setName("compare two sequences of doubles, maximal absolute error = %.10f", EPS);
    registerTestlibCmd(argc, argv);
    int i_n = inf.readInt(1, 2 * (int) 1e5);
    int target = inf.readInt(1, (int) 1e9);
    vector<int>arr;
    for(int idx = 0; idx < i_n; idx++) {
        int k = inf.readInt(1, (int) 1e9);
        arr.push_back(k);
    }
    auto possible = ans.readWord();
    if(possible == "IMPOSSIBLE") {
        auto res = ouf.readWord();
        if(res == "IMPOSSIBLE") quitf(_ok, "");
        else quitf(_wa,"");
    }
    int u_a = ouf.readInt(1,  i_n);
    int u_b = ouf.readInt(1,  i_n);
    if( arr[u_a - 1] + arr[u_b - 1] != target) {
        quitf(_wa,"");
    }
    quitf(_ok, "");
} "#;

/// The checker of the sample problem.
pub fn get_checker_problem_0() -> (r: Checker)
    ensures
        r.checker@ == CHECKER_PROBLEM_0@,
{
    Checker { checker: owned(CHECKER_PROBLEM_0) }
}

fn empty_problem(id: u32, checker: Option<Checker>, validation: ValidationType) -> (r: Problem)
    ensures
        r.id == id,
        r.checker == checker,
        r.validation == validation,
        r.body@.len() == 0,
        r.memory_limit == 0,
        r.time_limit == 0,
        !r.is_public,
        r.test_cases@.len() == 0,
{
    Problem {
        id,
        checker,
        body: String::new(),
        memory_limit: 0,
        time_limit: 0,
        is_public: false,
        validation,
        test_cases: Vec::new(),
    }
}

/// Two sample problems: problem 2 checked by the sample testlib checker and
/// problem 1 checked literally, each with no limits and no test cases.
pub fn test_problems() -> (r: Vec<(u32, Problem)>)
    ensures
        r@.len() == 2,
        r@[0].0 == 2 && r@[0].1.id == 2 && r@[0].1.validation == ValidationType::TestlibChecker,
        r@[0].1.checker matches Some(c) && c.checker@ == CHECKER_PROBLEM_0@,
        r@[1].0 == 1 && r@[1].1.id == 1 && r@[1].1.validation == ValidationType::LiteralChecker,
        r@[1].1.checker is None,
        r@[0].1.test_cases@.len() == 0 && r@[1].1.test_cases@.len() == 0,
{
    let mut v: Vec<(u32, Problem)> = Vec::new();
    v.push((2, empty_problem(2, Some(get_checker_problem_0()), ValidationType::TestlibChecker)));
    v.push((1, empty_problem(1, None, ValidationType::LiteralChecker)));
    v
}

} // verus!
