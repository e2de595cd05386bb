//! Properties that hold across the judge's functions, proved over the
//! specifications their contracts use.

use vstd::prelude::*;
use crate::command::{mount_args, nsjail_args, JailedCommandView};
use crate::problem_executor::{
    chunk_failures, chunk_has_error, chunk_oks, chunk_verdicts, last_index, last_max_index,
    order_by_config, precedence_of, result_ids, with_user_stdout,
};
use crate::text::{
    all_digits, decimal, digit_char, digits_value, is_ascii_digit, join, replace_all,
    signed_decimal, spec_parse_i32, unsigned_part,
};
use crate::types::{same_status, ProcessOutput, Status, TestCaseError, TestCaseResult};
use crate::utils::{group_key, item_label, regex_digit_run, run_groups, runs};
use crate::validator::{checker_build_needed, ValidationType};

verus! {

/// The concatenation of a list of sequences.
pub open spec fn flatten<T>(g: Seq<Seq<T>>) -> Seq<T>
    decreases g.len(),
{
    if g.len() == 0 {
        seq![]
    } else {
        flatten(g.drop_last()) + g.last()
    }
}

/// Grouping test-case files loses and invents nothing and groups maximally:
/// the groups, one after the other, are the files; no group is empty; the
/// files of a group share their digit run; neighbouring groups do not.
pub proof fn law_runs_partition(s: Seq<String>)
    ensures
        flatten(runs(s)) == s,
        forall|i: int| 0 <= i < runs(s).len() ==> #[trigger] runs(s)[i].len() > 0,
        forall|i: int, a: int|
            0 <= i < runs(s).len() && 0 <= a < runs(s)[i].len() ==> group_key(#[trigger] runs(s)[i][a]@)
                == group_key(runs(s)[i][0]@),
        forall|i: int|
            0 <= i < runs(s).len() - 1 ==> group_key(#[trigger] runs(s)[i].last()@) != group_key(
                runs(s)[i + 1][0]@,
            ),
    decreases s.len(),
{
    if s.len() > 0 {
        let d = s.drop_last();
        let x = s.last();
        law_runs_partition(d);
        let r = runs(d);
        if r.len() > 0 && group_key(r.last().last()@) == group_key(x@) {
            let g = r.last().push(x);
            let r2 = r.update(r.len() - 1, g);
            assert(r2.drop_last() =~= r.drop_last());
            assert(flatten(r) == flatten(r.drop_last()) + r.last());
            assert(flatten(r2) == flatten(r.drop_last()) + g);
            assert(s =~= d.push(x));
            assert(flatten(r2) =~= s);
            assert forall|i: int, a: int|
                0 <= i < r2.len() && 0 <= a < r2[i].len() implies group_key(#[trigger] r2[i][a]@)
                    == group_key(r2[i][0]@) by {
                if i == r2.len() - 1 && a == g.len() - 1 {
                    assert(group_key(r.last()[r.last().len() - 1]@) == group_key(r.last()[0]@));
                }
            }
        } else {
            let r2 = r.push(seq![x]);
            assert(r2.drop_last() =~= r);
            assert(flatten(r2) =~= s);
        }
    }
}

proof fn lemma_decimal(n: nat)
    ensures
        decimal(n).len() > 0,
        all_digits(decimal(n)),
        digits_value(decimal(n)) == n,
    decreases n,
{
    if n >= 10 {
        lemma_decimal(n / 10);
        let s = decimal(n / 10);
        let c = digit_char((n % 10) as int);
        assert(c as int == (n % 10) + 48);
        assert(decimal(n) == s.push(c));
        assert(s.push(c).drop_last() =~= s);
        assert(s.push(c).last() == c);
        assert(digits_value(s.push(c)) == digits_value(s) * 10 + ((c as int) - 48));
        assert((n / 10) * 10 + (n % 10) == n);
        assert forall|i: int| 0 <= i < s.push(c).len() implies is_ascii_digit(#[trigger] s.push(c)[i]) by {
            if i < s.len() {
                assert(s.push(c)[i] == s[i]);
            }
        }
    } else {
        assert(digit_char(n as int) as int == n + 48);
        assert(decimal(n) =~= seq![digit_char(n as int)]);
        assert(seq![digit_char(n as int)].drop_last() =~= Seq::<char>::empty());
        assert(seq![digit_char(n as int)].last() == digit_char(n as int));
        assert(digits_value(Seq::<char>::empty()) == 0);
    }
}

/// Reading back what is written: parsing the decimal rendering of an `i32`
/// (`i32_to_string`, then `parse_i32`) gives the same number.
pub proof fn law_i32_render_parse_roundtrip(v: i32)
    ensures
        spec_parse_i32(signed_decimal(v as int)) == Some(v),
{
    if v < 0 {
        let m = (-(v as int)) as nat;
        lemma_decimal(m);
        let s = signed_decimal(v as int);
        assert(s == seq!['-'] + decimal(m));
        assert(unsigned_part(s) =~= decimal(m));
    } else {
        lemma_decimal(v as nat);
        let s = decimal(v as nat);
        assert(is_ascii_digit(s[0]));
        assert(unsigned_part(s) == s);
    }
}

/// Filling in a toolchain argument changes nothing where the placeholder
/// does not occur.
pub proof fn law_replace_without_pattern(s: Seq<char>, pat: Seq<char>, rep: Seq<char>)
    requires
        pat.len() > 0,
        forall|i: int| 0 <= i && i + pat.len() <= s.len() ==> #[trigger] s.subrange(i, i + pat.len()) != pat,
    ensures
        replace_all(s, pat, rep) == s,
    decreases s.len(),
{
    if s.len() > 0 {
        let t = s.skip(1);
        assert forall|i: int| 0 <= i && i + pat.len() <= t.len() implies #[trigger] t.subrange(i, i + pat.len()) != pat by {
            assert(t.subrange(i, i + pat.len()) =~= s.subrange(i + 1, i + 1 + pat.len()));
        }
        law_replace_without_pattern(t, pat, rep);
        if pat.len() <= s.len() {
            let z = 0int;
            assert(s.subrange(z, z + pat.len()) != pat);
        }
        assert(seq![s[0]] + t =~= s);
    }
}

proof fn lemma_mount_args_len(m: Seq<(Seq<char>, Seq<char>)>)
    ensures
        mount_args(m).len() == 2 * m.len(),
    decreases m.len(),
{
    if m.len() > 0 {
        lemma_mount_args_len(m.drop_last());
    }
}

/// The sandbox's arguments: first `--time_limit` and the limit when a time
/// limit was set, two for the configuration file when there is one, two per
/// mount, and four that run the command line through `/bin/sh -c`, that
/// command line being the last argument.
pub proof fn law_nsjail_args_shape(v: JailedCommandView)
    ensures
        nsjail_args(v).len() == (if v.time_limit is Some {
            2int
        } else {
            0int
        }) + (if v.config_file is Some {
            2int
        } else {
            0int
        }) + 2 * v.mounts.len() + 4,
        v.time_limit matches Some(t) ==> nsjail_args(v)[0] == "--time_limit"@ && nsjail_args(v)[1]
            == decimal(t as nat),
        nsjail_args(v).last() == join(v.args, " "@),
        nsjail_args(v)[nsjail_args(v).len() - 4] == "--"@,
{
    lemma_mount_args_len(v.mounts);
}

/// Every test case of a chunk is accounted for exactly once: as accepted, as
/// a verdict, or as a failure of the judge; and the chunk stops the run
/// exactly when it has a verdict or a failure.
pub proof fn law_chunk_accounts_every_case(c: Seq<Result<TestCaseResult, TestCaseError>>)
    ensures
        chunk_oks(c).len() + chunk_verdicts(c).len() + chunk_failures(c).len() == c.len(),
        chunk_has_error(c) <==> chunk_verdicts(c).len() + chunk_failures(c).len() > 0,
    decreases c.len(),
{
    if c.len() > 0 {
        let d = c.drop_last();
        law_chunk_accounts_every_case(d);
        if chunk_has_error(d) {
            let w = choose|i: int| 0 <= i < d.len() && #[trigger] d[i] is Err;
            assert(c[w] is Err);
        }
        if chunk_has_error(c) && !(c.last() is Err) {
            let w = choose|i: int| 0 <= i < c.len() && #[trigger] c[i] is Err;
            assert(d[w] is Err);
        }
        if c.last() is Err {
            assert(c[c.len() - 1] is Err);
        }
    }
}

/// Ordering results by the configuration reports each listed test case at
/// most once, only listed ones, and each as the last result with its
/// identifier.
pub proof fn law_config_order_sound(tests: Seq<TestCaseResult>, config: Seq<Seq<char>>)
    ensures
        forall|i: int, j: int|
            0 <= i < j < order_by_config(tests, config).len() ==> (#[trigger] order_by_config(
                tests,
                config,
            )[i]).id@ != (#[trigger] order_by_config(tests, config)[j]).id@,
        forall|i: int|
            0 <= i < order_by_config(tests, config).len() ==> config.contains(
                (#[trigger] order_by_config(tests, config)[i]).id@,
            ),
        forall|i: int|
            0 <= i < order_by_config(tests, config).len() ==> {
                let t = #[trigger] order_by_config(tests, config)[i];
                let k = last_index(result_ids(tests), t.id@);
                0 <= k < tests.len() && tests[k] == t
            },
    decreases config.len(),
{
    if config.len() > 0 {
        let d = config.drop_last();
        let id = config.last();
        law_config_order_sound(tests, d);
        let prev = order_by_config(tests, d);
        let k = last_index(result_ids(tests), id);
        lemma_last_index_facts(result_ids(tests), id);
        assert forall|i: int| 0 <= i < prev.len() implies config.contains(#[trigger] prev[i].id@) by {
            let w = choose|w: int| 0 <= w < d.len() && d[w] == prev[i].id@;
            assert(config[w] == d[w]);
        }
        if k >= 0 && !d.contains(id) {
            assert(result_ids(tests)[k] == tests[k].id@);
            assert(config[config.len() - 1] == id);
            assert forall|i: int| 0 <= i < prev.len() implies prev[i].id@ != id by {}
        }
    }
}

/// Ordering results by the configuration loses no listed test case: the last
/// result of every listed identifier is reported.
pub proof fn law_config_order_complete(tests: Seq<TestCaseResult>, config: Seq<Seq<char>>, k: int)
    requires
        0 <= k < tests.len(),
        k == last_index(result_ids(tests), tests[k].id@),
        config.contains(tests[k].id@),
    ensures
        order_by_config(tests, config).contains(tests[k]),
    decreases config.len(),
{
    let d = config.drop_last();
    let id = tests[k].id@;
    if d.contains(id) {
        law_config_order_complete(tests, d, k);
        let prev = order_by_config(tests, d);
        let w = choose|w: int| 0 <= w < prev.len() && prev[w] == tests[k];
        let cur = order_by_config(tests, config);
        if cur != prev {
            assert(cur[w] == prev[w]);
        }
    } else {
        let w = choose|w: int| 0 <= w < config.len() && config[w] == id;
        if w < config.len() - 1 {
            assert(d[w] == id);
        }
        assert(config.last() == id);
        let cur = order_by_config(tests, config);
        assert(cur.last() == tests[k]);
        assert(cur[cur.len() - 1] == tests[k]);
    }
}

proof fn lemma_last_index_facts(ids: Seq<Seq<char>>, id: Seq<char>)
    ensures
        -1 <= last_index(ids, id) < ids.len(),
        last_index(ids, id) >= 0 ==> ids[last_index(ids, id)] == id,
    decreases ids.len(),
{
    if ids.len() > 0 {
        lemma_last_index_facts(ids.drop_last(), id);
    }
}

/// Preparing the checker compiles nothing once the checker is built, nor for
/// problems checked without one; so preparing it again after a successful
/// build does nothing more.
pub proof fn law_built_checker_is_not_rebuilt(validation_type: ValidationType, built: bool)
    ensures
        built ==> !checker_build_needed(validation_type, built),
        validation_type != ValidationType::TestlibChecker ==> !checker_build_needed(validation_type, built),
        checker_build_needed(validation_type, built) <==> (validation_type == ValidationType::TestlibChecker
            && !built),
{
}

/// A test case's input is written where the sandbox reads it: the file
/// `input_file(problem_directory(p), id)` under the working directory is the
/// file `sandbox_input_file(p, id)` under the sandbox's root, where the
/// resources directory is mounted.
pub proof fn law_sandbox_reads_written_input(problem_id: u32, id: Seq<char>)
    ensures
        "./resources/"@ + decimal(problem_id as nat) + "/input_"@ + id + ".in"@ == "."@ + (
        "/resources/"@ + decimal(problem_id as nat) + "/input_"@ + id + ".in"@),
{
    reveal_strlit("./resources/");
    reveal_strlit("/resources/");
    reveal_strlit(".");
    assert("./resources/"@ =~= "."@ + "/resources/"@);
    assert("./resources/"@ + decimal(problem_id as nat) + "/input_"@ + id + ".in"@ =~= "."@ + (
        "/resources/"@ + decimal(problem_id as nat) + "/input_"@ + id + ".in"@));
}

/// Two verdicts are alike in the same way whichever is named first, and
/// likeness carries over.
proof fn lemma_same_status_equivalence(a: Status, b: Status, c: Status)
    ensures
        same_status(a, a),
        same_status(a, b) == same_status(b, a),
        same_status(a, b) && same_status(b, c) ==> same_status(a, c),
{
}

/// The precedence of a verdict is the value of the table's first entry for
/// that verdict, wherever that entry stands; 10 when the table has none.
pub proof fn law_precedence_is_entry_value(table: Seq<(Status, i32)>, s: Status, i: int)
    ensures
        0 <= i < table.len() && same_status(table[i].0, s) && (forall|j: int|
            0 <= j < i ==> !same_status(#[trigger] table[j].0, s)) ==> precedence_of(table, s)
            == table[i].1,
        (forall|j: int| 0 <= j < table.len() ==> !same_status(#[trigger] table[j].0, s))
            ==> precedence_of(table, s) == 10,
    decreases table.len(),
{
    if table.len() > 0 {
        let t = table.skip(1);
        law_precedence_is_entry_value(t, s, i - 1);
        if 0 <= i < table.len() && same_status(table[i].0, s) && (forall|j: int|
            0 <= j < i ==> !same_status(#[trigger] table[j].0, s)) && i > 0 {
            assert(!same_status(table[0].0, s));
            assert(t[i - 1] == table[i]);
            assert forall|j: int| 0 <= j < i - 1 implies !same_status(#[trigger] t[j].0, s) by {
                assert(t[j] == table[j + 1]);
            }
        }
        if forall|j: int| 0 <= j < table.len() ==> !same_status(#[trigger] table[j].0, s) {
            assert(!same_status(table[0].0, s));
            assert forall|j: int| 0 <= j < t.len() implies !same_status(#[trigger] t[j].0, s) by {
                assert(t[j] == table[j + 1]);
            }
        }
    }
}

/// No two entries of a table are for the same verdict.
#[verifier::opaque]
pub open spec fn distinct_statuses(table: Seq<(Status, i32)>) -> bool {
    forall|i: int, j: int|
        0 <= i < j < table.len() ==> !same_status(#[trigger] table[i].0, #[trigger] table[j].0)
}

/// Every entry of `a` is an entry of `b`.
#[verifier::opaque]
pub open spec fn entries_within(a: Seq<(Status, i32)>, b: Seq<(Status, i32)>) -> bool {
    forall|i: int| 0 <= i < a.len() ==> exists|j: int| 0 <= j < b.len() && b[j] == #[trigger] a[i]
}

proof fn lemma_distinct_entry_value(table: Seq<(Status, i32)>, s: Status, i: int)
    requires
        distinct_statuses(table),
        0 <= i < table.len(),
        same_status(table[i].0, s),
    ensures
        precedence_of(table, s) == table[i].1,
{
    reveal(distinct_statuses);
    assert forall|j: int| 0 <= j < i implies !same_status(#[trigger] table[j].0, s) by {
        if same_status(table[j].0, s) {
            lemma_same_status_equivalence(table[j].0, s, table[i].0);
            lemma_same_status_equivalence(table[i].0, s, table[j].0);
            assert(!same_status(table[j].0, table[i].0));
        }
    }
    law_precedence_is_entry_value(table, s, i);
}

proof fn lemma_no_entry_for(table: Seq<(Status, i32)>, s: Status)
    requires
        forall|j: int| 0 <= j < table.len() ==> !same_status(#[trigger] table[j].0, s),
    ensures
        precedence_of(table, s) == 10,
{
    law_precedence_is_entry_value(table, s, 0);
}

proof fn lemma_shared_entry(a: Seq<(Status, i32)>, b: Seq<(Status, i32)>, s: Status, i: int, j: int)
    requires
        distinct_statuses(a),
        distinct_statuses(b),
        0 <= i < a.len(),
        0 <= j < b.len(),
        b[j] == a[i],
        same_status(a[i].0, s),
    ensures
        precedence_of(a, s) == precedence_of(b, s),
{
    lemma_distinct_entry_value(a, s, i);
    lemma_distinct_entry_value(b, s, j);
}

proof fn lemma_precedence_within(a: Seq<(Status, i32)>, b: Seq<(Status, i32)>, s: Status)
    requires
        distinct_statuses(a),
        distinct_statuses(b),
        entries_within(a, b),
        entries_within(b, a),
    ensures
        precedence_of(a, s) == precedence_of(b, s),
{
    reveal(entries_within);
    if exists|i: int| 0 <= i < a.len() && same_status(#[trigger] a[i].0, s) {
        let i = choose|i: int| 0 <= i < a.len() && same_status(#[trigger] a[i].0, s);
        assert(exists|j: int| 0 <= j < b.len() && b[j] == #[trigger] a[i]);
        let j = choose|j: int| 0 <= j < b.len() && b[j] == #[trigger] a[i];
        lemma_shared_entry(a, b, s, i, j);
    } else if exists|j: int| 0 <= j < b.len() && same_status(#[trigger] b[j].0, s) {
        let j = choose|j: int| 0 <= j < b.len() && same_status(#[trigger] b[j].0, s);
        assert(exists|i: int| 0 <= i < a.len() && a[i] == #[trigger] b[j]);
        let i = choose|i: int| 0 <= i < a.len() && a[i] == #[trigger] b[j];
        assert(same_status(a[i].0, s));
    } else {
        lemma_no_entry_for(a, s);
        lemma_no_entry_for(b, s);
    }
}

proof fn lemma_last_max_same_precedences(results: Seq<TestCaseResult>, a: Seq<(Status, i32)>, b: Seq<(Status, i32)>)
    requires
        forall|s: Status| #[trigger] precedence_of(a, s) == precedence_of(b, s),
    ensures
        last_max_index(results, a) == last_max_index(results, b),
    decreases results.len(),
{
    if results.len() > 1 {
        lemma_last_max_same_precedences(results.drop_last(), a, b);
        let k = last_max_index(results.drop_last(), a);
        assert(precedence_of(a, results.last().status) == precedence_of(b, results.last().status));
        assert(precedence_of(a, results[k].status) == precedence_of(b, results[k].status));
    }
}

/// For tables with one entry per verdict, the order of the entries does not
/// matter: two such tables with the same entries give every verdict the same
/// precedence, so the overall verdict of any results is the same.
pub proof fn law_overall_ignores_table_order(
    results: Seq<TestCaseResult>,
    a: Seq<(Status, i32)>,
    b: Seq<(Status, i32)>,
)
    requires
        distinct_statuses(a),
        distinct_statuses(b),
        entries_within(a, b),
        entries_within(b, a),
    ensures
        forall|s: Status| #[trigger] precedence_of(a, s) == precedence_of(b, s),
        last_max_index(results, a) == last_max_index(results, b),
{
    assert forall|s: Status| #[trigger] precedence_of(a, s) == precedence_of(b, s) by {
        lemma_precedence_within(a, b, s);
    }
    lemma_last_max_same_precedences(results, a, b);
}

/// The text a file name is grouped by: its whole first digit run, or the
/// empty text when it has none.
pub open spec fn whole_digit_run(name: Seq<char>) -> Seq<char> {
    match regex_digit_run(name) {
        Some(d) => d,
        None => seq![],
    }
}

/// Test-case files are grouped by their whole first digit run: the names of
/// a group share it, and neighbouring groups have different ones (so `10.in`
/// and `11.in` never share a group).
pub proof fn law_groups_share_whole_digit_run(s: Seq<String>)
    ensures
        forall|i: int, a: int|
            0 <= i < runs(s).len() && 0 <= a < runs(s)[i].len() ==> whole_digit_run(
                #[trigger] runs(s)[i][a]@,
            ) == whole_digit_run(runs(s)[i][0]@),
        forall|i: int|
            0 <= i < runs(s).len() - 1 ==> whole_digit_run(#[trigger] runs(s)[i].last()@)
                != whole_digit_run(runs(s)[i + 1][0]@),
{
    law_runs_partition(s);
    assert forall|x: Seq<char>| #[trigger] group_key(x) == whole_digit_run(x) by {}
}

/// The text named files carrying their digit runs are grouped by: the whole
/// run, or the empty text when there is none.
pub open spec fn whole_label(x: (String, Option<String>)) -> Seq<char> {
    match x.1 {
        Some(d) => d@,
        None => seq![],
    }
}

/// Named files are grouped by their whole digit run: no group is empty, the
/// files of a group share it, neighbouring groups have different ones, and
/// the groups one after the other are the files.
pub proof fn law_run_groups_share_whole_run(s: Seq<(String, Option<String>)>)
    ensures
        forall|i: int| 0 <= i < run_groups(s).len() ==> #[trigger] run_groups(s)[i].len() > 0,
        forall|i: int, a: int|
            0 <= i < run_groups(s).len() && 0 <= a < run_groups(s)[i].len() ==> whole_label(
                #[trigger] run_groups(s)[i][a],
            ) == whole_label(run_groups(s)[i][0]),
        forall|i: int|
            0 <= i < run_groups(s).len() - 1 ==> whole_label(#[trigger] run_groups(s)[i].last())
                != whole_label(run_groups(s)[i + 1][0]),
        flatten(run_groups(s)) == s,
    decreases s.len(),
{
    if s.len() > 0 {
        let d = s.drop_last();
        let x = s.last();
        law_run_groups_share_whole_run(d);
        let r = run_groups(d);
        assert forall|y: (String, Option<String>)| #[trigger] whole_label(y) == crate::utils::run_group(item_label(y)) by {}
        if r.len() > 0 && crate::utils::run_group(item_label(r.last().last())) == crate::utils::run_group(item_label(x)) {
            let g = r.last().push(x);
            let r2 = r.update(r.len() - 1, g);
            assert(r2.drop_last() =~= r.drop_last());
            assert(flatten(r) == flatten(r.drop_last()) + r.last());
            assert(flatten(r2) == flatten(r.drop_last()) + g);
            assert(s =~= d.push(x));
            assert(flatten(r2) =~= s);
            assert forall|i: int, a: int|
                0 <= i < r2.len() && 0 <= a < r2[i].len() implies whole_label(#[trigger] r2[i][a])
                    == whole_label(r2[i][0]) by {
                if i == r2.len() - 1 && a == g.len() - 1 {
                    assert(whole_label(r.last()[r.last().len() - 1]) == whole_label(r.last()[0]));
                }
            }
        } else {
            let r2 = r.push(seq![x]);
            assert(r2.drop_last() =~= r);
            assert(flatten(r2) =~= s);
        }
    }
}

/// Every test case of a chunk that ended with a verdict against the
/// submission, whatever the verdict, is reported among the results and never
/// among the judge's failures; the failures are exactly the chunk's failures
/// of the judge.
pub proof fn law_verdicts_are_reported(c: Seq<Result<TestCaseResult, TestCaseError>>)
    ensures
        forall|k: int| 0 <= k < chunk_failures(c).len() ==> #[trigger] chunk_failures(c)[k] is ExternalError,
        forall|i: int|
            0 <= i < c.len() ==> (#[trigger] c[i] matches Err(TestCaseError::InternalError(t))
                ==> chunk_verdicts(c).contains(t)),
        forall|k: int|
            0 <= k < chunk_verdicts(c).len() ==> exists|i: int|
                0 <= i < c.len() && c[i] == Err::<TestCaseResult, TestCaseError>(
                    TestCaseError::InternalError(#[trigger] chunk_verdicts(c)[k]),
                ),
        forall|i: int|
            0 <= i < c.len() ==> (#[trigger] c[i] matches Err(TestCaseError::ExternalError(e))
                ==> chunk_failures(c).contains(TestCaseError::ExternalError(e))),
        forall|i: int|
            0 <= i < c.len() ==> (#[trigger] c[i] matches Ok(t) ==> chunk_oks(c).contains(t)),
    decreases c.len(),
{
    if c.len() > 0 {
        let d = c.drop_last();
        law_verdicts_are_reported(d);
        let x = c.last();
        assert forall|i: int| 0 <= i < d.len() implies #[trigger] c[i] == d[i] by {}
        let v = chunk_verdicts(c);
        let vd = chunk_verdicts(d);
        let f = chunk_failures(c);
        let fd = chunk_failures(d);
        let o = chunk_oks(c);
        let od = chunk_oks(d);
        assert forall|k: int| 0 <= k < f.len() implies #[trigger] f[k] is ExternalError by {
            if k < fd.len() {
                assert(f[k] == fd[k]);
            }
        }
        assert forall|i: int|
            0 <= i < c.len() implies (#[trigger] c[i] matches Err(TestCaseError::InternalError(t))
                ==> v.contains(t)) by {
            if i < d.len() {
                if let Err(TestCaseError::InternalError(t)) = c[i] {
                    assert(d[i] == c[i]);
                    let w = choose|w: int| 0 <= w < vd.len() && vd[w] == t;
                    assert(v[w] == t);
                }
            } else {
                if let Err(TestCaseError::InternalError(t)) = c[i] {
                    assert(v[v.len() - 1] == t);
                }
            }
        }
        assert forall|k: int| 0 <= k < v.len() implies exists|i: int|
            0 <= i < c.len() && c[i] == Err::<TestCaseResult, TestCaseError>(
                TestCaseError::InternalError(#[trigger] v[k]),
            ) by {
            if k < vd.len() {
                assert(v[k] == vd[k]);
                let i = choose|i: int|
                    0 <= i < d.len() && d[i] == Err::<TestCaseResult, TestCaseError>(
                        TestCaseError::InternalError(#[trigger] vd[k]),
                    );
                assert(c[i] == d[i]);
            } else {
                assert(c[c.len() - 1] == Err::<TestCaseResult, TestCaseError>(TestCaseError::InternalError(v[k])));
            }
        }
        assert forall|i: int|
            0 <= i < c.len() implies (#[trigger] c[i] matches Err(TestCaseError::ExternalError(e))
                ==> f.contains(TestCaseError::ExternalError(e))) by {
            if let Err(TestCaseError::ExternalError(e)) = c[i] {
                if i < d.len() {
                    assert(d[i] == c[i]);
                    let w = choose|w: int| 0 <= w < fd.len() && fd[w] == TestCaseError::ExternalError(e);
                    assert(f[w] == fd[w]);
                } else {
                    assert(f[f.len() - 1] == TestCaseError::ExternalError(e));
                }
            }
        }
        assert forall|i: int| 0 <= i < c.len() implies (#[trigger] c[i] matches Ok(t) ==> o.contains(t)) by {
            if let Ok(t) = c[i] {
                if i < d.len() {
                    assert(d[i] == c[i]);
                    let w = choose|w: int| 0 <= w < od.len() && od[w] == t;
                    assert(o[w] == od[w]);
                } else {
                    assert(o[o.len() - 1] == t);
                }
            }
        }
    }
}

/// A process succeeded exactly when it exited with code zero: a crash, a
/// signal or any other exit code is no success.
pub proof fn law_success_is_exit_code_zero(o: ProcessOutput)
    ensures
        o.spec_success() <==> o.status_code == Some(0i32),
        o.status_code is None ==> !o.spec_success(),
        forall|c: i32| c != 0 && o.status_code == Some(c) ==> !o.spec_success(),
{
}

/// Whatever the verdict, a checked result that records an output reports
/// the submission's own output as its standard output, and keeps its
/// verdict, identifier, time, exit code and error stream; a result with no
/// recorded output is left as it is.
pub proof fn law_user_output_is_reported(t: TestCaseResult, user_output: Vec<u8>)
    ensures
        t.output matches Some(o) ==> (with_user_stdout(t, user_output).output matches Some(n)
            && n.stdout == user_output && n.status_code == o.status_code && n.stderr == o.stderr),
        t.output is None ==> with_user_stdout(t, user_output) == t,
        with_user_stdout(t, user_output).status == t.status,
        with_user_stdout(t, user_output).id == t.id,
        with_user_stdout(t, user_output).duration_nanos == t.duration_nanos,
{
}

} // verus!
