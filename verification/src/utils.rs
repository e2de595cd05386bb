//! Test-case files: ordering the files of a problem's test cases by the
//! number in their names and pairing input with expected output.

use vstd::prelude::*;
use crate::text::{lemma_lex_order, lex_lt, parse_i32, spec_parse_i32, str_lt};

verus! {

/// The leftmost run of decimal digits (`\d+`, which takes any Unicode decimal
/// digit) in a text, as the `regex` crate finds it.
pub uninterp spec fn regex_digit_run(s: Seq<char>) -> Option<Seq<char>>;

/// Finds the leftmost run of decimal digits with `regex::Regex::find` on the
/// pattern `\d+`. The contract only names the result: which text that is,
/// for which input, is left to the `regex` crate.
#[verifier::external_body]
fn first_digit_run(s: &str) -> (r: Option<String>)
    ensures
        r.is_some() == regex_digit_run(s@).is_some(),
        r matches Some(m) ==> m@ == regex_digit_run(s@)->0,
{
    regex::Regex::new(r"\d+").unwrap().find(s).map(|m| m.as_str().to_string())
}


/// The digit run a named file carries, as text.
pub open spec fn item_label(x: (String, Option<String>)) -> Option<Seq<char>> {
    match x.1 {
        Some(d) => Some(d@),
        None => None,
    }
}

/// The key a digit run orders by: its value, `0` when it does not read as an
/// `i32`, and below every value when there is no run.
pub open spec fn run_key(run: Option<Seq<char>>) -> int {
    match run {
        Some(d) => match spec_parse_i32(d) {
            Some(v) => v as int,
            None => 0,
        },
        None => i32::MIN - 1,
    }
}

/// The text names are grouped by: the digit run, or nothing.
pub open spec fn run_group(run: Option<Seq<char>>) -> Seq<char> {
    match run {
        Some(d) => d,
        None => seq![],
    }
}

/// The key file names are ordered by: the value of their first digit run,
/// and below every value when they have none.
pub open spec fn number_key(s: Seq<char>) -> int {
    run_key(regex_digit_run(s))
}

/// The text file names are grouped by: their first digit run, or nothing.
pub open spec fn group_key(s: Seq<char>) -> Seq<char> {
    run_group(regex_digit_run(s))
}

/// Sorting reads every number when there are at least two names: then
/// every name's first digit run, where it has one, reads as an `i32`.
pub open spec fn numbers_readable(names: Seq<String>) -> bool {
    names.len() <= 1 || forall|i: int|
        0 <= i < names.len() ==> (#[trigger] regex_digit_run(names[i]@) matches Some(d) ==> spec_parse_i32(
            d,
        ) is Some)
}

/// Sorting reads every number when there are at least two names: then
/// every digit run given reads as an `i32`.
pub open spec fn runs_readable(items: Seq<(String, Option<String>)>) -> bool {
    items.len() <= 1 || forall|i: int|
        0 <= i < items.len() ==> (#[trigger] item_label(items[i]) matches Some(d) ==> spec_parse_i32(
            d,
        ) is Some)
}

/// Each name carries the digit run the `regex` crate finds in it.
pub open spec fn well_labelled(items: Seq<(String, Option<String>)>) -> bool {
    forall|i: int| 0 <= i < items.len() ==> #[trigger] item_label(items[i]) == regex_digit_run(items[i].0@)
}

/// The names of named files.
pub open spec fn names_of(items: Seq<(String, Option<String>)>) -> Seq<String> {
    items.map_values(|x: (String, Option<String>)| x.0)
}

/// The names of each group of named files.
pub open spec fn group_names(groups: Seq<Seq<(String, Option<String>)>>) -> Seq<Seq<String>> {
    groups.map_values(|g: Seq<(String, Option<String>)>| names_of(g))
}

/// `out` is `input` rearranged along `p` (`out[i]` is `input[p[i]]`), with
/// `p` taking each position once.
pub open spec fn rearranged<T>(input: Seq<T>, out: Seq<T>, p: Seq<int>) -> bool {
    &&& out.len() == input.len()
    &&& p.len() == input.len()
    &&& forall|i: int| 0 <= i < p.len() ==> 0 <= #[trigger] p[i] < input.len() && out[i] == input[p[i]]
    &&& forall|i: int, j: int| 0 <= i < j < p.len() ==> #[trigger] p[i] != #[trigger] p[j]
}

/// `out` is `input` sorted by `number_key`, names of equal key keeping their
/// order (a stable sort), the rearrangement being `p`.
pub open spec fn stably_sorted_by_number(input: Seq<String>, out: Seq<String>, p: Seq<int>) -> bool {
    &&& rearranged(input, out, p)
    &&& forall|i: int, j: int|
        0 <= i < j < out.len() ==> number_key(#[trigger] out[i]@) <= number_key(#[trigger] out[j]@)
    &&& forall|i: int, j: int|
        0 <= i < j < out.len() && number_key(out[i]@) == number_key(out[j]@) ==> #[trigger] p[i]
            < #[trigger] p[j]
}

/// `out` is `input` stably sorted by `number_key`.
pub open spec fn is_sorted_by_number(input: Seq<String>, out: Seq<String>) -> bool {
    exists|p: Seq<int>| stably_sorted_by_number(input, out, p)
}

/// `out` is `input` sorted by the key of the digit runs the names carry,
/// equal keys keeping their order, the rearrangement being `p`.
pub open spec fn stably_sorted_by_run(input: Seq<(String, Option<String>)>, out: Seq<(String, Option<String>)>, p: Seq<int>) -> bool {
    &&& rearranged(input, out, p)
    &&& forall|i: int, j: int|
        0 <= i < j < out.len() ==> run_key(item_label(#[trigger] out[i])) <= run_key(item_label(#[trigger] out[j]))
    &&& forall|i: int, j: int|
        0 <= i < j < out.len() && run_key(item_label(out[i])) == run_key(item_label(out[j])) ==> #[trigger] p[i]
            < #[trigger] p[j]
}

/// `out` is `input` stably sorted by the key of the digit runs.
pub open spec fn is_sorted_by_run(input: Seq<(String, Option<String>)>, out: Seq<(String, Option<String>)>) -> bool {
    exists|p: Seq<int>| stably_sorted_by_run(input, out, p)
}

/// The maximal runs of consecutive names with the same `group_key`, in order.
pub open spec fn runs(s: Seq<String>) -> Seq<Seq<String>>
    decreases s.len(),
{
    if s.len() == 0 {
        seq![]
    } else {
        let r = runs(s.drop_last());
        if r.len() > 0 && group_key(r.last().last()@) == group_key(s.last()@) {
            r.update(r.len() - 1, r.last().push(s.last()))
        } else {
            r.push(seq![s.last()])
        }
    }
}

/// The maximal runs of consecutive named files whose digit runs group
/// alike, in order.
pub open spec fn run_groups(s: Seq<(String, Option<String>)>) -> Seq<Seq<(String, Option<String>)>>
    decreases s.len(),
{
    if s.len() == 0 {
        seq![]
    } else {
        let r = run_groups(s.drop_last());
        if r.len() > 0 && run_group(item_label(r.last().last())) == run_group(item_label(s.last())) {
            r.update(r.len() - 1, r.last().push(s.last()))
        } else {
            r.push(seq![s.last()])
        }
    }
}

/// The contents of a list of lists.
pub open spec fn nested_views<T>(v: Seq<Vec<T>>) -> Seq<Seq<T>> {
    v.map_values(|g: Vec<T>| g@)
}

proof fn lemma_run_groups_last(s: Seq<(String, Option<String>)>)
    requires
        s.len() > 0,
    ensures
        run_groups(s).len() > 0,
        run_groups(s).last().len() > 0,
        run_groups(s).last().last() == s.last(),
{
}

proof fn lemma_runs_last(s: Seq<String>)
    requires
        s.len() > 0,
    ensures
        runs(s).len() > 0,
        runs(s).last().len() > 0,
        runs(s).last().last() == s.last(),
{
}

/// Grouping named files that carry the `regex` crate's digit runs groups
/// their names as `runs` does.
proof fn lemma_run_groups_names(s: Seq<(String, Option<String>)>)
    requires
        well_labelled(s),
    ensures
        group_names(run_groups(s)) == runs(names_of(s)),
    decreases s.len(),
{
    if s.len() > 0 {
        let d = s.drop_last();
        let x = s.last();
        assert(well_labelled(d)) by {
            assert forall|i: int| 0 <= i < d.len() implies #[trigger] item_label(d[i]) == regex_digit_run(d[i].0@) by {
                assert(d[i] == s[i]);
            }
        }
        lemma_run_groups_names(d);
        assert(names_of(s).drop_last() =~= names_of(d));
        assert(names_of(s).last() == x.0);
        assert(item_label(s[s.len() - 1]) == regex_digit_run(s[s.len() - 1].0@));
        let r = run_groups(d);
        let rn = runs(names_of(d));
        if d.len() > 0 {
            lemma_run_groups_last(d);
            lemma_runs_last(names_of(d));
            assert(item_label(d[d.len() - 1]) == regex_digit_run(d[d.len() - 1].0@));
            assert(rn.last().last() == names_of(d).last());
            assert(group_names(r).last() == rn.last());
        }
        if r.len() > 0 && run_group(item_label(r.last().last())) == run_group(item_label(x)) {
            let g = r.last().push(x);
            assert(names_of(g) =~= names_of(r.last()).push(x.0));
            assert(group_names(r.update(r.len() - 1, g)) =~= rn.update(rn.len() - 1, rn.last().push(x.0)));
        } else {
            assert(names_of(seq![x]) =~= seq![x.0]);
            assert(group_names(r.push(seq![x])) =~= rn.push(seq![x.0]));
        }
    }
}

/// Sorting named files that carry the `regex` crate's digit runs sorts
/// their names by number.
proof fn lemma_sorted_names(items: Seq<(String, Option<String>)>, out: Seq<(String, Option<String>)>, p: Seq<int>)
    requires
        well_labelled(items),
        stably_sorted_by_run(items, out, p),
    ensures
        well_labelled(out),
        stably_sorted_by_number(names_of(items), names_of(out), p),
{
    assert forall|i: int| 0 <= i < out.len() implies #[trigger] item_label(out[i]) == regex_digit_run(out[i].0@) by {
        assert(out[i] == items[p[i]]);
    }
    assert forall|i: int| 0 <= i < out.len() implies #[trigger] number_key(names_of(out)[i]@) == run_key(item_label(out[i])) by {
        assert(item_label(out[i]) == regex_digit_run(out[i].0@));
    }
    assert(rearranged(names_of(items), names_of(out), p)) by {
        assert forall|i: int| 0 <= i < p.len() implies 0 <= #[trigger] p[i] < names_of(items).len()
            && names_of(out)[i] == names_of(items)[p[i]] by {
            assert(out[i] == items[p[i]]);
        }
    }
    assert forall|i: int, j: int|
        0 <= i < j < names_of(out).len() implies number_key(#[trigger] names_of(out)[i]@) <= number_key(#[trigger] names_of(out)[j]@) by {
        assert(number_key(names_of(out)[i]@) == run_key(item_label(out[i])));
        assert(number_key(names_of(out)[j]@) == run_key(item_label(out[j])));
    }
    assert forall|i: int, j: int|
        0 <= i < j < names_of(out).len() && number_key(names_of(out)[i]@) == number_key(names_of(out)[j]@) implies #[trigger] p[i]
            < #[trigger] p[j] by {
        assert(number_key(names_of(out)[i]@) == run_key(item_label(out[i])));
        assert(number_key(names_of(out)[j]@) == run_key(item_label(out[j])));
    }
}

/// Each name with the digit run the `regex` crate finds in it.
fn label_names(names: Vec<String>) -> (r: Vec<(String, Option<String>)>)
    ensures
        names_of(r@) == names@,
        well_labelled(r@),
{
    let ghost input = names@;
    let n = names.len();
    let mut rest = names;
    let mut out: Vec<(String, Option<String>)> = Vec::new();
    let mut k: usize = 0;
    while k < n
        invariant
            n == input.len(),
            k <= n,
            rest@ == input.skip(k as int),
            out@.len() == k,
            forall|i: int| 0 <= i < k ==> #[trigger] out@[i].0 == input[i],
            well_labelled(out@),
        decreases n - k,
    {
        let name = rest.remove(0);
        assert(name == input[k as int]);
        assert(rest@ =~= input.skip(k + 1));
        let run = first_digit_run(name.as_str());
        out.push((name, run));
        proof {
            assert(item_label(out@[k as int]) == regex_digit_run(out@[k as int].0@));
            assert forall|i: int| 0 <= i < k + 1 implies #[trigger] item_label(out@[i]) == regex_digit_run(out@[i].0@) by {}
        }
        k = k + 1;
    }
    assert(names_of(out@) =~= input);
    out
}

/// The names of named files, in order.
fn strip_labels(items: Vec<(String, Option<String>)>) -> (r: Vec<String>)
    ensures
        r@ == names_of(items@),
{
    let ghost input = items@;
    let n = items.len();
    let mut rest = items;
    let mut out: Vec<String> = Vec::new();
    let mut k: usize = 0;
    while k < n
        invariant
            n == input.len(),
            k <= n,
            rest@ == input.skip(k as int),
            out@ == names_of(input.take(k as int)),
        decreases n - k,
    {
        let item = rest.remove(0);
        assert(item == input[k as int]);
        assert(rest@ =~= input.skip(k + 1));
        out.push(item.0);
        assert(names_of(input.take(k + 1)) =~= names_of(input.take(k as int)).push(input[k as int].0));
        k = k + 1;
    }
    assert(input.take(n as int) =~= input);
    out
}

fn run_key_of(run: &Option<String>) -> (r: i64)
    ensures
        r == run_key(match *run { Some(d) => Some(d@), None => None }),
{
    match run {
        Some(d) => match parse_i32(d.as_str()) {
            Some(v) => v as i64,
            None => 0,
        },
        None => -2147483649,
    }
}

fn run_group_of(run: &Option<String>) -> (r: String)
    ensures
        r@ == run_group(match *run { Some(d) => Some(d@), None => None }),
{
    match run {
        Some(d) => d.clone(),
        None => String::new(),
    }
}

/// The named files stably sorted by the number of their digit runs (files
/// without a run first).
pub fn sort_by_run(items: Vec<(String, Option<String>)>) -> (r: Vec<(String, Option<String>)>)
    ensures
        is_sorted_by_run(items@, r@),
{
    let ghost input = items@;
    let n = items.len();
    let mut rest = items;
    let mut out: Vec<(String, Option<String>)> = Vec::new();
    let mut keys: Vec<i64> = Vec::new();
    let ghost mut p: Seq<int> = Seq::empty();
    let mut k: usize = 0;
    while k < n
        invariant
            n == input.len(),
            k <= n,
            rest@ == input.skip(k as int),
            out@.len() == k,
            keys@.len() == k,
            p.len() == k,
            forall|i: int| 0 <= i < k ==> #[trigger] keys@[i] == run_key(item_label(out@[i])),
            forall|i: int| 0 <= i < k ==> 0 <= #[trigger] p[i] < k && out@[i] == input[p[i]],
            forall|i: int, j: int| 0 <= i < j < k ==> #[trigger] p[i] != #[trigger] p[j],
            forall|i: int, j: int| 0 <= i < j < k ==> #[trigger] keys@[i] <= #[trigger] keys@[j],
            forall|i: int, j: int|
                0 <= i < j < k && keys@[i] == keys@[j] ==> #[trigger] p[i] < #[trigger] p[j],
        decreases n - k,
    {
        let name = rest.remove(0);
        assert(name == input[k as int]);
        assert(rest@ =~= input.skip(k + 1));
        let key = run_key_of(&name.1);
        let mut pos: usize = out.len();
        while pos > 0 && keys[pos - 1] > key
            invariant
                pos <= keys@.len(),
                forall|q: int| pos <= q < keys@.len() ==> #[trigger] keys@[q] > key,
            decreases pos,
        {
            pos = pos - 1;
        }
        let ghost old_keys = keys@;
        let ghost old_out = out@;
        let ghost old_p = p;
        out.insert(pos, name);
        keys.insert(pos, key);
        proof {
            p = p.insert(pos as int, k as int);
            assert forall|i: int| 0 <= i < k + 1 implies #[trigger] keys@[i] == run_key(item_label(out@[i])) by {
                if i < pos {
                    assert(keys@[i] == old_keys[i]);
                } else if i > pos {
                    assert(keys@[i] == old_keys[i - 1]);
                }
            }
            assert forall|i: int| 0 <= i < k + 1 implies 0 <= #[trigger] p[i] < k + 1 && out@[i] == input[p[i]] by {
                if i < pos {
                    assert(p[i] == old_p[i]);
                } else if i > pos {
                    assert(p[i] == old_p[i - 1]);
                }
            }
            assert forall|i: int, j: int| 0 <= i < j < k + 1 implies #[trigger] p[i] != #[trigger] p[j] by {
                if i < pos && j < pos {
                    assert(p[i] == old_p[i] && p[j] == old_p[j]);
                } else if i < pos && j > pos {
                    assert(p[i] == old_p[i] && p[j] == old_p[j - 1]);
                } else if i > pos && j > pos {
                    assert(p[i] == old_p[i - 1] && p[j] == old_p[j - 1]);
                } else if i == pos {
                    assert(p[j] == old_p[j - 1]);
                } else {
                    assert(p[i] == old_p[i]);
                }
            }
            assert forall|i: int, j: int| 0 <= i < j < k + 1 implies #[trigger] keys@[i] <= #[trigger] keys@[j] by {
                if i < pos && j < pos {
                    assert(keys@[i] == old_keys[i] && keys@[j] == old_keys[j]);
                } else if i < pos && j == pos {
                    assert(keys@[i] == old_keys[i] && old_keys[i] <= old_keys[pos - 1]);
                } else if i < pos && j > pos {
                    assert(keys@[i] == old_keys[i] && keys@[j] == old_keys[j - 1]);
                } else if i == pos {
                    assert(keys@[j] == old_keys[j - 1]);
                } else {
                    assert(keys@[i] == old_keys[i - 1] && keys@[j] == old_keys[j - 1]);
                }
            }
            assert forall|i: int, j: int|
                0 <= i < j < k + 1 && keys@[i] == keys@[j] implies #[trigger] p[i] < #[trigger] p[j] by {
                if i < pos && j < pos {
                    assert(p[i] == old_p[i] && p[j] == old_p[j]);
                    assert(keys@[i] == old_keys[i] && keys@[j] == old_keys[j]);
                } else if i < pos && j == pos {
                    assert(p[i] == old_p[i]);
                } else if i < pos && j > pos {
                    assert(keys@[i] == old_keys[i] && keys@[j] == old_keys[j - 1]);
                    assert(old_keys[i] <= old_keys[pos as int]);
                } else if i == pos {
                    assert(keys@[j] == old_keys[j - 1]);
                } else {
                    assert(p[i] == old_p[i - 1] && p[j] == old_p[j - 1]);
                    assert(keys@[i] == old_keys[i - 1] && keys@[j] == old_keys[j - 1]);
                }
            }
        }
        k = k + 1;
    }
    proof {
        assert forall|i: int, j: int| 0 <= i < j < out@.len() implies run_key(item_label(#[trigger] out@[i]))
            <= run_key(item_label(#[trigger] out@[j])) by {
            assert(keys@[i] <= keys@[j]);
        }
        assert forall|i: int, j: int|
            0 <= i < j < out@.len() && run_key(item_label(out@[i])) == run_key(item_label(out@[j])) implies #[trigger] p[i]
                < #[trigger] p[j] by {
            assert(keys@[i] == run_key(item_label(out@[i])) && keys@[j] == run_key(item_label(out@[j])));
        }
        assert(rearranged(input, out@, p));
        assert(stably_sorted_by_run(input, out@, p));
    }
    out
}

/// The names stably sorted by the number in them (names without a number
/// first).
pub fn sort_by_number(names: Vec<String>) -> (r: Vec<String>)
    requires
        numbers_readable(names@),
    ensures
        is_sorted_by_number(names@, r@),
{
    let items = label_names(names);
    let sorted = sort_by_run(items);
    proof {
        let p = choose|p: Seq<int>| stably_sorted_by_run(items@, sorted@, p);
        lemma_sorted_names(items@, sorted@, p);
    }
    strip_labels(sorted)
}

/// Consecutive named files whose digit runs are the same text (or who have
/// none) gathered into groups, in order.
pub fn group_by_run(sorted: Vec<(String, Option<String>)>) -> (r: Vec<Vec<(String, Option<String>)>>)
    ensures
        nested_views(r@) == run_groups(sorted@),
{
    let ghost input = sorted@;
    let n = sorted.len();
    let mut rest = sorted;
    let mut groups: Vec<Vec<(String, Option<String>)>> = Vec::new();
    let mut last_key = String::new();
    let mut k: usize = 0;
    while k < n
        invariant
            n == input.len(),
            k <= n,
            rest@ == input.skip(k as int),
            nested_views(groups@) == run_groups(input.take(k as int)),
            k > 0 ==> groups@.len() > 0 && run_groups(input.take(k as int)).last().last() == input[k - 1]
                && last_key@ == run_group(item_label(input[k - 1])),
        decreases n - k,
    {
        let ghost pre = input.take(k as int);
        let ghost now = input.take(k + 1);
        let name = rest.remove(0);
        proof {
            assert(name == input[k as int]);
            assert(rest@ =~= input.skip(k + 1));
            assert(now.drop_last() =~= pre);
            assert(now.last() == name);
            if k == 0 {
                assert(pre =~= Seq::<(String, Option<String>)>::empty());
            }
        }
        let key = run_group_of(&name.1);
        if k > 0 && key.eq(&last_key) {
            let ghost before = groups@;
            let mut g = groups.pop().unwrap();
            g.push(name);
            groups.push(g);
            proof {
                assert(nested_views(groups@) =~= run_groups(pre).update(
                    run_groups(pre).len() - 1,
                    run_groups(pre).last().push(input[k as int]),
                ));
            }
        } else {
            let mut g: Vec<(String, Option<String>)> = Vec::new();
            g.push(name);
            groups.push(g);
            proof {
                assert(nested_views(groups@) =~= run_groups(pre).push(seq![input[k as int]]));
            }
        }
        last_key = key;
        k = k + 1;
    }
    assert(input.take(n as int) =~= input);
    groups
}

/// The names of each group, in order.
fn strip_group_labels(groups: Vec<Vec<(String, Option<String>)>>) -> (r: Vec<Vec<String>>)
    ensures
        nested_views(r@) == group_names(nested_views(groups@)),
{
    let ghost input = nested_views(groups@);
    let n = groups.len();
    let mut rest = groups;
    let mut out: Vec<Vec<String>> = Vec::new();
    let mut k: usize = 0;
    while k < n
        invariant
            n == input.len(),
            k <= n,
            rest@.len() == n - k,
            forall|q: int| 0 <= q < rest@.len() ==> #[trigger] rest@[q]@ == input[k + q],
            out@.len() == k,
            nested_views(out@) == group_names(input.take(k as int)),
        decreases n - k,
    {
        let ghost before = rest@;
        let g = rest.remove(0);
        proof {
            assert(g@ == input[k as int]);
            assert forall|q: int| 0 <= q < rest@.len() implies #[trigger] rest@[q]@ == input[k + 1 + q] by {
                assert(rest@[q] == before[q + 1]);
            }
        }
        let names = strip_labels(g);
        let ghost prev = out@;
        out.push(names);
        proof {
            assert(input.take(k + 1) =~= input.take(k as int).push(input[k as int]));
            assert forall|q: int| 0 <= q < k + 1 implies #[trigger] nested_views(out@)[q] == group_names(
                input.take(k + 1),
            )[q] by {
                if q < k {
                    assert(out@[q] == prev[q]);
                    assert(nested_views(prev)[q] == group_names(input.take(k as int))[q]);
                }
            }
            assert(nested_views(out@) =~= group_names(input.take(k + 1)));
        }
        k = k + 1;
    }
    assert(input.take(n as int) =~= input);
    out
}

/// Consecutive names with the same first digit run (or with none) gathered
/// into groups, in order.
pub fn group_by_number(sorted: Vec<String>) -> (r: Vec<Vec<String>>)
    ensures
        nested_views(r@) == runs(sorted@),
{
    let items = label_names(sorted);
    let groups = group_by_run(items);
    proof {
        lemma_run_groups_names(items@);
    }
    strip_group_labels(groups)
}


/// No name comes before an earlier one in the order of `String`.
pub open spec fn lex_sorted(s: Seq<String>) -> bool {
    forall|i: int, j: int| 0 <= i < j < s.len() ==> !lex_lt(#[trigger] s[j]@, #[trigger] s[i]@)
}

/// `out` holds the names of `input`, each as often, in the order of `String`.
pub open spec fn is_lex_sort_of(input: Seq<String>, out: Seq<String>) -> bool {
    lex_sorted(out) && exists|p: Seq<int>| rearranged(input, out, p)
}

/// The names in the order of `String` (`slice::sort`).
pub fn sort_names(names: Vec<String>) -> (r: Vec<String>)
    ensures
        is_lex_sort_of(names@, r@),
{
    let ghost input = names@;
    let n = names.len();
    let mut rest = names;
    let mut out: Vec<String> = Vec::new();
    let ghost mut p: Seq<int> = Seq::empty();
    let mut k: usize = 0;
    while k < n
        invariant
            n == input.len(),
            k <= n,
            rest@ == input.skip(k as int),
            out@.len() == k,
            p.len() == k,
            forall|i: int| 0 <= i < k ==> 0 <= #[trigger] p[i] < k && out@[i] == input[p[i]],
            forall|i: int, j: int| 0 <= i < j < k ==> #[trigger] p[i] != #[trigger] p[j],
            lex_sorted(out@),
        decreases n - k,
    {
        let name = rest.remove(0);
        assert(name == input[k as int]);
        assert(rest@ =~= input.skip(k + 1));
        let mut pos: usize = out.len();
        while pos > 0 && str_lt(name.as_str(), out[pos - 1].as_str())
            invariant
                pos <= out@.len(),
                forall|q: int| pos <= q < out@.len() ==> lex_lt(name@, #[trigger] out@[q]@),
            decreases pos,
        {
            pos = pos - 1;
        }
        let ghost old_out = out@;
        let ghost old_p = p;
        out.insert(pos, name);
        proof {
            p = p.insert(pos as int, k as int);
            assert forall|i: int| 0 <= i < k + 1 implies 0 <= #[trigger] p[i] < k + 1 && out@[i] == input[p[i]] by {
                if i < pos {
                    assert(p[i] == old_p[i]);
                } else if i > pos {
                    assert(p[i] == old_p[i - 1]);
                }
            }
            assert forall|i: int, j: int| 0 <= i < j < k + 1 implies #[trigger] p[i] != #[trigger] p[j] by {
                if i < pos && j < pos {
                    assert(p[i] == old_p[i] && p[j] == old_p[j]);
                } else if i < pos && j > pos {
                    assert(p[i] == old_p[i] && p[j] == old_p[j - 1]);
                } else if i > pos && j > pos {
                    assert(p[i] == old_p[i - 1] && p[j] == old_p[j - 1]);
                } else if i == pos {
                    assert(p[j] == old_p[j - 1]);
                } else {
                    assert(p[i] == old_p[i]);
                }
            }
            assert forall|i: int, j: int| 0 <= i < j < k + 1 implies !lex_lt(#[trigger] out@[j]@, #[trigger] out@[i]@) by {
                if i < pos && j < pos {
                    assert(out@[i] == old_out[i] && out@[j] == old_out[j]);
                } else if i < pos && j == pos {
                    assert(out@[i] == old_out[i]);
                    assert(!lex_lt(name@, old_out[pos - 1]@));
                    if i < pos - 1 {
                        assert(!lex_lt(old_out[pos - 1]@, old_out[i]@));
                    }
                    lemma_lex_order(name@, old_out[pos - 1]@, old_out[i]@);
                    lemma_lex_order(old_out[pos - 1]@, old_out[i]@, name@);
                    lemma_lex_order(old_out[i]@, name@, old_out[pos - 1]@);
                    lemma_lex_order(name@, old_out[i]@, old_out[pos - 1]@);
                } else if i < pos && j > pos {
                    assert(out@[i] == old_out[i] && out@[j] == old_out[j - 1]);
                } else if i == pos {
                    assert(out@[j] == old_out[j - 1]);
                    assert(lex_lt(name@, old_out[j - 1]@));
                    lemma_lex_order(name@, old_out[j - 1]@, name@);
                } else {
                    assert(out@[i] == old_out[i - 1] && out@[j] == old_out[j - 1]);
                }
            }
        }
        k = k + 1;
    }
    proof {
        assert(rearranged(input, out@, p));
    }
    out
}

/// `groups` are the runs of `sorted`, each in the order of `String`.
pub open spec fn groups_of(sorted: Seq<String>, groups: Seq<Seq<String>>) -> bool {
    &&& groups.len() == runs(sorted).len()
    &&& forall|i: int| 0 <= i < groups.len() ==> is_lex_sort_of(runs(sorted)[i], #[trigger] groups[i])
}

/// `groups` are the names of the runs of `sorted`, each in the order of
/// `String`.
pub open spec fn run_groups_of(sorted: Seq<(String, Option<String>)>, groups: Seq<Seq<String>>) -> bool {
    &&& groups.len() == run_groups(sorted).len()
    &&& forall|i: int| 0 <= i < groups.len() ==> is_lex_sort_of(names_of(run_groups(sorted)[i]), #[trigger] groups[i])
}

/// The file names of a problem's test cases, each given with its first
/// digit run, grouped by test case: sorted by the number of the run (names
/// without one first, equal numbers keeping their order), consecutive names
/// with the same run gathered, and each group in the order of `String`.
pub fn group_names_by_runs(items: Vec<(String, Option<String>)>) -> (r: Vec<Vec<String>>)
    requires
        runs_readable(items@),
    ensures
        exists|sorted: Seq<(String, Option<String>)>| is_sorted_by_run(items@, sorted) && run_groups_of(sorted, nested_views(r@)),
{
    let sorted = sort_by_run(items);
    let ghost s = sorted@;
    let groups = group_by_run(sorted);
    let ghost g0 = nested_views(groups@);
    let n = groups.len();
    assert forall|q: int| 0 <= q < groups@.len() implies #[trigger] groups@[q]@ == g0[0 + q] by {}
    let mut rest = groups;
    let mut out: Vec<Vec<String>> = Vec::new();
    let mut k: usize = 0;
    while k < n
        invariant
            n == g0.len(),
            g0 == run_groups(s),
            k <= n,
            rest@.len() == n - k,
            forall|q: int| 0 <= q < rest@.len() ==> #[trigger] rest@[q]@ == g0[k + q],
            out@.len() == k,
            forall|i: int| 0 <= i < k ==> is_lex_sort_of(names_of(g0[i]), #[trigger] out@[i]@),
        decreases n - k,
    {
        let ghost before = rest@;
        let g = rest.remove(0);
        proof {
            assert(g@ == g0[k as int]);
            assert forall|q: int| 0 <= q < rest@.len() implies #[trigger] rest@[q]@ == g0[k + 1 + q] by {
                assert(rest@[q] == before[q + 1]);
            }
        }
        let names = strip_labels(g);
        let sorted_group = sort_names(names);
        out.push(sorted_group);
        k = k + 1;
    }
    assert(run_groups_of(s, nested_views(out@)));
    out
}

/// The file names of a problem's test cases, grouped by test case: sorted by
/// the number in them (names without one first, equal numbers keeping their
/// order), consecutive names with the same digits gathered, and each group in
/// the order of `String`.
pub fn get_testcases_names(names: Vec<String>) -> (r: Vec<Vec<String>>)
    requires
        numbers_readable(names@),
    ensures
        exists|sorted: Seq<String>| is_sorted_by_number(names@, sorted) && groups_of(sorted, nested_views(r@)),
{
    let ghost input = names@;
    let items = label_names(names);
    proof {
        if items@.len() > 1 {
            assert forall|i: int| 0 <= i < items@.len() implies (#[trigger] item_label(items@[i]) matches Some(d)
                ==> spec_parse_i32(d) is Some) by {
                assert(names_of(items@)[i] == items@[i].0);
                assert(regex_digit_run(input[i]@) matches Some(d) ==> spec_parse_i32(d) is Some);
            }
        }
    }
    let ghost labelled = items@;
    let r = group_names_by_runs(items);
    proof {
        let sorted = choose|sorted: Seq<(String, Option<String>)>| is_sorted_by_run(labelled, sorted) && run_groups_of(sorted, nested_views(r@));
        let p = choose|p: Seq<int>| stably_sorted_by_run(labelled, sorted, p);
        lemma_sorted_names(labelled, sorted, p);
        lemma_run_groups_names(sorted);
        let names_sorted = names_of(sorted);
        assert(is_sorted_by_number(input, names_sorted));
        assert forall|i: int| 0 <= i < nested_views(r@).len() implies is_lex_sort_of(runs(names_sorted)[i], #[trigger] nested_views(r@)[i]) by {
            assert(group_names(run_groups(sorted))[i] == names_of(run_groups(sorted)[i]));
        }
        assert(groups_of(names_sorted, nested_views(r@)));
    }
    r
}

/// Whether sorting can read every file name's number: always for fewer than
/// two names, otherwise when every first digit run, where there is one,
/// reads as an `i32`.
pub fn check_numbers_readable(names: &Vec<String>) -> (r: bool)
    ensures
        r == numbers_readable(names@),
{
    if names.len() <= 1 {
        return true;
    }
    let mut i: usize = 0;
    while i < names.len()
        invariant
            i <= names@.len(),
            names@.len() > 1,
            forall|q: int|
                0 <= q < i ==> (#[trigger] regex_digit_run(names@[q]@) matches Some(d) ==> spec_parse_i32(
                    d,
                ) is Some),
        decreases names.len() - i,
    {
        match first_digit_run(names[i].as_str()) {
            Some(d) => {
                if parse_i32(d.as_str()).is_none() {
                    return false;
                }
            },
            None => {},
        }
        i = i + 1;
    }
    true
}

/// `sort_by_number` when sorting can read every number, `None` otherwise.
pub fn try_sort_by_number(names: Vec<String>) -> (r: Option<Vec<String>>)
    ensures
        r is None <==> !numbers_readable(names@),
        r matches Some(sorted) ==> is_sorted_by_number(names@, sorted@),
{
    if check_numbers_readable(&names) {
        Some(sort_by_number(names))
    } else {
        None
    }
}

/// `get_testcases_names` when sorting can read every number, `None`
/// otherwise.
pub fn try_get_testcases_names(names: Vec<String>) -> (r: Option<Vec<Vec<String>>>)
    ensures
        r is None <==> !numbers_readable(names@),
        r matches Some(g) ==> exists|sorted: Seq<String>|
            is_sorted_by_number(names@, sorted) && groups_of(sorted, nested_views(g@)),
{
    if check_numbers_readable(&names) {
        Some(get_testcases_names(names))
    } else {
        None
    }
}

/// The input and expected-output files of each test case: the first two
/// names of every group with more than one name.
pub open spec fn testcase_pairs(groups: Seq<Seq<String>>) -> Seq<(String, String)>
    decreases groups.len(),
{
    if groups.len() == 0 {
        seq![]
    } else {
        let prev = testcase_pairs(groups.drop_last());
        let g = groups.last();
        if g.len() > 1 {
            prev.push((g[0], g[1]))
        } else {
            prev
        }
    }
}

/// The input and expected-output file of each test case.
pub fn get_testcase_files(groups: &Vec<Vec<String>>) -> (r: Vec<(String, String)>)
    ensures
        r@ == testcase_pairs(nested_views(groups@)),
{
    let ghost g = nested_views(groups@);
    let mut out: Vec<(String, String)> = Vec::new();
    let mut i: usize = 0;
    while i < groups.len()
        invariant
            g == nested_views(groups@),
            i <= groups@.len(),
            out@ == testcase_pairs(g.take(i as int)),
        decreases groups.len() - i,
    {
        assert(g.take(i + 1).drop_last() =~= g.take(i as int));
        assert(g.take(i + 1).last() == groups@[i as int]@);
        if groups[i].len() > 1 {
            out.push((groups[i][0].clone(), groups[i][1].clone()));
        }
        i = i + 1;
    }
    assert(g.take(groups@.len() as int) =~= g);
    out
}

} // verus!