use evaluator::utils::{
    get_testcase_files, get_testcases_names, group_by_number, group_by_run, group_names_by_runs, sort_by_number,
    sort_by_run, sort_names, try_get_testcases_names, try_sort_by_number,
};

fn v(s: &[&str]) -> Vec<String> {
    s.iter().map(|x| x.to_string()).collect()
}

#[test]
fn groups_test_case_files_by_number() {
    let names = v(&["dir/10.out", "dir/2.in", "dir/10.in", "dir/1.out", "dir/1.in", "dir/2.out", "dir/readme"]);
    let groups = get_testcases_names(names);
    assert_eq!(
        groups,
        vec![v(&["dir/readme"]), v(&["dir/1.in", "dir/1.out"]), v(&["dir/2.in", "dir/2.out"]), v(&["dir/10.in", "dir/10.out"])]
    );
    let pairs = get_testcase_files(&groups);
    assert_eq!(
        pairs,
        vec![
            ("dir/1.in".to_string(), "dir/1.out".to_string()),
            ("dir/2.in".to_string(), "dir/2.out".to_string()),
            ("dir/10.in".to_string(), "dir/10.out".to_string()),
        ]
    );
}

#[test]
fn equal_numbers_with_different_digits_stay_apart() {
    let groups = get_testcases_names(v(&["t01.in", "t1.in", "t01.out", "t1.out"]));
    assert_eq!(groups, vec![v(&["t01.in"]), v(&["t1.in"]), v(&["t01.out"]), v(&["t1.out"])]);
}

#[test]
fn numeric_sort_is_stable() {
    assert_eq!(sort_by_number(v(&["b5", "a5", "x", "c3", "y"])), v(&["x", "y", "c3", "b5", "a5"]));
}

#[test]
fn names_sort_like_strings() {
    assert_eq!(sort_names(v(&["b", "a", "B", "ab", "a"])), v(&["B", "a", "a", "ab", "b"]));
}

#[test]
fn unreadable_numbers_are_refused() {
    assert!(try_get_testcases_names(v(&["99999999999.in", "1.in"])).is_none());
    assert_eq!(try_get_testcases_names(v(&["99999999999.in"])), Some(vec![v(&["99999999999.in"])]));
    assert!(try_get_testcases_names(v(&["1.in", "1.out"])).is_some());
    assert_eq!(try_get_testcases_names(vec![]), Some(vec![]));
}

fn named(s: &[(&str, Option<&str>)]) -> Vec<(String, Option<String>)> {
    s.iter().map(|(n, r)| (n.to_string(), r.map(|d| d.to_string()))).collect()
}

#[test]
fn groups_follow_the_given_digit_runs() {
    let items = named(&[
        ("t10.out", Some("10")),
        ("t2.in", Some("2")),
        ("t10.in", Some("10")),
        ("t1.out", Some("1")),
        ("notes", None),
        ("t1.in", Some("1")),
        ("t2.out", Some("2")),
    ]);
    assert_eq!(
        group_names_by_runs(items),
        vec![v(&["notes"]), v(&["t1.in", "t1.out"]), v(&["t2.in", "t2.out"]), v(&["t10.in", "t10.out"])]
    );
}

#[test]
fn sorting_by_given_runs_is_numeric_and_stable() {
    let sorted = sort_by_run(named(&[("b", Some("10")), ("a", Some("2")), ("c", Some("02")), ("x", None)]));
    assert_eq!(sorted, named(&[("x", None), ("a", Some("2")), ("c", Some("02")), ("b", Some("10"))]));
    let groups = group_by_run(sorted);
    assert_eq!(groups.len(), 4);
    assert_eq!(group_by_number(v(&["a1", "b1", "c2", "d"])), vec![v(&["a1", "b1"]), v(&["c2"]), v(&["d"])]);
}

#[test]
fn sorting_refuses_unreadable_numbers_only_with_company() {
    assert_eq!(try_sort_by_number(v(&["b3", "a1"])), Some(v(&["a1", "b3"])));
    assert_eq!(try_sort_by_number(v(&["99999999999"])), Some(v(&["99999999999"])));
    assert_eq!(try_sort_by_number(v(&["99999999999", "a1"])), None);
}
