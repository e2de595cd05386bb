use evaluator::text::{
    bytes_start_with, i32_to_string, join_strings, parse_i32, replace_str, str_equals, str_lt,
    u128_to_string,
};

#[test]
fn decimal_rendering() {
    assert_eq!(u128_to_string(0), "0");
    assert_eq!(u128_to_string(7), "7");
    assert_eq!(u128_to_string(1234567890), "1234567890");
    assert_eq!(u128_to_string(u128::MAX), u128::MAX.to_string());
    assert_eq!(i32_to_string(-42), "-42");
    assert_eq!(i32_to_string(i32::MIN), "-2147483648");
    assert_eq!(i32_to_string(i32::MAX), "2147483647");
}

#[test]
fn parse_matches_std() {
    for s in ["0", "12", "+12", "-12", "007", "2147483647", "2147483648", "-2147483648",
        "-2147483649", "", "+", "-", "1a", " 1", "99999999999999999999", "٣"] {
        assert_eq!(parse_i32(s), s.parse::<i32>().ok(), "input {:?}", s);
    }
}

#[test]
fn render_then_parse_gives_back_the_number() {
    for v in [0, 1, -1, 10, -10, 123456, i32::MIN, i32::MAX] {
        assert_eq!(parse_i32(&i32_to_string(v)), Some(v));
    }
}

#[test]
fn replace_matches_std() {
    let cases = [
        ("g++ $file -o $executable", "$file"),
        ("$file$file", "$file"),
        ("$fil", "$file"),
        ("aaaa", "aa"),
        ("", "$file"),
    ];
    for (s, pat) in cases {
        assert_eq!(replace_str(s, pat, "X"), s.replace(pat, "X"));
    }
}

#[test]
fn replace_without_placeholder_is_identity() {
    assert_eq!(replace_str("-O2", "$file", "main.cpp"), "-O2");
}

#[test]
fn join_matches_std() {
    let v: Vec<String> = vec!["a".into(), "bc".into(), "".into(), "d".into()];
    assert_eq!(join_strings(&v, " "), v.join(" "));
    assert_eq!(join_strings(&vec![], ", "), "");
}

#[test]
fn string_order_matches_std() {
    let words = ["", "a", "ab", "b", "B", "é", "z", "10", "9", "1.in", "1.out"];
    for a in words {
        for b in words {
            assert_eq!(str_lt(a, b), a.to_string() < b.to_string(), "{:?} {:?}", a, b);
        }
        assert!(str_equals(a, a));
    }
    assert!(!str_equals("a", "b"));
}

#[test]
fn byte_prefix() {
    assert!(bytes_start_with(&b"[>>EVALUATOR<<][TIME_LIMIT] x".to_vec(), b"[>>EVALUATOR<<]"));
    assert!(!bytes_start_with(&b"[>>EVAL".to_vec(), b"[>>EVALUATOR<<]"));
    assert!(bytes_start_with(&vec![], b""));
}
