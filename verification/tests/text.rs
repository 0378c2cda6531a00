use sakamoto::bytes::{contains_bytes, parse_u64, split_ws, starts_with_bytes, strip_reps, trim_bytes};

fn bytes(s: &str) -> Vec<u8> {
    s.as_bytes().to_vec()
}

#[test]
fn trim_removes_ascii_whitespace_both_ends() {
    assert_eq!(trim_bytes(&bytes("  a b \t\n")), bytes("a b"));
    assert_eq!(trim_bytes(&bytes("")), bytes(""));
    assert_eq!(trim_bytes(&bytes("   ")), bytes(""));
    assert_eq!(trim_bytes(&bytes("x")), bytes("x"));
}

#[test]
fn split_collapses_whitespace_runs() {
    let toks = split_ws(&bytes("  one   two\tthree "));
    assert_eq!(toks, vec![bytes("one"), bytes("two"), bytes("three")]);
    assert_eq!(split_ws(&bytes("")), Vec::<Vec<u8>>::new());
    assert_eq!(split_ws(&bytes("   ")), Vec::<Vec<u8>>::new());
}

#[test]
fn strip_peels_repeated_fences() {
    let f = bytes("```");
    assert_eq!(strip_reps(&bytes("```bar```"), &f), bytes("bar"));
    assert_eq!(strip_reps(&bytes("``````bar``````"), &f), bytes("bar"));
    assert_eq!(strip_reps(&bytes("bar"), &f), bytes("bar"));
    assert_eq!(strip_reps(&bytes("``````"), &f), bytes(""));
    assert_eq!(strip_reps(&bytes("``"), &f), bytes("``"));
}

#[test]
fn parse_u64_accepts_digits_only() {
    assert_eq!(parse_u64(&bytes("0")), Some(0));
    assert_eq!(parse_u64(&bytes("1234567890")), Some(1234567890));
    assert_eq!(parse_u64(&bytes("18446744073709551615")), Some(u64::MAX));
    assert_eq!(parse_u64(&bytes("18446744073709551616")), None);
    assert_eq!(parse_u64(&bytes("")), None);
    assert_eq!(parse_u64(&bytes("12a")), None);
    assert_eq!(parse_u64(&bytes("-1")), None);
}

#[test]
fn substring_and_prefix_checks() {
    assert!(contains_bytes(&bytes("lo world"), &bytes("lo")));
    assert!(contains_bytes(&bytes("lo world"), &bytes("")));
    assert!(!contains_bytes(&bytes("lo"), &bytes("low")));
    assert!(starts_with_bytes(&bytes("sakamoto!x"), &bytes("sakamoto!")));
    assert!(!starts_with_bytes(&bytes(" sakamoto!"), &bytes("sakamoto!")));
}
