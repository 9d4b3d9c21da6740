use cross::docker::remote::{
    fingerprint_from_lines, parse_fingerprint_line, parse_u64_exec, str_lt, Fingerprint, FingerprintError,
};

fn fp(entries: &[(&str, u64)]) -> Fingerprint {
    let mut f = Fingerprint::new();
    for (p, t) in entries {
        f.insert(p.to_string(), *t);
    }
    f
}

#[test]
fn fingerprint_keeps_paths_sorted_once() {
    let f = fp(&[("b", 2), ("a", 1), ("c", 3), ("a", 4)]);
    let paths: Vec<(&str, u64)> = f.entries().iter().map(|(p, t)| (p.as_str(), *t)).collect();
    assert_eq!(paths, vec![("a", 4), ("b", 2), ("c", 3)]);
}

#[test]
fn fingerprint_difference() {
    let old = fp(&[("lib/a.rs", 1), ("lib/b.rs", 2), ("lib/gone.rs", 3)]);
    let current = fp(&[("lib/a.rs", 1), ("lib/b.rs", 5), ("lib/new.rs", 7)]);
    let (to_copy, to_remove) = old.difference(&current);
    assert_eq!(to_copy, vec!["lib/b.rs".to_owned(), "lib/new.rs".to_owned()]);
    assert_eq!(to_remove, vec!["lib/gone.rs".to_owned()]);
    let (none, gone) = current.difference(&current);
    assert!(none.is_empty() && gone.is_empty());
}

#[test]
fn fingerprint_difference_in_order_of_paths() {
    let old = fp(&[("z", 1), ("m", 1), ("a", 1)]);
    let current = fp(&[("y", 2), ("b", 2), ("m", 2)]);
    let (to_copy, to_remove) = old.difference(&current);
    assert_eq!(to_copy, vec!["b".to_owned(), "m".to_owned(), "y".to_owned()]);
    assert_eq!(to_remove, vec!["a".to_owned(), "z".to_owned()]);
}

#[test]
fn fingerprint_lines_round_trip() {
    let f = fp(&[("x/y", 1650000000123), ("a b", 0)]);
    let lines = f.to_lines();
    assert_eq!(lines, vec!["0\ta b".to_owned(), "1650000000123\tx/y".to_owned()]);
    let back = fingerprint_from_lines(&lines).unwrap();
    assert_eq!(back.entries(), f.entries());
}

#[test]
fn fingerprint_bad_lines() {
    assert_eq!(parse_fingerprint_line("12\tpath\twith tab"), Ok(("path\twith tab".to_owned(), 12)));
    assert_eq!(parse_fingerprint_line("no tab"), Err(FingerprintError::MissingTab));
    assert_eq!(parse_fingerprint_line("x1\tpath"), Err(FingerprintError::InvalidTime));
    let lines = vec!["1\ta".to_owned(), "oops".to_owned(), "zz\tb".to_owned()];
    assert_eq!(fingerprint_from_lines(&lines).unwrap_err(), FingerprintError::MissingTab);
}

#[test]
fn numbers_and_order() {
    assert_eq!(parse_u64_exec("+42"), Some(42));
    assert_eq!(parse_u64_exec("18446744073709551615"), Some(u64::MAX));
    assert_eq!(parse_u64_exec("18446744073709551616"), None);
    assert_eq!(parse_u64_exec("-1"), None);
    assert_eq!(parse_u64_exec(""), None);
    assert!(str_lt("a", "b"));
    assert!(str_lt("ab", "abc"));
    assert!(!str_lt("abc", "ab"));
    assert!(!str_lt("same", "same"));
    assert!(str_lt("Z", "a"));
}
