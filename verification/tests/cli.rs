use cross::cli::{is_verbose, parse, ArgsError, FlagError, FlagOption};
use cross::rustc::TargetList;

fn target_list() -> TargetList {
    TargetList {
        triples: vec![
            "aarch64-unknown-linux-gnu".to_owned(),
            "x86_64-unknown-linux-gnu".to_owned(),
        ],
    }
}

fn args(v: &[&str]) -> Vec<String> {
    v.iter().map(|s| s.to_string()).collect()
}

#[test]
fn is_verbose_test() {
    assert!(is_verbose("b") == 0);
    assert!(is_verbose("x") == 0);
    assert!(is_verbose("-") == 0);
    assert!(is_verbose("-V") == 0);
    assert!(is_verbose("-v") == 1);
    assert!(is_verbose("--verbose") == 1);
    assert!(is_verbose("-vvvv") == 4);
    assert!(is_verbose("-version") == 0);
}

#[test]
fn parse_target_and_subcommand() {
    let a = parse(&args(&["build", "--target", "aarch64-unknown-linux-gnu", "-v"]), &target_list(), "/work").unwrap();
    assert_eq!(a.target.unwrap().triple(), "aarch64-unknown-linux-gnu");
    assert_eq!(a.verbose, 1);
    assert_eq!(a.cargo_args, args(&["build", "--target", "aarch64-unknown-linux-gnu", "-v"]));
}

#[test]
fn parse_target_dir_is_remapped() {
    let a = parse(&args(&["build", "--target-dir=out"]), &target_list(), "/work").unwrap();
    assert_eq!(a.target_dir.as_deref(), Some("/work/out"));
    assert_eq!(a.cargo_args, args(&["build", "--target-dir=/target"]));
}

#[test]
fn parse_doubled_target_is_an_error() {
    let r = parse(&args(&["build", "--target", "a", "--target=b"]), &target_list(), "/work");
    assert!(matches!(r, Err(ArgsError::Target(FlagError::Double))));
}

#[test]
fn parse_missing_color_is_an_error() {
    let r = parse(&args(&["build", "--color"]), &target_list(), "/work");
    assert!(matches!(r, Err(ArgsError::Color(FlagError::Missing))));
}

#[test]
fn parse_rest_args_and_channel() {
    let a = parse(&args(&["+nightly", "test", "--", "--nocapture", "-v"]), &target_list(), "/work").unwrap();
    assert_eq!(a.channel.as_deref(), Some("nightly"));
    assert_eq!(a.rest_args, args(&["--", "--nocapture", "-v"]));
    assert_eq!(a.verbose, 0);
}

#[test]
fn parse_features_join() {
    let a = parse(&args(&["build", "--features", "a", "--features=b", "--features="]), &target_list(), "/").unwrap();
    assert_eq!(a.features, args(&["a", "b"]));
}

#[test]
fn flag_option_set_twice_is_double() {
    let mut f: FlagOption<u8> = FlagOption::Unset;
    f.set(FlagOption::Provided(1));
    assert_eq!(f, FlagOption::Provided(1));
    f.set(FlagOption::Provided(2));
    assert_eq!(f, FlagOption::Double);
}
