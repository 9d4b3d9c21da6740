use cross::docker::docker_ignore::{parse_ignore, InvalidPattern};

#[test]
fn test_dockerignore_parsing() {
    let content = format!(
        "{}{}",
        "\u{feff}",
        r#"# Comment line

  # Indented comment
  target/  
/src//*.rs
!/src/main.rs
./build/
"#
    );
    let di = parse_ignore(&content).unwrap();
    assert_eq!(di.rules.len(), 4);

    assert_eq!(di.rules[0].pattern.as_str(), "target");
    assert!(di.rules[0].only_dir);
    assert!(!di.rules[0].is_exception);

    assert_eq!(di.rules[1].pattern.as_str(), "src/*.rs");
    assert!(!di.rules[1].only_dir);
    assert!(!di.rules[1].is_exception);

    assert_eq!(di.rules[2].pattern.as_str(), "src/main.rs");
    assert!(!di.rules[2].only_dir);
    assert!(di.rules[2].is_exception);

    assert_eq!(di.rules[3].pattern.as_str(), "build");
    assert!(di.rules[3].only_dir);
    assert!(!di.rules[3].is_exception);
}

#[test]
fn ignore_rules_normalized() {
    let di = parse_ignore("!\n/\n.\\\\a\\\\b\\\\\n! ./x//y/\n").unwrap();
    assert_eq!(di.rules.len(), 2);
    assert_eq!(di.rules[0].pattern, "a/b");
    assert!(di.rules[0].only_dir);
    assert_eq!(di.rules[1].pattern, "x/y");
    assert!(di.rules[1].is_exception);
}

#[test]
fn test_dockerignore_matching_basic() {
    let content = r#"target
*.md
**/*.log
*/temp*
temp?
"#;
    let di = parse_ignore(content).unwrap();

    // target matches at root
    assert!(di.is_ignored("target", true));
    assert!(di.is_ignored("target", false));
    assert!(di.is_ignored("target/debug/app", false));
    assert!(di.is_ignored("target/debug", true));
    // target does not match in subdirectories (literal separator)
    assert!(!di.is_ignored("src/target", true));
    assert!(!di.is_ignored("src/target/foo", false));

    // *.md only matches at root
    assert!(di.is_ignored("README.md", false));
    assert!(!di.is_ignored("docs/README.md", false));

    // **/*.log matches at any depth
    assert!(di.is_ignored("app.log", false));
    assert!(di.is_ignored("logs/app.log", false));
    assert!(di.is_ignored("a/b/c/app.log", false));

    // */temp* matches in immediate subdirectories
    assert!(!di.is_ignored("temp", false));
    assert!(di.is_ignored("sub/temp", false));
    assert!(di.is_ignored("sub/temporary.txt", false));
    assert!(!di.is_ignored("a/b/temp", false));

    // temp? matches 1 char extension at root
    assert!(di.is_ignored("tempa", false));
    assert!(di.is_ignored("temp1", false));
    assert!(!di.is_ignored("temp", false));
    assert!(!di.is_ignored("temporary", false));
}

#[test]
fn test_dockerignore_dir_only() {
    let content = r#"logs/
"#;
    let di = parse_ignore(content).unwrap();

    // logs/ should match directory, but not file named logs
    assert!(!di.is_ignored("logs", false));
    assert!(di.is_ignored("logs", true));
    // children of logs directory are inside an excluded directory
    assert!(di.is_ignored("logs/app.log", false));
    assert!(di.is_ignored("logs/sub/app.log", false));
}

#[test]
fn test_dockerignore_exceptions() {
    let content = r#"*.md
!README*.md
README-secret.md
"#;
    let di = parse_ignore(content).unwrap();

    assert!(!di.is_ignored("README.md", false));
    assert!(!di.is_ignored("README-test.md", false));
    assert!(di.is_ignored("README-secret.md", false));
    assert!(di.is_ignored("other.md", false));
    assert!(!di.is_ignored("other.txt", false));
}

#[test]
fn test_dockerignore_nested_exceptions() {
    // Moby test case
    let content = r#"**
!util/docker/web
"#;
    let di = parse_ignore(content).unwrap();
    assert!(!di.is_ignored("util/docker/web/foo", false));

    let content2 = r#"**
!util/docker/web
util/docker/web/foo
"#;
    let di2 = parse_ignore(content2).unwrap();
    assert!(di2.is_ignored("util/docker/web/foo", false));

    // Directory recursion exception
    let content3 = r#"target/**
!target/keep.txt
"#;
    let di3 = parse_ignore(content3).unwrap();
    assert!(!di3.is_ignored("target", true));
    assert!(!di3.is_ignored("target/keep.txt", false));
    assert!(di3.is_ignored("target/delete.txt", false));
}

#[test]
fn test_dockerignore_dir_exception() {
    let content = r#"target/
!target/keep.txt
logs/
!logs/**/*.log
build/
"#;
    let di = parse_ignore(content).unwrap();

    // target/ is ignored by default rule
    assert!(di.is_ignored("target", true));
    // but is_dir_ignored returns false because of child exception !target/keep.txt
    assert!(!di.is_dir_ignored("target"));
    assert!(!di.is_ignored("target/keep.txt", false));
    assert!(di.is_ignored("target/secret.txt", false));

    // logs/ has child exception !logs/**/*.log
    assert!(di.is_ignored("logs", true));
    assert!(!di.is_dir_ignored("logs"));
    assert!(!di.is_dir_ignored("logs/sub"));
    assert!(!di.is_ignored("logs/sub/app.log", false));
    assert!(di.is_ignored("logs/sub/app.txt", false));

    // build/ has NO child exception
    assert!(di.is_ignored("build", true));
    assert!(di.is_dir_ignored("build"));
    assert!(di.is_ignored("build/app", false));
}

#[test]
fn invalid_pattern_is_an_error_with_its_line() {
    let err = parse_ignore("# first\ntarget/\nsrc/[a\n").unwrap_err();
    assert_eq!(err, InvalidPattern { line: 3 });
    assert!(parse_ignore("a/***/b\n").is_err());
}

#[test]
fn context_itself_is_never_ignored() {
    let di = parse_ignore("**\n").unwrap();
    assert!(!di.is_ignored("", true));
    assert!(!di.is_ignored("/", true));
    assert!(!di.is_ignored(".", true));
    assert!(di.is_ignored("a", false));
    assert!(!di.is_dir_ignored("/"));
}
