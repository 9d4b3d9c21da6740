use cross::cargo_toml::{AliasError, CargoConfig, CargoToml, MergeError, TomlValue};
use cross::config::Environment;

fn to_value(v: &toml::Value) -> TomlValue {
    match v {
        toml::Value::String(s) => TomlValue::String(s.clone()),
        toml::Value::Integer(i) => TomlValue::Integer(*i),
        toml::Value::Float(f) => TomlValue::Float(f.to_bits()),
        toml::Value::Boolean(b) => TomlValue::Boolean(*b),
        toml::Value::Datetime(d) => TomlValue::Datetime(d.to_string()),
        toml::Value::Array(a) => TomlValue::Array(a.iter().map(to_value).collect()),
        toml::Value::Table(t) => TomlValue::Table(t.iter().map(|(k, v)| (k.clone(), to_value(v))).collect()),
    }
}

fn parse(text: &str) -> CargoToml {
    let table: toml::value::Table = toml::from_str(text).unwrap();
    CargoToml(table.iter().map(|(k, v)| (k.clone(), to_value(v))).collect())
}

fn get<'a>(t: &'a [(String, TomlValue)], key: &str) -> Option<&'a TomlValue> {
    t.iter().find(|(k, _)| k == key).map(|(_, v)| v)
}

fn owned(v: &[&str]) -> Vec<String> {
    v.iter().map(|s| s.to_string()).collect()
}

const CARGO_TOML1: &str = r#"
[alias]
foo = "build foo"
bar = "check bar"

[build]
jobs = 2
rustc-wrapper = "sccache"
target = "x86_64-unknown-linux-gnu"
rustflags = ["-C lto", "-Zbuild-std"]
incremental = true

[doc]
browser = "firefox"

[env]
VAR1 = "VAL1"
VAR2 = { value = "VAL2", force = true }
VAR3 = { value = "relative/path", relative = true }
"#;

const CARGO_TOML2: &str = r#"
# want to check tables merge
# want to check arrays concat
# want to check rest override
[alias]
baz = "test baz"
bar = "init bar"

[build]
jobs = 4
rustc-wrapper = "sccache"
target = "x86_64-unknown-linux-gnu"
rustflags = ["-Zdoctest-xcompile"]
incremental = true

[doc]
browser = "chromium"

[env]
VAR1 = "NEW1"
VAR2 = { value = "VAL2", force = false }
"#;

#[test]
fn test_parse() {
    let config1 = parse(CARGO_TOML1);
    let config2 = parse(CARGO_TOML2);
    assert_eq!(config1.alias("foo"), Ok(Some(owned(&["build", "foo"]))));
    assert_eq!(config1.alias("bar"), Ok(Some(owned(&["check", "bar"]))));
    assert_eq!(config2.alias("baz"), Ok(Some(owned(&["test", "baz"]))));
    assert_eq!(config2.alias("bar"), Ok(Some(owned(&["init", "bar"]))));
    assert_eq!(config1.alias("far"), Ok(None));
    assert_eq!(config2.alias("far"), Ok(None));

    let mut merged = config1;
    assert_eq!(merged.merge(&config2), Ok(()));
    assert_eq!(merged.alias("foo"), Ok(Some(owned(&["build", "foo"]))));
    assert_eq!(merged.alias("baz"), Ok(Some(owned(&["test", "baz"]))));
    assert_eq!(merged.alias("bar"), Ok(Some(owned(&["check", "bar"]))));

    let build = match get(&merged.0, "build") {
        Some(TomlValue::Table(t)) => t,
        _ => panic!("build is a table"),
    };
    assert!(matches!(get(build, "jobs"), Some(TomlValue::Integer(2))));
    let flags: Option<Vec<&str>> = match get(build, "rustflags") {
        Some(TomlValue::Array(a)) => a
            .iter()
            .map(|i| match i {
                TomlValue::String(s) => Some(s.as_str()),
                _ => None,
            })
            .collect(),
        _ => None,
    };
    assert_eq!(flags, Some(vec!["-C lto", "-Zbuild-std", "-Zdoctest-xcompile"]));
}

#[test]
fn merge_of_different_types_fails() {
    let mut a = parse("[build]\njobs = 2\n");
    let b = parse("[build]\njobs = \"two\"\n");
    assert_eq!(a.merge(&b), Err(MergeError));
    assert!(matches!(get(&a.0, "build"), Some(TomlValue::Table(_))));
}

#[test]
fn merge_keeps_keys_of_either() {
    let mut a = parse("[doc]\nbrowser = \"firefox\"\n");
    let b = parse("[build]\njobs = 4\n[doc]\nbrowser = \"chromium\"\n");
    assert_eq!(a.merge(&b), Ok(()));
    match get(&a.0, "doc") {
        Some(TomlValue::Table(t)) => {
            assert!(matches!(get(t, "browser"), Some(TomlValue::String(s)) if s == "firefox"))
        }
        _ => panic!("doc is a table"),
    }
    assert!(matches!(get(&a.0, "build"), Some(TomlValue::Table(_))));
}

#[test]
fn alias_errors() {
    assert_eq!(parse("alias = 3\n").alias("x"), Err(AliasError::NotATable));
    assert_eq!(parse("[alias]\nx = 3\n").alias("x"), Err(AliasError::InvalidType));
    assert_eq!(parse("[alias]\nx = [\"a\", 3]\n").alias("x"), Err(AliasError::InvalidType));
    assert_eq!(parse("[alias]\nx = [\"run\", \"-p\"]\n").alias("x"), Ok(Some(owned(&["run", "-p"]))));
}

#[test]
fn cargo_config_alias_prefers_environment() {
    let env = Environment::new(vec![("CARGO_ALIAS_B_X".to_owned(), "check  all".to_owned())]);
    let config = CargoConfig::new(Some(parse("[alias]\nb-x = \"build x\"\nc = \"clippy\"\n")), env);
    assert_eq!(config.alias("b-x"), Ok(Some(owned(&["check", "all"]))));
    assert_eq!(config.alias("c"), Ok(Some(owned(&["clippy"]))));
    assert_eq!(config.alias("d"), Ok(None));
    let bare = CargoConfig::new(None, Environment::new(vec![]));
    assert_eq!(bare.alias("c"), Ok(None));
}

#[test]
fn cargo_config_directories() {
    assert_eq!(
        cross::cargo_toml::config_dirs("/home/u/p", "/home/u/.cargo"),
        owned(&["/home/u/p/.cargo", "/home/u/.cargo", "/home/.cargo", "/.cargo", "/home/u/.cargo"])
    );
    let near = parse("[alias]\nb = \"build\"\n");
    let far = parse("[alias]\nb = \"check\"\nt = \"test\"\n");
    let merged = cross::cargo_toml::merge_found(Some(near), Some(far)).unwrap().unwrap();
    assert_eq!(merged.alias("b").unwrap(), Some(owned(&["build"])));
    assert_eq!(merged.alias("t").unwrap(), Some(owned(&["test"])));
    assert!(cross::cargo_toml::merge_found(None, None).unwrap().is_none());
}
