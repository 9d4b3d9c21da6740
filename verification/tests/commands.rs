use cross::cargo_toml::TomlValue;
use cross::commands::image_table::{column_widths, group_images};
use cross::commands::images::LocalImage;
use cross::commands::install::install_command;
use cross::commands::list_targets::{list_targets, FormatVersion, FormatVersionError, TargetEntry};
use cross::cross_toml::CrossToml;
use cross::shell::MessageInfo;
use cross::TargetList;

fn own(x: &str) -> String {
    x.to_owned()
}

fn owned(v: &[&str]) -> Vec<String> {
    v.iter().map(|s| own(s)).collect()
}

fn toml_value(v: &toml::Value) -> TomlValue {
    match v {
        toml::Value::String(s) => TomlValue::String(s.clone()),
        toml::Value::Integer(i) => TomlValue::Integer(*i),
        toml::Value::Float(f) => TomlValue::Float(f.to_bits()),
        toml::Value::Boolean(b) => TomlValue::Boolean(*b),
        toml::Value::Datetime(d) => TomlValue::Datetime(d.to_string()),
        toml::Value::Array(a) => TomlValue::Array(a.iter().map(toml_value).collect()),
        toml::Value::Table(t) => TomlValue::Table(t.iter().map(|(k, v)| (k.clone(), toml_value(v))).collect()),
    }
}

fn cross_toml(text: &str) -> CrossToml {
    let table: toml::value::Table = toml::from_str(text).unwrap();
    let list = TargetList { triples: owned(&["aarch64-unknown-linux-gnu", "x86_64-unknown-linux-gnu"]) };
    CrossToml::parse_from_cross_value(&toml_value(&toml::Value::Table(table)), &list, &mut MessageInfo::default())
        .unwrap()
        .0
}

fn image(repository: &str, tag: &str, id: &str) -> LocalImage {
    LocalImage { repository: own(repository), tag: own(tag), id: own(id) }
}

#[test]
fn format_versions() {
    assert_eq!(FormatVersion::parse("1"), Ok(FormatVersion::One));
    assert_eq!(FormatVersion::parse("2"), Err(FormatVersionError));
}

#[test]
fn provided_and_configured_targets() {
    let provided = list_targets(None);
    assert!(provided.iter().all(|t| t.triplet != "zig"));
    assert_eq!(
        provided[0],
        TargetEntry { triplet: own("x86_64-unknown-linux-gnu"), platforms: owned(&["linux/amd64=x86_64-unknown-linux-gnu"]) }
    );
    let toml = cross_toml(
        r#"
        [target.aarch64-unknown-linux-gnu]
        image = "my/image"

        [target.my-custom-target]
        image = { name = "my/custom", toolchain = ["linux/arm64=aarch64-unknown-linux-gnu"] }
        "#,
    );
    let all = list_targets(Some(&toml));
    assert_eq!(all.len(), provided.len() + 1);
    assert_eq!(&all[..provided.len()], &provided[..]);
    assert_eq!(
        all[provided.len()],
        TargetEntry { triplet: own("my-custom-target"), platforms: owned(&["linux/arm64=aarch64-unknown-linux-gnu"]) }
    );
}

#[test]
fn images_grouped_by_target() {
    let images = vec![
        (own("x86_64-unknown-linux-gnu"), image("ghcr.io/cross-rs/x86_64-unknown-linux-gnu", "main", "1")),
        (own("aarch64-unknown-linux-gnu"), image("ghcr.io/cross-rs/aarch64-unknown-linux-gnu", "main", "2")),
        (own("x86_64-unknown-linux-gnu"), image("ghcr.io/cross-rs/x86_64-unknown-linux-gnu", "0.2.5", "3")),
    ];
    let groups = group_images(&images, &vec![]);
    assert_eq!(groups.len(), 2);
    assert_eq!(groups[0].0, "aarch64-unknown-linux-gnu");
    assert_eq!(groups[1].0, "x86_64-unknown-linux-gnu");
    assert_eq!(groups[1].1.iter().map(|i| i.id.as_str()).collect::<Vec<_>>(), vec!["1", "3"]);
    assert_eq!(column_widths(&groups), (25, 47));

    let only = group_images(&images, &owned(&["aarch64-unknown-linux-gnu"]));
    assert_eq!(only.len(), 1);
    assert_eq!(only[0].1, vec![image("ghcr.io/cross-rs/aarch64-unknown-linux-gnu", "main", "2")]);
}

#[test]
fn install_commands() {
    assert_eq!(install_command("ripgrep", None, "/opt"), owned(&["install", "ripgrep", "--root=/opt"]));
    assert_eq!(
        install_command("ripgrep", Some("aarch64-unknown-linux-gnu"), "/opt"),
        owned(&["install", "ripgrep", "--target=aarch64-unknown-linux-gnu", "--root=/opt"])
    );
}

fn empty_config() -> CrossToml {
    cross_toml("")
}

#[test]
fn merging_with_nothing_keeps_a_configuration() {
    let text = r#"
        [build]
        xargo = true
        pre-build = ["apt-get update"]

        [target.aarch64-unknown-linux-gnu]
        image = "my/image"
        runner = "qemu-user"
        "#;
    let a = cross_toml(text);
    assert_eq!(a.clone().merge(empty_config()), Ok(cross_toml(text)));
    assert_eq!(empty_config().merge(a), Ok(cross_toml(text)));
}

#[test]
fn configurations_combine_in_order() {
    let file = cross_toml("[build]\nxargo = true\n");
    let workspace = cross_toml("[build]\nxargo = false\nzig = true\n");
    let member = cross_toml("[build]\ndefault-target = \"aarch64-unknown-linux-gnu\"\n");
    let (config, conflicts) = cross::cross_toml::combine_configs(
        Some(file.clone()),
        Some(workspace.clone()),
        vec![(own("a/Cargo.toml"), member.clone())],
    );
    let config = config.unwrap();
    assert_eq!(config.build.xargo, Some(true));
    assert_eq!(config.build.zig, workspace.build.zig);
    assert_eq!(config.build.default_target, None);
    assert_eq!(conflicts, owned(&["a/Cargo.toml"]));

    let (config, conflicts) = cross::cross_toml::combine_configs(
        Some(file),
        None,
        vec![(own("a/Cargo.toml"), member.clone()), (own("b/Cargo.toml"), member)],
    );
    let config = config.unwrap();
    assert_eq!(config.build.xargo, Some(true));
    assert_eq!(config.build.default_target, Some(own("aarch64-unknown-linux-gnu")));
    assert_eq!(conflicts, owned(&["b/Cargo.toml"]));

    let (none, conflicts) = cross::cross_toml::combine_configs(None, None, vec![]);
    assert!(none.is_none());
    assert!(conflicts.is_empty());
}
