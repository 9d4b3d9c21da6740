use cross::cross_toml::{BuildStd, CrossBuildConfig, CrossToml};
use cross::docker::image::PossibleImage;
use cross::cargo_toml::TomlValue;
use cross::shell::MessageInfo;
use cross::{Target, TargetList};

fn owned(x: &str) -> String {
    x.to_owned()
}

fn toml_value(v: &toml::Value) -> TomlValue {
    match v {
        toml::Value::String(s) => TomlValue::String(s.clone()),
        toml::Value::Integer(i) => TomlValue::Integer(*i),
        toml::Value::Float(f) => TomlValue::Float(f.to_bits()),
        toml::Value::Boolean(b) => TomlValue::Boolean(*b),
        toml::Value::Datetime(d) => TomlValue::Datetime(d.to_string()),
        toml::Value::Array(a) => TomlValue::Array(a.iter().map(toml_value).collect()),
        toml::Value::Table(t) => TomlValue::Table(t.iter().map(|(k, v)| (k.clone(), toml_value(v))).collect()),
    }
}

fn parse_cross_str(text: &str) -> CrossToml {
    let table: toml::value::Table = toml::from_str(text).unwrap();
    let list = TargetList { triples: vec![owned("aarch64-unknown-linux-gnu")] };
    CrossToml::parse_from_cross_value(&toml_value(&toml::Value::Table(table)), &list, &mut MessageInfo::default())
        .unwrap()
        .0
}

#[test]
fn merge() {
    let cfg1_str = r#"
            [target.aarch64-unknown-linux-gnu]
            xargo = false
            build-std = true
            image = "test-image1"

            [target.aarch64-unknown-linux-gnu.env]
            volumes = ["VOL1_ARG"]
            passthrough = ["VAR1"]

            [target.target2]
            xargo = false
            build-std = true
            image = "test-image2"

            [target.target2.env]
            volumes = ["VOL2_ARG"]
            passthrough = ["VAR2"]

            [build]
            build-std = true
            xargo = true

            [build.env]
            volumes = []
            passthrough = ["VAR1", "VAR2"]
        "#;

    let cfg2_str = r#"
            [target.target2]
            xargo = false
            build-std = false
            image = "test-image2-precedence"

            [target.target2.env]
            volumes = ["VOL2_ARG_PRECEDENCE"]
            passthrough = ["VAR2_PRECEDENCE"]

            [target.target3]
            xargo = false
            build-std = true
            image = "@sha256:test-image3"

            [target.target3.env]
            volumes = ["VOL3_ARG"]
            passthrough = ["VAR3"]

            [build]
            build-std = ["core", "alloc"]
            xargo = false
            default-target = "aarch64-unknown-linux-gnu"

            [build.env]
            volumes = []
            passthrough = ["VAR3", "VAR4"]

        "#;

    let cfg_expected_str = r#"
            [target.aarch64-unknown-linux-gnu]
            xargo = false
            build-std = true
            image = "test-image1"

            [target.aarch64-unknown-linux-gnu.env]
            volumes = ["VOL1_ARG"]
            passthrough = ["VAR1"]

            [target.target2]
            xargo = false
            build-std = false
            image = "test-image2-precedence"

            [target.target2.env]
            volumes = ["VOL2_ARG_PRECEDENCE"]
            passthrough = ["VAR2_PRECEDENCE"]

            [target.target3]
            xargo = false
            build-std = true
            image = "@sha256:test-image3"

            [target.target3.env]
            volumes = ["VOL3_ARG"]
            passthrough = ["VAR3"]

            [build]
            build-std = ["core", "alloc"]
            xargo = false
            default-target = "aarch64-unknown-linux-gnu"

            [build.env]
            volumes = []
            passthrough = ["VAR3", "VAR4"]
        "#;

    let cfg1 = parse_cross_str(cfg1_str);
    let cfg2 = parse_cross_str(cfg2_str);
    let cfg_expected = parse_cross_str(cfg_expected_str);

    let cfg_merged = cfg1.merge(cfg2).unwrap();
    assert_eq!(cfg_expected, cfg_merged);

    let build = &cfg_expected.build;
    assert_eq!(build.build_std, Some(BuildStd::Crates(vec![owned("core"), owned("alloc")])));
    assert_eq!(build.xargo, Some(false));
    assert_eq!(build.default_target, Some(owned("aarch64-unknown-linux-gnu")));
    assert_eq!(build.pre_build, None);
    assert_eq!(build.dockerfile, None);
    assert_eq!(build.env.passthrough, Some(vec![owned("VAR3"), owned("VAR4")]));
    assert_eq!(build.env.volumes, Some(vec![]));

    let a = cfg_expected.get_target(&Target::new_built_in("aarch64-unknown-linux-gnu")).unwrap();
    assert_eq!(a.build_std, Some(BuildStd::Bool(true)));
    assert_eq!(a.xargo, Some(false));
    assert_eq!(a.image, Some(PossibleImage::from_name("test-image1")));
    assert_eq!(a.pre_build, None);
    assert_eq!(a.dockerfile, None);
    assert_eq!(a.env.passthrough, Some(vec![owned("VAR1")]));
    assert_eq!(a.env.volumes, Some(vec![owned("VOL1_ARG")]));

    let t2 = cfg_expected.get_target(&Target::new_custom("target2")).unwrap();
    assert_eq!(t2.build_std, Some(BuildStd::Bool(false)));
    assert_eq!(t2.xargo, Some(false));
    assert_eq!(t2.image, Some(PossibleImage::from_name("test-image2-precedence")));
    assert_eq!(t2.pre_build, None);
    assert_eq!(t2.dockerfile, None);
    assert_eq!(t2.env.passthrough, Some(vec![owned("VAR2_PRECEDENCE")]));
    assert_eq!(t2.env.volumes, Some(vec![owned("VOL2_ARG_PRECEDENCE")]));

    let t3 = cfg_expected.get_target(&Target::new_custom("target3")).unwrap();
    assert_eq!(t3.build_std, Some(BuildStd::Bool(true)));
    assert_eq!(t3.xargo, Some(false));
    assert_eq!(t3.image, Some(PossibleImage::from_name("@sha256:test-image3")));
    assert_eq!(t3.pre_build, None);
    assert_eq!(t3.dockerfile, None);
    assert_eq!(t3.env.passthrough, Some(vec![owned("VAR3")]));
    assert_eq!(t3.env.volumes, Some(vec![owned("VOL3_ARG")]));
}

#[test]
fn merge_keeps_values_the_second_leaves_out() {
    let a = CrossToml {
        targets: vec![],
        build: CrossBuildConfig { xargo: Some(true), ..CrossBuildConfig::default() },
    };
    let b = CrossToml::default();
    let m = a.merge(b).unwrap();
    assert_eq!(m.build.xargo, Some(true));
}

#[test]
fn build_std_enabled() {
    assert!(BuildStd::Bool(true).enabled());
    assert!(!BuildStd::Crates(vec![]).enabled());
    assert!(BuildStd::Crates(vec![owned("core")]).enabled());
}
