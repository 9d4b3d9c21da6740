use cross::cross_toml::{BuildStd, CrossBuildConfig, CrossEnvConfig, CrossTargetConfig, CrossToml, CrossZigConfig};
use cross::docker::custom::PreBuild;
use cross::docker::{ImagePlatform, ImageReference, PossibleImage};
use cross::shell::MessageInfo;
use cross::toml_config::TomlError;
use cross::{Target, TargetList, TargetTriple};

fn known() -> TargetList {
    TargetList {
        triples: vec!["aarch64-unknown-linux-gnu".to_owned(), "aarch64-unknown-linux-musl".to_owned()],
    }
}

fn parse(text: &str) -> Result<(CrossToml, Vec<String>), TomlError> {
    CrossToml::parse_from_cross_str(text, &known(), &mut MessageInfo::default())
}

fn p(s: &str) -> String {
    s.to_owned()
}

fn empty_env() -> CrossEnvConfig {
    CrossEnvConfig { volumes: None, passthrough: None }
}

fn default_build() -> CrossBuildConfig {
    CrossBuildConfig {
        env: empty_env(),
        xargo: None,
        build_std: None,
        zig: None,
        default_target: None,
        pre_build: None,
        dockerfile: None,
    }
}

#[test]
fn parse_empty_toml() {
    let cfg = CrossToml { targets: vec![], build: default_build() };
    let (parsed_cfg, unused) = parse("").unwrap();
    assert_eq!(parsed_cfg, cfg);
    assert!(unused.is_empty());
}

#[test]
fn parse_build_toml() {
    let cfg = CrossToml {
        targets: vec![],
        build: CrossBuildConfig {
            env: CrossEnvConfig {
                volumes: Some(vec![p("VOL1_ARG"), p("VOL2_ARG")]),
                passthrough: Some(vec![p("VAR1"), p("VAR2")]),
            },
            xargo: Some(true),
            build_std: None,
            zig: None,
            default_target: None,
            pre_build: Some(PreBuild::Lines(vec![p("echo 'Hello World!'")])),
            dockerfile: None,
        },
    };
    let test_str = r#"
          [build]
          xargo = true
          pre-build = ["echo 'Hello World!'"]

          [build.env]
          volumes = ["VOL1_ARG", "VOL2_ARG"]
          passthrough = ["VAR1", "VAR2"]
        "#;
    let (parsed_cfg, unused) = parse(test_str).unwrap();
    assert_eq!(parsed_cfg, cfg);
    assert!(unused.is_empty());
}

#[test]
fn parse_target_toml() {
    let targets = vec![
        (
            Target::new_built_in("aarch64-unknown-linux-gnu"),
            CrossTargetConfig {
                env: CrossEnvConfig {
                    passthrough: Some(vec![p("VAR1"), p("VAR2")]),
                    volumes: Some(vec![p("VOL1_ARG"), p("VOL2_ARG")]),
                },
                xargo: Some(false),
                build_std: Some(BuildStd::Bool(true)),
                zig: None,
                image: Some(PossibleImage::from_name("test-image")),
                runner: None,
                dockerfile: None,
                pre_build: Some(PreBuild::Lines(vec![])),
            },
        ),
        (
            Target::new_built_in("aarch64-unknown-linux-musl"),
            CrossTargetConfig {
                env: empty_env(),
                xargo: None,
                build_std: None,
                zig: Some(CrossZigConfig {
                    enable: Some(true),
                    version: Some(p("2.17")),
                    image: Some(PossibleImage::from_name("zig:local")),
                }),
                image: None,
                runner: None,
                dockerfile: None,
                pre_build: None,
            },
        ),
    ];
    let cfg = CrossToml { targets, build: default_build() };
    let test_str = r#"
            [target.aarch64-unknown-linux-gnu.env]
            volumes = ["VOL1_ARG", "VOL2_ARG"]
            passthrough = ["VAR1", "VAR2"]
            [target.aarch64-unknown-linux-gnu]
            xargo = false
            build-std = true
            image = "test-image"
            pre-build = []

            [target.aarch64-unknown-linux-musl.zig]
            enable = true
            version = "2.17"
            image = "zig:local"
        "#;
    let (parsed_cfg, unused) = parse(test_str).unwrap();
    assert_eq!(parsed_cfg, cfg);
    assert!(unused.is_empty());
}

#[test]
fn parse_mixed_toml() {
    let targets = vec![(
        Target::new_built_in("aarch64-unknown-linux-gnu"),
        CrossTargetConfig {
            xargo: Some(false),
            build_std: None,
            zig: None,
            image: Some(PossibleImage {
                reference: ImageReference::Name("test-image".to_owned()),
                toolchain: vec![ImagePlatform::from_target(TargetTriple::from("aarch64-unknown-linux-musl")).unwrap()],
            }),
            dockerfile: Some(cross::cross_toml::CrossTargetDockerfileConfig {
                file: p("Dockerfile.test"),
                context: None,
                build_args: None,
            }),
            pre_build: Some(PreBuild::Lines(vec![p("echo 'Hello'")])),
            runner: None,
            env: CrossEnvConfig { passthrough: None, volumes: Some(vec![p("VOL")]) },
        },
    )];
    let cfg = CrossToml {
        targets,
        build: CrossBuildConfig {
            env: CrossEnvConfig { volumes: None, passthrough: Some(vec![]) },
            xargo: Some(true),
            build_std: None,
            zig: Some(CrossZigConfig {
                enable: None,
                version: None,
                image: Some(PossibleImage {
                    reference: ImageReference::Name("zig:local".to_owned()),
                    toolchain: vec![ImagePlatform::from_target(TargetTriple::from("aarch64-unknown-linux-gnu")).unwrap()],
                }),
            }),
            default_target: None,
            pre_build: Some(PreBuild::Lines(vec![])),
            dockerfile: None,
        },
    };
    let test_str = r#"
            [build]
            xargo = true
            pre-build = []

            [build.zig.image]
            name = "zig:local"
            toolchain = ["aarch64-unknown-linux-gnu"]

            [build.env]
            passthrough = []

            [target.aarch64-unknown-linux-gnu]
            xargo = false
            dockerfile = "Dockerfile.test"
            pre-build = ["echo 'Hello'"]
            image.name = "test-image"
            image.toolchain = ["aarch64-unknown-linux-musl"]

            [target.aarch64-unknown-linux-gnu.env]
            volumes = ["VOL"]
        "#;
    let (parsed_cfg, unused) = parse(test_str).unwrap();
    assert_eq!(parsed_cfg, cfg);
    assert!(unused.is_empty());
}

#[test]
fn parse_from_empty_cargo_toml() {
    let test_str = r#"
          [package]
          name = "cargo_toml_test_package"
          version = "0.1.0"

          [dependencies]
          cross = "1.2.3"
        "#;
    let res = CrossToml::parse_from_cargo_package_str(test_str, &known(), &mut MessageInfo::default()).unwrap();
    assert!(res.is_none());
}

#[test]
fn parse_from_cargo_toml() {
    let cfg = CrossToml {
        targets: vec![],
        build: CrossBuildConfig {
            env: CrossEnvConfig { passthrough: None, volumes: None },
            build_std: None,
            xargo: Some(true),
            zig: None,
            default_target: None,
            pre_build: None,
            dockerfile: None,
        },
    };
    let test_str = r#"
          [package]
          name = "cargo_toml_test_package"
          version = "0.1.0"

          [dependencies]
          cross = "1.2.3"

          [package.metadata.cross.build]
          xargo = true
        "#;
    match CrossToml::parse_from_cargo_package_str(test_str, &known(), &mut MessageInfo::default()).unwrap() {
        Some((parsed_cfg, _unused)) => assert_eq!(parsed_cfg, cfg),
        None => panic!("Parsing result is None"),
    }
}

#[test]
fn pre_build_script() {
    let toml_str = r#"
            [target.aarch64-unknown-linux-gnu]
            pre-build = "./my-script.sh"

            [build]
            pre-build = ["echo Hello World"]
        "#;
    let (toml, unused) = parse(toml_str).unwrap();
    assert!(unused.is_empty());
    let pre = toml.pre_build(&Target::new_built_in("aarch64-unknown-linux-gnu"));
    assert!(matches!(pre.build, Some(PreBuild::Lines(_))));
    assert!(matches!(pre.target, Some(PreBuild::Single { .. })));
}

#[test]
fn unused_keys_are_reported() {
    let text = r#"
            unknown = 1
            [build]
            xargo = true
            bogus = "x"
            [build.env]
            volumes = []
            other = 2
            [target.foo-bar-baz]
            runner = "qemu-user"
            typo = true
            [target.foo-bar-baz.zig.image]
            name = "zig:local"
            extra = 1
        "#;
    let mut msg = MessageInfo::default();
    let (cfg, unused) = CrossToml::parse_from_cross_str(text, &known(), &mut msg).unwrap();
    assert!(msg.has_warned);
    assert_eq!(
        unused,
        vec![
            p("unknown"),
            p("target.foo-bar-baz.typo"),
            p("target.foo-bar-baz.zig.image.extra"),
            p("build.bogus"),
            p("build.env.other"),
        ]
    );
    assert_eq!(cfg.targets.len(), 1);
    assert!(!cfg.targets[0].0.is_builtin());
    assert_eq!(cfg.targets[0].1.runner, Some(p("qemu-user")));
}

#[test]
fn invalid_settings_are_errors() {
    assert_eq!(parse("[build]\nxargo = 1\n").unwrap_err(), TomlError::InvalidType(p("xargo")));
    assert_eq!(parse("[build]\ndockerfile.context = \"..\"\n").unwrap_err(), TomlError::Missing(p("file")));
    assert_eq!(parse("[target.x.image]\ntoolchain = []\n").unwrap_err(), TomlError::Missing(p("name")));
    assert_eq!(
        parse("[target.x]\nimage.name = \"a\"\nimage.toolchain = [\"not-a-platform\"]\n").unwrap_err(),
        TomlError::InvalidType(p("toolchain"))
    );
    assert_eq!(parse("target = 3\n").unwrap_err(), TomlError::InvalidType(p("target")));
    let ok = parse("[build]\nzig = \"2.17\"\nbuild-std = [\"core\"]\ndockerfile = { file = \"D\", build-args = { A = \"1\" } }\n")
        .unwrap()
        .0;
    assert_eq!(ok.build.zig, Some(CrossZigConfig { enable: Some(true), version: Some(p("2.17")), image: None }));
    assert_eq!(ok.build.build_std, Some(BuildStd::Crates(vec![p("core")])));
    assert_eq!(ok.build.dockerfile.unwrap().build_args, Some(vec![(p("A"), p("1"))]));
}

#[test]
fn short_forms_read_as_their_tables() {
    let short = parse(
        r#"
        [build]
        zig = "2.17"
        dockerfile = "./Dockerfile"

        [target.aarch64-unknown-linux-gnu]
        image = "my/image:tag"
        "#,
    )
    .unwrap()
    .0;
    let long = parse(
        r#"
        [build]
        zig = { enable = true, version = "2.17" }
        dockerfile = { file = "./Dockerfile" }

        [target.aarch64-unknown-linux-gnu]
        image = { name = "my/image:tag" }
        "#,
    )
    .unwrap()
    .0;
    assert_eq!(short, long);
    assert_eq!(
        short.build.zig,
        Some(CrossZigConfig { enable: Some(true), version: Some(p("2.17")), image: None })
    );
}

#[test]
fn text_that_is_no_toml_is_an_error() {
    assert_eq!(parse("[build\nxargo = true\n").unwrap_err(), TomlError::Syntax);
    let res = CrossToml::parse_from_cargo_package_str("[package", &known(), &mut MessageInfo::default());
    assert_eq!(res.unwrap_err(), TomlError::Syntax);
}

#[test]
fn cargo_package_metadata_with_unused_key_warns() {
    let text = "[package.metadata.cross.build]\nxargo = true\nunknown = 1\n";
    let mut msg = MessageInfo::default();
    let (cfg, unused) = CrossToml::parse_from_cargo_package_str(text, &known(), &mut msg).unwrap().unwrap();
    assert_eq!(cfg.build.xargo, Some(true));
    assert_eq!(unused, vec![p("build.unknown")]);
    assert!(msg.has_warned);
}

#[test]
fn manifest_version_string() {
    let manifest = "manifest-version = \"2\"\n[pkg.rust]\nversion = \"1.80.0 (051478957 2024-07-21)\"\n";
    assert_eq!(
        cross::toml_config::rustc_version_string_of(manifest),
        Some(Some(p("1.80.0 (051478957 2024-07-21)")))
    );
    assert_eq!(cross::toml_config::rustc_version_string_of("[pkg.cargo]\nversion = \"1\"\n"), Some(None));
    assert_eq!(cross::toml_config::rustc_version_string_of("[pkg.rust]\nversion = 3\n"), Some(None));
    assert_eq!(cross::toml_config::rustc_version_string_of("[pkg"), None);
}
