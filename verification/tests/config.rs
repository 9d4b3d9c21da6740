use cross::config::{bool_from_envvar, try_bool_from_envvar, Config, Environment};
use cross::cross_toml::{BuildStd, CrossBuildConfig, CrossEnvConfig, CrossTargetConfig, CrossTargetDockerfileConfig, CrossToml};
use cross::docker::custom::PreBuild;
use cross::{Target, TargetList};

fn s(x: &str) -> String {
    x.to_owned()
}

fn known_targets() -> TargetList {
    TargetList {
        triples: vec![s("aarch64-unknown-linux-gnu"), s("armv7-unknown-linux-musleabihf")],
    }
}

fn target() -> Target {
    Target::from("aarch64-unknown-linux-gnu", &known_targets())
}

fn target2() -> Target {
    Target::from("armv7-unknown-linux-musleabihf", &known_targets())
}

fn env(vars: &[(&str, &str)]) -> Environment {
    Environment::new(vars.iter().map(|(k, v)| (s(k), s(v))).collect())
}

fn empty_target_cfg() -> CrossTargetConfig {
    CrossTargetConfig {
        xargo: None,
        build_std: None,
        zig: None,
        image: None,
        dockerfile: None,
        pre_build: None,
        runner: None,
        env: CrossEnvConfig::default(),
    }
}

#[test]
fn bool_values() {
    assert_eq!(try_bool_from_envvar("true"), Some(true));
    assert_eq!(try_bool_from_envvar("0"), Some(false));
    assert_eq!(try_bool_from_envvar("tru"), None);
    assert!(bool_from_envvar("tru"));
    assert!(!bool_from_envvar(""));
    assert!(bool_from_envvar("-3"));
}

#[test]
fn target_build_var_name() {
    let e = env(&[]);
    assert_eq!(e.build_var_name("build_xargo"), "CROSS_BUILD_XARGO");
    assert_eq!(e.build_var_name("target_aarch64-unknown-linux-gnu_XARGO"), "CROSS_TARGET_AARCH64_UNKNOWN_LINUX_GNU_XARGO");
    assert_eq!(e.build_var_name("target-aarch64-unknown-linux-gnu_image"), "CROSS_TARGET_AARCH64_UNKNOWN_LINUX_GNU_IMAGE");
}

#[test]
fn parse_error_in_env() {
    let e = env(&[("CROSS_BUILD_XARGO", "tru"), ("CROSS_BUILD_STD", "false"), ("CROSS_BUILD_ZIG_IMAGE", "zig:local")]);
    let x = e.xargo(&target());
    assert_eq!((x.build, x.target), (Some(true), None));
    let b = e.build_std(&target());
    assert_eq!((b.build, b.target), (Some(BuildStd::Bool(false)), None));
    let z = e.zig(&target());
    assert_eq!((z.build, z.target), (None, None));
    let zi = e.zig_image(&target()).unwrap();
    assert_eq!(zi.build.unwrap().reference.get(), "zig:local");
    assert!(zi.target.is_none());
}

#[test]
fn env_and_toml_build_xargo_then_use_env() {
    let e = env(&[("CROSS_BUILD_XARGO", "true"), ("CROSS_BUILD_PRE_BUILD", "apt-get update\napt-get install zlib-dev")]);
    let toml = CrossToml {
        targets: vec![],
        build: CrossBuildConfig { xargo: Some(false), ..CrossBuildConfig::default() },
    };
    let config = Config::new(Some(toml), e);
    assert_eq!(config.xargo(&target()), Some(true));
    assert_eq!(config.build_std(&target()), None);
    assert_eq!(
        config.pre_build(&target()),
        Some(PreBuild::Lines(vec![s("apt-get update"), s("apt-get install zlib-dev")]))
    );
}

#[test]
fn env_target_and_toml_target_xargo_target_then_use_env() {
    let e = env(&[
        ("CROSS_TARGET_AARCH64_UNKNOWN_LINUX_GNU_XARGO", "true"),
        ("CROSS_TARGET_AARCH64_UNKNOWN_LINUX_GNU_BUILD_STD", "core"),
    ]);
    let toml = CrossToml {
        targets: vec![(target(), CrossTargetConfig { xargo: Some(false), ..empty_target_cfg() })],
        build: CrossBuildConfig::default(),
    };
    let config = Config::new(Some(toml), e);
    assert_eq!(config.xargo(&target()), Some(true));
    assert_eq!(config.build_std(&target()), Some(BuildStd::Crates(vec![s("core")])));
    assert_eq!(config.pre_build(&target()), None);
}

#[test]
fn env_target_and_toml_build_pre_build_then_use_env() {
    let e = env(&[("CROSS_TARGET_AARCH64_UNKNOWN_LINUX_GNU_PRE_BUILD", "dpkg --add-architecture arm64")]);
    let toml = CrossToml {
        targets: vec![],
        build: CrossBuildConfig {
            pre_build: Some(PreBuild::Lines(vec![s("apt-get update && apt-get install zlib-dev")])),
            ..CrossBuildConfig::default()
        },
    };
    let config = Config::new(Some(toml), e);
    assert_eq!(
        config.pre_build(&target()),
        Some(PreBuild::Single { line: s("dpkg --add-architecture arm64"), env: true })
    );
}

fn dockerfile_toml() -> CrossToml {
    CrossToml {
        targets: vec![(
            target(),
            CrossTargetConfig { dockerfile: Some(CrossTargetDockerfileConfig::from_file("Dockerfile2")), ..empty_target_cfg() },
        )],
        build: CrossBuildConfig {
            dockerfile: Some(CrossTargetDockerfileConfig::from_file("Dockerfile1")),
            ..CrossBuildConfig::default()
        },
    }
}

#[test]
fn env_target_then_toml_target_then_env_build_then_toml_build() {
    let e = env(&[
        ("CROSS_BUILD_DOCKERFILE", "Dockerfile3"),
        ("CROSS_TARGET_AARCH64_UNKNOWN_LINUX_GNU_DOCKERFILE", "Dockerfile4"),
    ]);
    let config = Config::new(Some(dockerfile_toml()), e);
    assert_eq!(config.dockerfile(&target()), Some(s("Dockerfile4")));
    assert_eq!(config.dockerfile(&target2()), Some(s("Dockerfile3")));

    let config = Config::new(Some(dockerfile_toml()), env(&[]));
    assert_eq!(config.dockerfile(&target()), Some(s("Dockerfile2")));
    assert_eq!(config.dockerfile(&target2()), Some(s("Dockerfile1")));
}

fn arrays_toml(build: bool, target_too: bool) -> CrossToml {
    let mut targets = vec![];
    if target_too {
        targets.push((
            target(),
            CrossTargetConfig {
                env: CrossEnvConfig {
                    passthrough: Some(vec![s("VAR3"), s("VAR4")]),
                    volumes: Some(vec![s("VOLUME3"), s("VOLUME4")]),
                },
                ..empty_target_cfg()
            },
        ));
    }
    let build_env = if build {
        CrossEnvConfig {
            passthrough: Some(vec![s("VAR1"), s("VAR2")]),
            volumes: Some(vec![s("VOLUME1"), s("VOLUME2")]),
        }
    } else {
        CrossEnvConfig::default()
    };
    CrossToml { targets, build: CrossBuildConfig { env: build_env, ..CrossBuildConfig::default() } }
}

#[test]
fn toml_build_passthrough_then_use_target_passthrough_both() {
    let config = Config::new(Some(arrays_toml(true, true)), env(&[]));
    assert_eq!(config.env_passthrough(&target()), Some(vec![s("VAR1"), s("VAR2"), s("VAR3"), s("VAR4")]));
    assert_eq!(config.env_volumes(&target()), Some(vec![s("VOLUME3"), s("VOLUME4")]));
}

#[test]
fn toml_build_passthrough() {
    let config = Config::new(Some(arrays_toml(true, false)), env(&[]));
    assert_eq!(config.env_passthrough(&target()), Some(vec![s("VAR1"), s("VAR2")]));
    assert_eq!(config.env_volumes(&target()), Some(vec![s("VOLUME1"), s("VOLUME2")]));
}

#[test]
fn toml_target_passthrough() {
    let config = Config::new(Some(arrays_toml(false, true)), env(&[]));
    assert_eq!(config.env_passthrough(&target()), Some(vec![s("VAR3"), s("VAR4")]));
    assert_eq!(config.env_volumes(&target()), Some(vec![s("VOLUME3"), s("VOLUME4")]));
}

#[test]
fn collect_passthrough_from_env() {
    let e = env(&[
        ("CROSS_BUILD_ENV_PASSTHROUGH", "TEST1 TEST2"),
        ("CROSS_TARGET_AARCH64_UNKNOWN_LINUX_GNU_ENV_PASSTHROUGH", "PASS1 PASS2"),
    ]);
    let config = Config::new(Some(arrays_toml(true, true)), e);
    assert_eq!(config.env_passthrough(&target()), Some(vec![s("TEST1"), s("TEST2"), s("PASS1"), s("PASS2")]));
}

#[test]
fn no_env_and_no_toml_default_target_then_none() {
    let config = Config::new(None, env(&[]));
    assert!(config.target(&known_targets()).is_none());
}

#[test]
fn env_and_toml_default_target_then_use_env() {
    let e = env(&[("CROSS_BUILD_TARGET", "armv7-unknown-linux-musleabihf")]);
    let toml = CrossToml {
        targets: vec![],
        build: CrossBuildConfig { default_target: Some(s("aarch64-unknown-linux-gnu")), ..CrossBuildConfig::default() },
    };
    let config = Config::new(Some(toml), e);
    assert_eq!(config.target(&known_targets()).unwrap().triple(), "armv7-unknown-linux-musleabihf");
}

#[test]
fn no_env_but_toml_default_target_then_use_toml() {
    let toml = CrossToml {
        targets: vec![],
        build: CrossBuildConfig { default_target: Some(s("aarch64-unknown-linux-gnu")), ..CrossBuildConfig::default() },
    };
    let config = Config::new(Some(toml), env(&[]));
    assert_eq!(config.target(&known_targets()).unwrap().triple(), "aarch64-unknown-linux-gnu");
}

#[test]
fn confusable_target_is_reported() {
    let toml = CrossToml {
        targets: vec![(Target::new_custom("aarch64_unknown_linux_GNU"), empty_target_cfg())],
        build: CrossBuildConfig::default(),
    };
    let config = Config::new(Some(toml), env(&[]));
    let mut msg = cross::shell::MessageInfo::default();
    assert_eq!(config.confusable_target(&target(), &mut msg), vec![s("aarch64_unknown_linux_GNU")]);
    assert!(msg.has_warned);
}
