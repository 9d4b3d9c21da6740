use cross::rustc::{rustc_version_of, Channel, RustcVersionError};
use cross::docker::image_build::{dockerfile_plan, needs_custom_image};
use cross::commands::containers::{toolchain_or_target, ToolchainOrTargetError};
use cross::cli::Args;
use cross::config::{Config, Environment};
use cross::docker::shared::{get_image, get_image_name, GetImageError};
use cross::docker::{Architecture, Engine, EngineType, ImagePlatform, ImageReference, Os};
use cross::rustc::QualifiedToolchain;
use cross::{
    after_container, plan_run, setup, setup_image, version_match, CrossSetup, Order, SetupError, Subcommand, Target,
    TargetList, TargetTriple, VersionMatch,
};
use cross::shell::MessageInfo;

fn own(x: &str) -> String {
    x.to_owned()
}

fn triples() -> TargetList {
    TargetList { triples: vec![own("aarch64-unknown-linux-gnu"), own("x86_64-unknown-linux-gnu")] }
}

fn vars(v: &[(&str, &str)]) -> Environment {
    Environment::new(v.iter().map(|(k, x)| (own(k), own(x))).collect())
}

fn args(target: Option<&str>, channel: Option<&str>) -> Args {
    Args {
        cargo_args: vec![],
        rest_args: vec![],
        features: vec![],
        subcommand: Some(Subcommand::Build),
        channel: channel.map(own),
        target: target.map(|t| Target::from(t, &triples())),
        target_dir: None,
        manifest_path: None,
        color: None,
        verbose: 0,
        quiet: false,
    }
}

fn engine() -> Engine {
    Engine {
        kind: EngineType::Docker,
        path: own("/usr/bin/docker"),
        in_docker: false,
        arch: Some(Architecture::Amd64),
        os: Some(Os::Linux),
        is_remote: false,
    }
}

fn default_toolchain() -> QualifiedToolchain {
    let host = ImagePlatform::from_const_target(TargetTriple::X86_64UnknownLinuxGnu);
    QualifiedToolchain::new("stable", &None, &host, "/home/user/.rustup/toolchains/stable-x86_64-unknown-linux-gnu", false)
}

fn run_setup(env: Environment, a: &Args) -> Result<CrossSetup, SetupError> {
    let mut msg = MessageInfo::default();
    setup(
        &TargetTriple::X86_64UnknownLinuxGnu,
        Config::new(None, env),
        a,
        &triples(),
        default_toolchain(),
        false,
        engine(),
        &mut msg,
    )
}

#[test]
fn setup_uses_provided_image_for_target() {
    let s = run_setup(vars(&[]), &args(Some("aarch64-unknown-linux-gnu"), None)).unwrap();
    assert_eq!(s.target.triple(), "aarch64-unknown-linux-gnu");
    assert_eq!(s.image.name, "ghcr.io/cross-rs/aarch64-unknown-linux-gnu:0.2.5");
    assert_eq!(s.image.platform.target, TargetTriple::X86_64UnknownLinuxGnu);
    assert!(!s.uses_xargo);
    assert!(!s.uses_zig);
    assert_eq!(s.toolchain.channel, "stable");
}

#[test]
fn setup_builds_for_host_without_target() {
    let s = run_setup(vars(&[]), &args(None, None)).unwrap();
    assert_eq!(s.target.triple(), "x86_64-unknown-linux-gnu");
    assert_eq!(s.image.name, "ghcr.io/cross-rs/x86_64-unknown-linux-gnu:0.2.5");
}

#[test]
fn setup_takes_target_from_environment() {
    let s = run_setup(vars(&[("CROSS_BUILD_TARGET", "aarch64-unknown-linux-gnu")]), &args(None, None)).unwrap();
    assert_eq!(s.target.triple(), "aarch64-unknown-linux-gnu");
}

#[test]
fn setup_without_image_fails() {
    match run_setup(vars(&[]), &args(Some("foo-bar-baz"), None)) {
        Err(SetupError::NoImage(GetImageError::NoCompatibleImages(n))) => assert_eq!(n, "foo-bar-baz"),
        other => panic!("unexpected {other:?}"),
    }
}

#[test]
fn setup_with_dockerfile_starts_from_scratch() {
    let s = run_setup(vars(&[("CROSS_TARGET_FOO_BAR_BAZ_DOCKERFILE", "./Dockerfile")]), &args(Some("foo-bar-baz"), None))
        .unwrap();
    assert_eq!(s.image.name, "scratch");
    assert!(s.uses_xargo);
}

#[test]
fn setup_rejects_host_in_channel() {
    match run_setup(vars(&[]), &args(Some("aarch64-unknown-linux-gnu"), Some("nightly-x86_64-unknown-linux-gnu"))) {
        Err(SetupError::PickedHost(without, host)) => {
            assert_eq!(without, "nightly");
            assert_eq!(host, "x86_64-unknown-linux-gnu");
        }
        other => panic!("unexpected {other:?}"),
    }
}

#[test]
fn setup_picks_channel() {
    let s = run_setup(vars(&[]), &args(Some("aarch64-unknown-linux-gnu"), Some("nightly-2022-04-04"))).unwrap();
    assert_eq!(s.toolchain.channel, "nightly");
    assert_eq!(s.toolchain.date.as_deref(), Some("2022-04-04"));
    let plan = plan_run(&s, Some(Subcommand::Build), None);
    assert!(plan.is_nightly);
    assert!(!plan.compare_host_version);
    assert!(plan.in_container);
    assert!(!plan.arch_mismatch);
}

#[test]
fn setup_zig_uses_zig_image() {
    let s = run_setup(vars(&[("CROSS_TARGET_AARCH64_UNKNOWN_LINUX_GNU_ZIG", "true")]), &args(Some("aarch64-unknown-linux-gnu"), None))
        .unwrap();
    assert!(s.uses_zig);
    assert_eq!(s.image.name, "ghcr.io/cross-rs/zig:0.2.5");
}

#[test]
fn configured_images_are_qualified() {
    let target = Target::from("aarch64-unknown-linux-gnu", &triples());
    let tagged = Config::new(None, vars(&[("CROSS_TARGET_AARCH64_UNKNOWN_LINUX_GNU_IMAGE", ":edge")]));
    assert_eq!(get_image_name(&tagged, &target, false).unwrap(), "ghcr.io/cross-rs/aarch64-unknown-linux-gnu:edge");
    let sub = Config::new(None, vars(&[("CROSS_TARGET_AARCH64_UNKNOWN_LINUX_GNU_IMAGE", "-centos")]));
    assert_eq!(get_image_name(&sub, &target, false).unwrap(), "ghcr.io/cross-rs/aarch64-unknown-linux-gnu:0.2.5-centos");
    let named = Config::new(None, vars(&[("CROSS_TARGET_AARCH64_UNKNOWN_LINUX_GNU_IMAGE", "my/image:1")]));
    let image = get_image(&named, &target, false).unwrap();
    assert!(matches!(image.reference, ImageReference::Name(ref n) if n == "my/image:1"));
}

#[test]
fn provided_image_prefers_main_target() {
    let target = Target::from("x86_64-unknown-linux-gnu", &triples());
    let config = Config::new(None, vars(&[]));
    let image = get_image(&config, &target, false).unwrap();
    assert!(matches!(image.reference, ImageReference::Name(ref n) if n == "ghcr.io/cross-rs/x86_64-unknown-linux-gnu:0.2.5"));
    assert_eq!(image.toolchain.len(), 1);
    assert_eq!(get_image_name(&config, &target, true).unwrap(), "ghcr.io/cross-rs/zig:0.2.5");
    assert!(matches!(setup_image(&config, &Target::from("a-b-c", &triples()), false),
        Err(GetImageError::NoCompatibleImages(_))));
}

#[test]
fn version_matches() {
    assert_eq!(version_match(true, Order::Less, Order::Less), VersionMatch::Same);
    assert_eq!(version_match(false, Order::Less, Order::Greater), VersionMatch::OlderTarget);
    assert_eq!(version_match(false, Order::Equal, Order::Less), VersionMatch::OlderTarget);
    assert_eq!(version_match(false, Order::Greater, Order::Less), VersionMatch::NewerTarget);
    assert_eq!(version_match(false, Order::Equal, Order::Greater), VersionMatch::NewerTarget);
    assert_eq!(version_match(false, Order::Equal, Order::Equal), VersionMatch::Different);
}

#[test]
fn after_container_status() {
    assert_eq!(after_container(false, Some(Subcommand::Build), false), (true, true));
    assert_eq!(after_container(true, Some(Subcommand::Build), false), (false, true));
    assert_eq!(after_container(true, Some(Subcommand::Clean), true), (false, false));
}

#[test]
fn toolchain_for_target_or_name() {
    let on_target = toolchain_or_target("aarch64-unknown-linux-gnu", default_toolchain(), &triples()).unwrap();
    assert_eq!(on_target.host.target, TargetTriple::Aarch64UnknownLinuxGnu);
    assert_eq!(on_target.full, "stable-aarch64-unknown-linux-gnu");
    let named = toolchain_or_target("nightly", default_toolchain(), &triples()).unwrap();
    assert_eq!(named.channel, "nightly");
    assert_eq!(named.host.target, TargetTriple::X86_64UnknownLinuxGnu);
    assert_eq!(toolchain_or_target("nightly-2022-04", default_toolchain(), &triples()).unwrap_err(),
        ToolchainOrTargetError::InvalidToolchain);
}

#[test]
fn platform_flag_only_when_engine_differs() {
    let amd64 = ImagePlatform::from_const_target(TargetTriple::X86_64UnknownLinuxGnu);
    assert_eq!(amd64.specify_platform(&engine()), None);
    let arm = ImagePlatform::from_const_target(TargetTriple::Aarch64UnknownLinuxGnu);
    assert_eq!(arm.specify_platform(&engine()), Some("linux/arm64".to_owned()));
}

#[test]
fn metadata_command_for_args() {
    assert_eq!(cross::cargo_metadata_args(None), vec![own("metadata"), own("--format-version"), own("1"), own("--no-deps")]);
    let mut a = args(Some("aarch64-unknown-linux-gnu"), None);
    a.manifest_path = Some(own("/p/Cargo.toml"));
    a.features = vec![own("a"), own("b")];
    let expected: Vec<String> = [
        "metadata",
        "--format-version",
        "1",
        "--manifest-path",
        "/p/Cargo.toml",
        "--filter-platform",
        "aarch64-unknown-linux-gnu",
        "--features",
        "a,b",
    ]
    .iter()
    .map(|s| own(s))
    .collect();
    assert_eq!(cross::cargo_metadata_args(Some(&a)), expected);
    a.target_dir = Some(own("/t"));
    let metadata = || cross::CargoMetadata {
        workspace_root: own("/p"),
        target_directory: own("/p/target"),
        packages: vec![],
        workspace_members: vec![],
    };
    assert_eq!(cross::metadata_with_target_dir(metadata(), Some(&a)).target_directory, "/t");
    assert_eq!(cross::metadata_with_target_dir(metadata(), None).target_directory, "/p/target");
}

#[test]
fn toolchain_versions_from_manifests() {
    let v = rustc_version_of("1.70.0-nightly (abcdef123 2023-04-01)").unwrap().unwrap();
    assert_eq!((v.major, v.minor, v.patch), (1, 70, 0));
    assert_eq!(v.pre, "nightly");
    assert_eq!(v.channel, Channel::Nightly);
    assert_eq!(v.commit, "(abcdef123 2023-04-01)");
    assert_eq!(rustc_version_of("1.70.0 (abc 2023-04-01)").unwrap().unwrap().channel, Channel::Stable);
    assert_eq!(rustc_version_of("1.70.0").unwrap(), None);
    assert_eq!(rustc_version_of("1.x (a b)"), Err(RustcVersionError::InvalidVersion(own("1.x"))));
    assert_eq!(rustc_version_of("1.70.0-alpha.1 (a b)"), Err(RustcVersionError::UnknownChannel(own("alpha"))));
}

#[test]
fn host_and_toolchain_versions_compared() {
    let host = "rustc 1.70.0 (90c541806 2023-05-31)";
    assert_eq!(
        cross::host_version_match(true, Order::Equal, "(90c541806 2023-05-31)", host, Some("2023-05-31")),
        VersionMatch::Same
    );
    assert_eq!(
        cross::host_version_match(true, Order::Equal, "(aaaaaaaaa 2023-05-01)", host, Some("2023-05-31")),
        VersionMatch::OlderTarget
    );
    assert_eq!(
        cross::host_version_match(false, Order::Greater, "(aaaaaaaaa 2023-05-01)", host, Some("2023-05-31")),
        VersionMatch::NewerTarget
    );
    assert_eq!(
        cross::host_version_match(false, Order::Equal, "(aaaaaaaaa 2023-05-31)", host, Some("2023-05-31")),
        VersionMatch::Different
    );
}

#[test]
fn project_dockerfile_plan() {
    let target = Target::from("aarch64-unknown-linux-gnu", &triples());
    let none = Config::new(None, vars(&[]));
    assert!(dockerfile_plan(&none, &target).unwrap().is_none());
    assert!(!needs_custom_image(&none, &target));
    let env = vars(&[
        ("CROSS_TARGET_AARCH64_UNKNOWN_LINUX_GNU_DOCKERFILE", "./Dockerfile"),
        ("CROSS_TARGET_AARCH64_UNKNOWN_LINUX_GNU_IMAGE", "my/image"),
        ("CROSS_BUILD_DOCKERFILE_CONTEXT", "./ctx"),
    ]);
    let config = Config::new(None, env);
    let plan = dockerfile_plan(&config, &target).unwrap().unwrap();
    assert_eq!(plan.path, "./Dockerfile");
    assert_eq!(plan.context.as_deref(), Some("./ctx"));
    assert!(plan.named);
    assert!(plan.build_args.is_empty());
    assert!(needs_custom_image(&config, &target));
    let pre = Config::new(None, vars(&[("CROSS_BUILD_PRE_BUILD", "apt-get update")]));
    assert!(needs_custom_image(&pre, &target));
    assert!(dockerfile_plan(&pre, &target).unwrap().is_none());
}
