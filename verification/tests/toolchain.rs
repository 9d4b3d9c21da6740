use cross::cross_toml::{CrossBuildConfig, CrossToml};
use cross::docker::shared::{inspect_mounts, root_mount_path, user_mounts, MountDetail, RootMountError};
use cross::docker::{engine::engine_candidates, Architecture, Engine, Os};
use cross::rustc::{QualifiedToolchain, ToolchainError};
use cross::TargetTriple;

fn own(x: &str) -> String {
    x.to_owned()
}

const RUSTC_VV: &str = "rustc 1.80.0-nightly (7d83da3ef 2024-05-01)
binary: rustc
commit-hash: 7d83da3ef7a5b4a4d2cfc6b3ef6cb13be8f1c2b9
commit-date: 2024-05-01
host: aarch64-unknown-linux-gnu
release: 1.80.0-nightly
LLVM version: 18.1.4
";

#[test]
fn custom_toolchain_from_compatible_name() {
    let t = QualifiedToolchain::custom("my-toolchain", own("/opt/my-toolchain"), Some("nightly-x86_64-unknown-linux-gnu"), None)
        .unwrap();
    assert_eq!(t.channel, "nightly");
    assert_eq!(t.date, None);
    assert_eq!(t.host.target, TargetTriple::X86_64UnknownLinuxGnu);
    assert!(t.is_custom);
    assert_eq!(t.full, "my-toolchain");
    assert_eq!(t.sysroot, "/opt/my-toolchain");
}

#[test]
fn custom_toolchain_from_bisector_name() {
    let name = "bisector-nightly-2024-05-01-x86_64-unknown-linux-gnu";
    let t = QualifiedToolchain::custom(name, own("/bisect"), None, None).unwrap();
    assert_eq!(t.channel, "nightly");
    assert_eq!(t.date, Some(own("2024-05-01")));
    assert_eq!(t.host.architecture, Architecture::Amd64);
    assert_eq!(t.full, name);
    assert!(t.is_custom);
}

#[test]
fn custom_toolchain_from_rustc_output() {
    let t = QualifiedToolchain::custom("stage1", own("/build/stage1"), None, Some(RUSTC_VV)).unwrap();
    assert_eq!(t.channel, "nightly");
    assert_eq!(t.date, None);
    assert_eq!(t.host.architecture, Architecture::Arm64);
    assert_eq!(t.host.os, Os::Linux);
    assert_eq!(t.full, "stage1");
    assert_eq!(t.sysroot, "/build/stage1");
    assert!(t.is_custom);
}

#[test]
fn custom_toolchain_errors() {
    assert_eq!(QualifiedToolchain::custom("stage1", own("/s"), None, None).unwrap_err(), ToolchainError::Unknown);
    assert_eq!(
        QualifiedToolchain::custom("stage1", own("/s"), None, Some("not rustc output")).unwrap_err(),
        ToolchainError::VersionMeta
    );
}

#[test]
fn engine_looked_for_in_order() {
    assert_eq!(engine_candidates(None), vec![own("docker"), own("podman")]);
    assert_eq!(engine_candidates(Some("nerdctl")), vec![own("nerdctl")]);
}

#[test]
fn in_container_settings() {
    assert_eq!(Engine::in_docker_setting(None, None), (false, false));
    assert_eq!(Engine::in_docker_setting(Some("1"), None), (true, false));
    assert_eq!(Engine::in_docker_setting(Some("0"), Some("1")), (false, true));
    assert_eq!(Engine::in_docker_setting(None, Some("true")), (true, false));
    assert!(Engine::is_remote_setting(Some("1")));
    assert!(!Engine::is_remote_setting(None));
}

const MERGED: &str = "/var/lib/docker/overlay2/f107af83b37bc0a182d3d2661f3d84684f0fffa1a243566b338a388d5e54bef4/merged";

#[test]
fn docker_test_parse_container_root() {
    let actual = root_mount_path(Some("overlay2"), Some(MERGED)).unwrap();
    let want = MountDetail { source: own(MERGED), destination: own("/") };
    assert_eq!(want, actual);
}

#[test]
fn shared_test_parse_container_root() {
    let actual = root_mount_path(Some("overlay2"), Some(MERGED)).unwrap();
    let want = MountDetail { source: own(MERGED), destination: own("/") };
    assert_eq!(want, actual);
}

#[test]
fn docker_test_parse_empty_user_mounts() {
    let actual = user_mounts(Some(&vec![]));
    assert_eq!(Vec::<MountDetail>::new(), actual);
}

#[test]
fn shared_test_parse_empty_user_mounts() {
    let actual = user_mounts(Some(&vec![]));
    assert_eq!(Vec::<MountDetail>::new(), actual);
}

#[test]
fn docker_test_parse_missing_user_moutns() {
    let actual = user_mounts(None);
    assert_eq!(Vec::<MountDetail>::new(), actual);
}

#[test]
fn shared_test_parse_missing_user_moutns() {
    let actual = user_mounts(None);
    assert_eq!(Vec::<MountDetail>::new(), actual);
}

#[test]
fn inspected_mounts_end_with_the_root() {
    let listed = vec![(own("/home/me/proj"), own("/project"))];
    let mounts = inspect_mounts(Some(&listed), Some("overlay2"), Some(MERGED)).unwrap();
    assert_eq!(
        mounts,
        vec![
            MountDetail { source: own("/home/me/proj"), destination: own("/project") },
            MountDetail { source: own(MERGED), destination: own("/") },
        ]
    );
    assert_eq!(inspect_mounts(Some(&listed), Some("btrfs"), None), Err(RootMountError::NotOverlay));
}

#[test]
fn merge_with_default_gives_the_configuration_back() {
    let a = CrossToml {
        targets: vec![],
        build: CrossBuildConfig { xargo: Some(true), default_target: Some(own("x")), ..CrossBuildConfig::default() },
    };
    assert_eq!(a.clone().merge(CrossToml::default()).unwrap(), a);
    assert_eq!(CrossToml::default().merge(a.clone()).unwrap(), a);
}
