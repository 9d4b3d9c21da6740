use cross::config::Environment;
use cross::docker::local_run::{docker_run_args, is_rootless, volume_entries, RunInputs, RunVolume};
use cross::docker::shared::EnvVarError;
use cross::extensions::SafeCommand;
use cross::shell::MessageInfo;

fn own(x: &str) -> String {
    x.to_owned()
}

fn owned(v: &[&str]) -> Vec<String> {
    v.iter().map(|s| own(s)).collect()
}

fn host_env(vars: &[(&str, &str)]) -> Environment {
    Environment::new(vars.iter().map(|(k, v)| (own(k), own(v))).collect())
}

#[test]
fn rootless_unset_or_auto_follows_the_engine() {
    assert!(!is_rootless(None, true));
    assert!(is_rootless(None, false));
    assert!(!is_rootless(Some("auto"), true));
    assert!(is_rootless(Some("auto"), false));
}

#[test]
fn rootless_setting_wins_over_the_engine() {
    assert!(is_rootless(Some("1"), true));
    assert!(is_rootless(Some("true"), true));
    assert!(!is_rootless(Some("0"), false));
    assert!(!is_rootless(Some("false"), false));
}

#[test]
fn volumes_take_the_given_value_or_the_host_variable() {
    let env = host_env(&[("DATA", "/data"), ("OTHER", "/other")]);
    let mut msg = MessageInfo::default();
    let vars = owned(&["CACHE=/cache", "DATA", "MISSING"]);
    let entries = volume_entries(&vars, &env, &mut msg).unwrap();
    assert_eq!(entries, vec![(own("CACHE"), own("/cache")), (own("DATA"), own("/data"))]);
    assert!(!msg.has_warned);
}

#[test]
fn volumes_refuse_the_runner_variable() {
    let env = host_env(&[]);
    let mut msg = MessageInfo::default();
    let vars = owned(&["CACHE=/cache", "CROSS_RUNNER=qemu"]);
    assert_eq!(volume_entries(&vars, &env, &mut msg), Err(EnvVarError::Reserved));
}

#[test]
fn volumes_warn_once_of_bad_names() {
    let env = host_env(&[]);
    let mut msg = MessageInfo::default();
    let vars = owned(&["BAD-NAME", "ALSO.BAD"]);
    let entries = volume_entries(&vars, &env, &mut msg).unwrap();
    assert!(entries.is_empty());
    assert!(msg.has_warned);
}

fn inputs() -> RunInputs {
    let mut command = SafeCommand::new("cargo");
    command.args(&owned(&["build", "--target", "aarch64-unknown-linux-gnu"]));
    RunInputs {
        userns: None,
        platform: Some(own("linux/arm64")),
        env_args: owned(&["-e", "CARGO_HOME=/cargo"]),
        volumes: vec![RunVolume { key: own("DATA"), mount_path: own("/data"), host_path: own("/real/data") }],
        dependencies: vec![(own("/real/dep"), own("/home/user/dep"))],
        container_id: own("cross-stable-x86_64-unknown-linux-gnu-abc"),
        needs_seccomp: true,
        is_docker: true,
        on_windows: false,
        seccomp_profile: own("/home/user/proj/target/aarch64-unknown-linux-gnu/seccomp.json"),
        rootless: false,
        uid: own("1000"),
        gid: own("100"),
        xargo_host: own("/home/user/.xargo"),
        xargo_mount: own("/xargo"),
        cargo_host: own("/home/user/.cargo"),
        cargo_mount: own("/cargo"),
        host_root: own("/home/user/proj"),
        mount_root: own("/project"),
        sysroot_host: own("/home/user/.rustup/toolchains/stable-x86_64-unknown-linux-gnu"),
        sysroot_mount: own("/rust"),
        target_dir: own("/home/user/proj/target"),
        cwd: own("/project"),
        nix_store: None,
        tty: true,
        interactive: false,
        selinux_labels: true,
        image: own("ghcr.io/cross-rs/aarch64-unknown-linux-gnu:main"),
        command,
    }
}

#[test]
fn run_arguments_in_order() {
    let args = docker_run_args(&inputs());
    let expected = owned(&[
        "run",
        "--userns",
        "host",
        "--platform",
        "linux/arm64",
        "-e",
        "CARGO_HOME=/cargo",
        "-v",
        "/real/data:/data:z",
        "-e",
        "DATA=/data",
        "-v",
        "/real/dep:/home/user/dep:z",
        "--name",
        "cross-stable-x86_64-unknown-linux-gnu-abc",
        "--rm",
        "--security-opt",
        "seccomp=/home/user/proj/target/aarch64-unknown-linux-gnu/seccomp.json",
        "--user",
        "1000:100",
        "-v",
        "/home/user/.xargo:/xargo:z",
        "-v",
        "/home/user/.cargo:/cargo:z",
        "-v",
        "/cargo/bin",
        "-v",
        "/home/user/proj:/project:z",
        "-v",
        "/home/user/.rustup/toolchains/stable-x86_64-unknown-linux-gnu:/rust:z,ro",
        "-v",
        "/home/user/proj/target:/target:z",
        "-w",
        "/project",
        "-t",
        "ghcr.io/cross-rs/aarch64-unknown-linux-gnu:main",
        "sh",
        "-c",
        "PATH=\"$PATH\":\"/rust/bin\" cargo build --target aarch64-unknown-linux-gnu",
    ]);
    assert_eq!(args, expected);
}

#[test]
fn run_arguments_rootless_without_labels() {
    let mut inp = inputs();
    inp.rootless = true;
    inp.selinux_labels = false;
    inp.tty = false;
    inp.interactive = true;
    inp.userns = Some(own("none"));
    inp.platform = None;
    inp.needs_seccomp = false;
    inp.nix_store = Some(own("/nix/store"));
    let args = docker_run_args(&inp);
    assert_eq!(args[0], "run");
    assert!(!args.contains(&own("--user")));
    assert!(!args.contains(&own("--userns")));
    assert!(!args.contains(&own("--platform")));
    assert!(!args.contains(&own("--security-opt")));
    assert!(!args.contains(&own("-t")));
    assert!(args.contains(&own("-i")));
    assert!(args.contains(&own("/real/data:/data")));
    assert!(args.contains(&own("/home/user/.rustup/toolchains/stable-x86_64-unknown-linux-gnu:/rust:ro")));
    assert!(args.contains(&own("/nix/store:/nix/store")));
}
