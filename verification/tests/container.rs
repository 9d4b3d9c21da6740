use cross::docker::remote_plan::{mount_steps, MountStep};
use cross::Subcommand;
use cross::docker::container_args::{
    build_command_args, configuration_envvars, envvar_args, passthrough_args, seccomp_args, seccomp_path,
    user_id_args, userns_args, EnvArgsError, HostEnv,
};
use cross::docker::custom::{Dockerfile, PreBuild};
use cross::docker::engine::OptsError;
use cross::docker::image_build::{pre_build_plan, BuildSettings, InvalidProgress, Progress};
use cross::docker::shared::{EnvVarError, ToolchainDirectories};
use cross::docker::{Architecture, Engine, EngineType, ImagePlatform, Os};
use cross::extensions::SafeCommand;
use cross::rustc::QualifiedToolchain;
use cross::shell::{MessageInfo, Verbosity};
use cross::{CargoMetadata, Target, TargetTriple};

fn own(x: &str) -> String {
    x.to_owned()
}

fn owned(v: &[&str]) -> Vec<String> {
    v.iter().map(|s| own(s)).collect()
}

fn engine(kind: EngineType, arch: Architecture) -> Engine {
    Engine { kind, path: own("/usr/bin/docker"), in_docker: false, arch: Some(arch), os: Some(Os::Linux), is_remote: false }
}

fn metadata() -> CargoMetadata {
    CargoMetadata {
        workspace_root: own("/home/user/proj"),
        target_directory: own("/home/user/proj/target"),
        packages: vec![],
        workspace_members: vec![],
    }
}

fn aarch64() -> Target {
    Target::new_built_in("aarch64-unknown-linux-gnu")
}

fn settings(has_buildkit: bool, verbosity: Verbosity, build_opts: Option<&str>) -> BuildSettings {
    BuildSettings {
        has_buildkit,
        progress: Progress::Auto,
        verbosity,
        build_opts: build_opts.map(own),
        host_root: own("/home/user/proj"),
    }
}

fn dirs() -> ToolchainDirectories {
    let host = ImagePlatform::from_const_target(TargetTriple::X86_64UnknownLinuxGnu);
    ToolchainDirectories {
        cargo: own("/home/user/.cargo"),
        xargo: own("/home/user/.xargo"),
        nix_store: None,
        toolchain: QualifiedToolchain::new(
            "stable",
            &None,
            &host,
            "/home/user/.rustup/toolchains/stable-x86_64-unknown-linux-gnu",
            false,
        ),
        cargo_mount_path: own("/home/user/.cargo"),
        xargo_mount_path: own("/home/user/.xargo"),
        sysroot_mount_path: own("/home/user/.rustup/toolchains/stable-x86_64-unknown-linux-gnu"),
    }
}

#[test]
fn progress_names() {
    assert_eq!(Progress::parse("plain"), Ok(Progress::Plain));
    assert_eq!(Progress::parse("tty"), Ok(Progress::Tty));
    assert_eq!(Progress::parse("fast"), Err(InvalidProgress { value: own("fast") }));
    assert_eq!(Progress::Auto.name(), "auto");
}

#[test]
fn build_args_of_a_project_dockerfile() {
    let amd64 = ImagePlatform::from_const_target(TargetTriple::X86_64UnknownLinuxGnu);
    let file = Dockerfile::File { path: "Dockerfile.aarch64", context: None, name: Some("my/image"), runs_with: &amd64 };
    let (name, args) = file
        .build_args(
            &engine(EngineType::Docker, Architecture::Amd64),
            &aarch64(),
            &metadata(),
            &vec![(own("A"), own("1"))],
            Some("ghcr.io/cross-rs/aarch64-unknown-linux-gnu:0.2.5"),
            &settings(true, Verbosity::Normal, None),
        )
        .unwrap();
    assert_eq!(name, "my/image");
    assert_eq!(
        args,
        owned(&[
            "buildx",
            "build",
            "--progress",
            "auto",
            "--label",
            "org.cross-rs.for-cross-target=aarch64-unknown-linux-gnu",
            "--label",
            "org.cross-rs.runs-with=x86_64-unknown-linux-gnu",
            "--label",
            "org.cross-rs.workspace_root=/home/user/proj",
            "--tag",
            "my/image",
            "--build-arg",
            "A=1",
            "--build-arg",
            "CROSS_DEB_ARCH=arm64",
            "--build-arg",
            "CROSS_BASE_IMAGE=ghcr.io/cross-rs/aarch64-unknown-linux-gnu:0.2.5",
            "--file",
            "/home/user/proj/Dockerfile.aarch64",
            "--output",
            "type=docker",
            "/home/user/proj",
        ])
    );
}

#[test]
fn build_args_of_a_pre_build_image() {
    let amd64 = ImagePlatform::from_const_target(TargetTriple::X86_64UnknownLinuxGnu);
    let custom = Dockerfile::Custom { content: own("FROM x"), runs_with: &amd64 };
    let (name, args) = custom
        .build_args(
            &engine(EngineType::Podman, Architecture::Arm64),
            &aarch64(),
            &metadata(),
            &vec![],
            Some("ignored"),
            &settings(false, Verbosity::Verbose(2), Some("--pull 'a b'")),
        )
        .unwrap();
    assert!(name.starts_with("localhost/cross-rs/cross-custom-proj:aarch64-unknown-linux-gnu-"));
    assert!(name.ends_with("-pre-build"));
    assert_eq!(&args[..6], &owned(&["build", "--platform", "linux/amd64", "--progress", "auto", "--build-arg"])[..]);
    assert_eq!(args[6], "VERBOSE=1");
    let file_at = args.iter().position(|a| a == "--file").unwrap();
    assert_eq!(
        &args[file_at..],
        &owned(&[
            "--file",
            "/home/user/proj/target/aarch64-unknown-linux-gnu/Dockerfile.aarch64-unknown-linux-gnu-custom",
            "--pull",
            "a b",
            "/home/user/proj",
        ])[..]
    );
    assert!(!args.iter().any(|a| a.starts_with("CROSS_BASE_IMAGE")));
}

#[test]
fn build_options_decide_the_output() {
    let amd64 = ImagePlatform::from_const_target(TargetTriple::X86_64UnknownLinuxGnu);
    let custom = Dockerfile::Custom { content: own("FROM x"), runs_with: &amd64 };
    let docker = engine(EngineType::Docker, Architecture::Amd64);
    let (_, args) = custom
        .build_args(&docker, &aarch64(), &metadata(), &vec![], None, &settings(true, Verbosity::Normal, Some("--load")))
        .unwrap();
    assert!(!args.iter().any(|a| a == "type=docker"));
    assert_eq!(
        custom.build_args(&docker, &aarch64(), &metadata(), &vec![], None, &settings(true, Verbosity::Normal, Some("'open"))),
        Err(OptsError { value: own("'open") })
    );
}

#[test]
fn pre_build_plans() {
    let t = aarch64();
    let script = PreBuild::Single { line: own("./pre-build.sh"), env: false };
    let (content, args) = pre_build_plan("img:tag", &script, false, &t).unwrap();
    assert!(content.contains("FROM img:tag"));
    assert!(content.contains("RUN ./pre-build-script $CROSS_TARGET"));
    assert_eq!(args, vec![(own("CROSS_SCRIPT"), own("./pre-build.sh")), (own("CROSS_TARGET"), own("aarch64-unknown-linux-gnu"))]);

    let env_line = PreBuild::Single { line: own("apt-get update"), env: true };
    let (content, args) = pre_build_plan("img:tag", &env_line, false, &t).unwrap();
    assert!(content.ends_with("RUN eval \"${CROSS_CMD}\""));
    assert_eq!(args, vec![(own("CROSS_CMD"), own("apt-get update"))]);

    let env_script = PreBuild::Single { line: own("script.sh"), env: true };
    let (_, args) = pre_build_plan("img:tag", &env_script, true, &t).unwrap();
    assert_eq!(args[0], (own("CROSS_SCRIPT"), own("script.sh")));

    let lines = PreBuild::Lines(owned(&["a", "b"]));
    let (_, args) = pre_build_plan("img:tag", &lines, false, &t).unwrap();
    assert_eq!(args, vec![(own("CROSS_CMD"), own("a\nb"))]);

    assert_eq!(pre_build_plan("img:tag", &PreBuild::Lines(vec![]), false, &t), None);
}

#[test]
fn passthrough_variables_are_checked() {
    let mut msg = MessageInfo::default();
    assert_eq!(passthrough_args(&owned(&["FOO", "BAR=1"]), &mut msg), Ok(owned(&["-e", "FOO", "-e", "BAR=1"])));
    assert!(!msg.has_warned);
    assert_eq!(passthrough_args(&owned(&["FOO", "CROSS_RUNNER=x"]), &mut msg), Err(EnvVarError::Reserved));
    assert_eq!(passthrough_args(&owned(&["A-B"]), &mut msg), Ok(owned(&["-e", "A-B"])));
    assert!(msg.has_warned);
}

#[test]
fn host_configuration_is_passed() {
    let keys = owned(&["CARGO_HOME", "CARGO_INCREMENTAL", "TERM", "PATH", "CROSS_RUNNER", "CROSS_DEBUG"]);
    assert_eq!(configuration_envvars(&keys), owned(&["-e", "CARGO_INCREMENTAL", "-e", "TERM", "-e", "CROSS_DEBUG"]));
}

#[test]
fn container_variables() {
    let env = HostEnv {
        var_names: owned(&["HOME", "RUSTFLAGS"]),
        username: Some(own("user")),
        container_opts: Some(own("--env A=1")),
        docker_opts: Some(own("--privileged")),
        rustc_version: Some((1, 70, 2)),
    };
    let mut msg = MessageInfo::default();
    let args = envvar_args(&owned(&["FOO"]), Some("qemu-user"), &dirs(), true, &env, &mut msg).unwrap();
    assert!(msg.has_warned);
    assert_eq!(
        args,
        owned(&[
            "-e",
            "FOO",
            "-e",
            "XARGO_HOME=/home/user/.xargo",
            "-e",
            "CARGO_HOME=/home/user/.cargo",
            "-e",
            "CROSS_RUST_SYSROOT=/home/user/.rustup/toolchains/stable-x86_64-unknown-linux-gnu",
            "-e",
            "CARGO_TARGET_DIR=/target",
            "-e",
            "CROSS_RUNNER=qemu-user",
            "-e",
            "XDG_CACHE_HOME=/target/.zig-cache",
            "-e",
            "RUSTFLAGS",
            "-e",
            "USER=user",
            "--env",
            "A=1",
            "-e",
            "CROSS_RUSTC_MAJOR_VERSION=1",
            "-e",
            "CROSS_RUSTC_MINOR_VERSION=70",
            "-e",
            "CROSS_RUSTC_PATCH_VERSION=2",
        ])
    );

    let plain = HostEnv { var_names: vec![], username: None, container_opts: None, docker_opts: None, rustc_version: None };
    let mut msg = MessageInfo::default();
    let args = envvar_args(&vec![], None, &dirs(), false, &plain, &mut msg).unwrap();
    assert!(!msg.has_warned);
    assert_eq!(args[8], "-e");
    assert_eq!(args[9], "CROSS_RUNNER=");
    assert_eq!(&args[10..], &owned(&[
        "-e",
        "CROSS_RUSTC_MAJOR_VERSION=1",
        "-e",
        "CROSS_RUSTC_MINOR_VERSION=0",
        "-e",
        "CROSS_RUSTC_PATCH_VERSION=0",
    ])[..]);

    let bad = HostEnv { docker_opts: Some(own("\"x")), ..plain };
    assert_eq!(
        envvar_args(&vec![], None, &dirs(), false, &bad, &mut MessageInfo::default()),
        Err(EnvArgsError::Opts(OptsError { value: own("\"x") }))
    );
    assert_eq!(
        envvar_args(&owned(&["CROSS_RUNNER"]), None, &dirs(), false, &bad, &mut MessageInfo::default()),
        Err(EnvArgsError::Var(EnvVarError::Reserved))
    );
}

#[test]
fn user_and_namespace() {
    assert_eq!(userns_args(None), owned(&["--userns", "host"]));
    assert_eq!(userns_args(Some("auto")), owned(&["--userns", "host"]));
    assert_eq!(userns_args(Some("none")), Vec::<String>::new());
    assert_eq!(userns_args(Some("keep-id")), owned(&["--userns", "keep-id"]));
    assert_eq!(user_id_args(false, "1000", "1001"), owned(&["--user", "1000:1001"]));
    assert_eq!(user_id_args(true, "1000", "1001"), Vec::<String>::new());
}

#[test]
fn command_in_the_container() {
    let mut cmd = SafeCommand::new("cargo");
    cmd.args(&owned(&["build", "--features", "a b"]));
    assert_eq!(
        build_command_args("/rust", &cmd),
        owned(&["sh", "-c", "PATH=\"$PATH\":\"/rust/bin\" cargo build --features \"a b\""])
    );
}

#[test]
fn seccomp_profile() {
    let path = seccomp_path(&metadata(), &aarch64());
    assert_eq!(path, "/home/user/proj/target/aarch64-unknown-linux-gnu/seccomp.json");
    assert_eq!(seccomp_args(false, true, false, &path), Vec::<String>::new());
    assert_eq!(seccomp_args(true, true, true, &path), owned(&["--security-opt", "seccomp=unconfined"]));
    assert_eq!(
        seccomp_args(true, false, true, &path),
        owned(&["--security-opt", "seccomp=/home/user/proj/target/aarch64-unknown-linux-gnu/seccomp.json"])
    );
}

#[test]
fn remote_volume_choice() {
    let existing = owned(&["cross-stable-x86_64-unknown-linux-gnu-abcde-123456789", "other"]);
    let (v, warn) = cross::docker::remote_plan::choose_volume(
        &existing,
        "cross-stable-x86_64-unknown-linux-gnu-abcde-123456789",
        "cross-stable-x86_64-unknown-linux-gnu",
    );
    assert!(matches!(v, cross::docker::shared::VolumeId::Keep(ref id) if id == "cross-stable-x86_64-unknown-linux-gnu-abcde-123456789"));
    assert!(!warn);
    let (v, warn) = cross::docker::remote_plan::choose_volume(
        &existing,
        "cross-stable-x86_64-unknown-linux-gnu-abcde-987654321",
        "cross-stable-x86_64-unknown-linux-gnu",
    );
    assert!(matches!(v, cross::docker::shared::VolumeId::Discard));
    assert!(warn);
    let (_, warn) = cross::docker::remote_plan::choose_volume(&existing, "x", "cross-beta");
    assert!(!warn);
}

#[test]
fn remote_target_directory() {
    let f = cross::docker::remote_plan::remote_cargo_args;
    assert_eq!(f(&owned(&["build", "--release"]), "target", Some(Subcommand::Build)), owned(&["build", "--release", "--target-dir", "target"]));
    assert_eq!(f(&owned(&["build", "--target-dir", "/tmp/t", "-v"]), "target", Some(Subcommand::Build)), owned(&["build", "--target-dir", "target", "-v"]));
    assert_eq!(f(&owned(&["build", "--target-dir=/tmp/t"]), "target", None), owned(&["build", "--target-dir=target"]));
    assert_eq!(f(&owned(&["metadata"]), "target", Some(Subcommand::Metadata)), owned(&["metadata"]));
    assert_eq!(f(&owned(&["build", "--target-dir"]), "target", None), owned(&["build", "--target-dir"]));
}

#[test]
fn remote_mount_steps() {
    let copied = vec![(own("/home/user/proj"), own("home/user/proj"))];
    let mounts = vec![(own("/home/user/proj/vendor"), own("/vendor")), (own("/data"), own("/data"))];
    assert_eq!(
        mount_steps(&copied, &mounts),
        vec![
            MountStep::Symlink(own("home/user/proj/vendor"), own("/vendor")),
            MountStep::Copy(own("/data"), own("data")),
        ]
    );
}
