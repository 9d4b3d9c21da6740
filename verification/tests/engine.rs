use cross::docker::engine::{engine_os_arch, engine_type_of_help, needs_other_info, parse_engine_info};
use cross::docker::shared::{is_passthrough, validate_env_var, EnvVarError};
use cross::docker::{Architecture, Engine, EngineType, Os, PlatformError};
use cross::shell::MessageInfo;

#[test]
fn engine_kind_from_help() {
    assert_eq!(engine_type_of_help("Usage: docker [OPTIONS] COMMAND"), EngineType::Docker);
    assert_eq!(engine_type_of_help("Emulate Docker CLI using podman."), EngineType::Podman);
    assert_eq!(engine_type_of_help("Manage pods... (Podman-Remote)"), EngineType::PodmanRemote);
    assert_eq!(engine_type_of_help("docker emulate"), EngineType::Other);
    assert_eq!(engine_type_of_help("nerdctl"), EngineType::Other);
}

#[test]
fn engine_info_parsing() {
    assert_eq!(parse_engine_info("linux,,,amd64\n", ",,,"), Ok(Some((Os::Linux, Architecture::Amd64))));
    assert_eq!(parse_engine_info("  Linux/ARM64 ", "/"), Ok(Some((Os::Linux, Architecture::Arm64))));
    assert_eq!(parse_engine_info("no separator", ",,,"), Ok(None));
    assert_eq!(parse_engine_info("plan9,,,amd64", ",,,"), Err(PlatformError::UnsupportedOs));
    assert_eq!(parse_engine_info("linux,,,vax", ",,,"), Err(PlatformError::UnsupportedArchitecture));
}

#[test]
fn engine_info_fallbacks() {
    let server: Result<Option<(Os, Architecture)>, &str> = Ok(Some((Os::Linux, Architecture::Arm64)));
    assert!(!needs_other_info(&server));
    assert_eq!(engine_os_arch(server, None), Ok((Some(Architecture::Arm64), Some(Os::Linux))));
    let failed: Result<Option<(Os, Architecture)>, &str> = Err("server");
    assert!(needs_other_info(&failed));
    assert_eq!(engine_os_arch(failed, Some(Err("client"))), Err(("client", Some("server"))));
    let partial: Result<Option<(Os, Architecture)>, &str> = Ok(None);
    assert_eq!(engine_os_arch(partial, Some(Ok(Some((Os::Linux, Architecture::Amd64))))),
        Ok((Some(Architecture::Amd64), Some(Os::Linux))));
    let partial2: Result<Option<(Os, Architecture)>, &str> = Ok(None);
    assert_eq!(engine_os_arch(partial2, Some(Ok(None))), Ok((None, None)));
}

#[test]
fn env_var_validation() {
    let mut warned = false;
    let mut msg = MessageInfo::default();
    assert_eq!(validate_env_var("FOO=bar=baz", &mut warned, &mut msg), Ok(("FOO".to_owned(), Some("bar=baz".to_owned()))));
    assert!(!warned);
    assert_eq!(validate_env_var("FOO", &mut warned, &mut msg), Ok(("FOO".to_owned(), None)));
    assert!(!warned && !msg.has_warned);
    assert_eq!(validate_env_var("/some/path", &mut warned, &mut msg), Ok(("/some/path".to_owned(), None)));
    assert!(warned && msg.has_warned);
    assert_eq!(validate_env_var("CROSS_RUNNER", &mut warned, &mut msg), Err(EnvVarError::Reserved));
    assert_eq!(validate_env_var("CROSS_RUNNER=qemu-user", &mut warned, &mut msg), Err(EnvVarError::Reserved));
}

#[test]
fn passthrough_variables() {
    assert!(is_passthrough("RUSTFLAGS"));
    assert!(is_passthrough("CARGO_INCREMENTAL"));
    assert!(is_passthrough("CROSS_DEBUG"));
    assert!(!is_passthrough("CARGO_HOME"));
    assert!(!is_passthrough("CROSS_RUNNER"));
    assert!(!is_passthrough("PATH"));
}

#[test]
fn engine_opts_are_split_like_a_shell() {
    assert_eq!(
        Engine::parse_opts("--cpus 2 -e 'A=b c' --label \"x y\""),
        Ok(vec!["--cpus".to_owned(), "2".to_owned(), "-e".to_owned(), "A=b c".to_owned(), "--label".to_owned(), "x y".to_owned()])
    );
    assert_eq!(Engine::parse_opts(""), Ok(vec![]));
    assert!(Engine::parse_opts("--env 'unclosed").is_err());
}
