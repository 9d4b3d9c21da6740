//! The container engine that runs the images: docker, podman or another.

use vstd::prelude::*;
use crate::docker::image::{Architecture, Os, PlatformError, arch_of_name, os_of_name};
use crate::config::{bool_of, bool_from_envvar};
use crate::text::{
    views, copy_str, has_infix, trim, first_occurrence, to_lowercase, lowercase_of, contains, chars_of, trim_chars, chars_find_str,
    string_of, substring, occurs_at,
};

verus! {

/// The kind of container engine.
#[derive(Debug, Clone, Copy, PartialEq, Eq, Structural)]
pub enum EngineType {
    Docker,
    Podman,
    PodmanRemote,
    Other,
}

impl EngineType {
    /// Whether the engine is podman, local or remote.
    pub fn is_podman(&self) -> (r: bool)
        ensures
            r == (*self == EngineType::Podman || *self == EngineType::PodmanRemote),
    {
        matches!(self, EngineType::Podman | EngineType::PodmanRemote)
    }

    /// Whether the engine is docker.
    pub fn is_docker(&self) -> (r: bool)
        ensures
            r == (*self == EngineType::Docker),
    {
        matches!(self, EngineType::Docker)
    }
}

/// A container engine: its kind, the path of its program, whether `cross`
/// runs inside a container, the engine's architecture and operating system
/// where it reports them, and whether it works on a remote host.
#[derive(Debug, Clone, PartialEq, Eq)]
pub struct Engine {
    pub kind: EngineType,
    pub path: String,
    pub in_docker: bool,
    pub arch: Option<Architecture>,
    pub os: Option<Os>,
    pub is_remote: bool,
}

impl Engine {
    /// Whether the engine needs the remote way of running: a remote local
    /// podman.
    pub fn needs_remote(&self) -> (r: bool)
        ensures
            r == (self.is_remote && self.kind == EngineType::Podman),
    {
        self.is_remote && self.kind == EngineType::Podman
    }

    /// Whether `cross` runs inside a container, from
    /// `CROSS_CONTAINER_IN_CONTAINER`, else the older
    /// `CROSS_DOCKER_IN_DOCKER`, else not; and whether both are set, which
    /// is warned about.
    pub fn in_docker_setting(in_container: Option<&str>, docker_in_docker: Option<&str>) -> (r: (bool, bool))
        ensures
            r.0 == match (in_container, docker_in_docker) {
                (Some(v), _) => bool_of(v@),
                (None, Some(v)) => bool_of(v@),
                (None, None) => false,
            },
            r.1 == (in_container is Some && docker_in_docker is Some),
    {
        match in_container {
            Some(v) => (bool_from_envvar(v), docker_in_docker.is_some()),
            None => match docker_in_docker {
                Some(v) => (bool_from_envvar(v), false),
                None => (false, false),
            },
        }
    }

    /// Whether the engine works on a remote host (`CROSS_REMOTE`).
    pub fn is_remote_setting(remote: Option<&str>) -> (r: bool)
        ensures
            r == match remote {
                Some(v) => bool_of(v@),
                None => false,
            },
    {
        match remote {
            Some(v) => bool_from_envvar(v),
            None => false,
        }
    }
}

/// The programs that may be the container engine, in the order they are
/// looked for: the one `CROSS_CONTAINER_ENGINE` names, else docker, then
/// podman.
pub fn engine_candidates(configured: Option<&str>) -> (r: Vec<String>)
    ensures
        views(r@) == match configured {
            Some(c) => seq![c@],
            None => seq!["docker"@, "podman"@],
        },
{
    let mut r: Vec<String> = Vec::new();
    match configured {
        Some(c) => r.push(copy_str(c)),
        None => {
            r.push(String::from_str("docker"));
            r.push(String::from_str("podman"));
            proof {
                reveal_strlit("docker");
                reveal_strlit("podman");
            }
        },
    }
    assert(views(r@) =~= match configured { Some(c) => seq![c@], None => seq!["docker"@, "podman"@] });
    r
}

/// The kind of engine that the (lowercased) output of its `--help` names:
/// podman (remote or not) where it mentions podman, docker where it
/// mentions docker but does not emulate it.
pub open spec fn kind_of_help(h: Seq<char>) -> EngineType {
    if has_infix(h, "podman-remote"@) {
        EngineType::PodmanRemote
    } else if has_infix(h, "podman"@) {
        EngineType::Podman
    } else if has_infix(h, "docker"@) && !has_infix(h, "emulate"@) {
        EngineType::Docker
    } else {
        EngineType::Other
    }
}

/// The kind of engine, from the output of its `--help`.
pub fn engine_type_of_help(help: &str) -> (r: EngineType)
    ensures
        r == kind_of_help(lowercase_of(help@)),
{
    let h = to_lowercase(help);
    if contains(h.as_str(), "podman-remote") {
        EngineType::PodmanRemote
    } else if contains(h.as_str(), "podman") {
        EngineType::Podman
    } else if contains(h.as_str(), "docker") && !contains(h.as_str(), "emulate") {
        EngineType::Docker
    } else {
        EngineType::Other
    }
}

/// The operating system and architecture that an engine reports, as
/// `os<sep>arch` (lowercased, without surrounding whitespace); none where
/// the separator is missing.
pub open spec fn engine_info_of(out: Seq<char>, sep: Seq<char>) -> Result<Option<(Os, Architecture)>, PlatformError> {
    let t = trim(lowercase_of(out));
    match first_occurrence(t, sep) {
        None => Ok(None),
        Some(i) => match os_of_name(t.take(i)) {
            None => Err(PlatformError::UnsupportedOs),
            Some(o) => match arch_of_name(t.skip(i + sep.len())) {
                None => Err(PlatformError::UnsupportedArchitecture),
                Some(a) => Ok(Some((o, a))),
            },
        },
    }
}

/// Reads what an engine reports of its operating system and architecture
/// (see [`engine_info_of`]).
pub fn parse_engine_info(out: &str, sep: &str) -> (r: Result<Option<(Os, Architecture)>, PlatformError>)
    ensures
        r == engine_info_of(out@, sep@),
{
    let lower = to_lowercase(out);
    let v = chars_of(lower.as_str());
    let t = trim_chars(v.as_slice());
    let p = chars_of(sep);
    match chars_find_str(t.as_slice(), p.as_slice()) {
        None => Ok(None),
        Some(i) => {
            assert(occurs_at(t@, p@, i as int));
            let n = t.len();
            let m = p.len();
            assert(i + m <= n);
            let os = substring(t.as_slice(), 0, i);
            let arch = substring(t.as_slice(), i + m, n);
            match Os::new(os.as_str()) {
                Err(e) => Err(e),
                Ok(o) => match Architecture::new(arch.as_str()) {
                    Err(e) => Err(e),
                    Ok(a) => Ok(Some((o, a))),
                },
            }
        },
    }
}

/// Whether the engine must be asked again, another way: it did not report
/// both its operating system and its architecture.
pub fn needs_other_info<E>(server: &Result<Option<(Os, Architecture)>, E>) -> (r: bool)
    ensures
        r == !(*server matches Ok(Some(_))),
{
    !matches!(server, Ok(Some(_)))
}

/// The architecture and operating system of the engine: what the server
/// reported, else what the engine reported another way (`other`); an error
/// where that failed too, with the server's error where it failed.
pub fn engine_os_arch<E>(
    server: Result<Option<(Os, Architecture)>, E>,
    other: Option<Result<Option<(Os, Architecture)>, E>>,
) -> (r: Result<(Option<Architecture>, Option<Os>), (E, Option<E>)>)
    ensures
        match server {
            Ok(Some((o, a))) => r == Ok::<(Option<Architecture>, Option<Os>), (E, Option<E>)>((Some(a), Some(o))),
            _ => match other {
                None => r is Ok && r->Ok_0 == (None::<Architecture>, None::<Os>),
                Some(Ok(Some((o, a)))) => r == Ok::<(Option<Architecture>, Option<Os>), (E, Option<E>)>((Some(a), Some(o))),
                Some(Ok(None)) => r == Ok::<(Option<Architecture>, Option<Os>), (E, Option<E>)>((None, None)),
                Some(Err(e)) => r matches Err((e2, se)) && e2 == e && match server {
                    Err(s) => se == Some(s),
                    _ => se is None,
                },
            },
        },
{
    match server {
        Ok(Some((o, a))) => Ok((Some(a), Some(o))),
        server => {
            let server_err = match server {
                Err(s) => Some(s),
                _ => None,
            };
            match other {
                None => Ok((None, None)),
                Some(Ok(Some((o, a)))) => Ok((Some(a), Some(o))),
                Some(Ok(None)) => Ok((None, None)),
                Some(Err(e)) => Err((e, server_err)),
            }
        },
    }
}

/// The error of `shell_words::split`: a quote that is not closed.
#[verifier::external_type_specification]
#[verifier::external_body]
pub struct ExShellParseError(shell_words::ParseError);

/// The words into which `shell_words::split` splits a string as a POSIX
/// shell would (quotes, backslashes and comments), or none where a quote
/// is not closed.
pub uninterp spec fn shell_words_of(s: Seq<char>) -> Option<Seq<Seq<char>>>;

/// Splits a string into words with `shell_words::split`; the words are
/// those [`shell_words_of`] names, and an error comes exactly where it
/// names none.
#[verifier::external_body]
fn shell_split(s: &str) -> (r: Result<Vec<String>, shell_words::ParseError>)
    ensures
        match r {
            Ok(v) => shell_words_of(s@) == Some(views(v@)),
            Err(_) => shell_words_of(s@) is None,
        },
{
    shell_words::split(s)
}

/// Options for the engine that could not be read: a quote is not closed.
#[derive(Debug, Clone, PartialEq, Eq)]
pub struct OptsError {
    /// The options as given.
    pub value: String,
}

impl Engine {
    /// The options of a command of the engine, given as one string, split
    /// into words as a shell would (see [`shell_words_of`]).
    pub fn parse_opts(value: &str) -> (r: Result<Vec<String>, OptsError>)
        ensures
            match r {
                Ok(v) => shell_words_of(value@) == Some(views(v@)),
                Err(e) => shell_words_of(value@) is None && e.value@ == value@,
            },
    {
        match shell_split(value) {
            Ok(v) => Ok(v),
            Err(_) => Err(OptsError { value: copy_str(value) }),
        }
    }
}

} // verus!
