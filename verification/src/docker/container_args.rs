//! The arguments of the engine's `run` command that come from the
//! configuration and the host: variables, user, namespace, seccomp profile
//! and the command run in the container.

use vstd::prelude::*;
use vstd::string::StringExecFns;
use crate::cargo::CargoMetadata;
use crate::docker::engine::{Engine, shell_words_of, OptsError};
use crate::docker::shared::{
    ToolchainDirectories, EnvVarError, validate_env_var, is_var_name, is_passed_var, is_passthrough,
    decimal, decimal_of,
};
use crate::extensions::SafeCommand;
use crate::file::{join, join_of, shell_escape, shell_escape_of};
use crate::shell::MessageInfo;
use crate::target::Target;
use crate::text::{copy_str, views, str_eq, first_index};

verus! {

broadcast use vstd::string::group_string_axioms;

/// The key of a variable given as `KEY` or `KEY=value`.
pub open spec fn var_key(v: Seq<char>) -> Seq<char> {
    match first_index(v, '=') {
        Some(i) => v.take(i),
        None => v,
    }
}

/// A variable that `cross` keeps for itself.
pub open spec fn is_reserved(v: Seq<char>) -> bool {
    var_key(v) == "CROSS_RUNNER"@
}

/// A bare key that is no valid variable name: it is warned about.
pub open spec fn warns(v: Seq<char>) -> bool {
    first_index(v, '=') is None && !is_var_name(v)
}

/// Some variable of a list is warned about.
pub open spec fn warns_any(vs: Seq<Seq<char>>) -> bool {
    exists|i: int| 0 <= i < vs.len() && #[trigger] warns(vs[i])
}

/// Each of a list of variables, given to the engine with `-e`.
pub open spec fn dash_e(vs: Seq<Seq<char>>) -> Seq<Seq<char>>
    decreases vs.len(),
{
    if vs.len() == 0 {
        Seq::empty()
    } else {
        dash_e(vs.drop_last()) + seq!["-e"@, vs.last()]
    }
}

/// The variables of the host that are passed to the container as they
/// are (see [`is_passed_var`]), in order.
pub open spec fn passed_vars(keys: Seq<Seq<char>>) -> Seq<Seq<char>>
    decreases keys.len(),
{
    if keys.len() == 0 {
        Seq::empty()
    } else if is_passed_var(keys.last()) {
        passed_vars(keys.drop_last()).push(keys.last())
    } else {
        passed_vars(keys.drop_last())
    }
}

/// Only the record of a warning changes.
pub open spec fn only_warned(before: MessageInfo, after: MessageInfo) -> bool {
    after == (MessageInfo { has_warned: after.has_warned, ..before })
}

pub(crate) proof fn lemma_reserved_is_name()
    ensures
        is_var_name("CROSS_RUNNER"@),
{
    reveal_strlit("CROSS_RUNNER");
}

pub(crate) proof fn lemma_warns_any_push(vs: Seq<Seq<char>>, v: Seq<char>)
    ensures
        warns_any(vs.push(v)) == (warns_any(vs) || warns(v)),
{
    let w = vs.push(v);
    if warns_any(vs) {
        let i = choose|i: int| 0 <= i < vs.len() && #[trigger] warns(vs[i]);
        assert(w[i] == vs[i]);
    }
    if warns(v) {
        assert(w[vs.len() as int] == v);
    }
    if warns_any(w) {
        let i = choose|i: int| 0 <= i < w.len() && #[trigger] warns(w[i]);
        if i < vs.len() {
            assert(w[i] == vs[i]);
        }
    }
}

/// The variables to pass through, each checked (see [`validate_env_var`])
/// and given with `-e`: fails at the first one that `cross` keeps for
/// itself; bare keys that are no variable names are warned about, once.
pub fn passthrough_args(vars: &Vec<String>, msg_info: &mut MessageInfo) -> (r: Result<Vec<String>, EnvVarError>)
    ensures
        only_warned(*old(msg_info), *final(msg_info)),
        r is Ok <==> (forall|i: int| 0 <= i < vars@.len() ==> !is_reserved(#[trigger] vars@[i]@)),
        r matches Ok(args) ==> (views(args@) == dash_e(views(vars@))
            && final(msg_info).has_warned == (old(msg_info).has_warned || warns_any(views(vars@)))),
        r is Err ==> exists|i: int| 0 <= i < vars@.len() && is_reserved(#[trigger] vars@[i]@)
            && (forall|j: int| 0 <= j < i ==> !is_reserved(vars@[j]@))
            && final(msg_info).has_warned == (old(msg_info).has_warned || warns_any(views(vars@).take(i))),
{
    let ghost vs = views(vars@);
    let mut out: Vec<String> = Vec::new();
    let mut warned = false;
    let mut i: usize = 0;
    assert(vs.take(0) =~= Seq::<Seq<char>>::empty());
    while i < vars.len()
        invariant
            i <= vars@.len(),
            vs == views(vars@),
            vs.len() == vars@.len(),
            forall|j: int| 0 <= j < i ==> !is_reserved(#[trigger] vars@[j]@),
            warned == warns_any(vs.take(i as int)),
            only_warned(*old(msg_info), *msg_info),
            msg_info.has_warned == (old(msg_info).has_warned || warns_any(vs.take(i as int))),
            views(out@) == dash_e(vs.take(i as int)),
        decreases vars@.len() - i,
    {
        let var = vars[i].as_str();
        assert(vs[i as int] == var@);
        match validate_env_var(var, &mut warned, msg_info) {
            Ok(_) => {},
            Err(e) => {
                proof {
                    lemma_reserved_is_name();
                    assert(is_reserved(vars@[i as int]@));
                    assert(!warns(var@));
                }
                return Err(e);
            },
        }
        let ghost before = views(out@);
        out.push(String::from_str("-e"));
        out.push(copy_str(var));
        proof {
            assert(vs.take(i + 1) =~= vs.take(i as int).push(var@));
            lemma_warns_any_push(vs.take(i as int), var@);
            assert(vs.take(i + 1).drop_last() =~= vs.take(i as int));
            assert(views(out@) =~= before + seq!["-e"@, var@]);
        }
        i = i + 1;
    }
    assert(vs.take(i as int) =~= vs);
    Ok(out)
}

/// The variables of the host that configure cargo or `cross` (see
/// [`is_passthrough`]), each given with `-e`, in the order given.
pub fn configuration_envvars(keys: &Vec<String>) -> (r: Vec<String>)
    ensures
        views(r@) == dash_e(passed_vars(views(keys@))),
{
    let ghost ks = views(keys@);
    let mut out: Vec<String> = Vec::new();
    let mut i: usize = 0;
    assert(ks.take(0) =~= Seq::<Seq<char>>::empty());
    while i < keys.len()
        invariant
            i <= keys@.len(),
            ks == views(keys@),
            views(out@) == dash_e(passed_vars(ks.take(i as int))),
        decreases keys@.len() - i,
    {
        let key = keys[i].as_str();
        assert(ks.take(i + 1).drop_last() =~= ks.take(i as int));
        assert(ks.take(i + 1).last() == key@);
        if is_passthrough(key) {
            let ghost before = views(out@);
            out.push(String::from_str("-e"));
            out.push(copy_str(key));
            proof {
                let p = passed_vars(ks.take(i + 1));
                assert(p == passed_vars(ks.take(i as int)).push(key@));
                assert(p.drop_last() =~= passed_vars(ks.take(i as int)));
                assert(views(out@) =~= before + seq!["-e"@, key@]);
            }
        }
        i = i + 1;
    }
    assert(ks.take(i as int) =~= ks);
    out
}

/// What the run arguments read from the host: the names of its variables,
/// the user's name, the options for the engine (`CROSS_CONTAINER_OPTS`, and
/// the older `DOCKER_OPTS`), and the version of the toolchain's compiler.
#[derive(Debug, Clone)]
pub struct HostEnv {
    pub var_names: Vec<String>,
    pub username: Option<String>,
    pub container_opts: Option<String>,
    pub docker_opts: Option<String>,
    pub rustc_version: Option<(u64, u64, u64)>,
}

/// Why the run arguments could not be made.
#[derive(Debug, Clone, PartialEq, Eq)]
pub enum EnvArgsError {
    /// A variable to pass through is one that `cross` keeps for itself.
    Var(EnvVarError),
    /// The options for the engine could not be split into words.
    Opts(OptsError),
}

/// The options for the engine, `CROSS_CONTAINER_OPTS` before `DOCKER_OPTS`.
pub open spec fn engine_opts(env: HostEnv) -> Option<Seq<char>> {
    match env.container_opts {
        Some(o) => Some(o@),
        None => match env.docker_opts {
            Some(o) => Some(o@),
            None => None,
        },
    }
}

/// The version of the compiler, `1.0.0` where none is known (the oldest
/// compiler, which any library built for it links with).
pub open spec fn version_vars(v: Option<(u64, u64, u64)>) -> Seq<Seq<char>> {
    let (major, minor, patch) = match v {
        Some(x) => x,
        None => (1u64, 0u64, 0u64),
    };
    seq![
        "CROSS_RUSTC_MAJOR_VERSION="@ + decimal_of(major as nat),
        "CROSS_RUSTC_MINOR_VERSION="@ + decimal_of(minor as nat),
        "CROSS_RUSTC_PATCH_VERSION="@ + decimal_of(patch as nat),
    ]
}

/// The variables every container gets: the homes of xargo and cargo and
/// the sysroot as mounted, the target directory and the runner.
pub open spec fn fixed_vars(dirs: ToolchainDirectories, runner: Option<Seq<char>>) -> Seq<Seq<char>> {
    seq![
        "XARGO_HOME="@ + dirs.xargo_mount_path@,
        "CARGO_HOME="@ + dirs.cargo_mount_path@,
        "CROSS_RUST_SYSROOT="@ + dirs.sysroot_mount_path@,
        "CARGO_TARGET_DIR=/target"@,
        "CROSS_RUNNER="@ + match runner { Some(r) => r, None => Seq::empty() },
    ]
}

/// The variables of a container, in order: those passed through, the
/// fixed ones, zig's cache, the host's configuration, the user, the
/// options for the engine, and the compiler's version.
pub open spec fn env_args_of(
    passthrough: Seq<Seq<char>>,
    runner: Option<Seq<char>>,
    dirs: ToolchainDirectories,
    uses_zig: bool,
    env: HostEnv,
    opts: Seq<Seq<char>>,
) -> Seq<Seq<char>> {
    dash_e(passthrough)
        + dash_e(fixed_vars(dirs, runner))
        + (if uses_zig { seq!["-e"@, "XDG_CACHE_HOME=/target/.zig-cache"@] } else { Seq::empty() })
        + dash_e(passed_vars(views(env.var_names@)))
        + match env.username { Some(u) => seq!["-e"@, "USER="@ + u@], None => Seq::empty() }
        + opts
        + dash_e(version_vars(env.rustc_version))
}

fn prefixed(p: &str, s: &str) -> (r: String)
    ensures
        r@ == p@ + s@,
{
    let mut r = String::from_str(p);
    r.append(s);
    r
}

fn push_env(out: &mut Vec<String>, v: String)
    ensures
        views(final(out)@) == views(old(out)@) + seq!["-e"@, v@],
{
    let ghost before = views(out@);
    out.push(String::from_str("-e"));
    out.push(v);
    assert(views(out@) =~= before + seq!["-e"@, v@]);
}

fn push_all(out: &mut Vec<String>, items: Vec<String>)
    ensures
        views(final(out)@) == views(old(out)@) + views(items@),
{
    let ghost start = views(out@);
    let mut i: usize = 0;
    while i < items.len()
        invariant
            i <= items.len(),
            views(out@) == start + views(items@).take(i as int),
        decreases items.len() - i,
    {
        let ghost before = out@;
        out.push(copy_str(items[i].as_str()));
        assert(views(out@) =~= views(before).push(items@[i as int]@));
        assert(views(items@).take(i + 1) =~= views(items@).take(i as int).push(items@[i as int]@));
        assert(views(out@) =~= start + views(items@).take(i + 1));
        i = i + 1;
    }
    assert(views(items@).take(items.len() as int) =~= views(items@));
}

fn fixed_var_args(dirs: &ToolchainDirectories, runner: Option<&str>) -> (r: Vec<String>)
    ensures
        views(r@) == dash_e(fixed_vars(*dirs, match runner { Some(x) => Some(x@), None => None })),
{
    let mut out: Vec<String> = Vec::new();
    push_env(&mut out, prefixed("XARGO_HOME=", dirs.xargo_mount_path()));
    push_env(&mut out, prefixed("CARGO_HOME=", dirs.cargo_mount_path()));
    push_env(&mut out, prefixed("CROSS_RUST_SYSROOT=", dirs.sysroot_mount_path()));
    push_env(&mut out, String::from_str("CARGO_TARGET_DIR=/target"));
    let runner_var = match runner {
        Some(x) => prefixed("CROSS_RUNNER=", x),
        None => {
            let r = String::from_str("CROSS_RUNNER=");
            assert(r@ =~= "CROSS_RUNNER="@ + Seq::<char>::empty());
            r
        },
    };
    push_env(&mut out, runner_var);
    proof {
        let f = fixed_vars(*dirs, match runner { Some(x) => Some(x@), None => None });
        reveal_with_fuel(dash_e, 6);
        assert(f.drop_last().drop_last().drop_last().drop_last().drop_last() =~= Seq::<Seq<char>>::empty());
        assert(views(out@) =~= dash_e(f));
    }
    out
}

fn version_var_args(v: Option<(u64, u64, u64)>) -> (r: Vec<String>)
    ensures
        views(r@) == dash_e(version_vars(v)),
{
    let (major, minor, patch) = match v {
        Some(x) => x,
        None => (1u64, 0u64, 0u64),
    };
    let mut out: Vec<String> = Vec::new();
    push_env(&mut out, prefixed("CROSS_RUSTC_MAJOR_VERSION=", decimal(major as u128).as_str()));
    push_env(&mut out, prefixed("CROSS_RUSTC_MINOR_VERSION=", decimal(minor as u128).as_str()));
    push_env(&mut out, prefixed("CROSS_RUSTC_PATCH_VERSION=", decimal(patch as u128).as_str()));
    proof {
        let f = version_vars(v);
        reveal_with_fuel(dash_e, 4);
        assert(f.drop_last().drop_last().drop_last() =~= Seq::<Seq<char>>::empty());
        assert(views(out@) =~= dash_e(f));
    }
    out
}

/// The variables of a container (see [`env_args_of`]): the variables to
/// pass through are checked first (see [`passthrough_args`]); giving both
/// `CROSS_CONTAINER_OPTS` and `DOCKER_OPTS` is warned about, and the first
/// is used; options that cannot be split into words fail.
pub fn envvar_args(
    passthrough: &Vec<String>,
    runner: Option<&str>,
    dirs: &ToolchainDirectories,
    uses_zig: bool,
    env: &HostEnv,
    msg_info: &mut MessageInfo,
) -> (r: Result<Vec<String>, EnvArgsError>)
    ensures
        only_warned(*old(msg_info), *final(msg_info)),
        (forall|i: int| 0 <= i < passthrough@.len() ==> !is_reserved(#[trigger] passthrough@[i]@)) ==> {
            &&& final(msg_info).has_warned == (old(msg_info).has_warned || warns_any(views(passthrough@))
                || (env.container_opts is Some && env.docker_opts is Some))
            &&& match engine_opts(*env) {
                Some(o) => match r {
                    Ok(args) => shell_words_of(o) is Some && views(args@) == env_args_of(
                        views(passthrough@), match runner { Some(x) => Some(x@), None => None },
                        *dirs, uses_zig, *env, shell_words_of(o)->0),
                    Err(EnvArgsError::Opts(e)) => shell_words_of(o) is None && e.value@ == o,
                    Err(_) => false,
                },
                None => (r matches Ok(args) && views(args@) == env_args_of(
                    views(passthrough@), match runner { Some(x) => Some(x@), None => None },
                    *dirs, uses_zig, *env, Seq::empty())),
            }
        },
        !(forall|i: int| 0 <= i < passthrough@.len() ==> !is_reserved(#[trigger] passthrough@[i]@))
            ==> (r matches Err(EnvArgsError::Var(e)) && e == EnvVarError::Reserved),
{
    let mut out = match passthrough_args(passthrough, msg_info) {
        Ok(a) => a,
        Err(e) => return Err(EnvArgsError::Var(e)),
    };
    let ghost s1 = views(out@);
    push_all(&mut out, fixed_var_args(dirs, runner));
    let ghost s2 = views(out@);
    if uses_zig {
        push_env(&mut out, String::from_str("XDG_CACHE_HOME=/target/.zig-cache"));
    }
    let ghost s3 = views(out@);
    assert(s3 =~= s2 + (if uses_zig { seq!["-e"@, "XDG_CACHE_HOME=/target/.zig-cache"@] } else { Seq::empty() }));
    push_all(&mut out, configuration_envvars(&env.var_names));
    let ghost s4 = views(out@);
    match &env.username {
        Some(u) => push_env(&mut out, prefixed("USER=", u.as_str())),
        None => {},
    }
    let ghost s5 = views(out@);
    assert(s5 =~= s4 + match env.username { Some(u) => seq!["-e"@, "USER="@ + u@], None => Seq::empty() });
    let opts = match &env.container_opts {
        Some(o) => {
            if env.docker_opts.is_some() {
                msg_info.warn();
            }
            Some(o)
        },
        None => match &env.docker_opts {
            Some(o) => Some(o),
            None => None,
        },
    };
    let ghost s6a = views(out@);
    match opts {
        Some(o) => match Engine::parse_opts(o.as_str()) {
            Ok(words) => push_all(&mut out, words),
            Err(e) => return Err(EnvArgsError::Opts(e)),
        },
        None => {},
    }
    let ghost s6 = views(out@);
    push_all(&mut out, version_var_args(env.rustc_version));
    proof {
        if opts is None {
            assert(s6 =~= s6a + Seq::<Seq<char>>::empty());
        }
    }
    Ok(out)
}

/// The user namespace of the container (`CROSS_CONTAINER_USER_NAMESPACE`):
/// the host's when unset or `auto`, none for `none`, else the one named.
pub open spec fn userns_of(ns: Option<Seq<char>>) -> Seq<Seq<char>> {
    match ns {
        None => seq!["--userns"@, "host"@],
        Some(n) => if n == "auto"@ {
            seq!["--userns"@, "host"@]
        } else if n == "none"@ {
            Seq::empty()
        } else {
            seq!["--userns"@, n]
        },
    }
}

/// The arguments that set the container's user namespace (see
/// [`userns_of`]).
pub fn userns_args(ns: Option<&str>) -> (r: Vec<String>)
    ensures
        views(r@) == userns_of(match ns { Some(n) => Some(n@), None => None }),
{
    let mut out: Vec<String> = Vec::new();
    let name = match ns {
        None => Some(String::from_str("host")),
        Some(n) => if str_eq(n, "auto") {
            Some(String::from_str("host"))
        } else if str_eq(n, "none") {
            None
        } else {
            Some(copy_str(n))
        },
    };
    match name {
        Some(n) => {
            out.push(String::from_str("--userns"));
            out.push(n);
        },
        None => {},
    }
    assert(views(out@) =~= userns_of(match ns { Some(n) => Some(n@), None => None }));
    out
}

/// The user the container runs as: the host's user and group, so that the
/// files it writes belong to them; none for a rootless engine.
pub fn user_id_args(is_rootless: bool, uid: &str, gid: &str) -> (r: Vec<String>)
    ensures
        views(r@) == if is_rootless { Seq::empty() } else { seq!["--user"@, uid@ + ":"@ + gid@] },
{
    let mut out: Vec<String> = Vec::new();
    if !is_rootless {
        out.push(String::from_str("--user"));
        let mut id = copy_str(uid);
        id.append(":");
        id.append(gid);
        out.push(id);
    }
    assert(views(out@) =~= if is_rootless { Seq::empty() } else { seq!["--user"@, uid@ + ":"@ + gid@] });
    out
}

/// A command line as a shell reads it: the program and its arguments,
/// each quoted where needed (see [`shell_escape_of`]), with spaces between.
pub open spec fn command_line_of(program: Seq<char>, args: Seq<Seq<char>>) -> Seq<char>
    decreases args.len(),
{
    if args.len() == 0 {
        shell_escape_of(program)
    } else {
        command_line_of(program, args.drop_last()) + " "@ + shell_escape_of(args.last())
    }
}

/// A command line as a shell reads it (see [`command_line_of`]).
pub fn command_line(cmd: &SafeCommand) -> (r: String)
    ensures
        r@ == command_line_of(cmd.program@, views(cmd.args@)),
{
    let mut r = shell_escape(cmd.program.as_str());
    let mut i: usize = 0;
    while i < cmd.args.len()
        invariant
            i <= cmd.args@.len(),
            r@ == command_line_of(cmd.program@, views(cmd.args@).take(i as int)),
        decreases cmd.args@.len() - i,
    {
        assert(views(cmd.args@).take(i + 1).drop_last() =~= views(cmd.args@).take(i as int));
        r.append(" ");
        let e = shell_escape(cmd.args[i].as_str());
        r.append(e.as_str());
        i = i + 1;
    }
    assert(views(cmd.args@).take(i as int) =~= views(cmd.args@));
    r
}

/// The command the container runs: the build command through a shell,
/// with the toolchain's binaries on its path.
pub fn build_command_args(sysroot_mount_path: &str, cmd: &SafeCommand) -> (r: Vec<String>)
    ensures
        views(r@) == seq![
            "sh"@,
            "-c"@,
            "PATH=\"$PATH\":\""@ + sysroot_mount_path@ + "/bin\" "@ + command_line_of(cmd.program@, views(cmd.args@)),
        ],
{
    let mut c = String::from_str("PATH=\"$PATH\":\"");
    c.append(sysroot_mount_path);
    c.append("/bin\" ");
    let line = command_line(cmd);
    c.append(line.as_str());
    let out = vec![String::from_str("sh"), String::from_str("-c"), c];
    assert(views(out@) =~= seq![
        "sh"@,
        "-c"@,
        "PATH=\"$PATH\":\""@ + sysroot_mount_path@ + "/bin\" "@ + command_line_of(cmd.program@, views(cmd.args@)),
    ]);
    out
}

/// Where the seccomp profile for a target is written: `seccomp.json` in the
/// target's directory under the target directory.
pub open spec fn seccomp_path_of(metadata: CargoMetadata, triple: Seq<char>) -> Seq<char> {
    join_of(join_of(metadata.target_directory@, triple), "seccomp.json"@)
}

/// Where the seccomp profile for a target is written (see
/// [`seccomp_path_of`]).
pub fn seccomp_path(metadata: &CargoMetadata, target: &Target) -> (r: String)
    ensures
        r@ == seccomp_path_of(*metadata, target.spec_triple()),
{
    let dir = join(metadata.target_directory.as_str(), target.triple());
    join(dir.as_str(), "seccomp.json")
}

/// The seccomp profile of the container, for the targets that need one:
/// none at all (`unconfined`) for docker on Windows, which cannot read a
/// profile, else the profile written for the target.
pub fn seccomp_args(needs_seccomp: bool, is_docker: bool, on_windows: bool, profile_path: &str) -> (r: Vec<String>)
    ensures
        views(r@) == if !needs_seccomp {
            Seq::empty()
        } else if is_docker && on_windows {
            seq!["--security-opt"@, "seccomp=unconfined"@]
        } else {
            seq!["--security-opt"@, "seccomp="@ + profile_path@]
        },
{
    let mut out: Vec<String> = Vec::new();
    if needs_seccomp {
        out.push(String::from_str("--security-opt"));
        if is_docker && on_windows {
            out.push(String::from_str("seccomp=unconfined"));
        } else {
            let mut s = String::from_str("seccomp=");
            s.append(profile_path);
            out.push(s);
        }
    }
    assert(views(out@) =~= if !needs_seccomp {
        Seq::empty()
    } else if is_docker && on_windows {
        seq!["--security-opt"@, "seccomp=unconfined"@]
    } else {
        seq!["--security-opt"@, "seccomp="@ + profile_path@]
    });
    out
}

} // verus!
