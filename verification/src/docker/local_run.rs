//! The `run` command of a local engine: which volumes the configuration
//! mounts, whether the engine runs rootless, and every argument of the
//! command in order.

use vstd::prelude::*;
use vstd::string::StringExecFns;
use crate::config::{Environment, bool_of, bool_from_envvar};
use crate::docker::container_args::{
    userns_of, userns_args, seccomp_args, user_id_args, build_command_args, command_line_of, var_key, is_reserved,
    warns, warns_any, only_warned, lemma_reserved_is_name, lemma_warns_any_push,
};
use crate::docker::shared::{EnvVarError, validate_env_var};
use crate::extensions::SafeCommand;
use crate::shell::{MessageInfo, opt_view};
use crate::text::{copy_str, views, str_eq, first_index};

verus! {

broadcast use vstd::string::group_string_axioms;

/// Whether the engine runs rootless (`CROSS_ROOTLESS_CONTAINER_ENGINE`):
/// unset or `auto` means every engine but docker; else the variable's
/// truth.
pub fn is_rootless(setting: Option<&str>, is_docker: bool) -> (r: bool)
    ensures
        r == match setting {
            None => !is_docker,
            Some(v) => if v@ == "auto"@ { !is_docker } else { bool_of(v@) },
        },
{
    match setting {
        None => !is_docker,
        Some(v) => if str_eq(v, "auto") { !is_docker } else { bool_from_envvar(v) },
    }
}

/// The value of a volume variable: the one given with `=`, else the
/// host's variable of that name.
pub open spec fn volume_value(v: Seq<char>, env: Environment) -> Option<Seq<char>> {
    match first_index(v, '=') {
        Some(i) => Some(v.skip(i + 1)),
        None => env.spec_var(v),
    }
}

/// The volumes to mount, in order: each variable's key with its value,
/// for the variables that have one (see [`volume_value`]).
pub open spec fn volume_entries_of(vs: Seq<Seq<char>>, env: Environment) -> Seq<(Seq<char>, Seq<char>)>
    decreases vs.len(),
{
    if vs.len() == 0 {
        Seq::empty()
    } else {
        match volume_value(vs.last(), env) {
            Some(x) => volume_entries_of(vs.drop_last(), env).push((var_key(vs.last()), x)),
            None => volume_entries_of(vs.drop_last(), env),
        }
    }
}

/// The volumes the configuration mounts (see [`volume_entries_of`]): each
/// variable is checked first (see [`validate_env_var`]), failing at the
/// first that `cross` keeps for itself; bare keys that are no variable
/// names are warned about, once.
pub fn volume_entries(vars: &Vec<String>, env: &Environment, msg_info: &mut MessageInfo)
    -> (r: Result<Vec<(String, String)>, EnvVarError>)
    ensures
        only_warned(*old(msg_info), *final(msg_info)),
        r is Ok <==> (forall|i: int| 0 <= i < vars@.len() ==> !is_reserved(#[trigger] vars@[i]@)),
        r matches Ok(es) ==> (es@.map_values(|p: (String, String)| (p.0@, p.1@)) == volume_entries_of(views(vars@), *env)
            && final(msg_info).has_warned == (old(msg_info).has_warned || warns_any(views(vars@)))),
        r is Err ==> exists|i: int| 0 <= i < vars@.len() && is_reserved(#[trigger] vars@[i]@)
            && (forall|j: int| 0 <= j < i ==> !is_reserved(vars@[j]@))
            && final(msg_info).has_warned == (old(msg_info).has_warned || warns_any(views(vars@).take(i))),
{
    let ghost vs = views(vars@);
    let mut out: Vec<(String, String)> = Vec::new();
    let mut warned = false;
    let mut i: usize = 0;
    assert(vs.take(0) =~= Seq::<Seq<char>>::empty());
    while i < vars.len()
        invariant
            i <= vars@.len(),
            vs == views(vars@),
            vs.len() == vars@.len(),
            forall|j: int| 0 <= j < i ==> !is_reserved(#[trigger] vars@[j]@),
            warned == warns_any(vs.take(i as int)),
            only_warned(*old(msg_info), *msg_info),
            msg_info.has_warned == (old(msg_info).has_warned || warns_any(vs.take(i as int))),
            out@.map_values(|p: (String, String)| (p.0@, p.1@)) == volume_entries_of(vs.take(i as int), *env),
        decreases vars@.len() - i,
    {
        let var = vars[i].as_str();
        assert(vs[i as int] == var@);
        let (key, value) = match validate_env_var(var, &mut warned, msg_info) {
            Ok(kv) => kv,
            Err(e) => {
                proof {
                    lemma_reserved_is_name();
                    assert(is_reserved(vars@[i as int]@));
                    assert(!warns(var@));
                }
                return Err(e);
            },
        };
        proof {
            assert(vs.take(i + 1) =~= vs.take(i as int).push(var@));
            assert(vs.take(i + 1).drop_last() =~= vs.take(i as int));
            lemma_warns_any_push(vs.take(i as int), var@);
        }
        let ghost before = out@;
        let found = match value {
            Some(v) => Some(v),
            None => env.get_var(key.as_str()),
        };
        match found {
            Some(v) => {
                let ghost kv = (key@, v@);
                out.push((key, v));
                assert(out@.map_values(|p: (String, String)| (p.0@, p.1@))
                    =~= before.map_values(|p: (String, String)| (p.0@, p.1@)).push(kv));
            },
            None => {},
        }
        i += 1;
    }
    assert(vs.take(i as int) =~= vs);
    Ok(out)
}

/// A volume of the configuration: its variable, where the container sees
/// it (the path as given), and where it is on the host.
#[derive(Debug, Clone, PartialEq, Eq)]
pub struct RunVolume {
    pub key: String,
    pub mount_path: String,
    pub host_path: String,
}

/// Everything the `run` command of a local engine is made of.
#[derive(Debug, Clone)]
pub struct RunInputs {
    /// `CROSS_CONTAINER_USER_NAMESPACE`.
    pub userns: Option<String>,
    /// The platform to ask the engine for, where it does not run it.
    pub platform: Option<String>,
    /// The variables of the container, as `-e` arguments.
    pub env_args: Vec<String>,
    pub volumes: Vec<RunVolume>,
    /// The path dependencies of the workspace: host path and mount path.
    pub dependencies: Vec<(String, String)>,
    pub container_id: String,
    pub needs_seccomp: bool,
    pub is_docker: bool,
    pub on_windows: bool,
    pub seccomp_profile: String,
    pub rootless: bool,
    pub uid: String,
    pub gid: String,
    pub xargo_host: String,
    pub xargo_mount: String,
    pub cargo_host: String,
    pub cargo_mount: String,
    pub host_root: String,
    pub mount_root: String,
    pub sysroot_host: String,
    pub sysroot_mount: String,
    pub target_dir: String,
    pub cwd: String,
    pub nix_store: Option<String>,
    /// Standard input, output and error are terminals.
    pub tty: bool,
    /// Standard input stays open (`-i`).
    pub interactive: bool,
    /// Mounts are relabelled for SELinux (`:z`); podman on macOS takes no
    /// label.
    pub selinux_labels: bool,
    pub image: String,
    pub command: SafeCommand,
}

/// The options of a writable mount.
pub open spec fn label_of(inp: RunInputs) -> Seq<char> {
    if inp.selinux_labels { ":z"@ } else { ""@ }
}

/// The options of a read-only mount.
pub open spec fn label_ro_of(inp: RunInputs) -> Seq<char> {
    if inp.selinux_labels { ":z,ro"@ } else { ":ro"@ }
}

/// A bind mount of `host` at `mount`, with its options.
pub open spec fn mount_arg(host: Seq<char>, mount: Seq<char>, options: Seq<char>) -> Seq<Seq<char>> {
    seq!["-v"@, host + ":"@ + mount + options]
}

/// The volumes of the configuration: each mounted at its path, with its
/// variable set to that path.
pub open spec fn volume_args_of(vs: Seq<RunVolume>, label: Seq<char>) -> Seq<Seq<char>>
    decreases vs.len(),
{
    if vs.len() == 0 {
        Seq::empty()
    } else {
        let v = vs.last();
        volume_args_of(vs.drop_last(), label) + mount_arg(v.host_path@, v.mount_path@, label)
            + seq!["-e"@, v.key@ + "="@ + v.mount_path@]
    }
}

/// The path dependencies, each mounted at its path.
pub open spec fn dependency_args_of(ds: Seq<(String, String)>, label: Seq<char>) -> Seq<Seq<char>>
    decreases ds.len(),
{
    if ds.len() == 0 {
        Seq::empty()
    } else {
        dependency_args_of(ds.drop_last(), label) + mount_arg(ds.last().0@, ds.last().1@, label)
    }
}

/// The seccomp profile of the container (see
/// [`crate::docker::container_args::seccomp_args`]).
pub open spec fn seccomp_args_of(needs: bool, is_docker: bool, on_windows: bool, profile: Seq<char>) -> Seq<Seq<char>> {
    if !needs {
        Seq::empty()
    } else if is_docker && on_windows {
        seq!["--security-opt"@, "seccomp=unconfined"@]
    } else {
        seq!["--security-opt"@, "seccomp="@ + profile]
    }
}

/// The platform to ask the engine for, where there is one.
pub open spec fn platform_args_of(platform: Option<String>) -> Seq<Seq<char>> {
    match platform {
        Some(p) => seq!["--platform"@, p@],
        None => Seq::empty(),
    }
}

/// The options of the `run` command: the user namespace, the platform,
/// the variables, the configured volumes and the path dependencies, the
/// container's name (removed when it exits), the seccomp profile and the
/// user.
pub open spec fn run_options_of(inp: RunInputs) -> Seq<Seq<char>> {
    seq!["run"@]
        + userns_of(opt_view(inp.userns))
        + platform_args_of(inp.platform)
        + views(inp.env_args@)
        + volume_args_of(inp.volumes@, label_of(inp))
        + dependency_args_of(inp.dependencies@, label_of(inp))
        + seq!["--name"@, inp.container_id@, "--rm"@]
        + seccomp_args_of(inp.needs_seccomp, inp.is_docker, inp.on_windows, inp.seccomp_profile@)
        + (if inp.rootless { Seq::empty() } else { seq!["--user"@, inp.uid@ + ":"@ + inp.gid@] })
}

/// The mounts of the toolchain and the project: the homes of xargo and
/// cargo (without cargo's `bin`), the project, the toolchain (read-only)
/// and the target directory, then the working directory and the nix store.
pub open spec fn run_mounts_of(inp: RunInputs) -> Seq<Seq<char>> {
    mount_arg(inp.xargo_host@, inp.xargo_mount@, label_of(inp))
        + mount_arg(inp.cargo_host@, inp.cargo_mount@, label_of(inp))
        + seq!["-v"@, inp.cargo_mount@ + "/bin"@]
        + mount_arg(inp.host_root@, inp.mount_root@, label_of(inp))
        + mount_arg(inp.sysroot_host@, inp.sysroot_mount@, label_ro_of(inp))
        + mount_arg(inp.target_dir@, "/target"@, label_of(inp))
        + seq!["-w"@, inp.cwd@]
        + match inp.nix_store { Some(n) => mount_arg(n@, n@, label_of(inp)), None => Seq::empty() }
}

/// The end of the `run` command: a terminal where there is one, open
/// input when interactive, the image, and the command, run with the
/// toolchain's `bin` on the path.
pub open spec fn run_command_of(inp: RunInputs) -> Seq<Seq<char>> {
    (if inp.tty { seq!["-t"@] } else { Seq::empty() })
        + (if inp.interactive { seq!["-i"@] } else { Seq::empty() })
        + seq![inp.image@]
        + seq![
            "sh"@,
            "-c"@,
            "PATH=\"$PATH\":\""@ + inp.sysroot_mount@ + "/bin\" "@
                + command_line_of(inp.command.program@, views(inp.command.args@)),
        ]
}

/// The `run` command of a local engine, argument by argument.
pub open spec fn docker_run_args_of(inp: RunInputs) -> Seq<Seq<char>> {
    run_options_of(inp) + run_mounts_of(inp) + run_command_of(inp)
}

fn push_all(out: &mut Vec<String>, items: Vec<String>)
    ensures
        views(final(out)@) == views(old(out)@) + views(items@),
{
    let ghost start = views(out@);
    let mut i: usize = 0;
    while i < items.len()
        invariant
            i <= items.len(),
            views(out@) == start + views(items@).take(i as int),
        decreases items.len() - i,
    {
        let ghost before = out@;
        out.push(copy_str(items[i].as_str()));
        assert(views(out@) =~= views(before).push(items@[i as int]@));
        assert(views(items@).take(i + 1) =~= views(items@).take(i as int).push(items@[i as int]@));
        assert(views(out@) =~= start + views(items@).take(i + 1));
        i = i + 1;
    }
    assert(views(items@).take(items.len() as int) =~= views(items@));
}

fn push_strs(out: &mut Vec<String>, a: &str)
    ensures
        views(final(out)@) == views(old(out)@) + seq![a@],
{
    let ghost before = views(out@);
    out.push(copy_str(a));
    assert(views(out@) =~= before + seq![a@]);
}

fn push_mount(out: &mut Vec<String>, host: &str, mount: &str, options: &str)
    ensures
        views(final(out)@) == views(old(out)@) + mount_arg(host@, mount@, options@),
{
    let ghost before = views(out@);
    out.push(String::from_str("-v"));
    let mut m = copy_str(host);
    m.append(":");
    m.append(mount);
    m.append(options);
    out.push(m);
    assert(views(out@) =~= before + mount_arg(host@, mount@, options@));
}

fn push_volumes(out: &mut Vec<String>, vs: &Vec<RunVolume>, label: &str)
    ensures
        views(final(out)@) == views(old(out)@) + volume_args_of(vs@, label@),
{
    let ghost start = views(out@);
    let mut i: usize = 0;
    assert(vs@.take(0) =~= Seq::<RunVolume>::empty());
    while i < vs.len()
        invariant
            i <= vs@.len(),
            views(out@) == start + volume_args_of(vs@.take(i as int), label@),
        decreases vs@.len() - i,
    {
        let ghost before = views(out@);
        let v = &vs[i];
        push_mount(out, v.host_path.as_str(), v.mount_path.as_str(), label);
        let ghost mid = views(out@);
        out.push(String::from_str("-e"));
        let mut e = copy_str(v.key.as_str());
        e.append("=");
        e.append(v.mount_path.as_str());
        out.push(e);
        proof {
            assert(views(out@) =~= mid + seq!["-e"@, v.key@ + "="@ + v.mount_path@]);
            assert(vs@.take(i + 1).drop_last() =~= vs@.take(i as int));
            assert(vs@.take(i + 1).last() == vs@[i as int]);
            assert(views(out@) =~= start + volume_args_of(vs@.take(i + 1), label@));
        }
        i += 1;
    }
    assert(vs@.take(i as int) =~= vs@);
}

fn push_dependencies(out: &mut Vec<String>, ds: &Vec<(String, String)>, label: &str)
    ensures
        views(final(out)@) == views(old(out)@) + dependency_args_of(ds@, label@),
{
    let ghost start = views(out@);
    let mut i: usize = 0;
    assert(ds@.take(0) =~= Seq::<(String, String)>::empty());
    while i < ds.len()
        invariant
            i <= ds@.len(),
            views(out@) == start + dependency_args_of(ds@.take(i as int), label@),
        decreases ds@.len() - i,
    {
        push_mount(out, ds[i].0.as_str(), ds[i].1.as_str(), label);
        proof {
            assert(ds@.take(i + 1).drop_last() =~= ds@.take(i as int));
            assert(ds@.take(i + 1).last() == ds@[i as int]);
            assert(views(out@) =~= start + dependency_args_of(ds@.take(i + 1), label@));
        }
        i += 1;
    }
    assert(ds@.take(i as int) =~= ds@);
}

#[verifier::rlimit(50)]
fn push_options(out: &mut Vec<String>, inp: &RunInputs, label: &str)
    requires
        label@ == label_of(*inp),
    ensures
        views(final(out)@) == views(old(out)@) + run_options_of(*inp),
{
    let ghost s0 = views(out@);
    out.push(String::from_str("run"));
    push_all(out, userns_args(match &inp.userns { Some(u) => Some(u.as_str()), None => None }));
    proof {
        assert(opt_view(inp.userns) == match inp.userns { Some(u) => Some(u@), None => None::<Seq<char>> });
    }
    let ghost a1 = seq!["run"@] + userns_of(opt_view(inp.userns));
    assert(views(out@) =~= s0 + a1);
    let ghost s1 = views(out@);
    match &inp.platform {
        Some(p) => {
            out.push(String::from_str("--platform"));
            out.push(p.clone());
            assert(views(out@) =~= s1 + seq!["--platform"@, p@]);
        },
        None => {
            assert(views(out@) =~= s1 + Seq::<Seq<char>>::empty());
        },
    }
    assert(views(out@) == s1 + platform_args_of(inp.platform));
    let ghost a2 = a1 + platform_args_of(inp.platform);
    assert(views(out@) =~= s0 + a2);
    push_all(out, inp.env_args.clone());
    let ghost a3 = a2 + views(inp.env_args@);
    assert(views(out@) =~= s0 + a3);
    push_volumes(out, &inp.volumes, label);
    let ghost a4 = a3 + volume_args_of(inp.volumes@, label_of(*inp));
    assert(views(out@) =~= s0 + a4);
    push_dependencies(out, &inp.dependencies, label);
    let ghost a5 = a4 + dependency_args_of(inp.dependencies@, label_of(*inp));
    assert(views(out@) =~= s0 + a5);
    let ghost s2 = views(out@);
    out.push(String::from_str("--name"));
    out.push(inp.container_id.clone());
    out.push(String::from_str("--rm"));
    let ghost a6 = a5 + seq!["--name"@, inp.container_id@, "--rm"@];
    assert(views(out@) =~= s2 + seq!["--name"@, inp.container_id@, "--rm"@]);
    assert(views(out@) =~= s0 + a6);
    push_all(out, seccomp_args(inp.needs_seccomp, inp.is_docker, inp.on_windows, inp.seccomp_profile.as_str()));
    let ghost a7 = a6 + seccomp_args_of(inp.needs_seccomp, inp.is_docker, inp.on_windows, inp.seccomp_profile@);
    assert(views(out@) =~= s0 + a7);
    push_all(out, user_id_args(inp.rootless, inp.uid.as_str(), inp.gid.as_str()));
    let ghost a8 = a7 + (if inp.rootless { Seq::empty() } else { seq!["--user"@, inp.uid@ + ":"@ + inp.gid@] });
    assert(views(out@) =~= s0 + a8);
    assert(a8 == run_options_of(*inp));
}

fn push_mounts(out: &mut Vec<String>, inp: &RunInputs, label: &str, label_ro: &str)
    requires
        label@ == label_of(*inp),
        label_ro@ == label_ro_of(*inp),
    ensures
        views(final(out)@) == views(old(out)@) + run_mounts_of(*inp),
{
    let ghost s0 = views(out@);
    push_mount(out, inp.xargo_host.as_str(), inp.xargo_mount.as_str(), label);
    push_mount(out, inp.cargo_host.as_str(), inp.cargo_mount.as_str(), label);
    let ghost s3 = views(out@);
    out.push(String::from_str("-v"));
    let mut bin = copy_str(inp.cargo_mount.as_str());
    bin.append("/bin");
    out.push(bin);
    assert(views(out@) =~= s3 + seq!["-v"@, inp.cargo_mount@ + "/bin"@]);
    push_mount(out, inp.host_root.as_str(), inp.mount_root.as_str(), label);
    push_mount(out, inp.sysroot_host.as_str(), inp.sysroot_mount.as_str(), label_ro);
    push_mount(out, inp.target_dir.as_str(), "/target", label);
    let ghost s4 = views(out@);
    out.push(String::from_str("-w"));
    out.push(inp.cwd.clone());
    assert(views(out@) =~= s4 + seq!["-w"@, inp.cwd@]);
    let ghost s5 = views(out@);
    match &inp.nix_store {
        Some(n) => push_mount(out, n.as_str(), n.as_str(), label),
        None => {},
    }
    assert(views(out@) =~= s5 + match inp.nix_store { Some(n) => mount_arg(n@, n@, label@), None => Seq::empty() });
    assert(views(out@) =~= s0 + run_mounts_of(*inp));
}

fn push_command(out: &mut Vec<String>, inp: &RunInputs)
    ensures
        views(final(out)@) == views(old(out)@) + run_command_of(*inp),
{
    let ghost s0 = views(out@);
    if inp.tty {
        out.push(String::from_str("-t"));
    }
    assert(views(out@) =~= s0 + (if inp.tty { seq!["-t"@] } else { Seq::empty() }));
    let ghost s1 = views(out@);
    if inp.interactive {
        out.push(String::from_str("-i"));
    }
    assert(views(out@) =~= s1 + (if inp.interactive { seq!["-i"@] } else { Seq::empty() }));
    push_strs(out, inp.image.as_str());
    push_all(out, build_command_args(inp.sysroot_mount.as_str(), &inp.command));
    assert(views(out@) =~= s0 + run_command_of(*inp));
}

/// The `run` command of a local engine (see [`docker_run_args_of`]).
pub fn docker_run_args(inp: &RunInputs) -> (r: Vec<String>)
    ensures
        views(r@) == docker_run_args_of(*inp),
{
    let (label, label_ro) = if inp.selinux_labels { (":z", ":z,ro") } else { ("", ":ro") };
    proof {
        reveal_strlit(":z");
        reveal_strlit(":z,ro");
        reveal_strlit("");
        reveal_strlit(":ro");
    }
    let mut out: Vec<String> = Vec::new();
    push_options(&mut out, inp, label);
    push_mounts(&mut out, inp, label, label_ro);
    push_command(&mut out, inp);
    assert(views(out@) =~= docker_run_args_of(*inp));
    out
}

} // verus!
