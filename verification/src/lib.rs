//! Cross compilation and cross testing of Rust crates: the configuration,
//! argument handling and container-image logic of `cross`.

pub mod text;
pub mod target;
pub mod rustc;

pub use target::{CommandVariant, Target, TargetTriple};
pub use rustc::TargetList;
pub mod cargo;
pub mod file;

pub use cargo::{CargoMetadata, Subcommand};
pub use file::pretty_path;
pub mod config;
pub mod shell;
pub mod cli;
pub mod docker;
pub mod cross_toml;
pub mod cargo_toml;
pub mod toml_text;
pub mod commands;
pub mod toml_config;
pub mod rustup;
pub mod runner;
pub mod extensions;

use vstd::prelude::*;
use vstd::string::StringExecFns;
use crate::cli::Args;
use crate::config::{Config, opt_bool};
use crate::cross_toml::BuildStd;
use crate::text::{views, has_prefix, has_infix, starts_with, str_eq, contains, copy_str, copy_strings, substring, chars_of};
use crate::target::supported;
use crate::docker::engine::Engine;
use crate::docker::image::{Image, ImageError, PossibleImage, PlatformError, ImagePlatform, target_platform, definite_platform};
use crate::docker::shared::{
    get_image, GetImageError, image_choice_rel, user_image_rel, compatible_images, target_name_of,
};
use crate::rustc::{QualifiedToolchain, Toolchain, toolchain_of, qualified_as, remove_all};
use crate::shell::{MessageInfo, opt_view};

verus! {

broadcast use vstd::string::group_string_axioms;

/// What the build script recorded of the commit `cross` was built from;
/// empty for a build outside a repository.
pub fn commit_info() -> (r: &'static str)
    ensures
        r@.len() == 0,
{
    proof { reveal_strlit(""); }
    ""
}

/// A triple for zig, with the version of the C library it links against.
pub open spec fn libc_triple(triple: Seq<char>, zig_version: Option<Seq<char>>) -> Seq<char> {
    match zig_version {
        Some(v) => triple + "."@ + v,
        None => triple,
    }
}

fn add_libc_version(triple: &str, zig_version: Option<&str>) -> (r: String)
    ensures
        r@ == libc_triple(triple@, match zig_version { Some(v) => Some(v@), None => None }),
{
    match zig_version {
        Some(libc) => {
            let mut r = copy_str(triple);
            r.append(".");
            r.append(libc);
            r
        },
        None => copy_str(triple),
    }
}

/// The arguments without any `--target`, its value, or `--target=...`.
pub open spec fn strip_target(a: Seq<Seq<char>>) -> Seq<Seq<char>>
    decreases a.len(),
{
    if a.len() == 0 {
        Seq::empty()
    } else if a[0] == "--target"@ {
        if a.len() >= 2 { strip_target(a.skip(2)) } else { Seq::empty() }
    } else if has_prefix(a[0], "--target="@) {
        strip_target(a.skip(1))
    } else {
        seq![a[0]] + strip_target(a.skip(1))
    }
}

/// The arguments with the C library version added to every target.
pub open spec fn with_libc(a: Seq<Seq<char>>, v: Seq<char>) -> Seq<Seq<char>>
    decreases a.len(),
{
    if a.len() == 0 {
        Seq::empty()
    } else if a[0] == "--target"@ {
        if a.len() >= 2 {
            seq!["--target"@, libc_triple(a[1], Some(v))] + with_libc(a.skip(2), v)
        } else {
            seq!["--target"@]
        }
    } else if has_prefix(a[0], "--target="@) {
        seq!["--target="@ + libc_triple(a[0].skip(9), Some(v))] + with_libc(a.skip(1), v)
    } else {
        seq![a[0]] + with_libc(a.skip(1), v)
    }
}

/// Some argument starts with `--target`.
pub open spec fn has_target_arg(a: Seq<Seq<char>>) -> bool {
    exists|i: int| 0 <= i < a.len() && has_prefix(#[trigger] a[i], "--target"@)
}

/// The crates joined by `,`.
pub open spec fn join_commas(v: Seq<Seq<char>>) -> Seq<char>
    decreases v.len(),
{
    if v.len() == 0 {
        Seq::empty()
    } else if v.len() == 1 {
        v[0]
    } else {
        join_commas(v.drop_last()) + ","@ + v.last()
    }
}

/// The arguments for cargo: the command line with the target handled
/// (taken out for a subcommand without one; added where none is given;
/// given the C library version for zig), `-Zdoctest-xcompile` for the tests
/// of a nightly toolchain with doctests enabled, `-Zbuild-std` where the
/// standard library is built, and the arguments after `--`.
pub open spec fn filtered_args_of(
    zig_version: Option<Seq<char>>,
    cargo_args: Seq<Seq<char>>,
    rest_args: Seq<Seq<char>>,
    subcommand: Option<crate::cargo::Subcommand>,
    triple: Seq<char>,
    doctests: bool,
    is_nightly: bool,
    build_std: Option<Option<Seq<Seq<char>>>>,
) -> Seq<Seq<char>> {
    let base = if subcommand is Some && subcommand->0 == crate::cargo::Subcommand::Metadata {
        strip_target(cargo_args)
    } else if !has_target_arg(cargo_args) {
        cargo_args + seq!["--target"@, libc_triple(triple, zig_version)]
    } else if zig_version is Some {
        with_libc(cargo_args, zig_version->0)
    } else {
        cargo_args
    };
    let with_doc = if subcommand == Some(crate::cargo::Subcommand::Test) && doctests && is_nightly {
        base.push("-Zdoctest-xcompile"@)
    } else {
        base
    };
    let with_std = match build_std {
        Some(Some(crates)) => with_doc.push("-Zbuild-std="@ + join_commas(crates)),
        Some(None) => with_doc.push("-Zbuild-std"@),
        None => with_doc,
    };
    with_std + rest_args
}

/// The crates of an enabled build-std setting (`Some(None)` for a flag),
/// `None` where the standard library is not built.
pub open spec fn build_std_arg(b: BuildStd) -> Option<Option<Seq<Seq<char>>>> {
    match b {
        BuildStd::Bool(true) => Some(None),
        BuildStd::Bool(false) => None,
        BuildStd::Crates(v) => if v@.len() > 0 { Some(Some(views(v@))) } else { None },
    }
}

fn strip_target_exec(a: &Vec<String>) -> (r: Vec<String>)
    ensures
        views(r@) == strip_target(views(a@)),
{
    let ghost av = views(a@);
    let mut r: Vec<String> = Vec::new();
    let mut i: usize = 0;
    assert(av.skip(0) == av);
    while i < a.len()
        invariant
            i <= a.len(),
            av == views(a@),
            strip_target(av) == views(r@) + strip_target(av.skip(i as int)),
        decreases a.len() - i,
    {
        let ghost rest = av.skip(i as int);
        assert(rest[0] == a@[i as int]@);
        if str_eq(a[i].as_str(), "--target") {
            if i + 1 < a.len() {
                assert(rest.skip(2) == av.skip(i + 2));
                i = i + 2;
            } else {
                assert(strip_target(rest) == Seq::<Seq<char>>::empty());
                assert(views(r@) + Seq::<Seq<char>>::empty() == views(r@));
                assert(av.skip(i + 1).len() == 0);
                i = i + 1;
            }
        } else if starts_with(a[i].as_str(), "--target=") {
            assert(rest.skip(1) == av.skip(i + 1));
            i = i + 1;
        } else {
            let ghost before = r@;
            r.push(a[i].clone());
            assert(rest.skip(1) == av.skip(i + 1));
            assert(views(r@) == views(before).push(a@[i as int]@));
            assert(views(r@) + strip_target(av.skip(i + 1)) =~= views(before) + (seq![rest[0]] + strip_target(rest.skip(1))));
            i = i + 1;
        }
    }
    assert(views(r@) + strip_target(av.skip(a.len() as int)) =~= views(r@));
    r
}

fn with_libc_exec(a: &Vec<String>, v: &str) -> (r: Vec<String>)
    ensures
        views(r@) == with_libc(views(a@), v@),
{
    let ghost av = views(a@);
    let mut r: Vec<String> = Vec::new();
    let mut i: usize = 0;
    assert(av.skip(0) == av);
    while i < a.len()
        invariant
            i <= a.len(),
            av == views(a@),
            with_libc(av, v@) == views(r@) + with_libc(av.skip(i as int), v@),
        decreases a.len() - i,
    {
        let ghost rest = av.skip(i as int);
        let ghost before = r@;
        assert(rest[0] == a@[i as int]@);
        if str_eq(a[i].as_str(), "--target") {
            r.push(String::from_str("--target"));
            if i + 1 < a.len() {
                let t = add_libc_version(a[i + 1].as_str(), Some(v));
                r.push(t);
                assert(rest[1] == a@[i + 1]@);
                assert(rest.skip(2) == av.skip(i + 2));
                assert(views(r@) + with_libc(av.skip(i + 2), v@) =~= views(before) + with_libc(rest, v@));
                i = i + 2;
            } else {
                assert(av.skip(i + 1).len() == 0);
                assert(views(r@) + with_libc(av.skip(i + 1), v@) =~= views(before) + with_libc(rest, v@));
                i = i + 1;
            }
        } else if starts_with(a[i].as_str(), "--target=") {
            proof { reveal_strlit("--target="); }
            let cv = chars_of(a[i].as_str());
            let tail = substring(cv.as_slice(), 9, cv.len());
            assert(tail@ == rest[0].skip(9));
            let mut arg = String::from_str("--target=");
            arg.append(add_libc_version(tail.as_str(), Some(v)).as_str());
            r.push(arg);
            assert(rest.skip(1) == av.skip(i + 1));
            assert(views(r@) + with_libc(av.skip(i + 1), v@) =~= views(before) + with_libc(rest, v@));
            i = i + 1;
        } else {
            r.push(a[i].clone());
            assert(rest.skip(1) == av.skip(i + 1));
            assert(views(r@) + with_libc(av.skip(i + 1), v@) =~= views(before) + with_libc(rest, v@));
            i = i + 1;
        }
    }
    assert(views(r@) + with_libc(av.skip(a.len() as int), v@) =~= views(r@));
    r
}

fn any_target_arg(a: &Vec<String>) -> (r: bool)
    ensures
        r == has_target_arg(views(a@)),
{
    let mut i: usize = 0;
    while i < a.len()
        invariant
            i <= a.len(),
            forall|k: int| 0 <= k < i ==> !has_prefix(#[trigger] views(a@)[k], "--target"@),
        decreases a.len() - i,
    {
        if starts_with(a[i].as_str(), "--target") {
            assert(has_prefix(views(a@)[i as int], "--target"@));
            return true;
        }
        i = i + 1;
    }
    false
}

fn join_with_commas(v: &Vec<String>) -> (r: String)
    ensures
        r@ == join_commas(views(v@)),
{
    let mut r = String::new();
    let mut i: usize = 0;
    while i < v.len()
        invariant
            i <= v.len(),
            r@ == join_commas(views(v@).take(i as int)),
        decreases v.len() - i,
    {
        assert(views(v@).take(i + 1).drop_last() == views(v@).take(i as int));
        if i > 0 {
            r.append(",");
        } else {
            assert(views(v@).take(0).len() == 0);
        }
        r.append(v[i].as_str());
        i = i + 1;
    }
    assert(views(v@).take(v.len() as int) == views(v@));
    r
}

/// The arguments of `cargo metadata` for a command line: the first
/// format, the manifest given (or, without a command line, no
/// dependencies), the target's platform and the features asked for.
pub open spec fn metadata_args_of(args: Option<Args>) -> Seq<Seq<char>> {
    seq!["metadata"@, "--format-version"@, "1"@]
        + match args {
            Some(a) => match a.manifest_path {
                Some(m) => seq!["--manifest-path"@, m@],
                None => Seq::empty(),
            },
            None => seq!["--no-deps"@],
        }
        + match args {
            Some(a) => match a.target {
                Some(t) => seq!["--filter-platform"@, t.spec_triple()],
                None => Seq::empty(),
            },
            None => Seq::empty(),
        }
        + match args {
            Some(a) => if a.features@.len() > 0 {
                seq!["--features"@, join_commas(views(a.features@))]
            } else {
                Seq::empty()
            },
            None => Seq::empty(),
        }
}

/// The arguments of `cargo metadata` for a command line (see
/// [`metadata_args_of`]).
pub fn cargo_metadata_args(args: Option<&Args>) -> (r: Vec<String>)
    ensures
        views(r@) == metadata_args_of(match args { Some(a) => Some(*a), None => None }),
{
    let mut r: Vec<String> = Vec::new();
    r.push(String::from_str("metadata"));
    r.push(String::from_str("--format-version"));
    r.push(String::from_str("1"));
    let ghost s1 = views(r@);
    match args {
        Some(a) => match &a.manifest_path {
            Some(m) => {
                r.push(String::from_str("--manifest-path"));
                r.push(m.clone());
            },
            None => {},
        },
        None => r.push(String::from_str("--no-deps")),
    }
    let ghost s2 = views(r@);
    match args {
        Some(a) => match &a.target {
            Some(t) => {
                r.push(String::from_str("--filter-platform"));
                r.push(copy_str(t.triple()));
            },
            None => {},
        },
        None => {},
    }
    let ghost s3 = views(r@);
    match args {
        Some(a) => if a.features.len() > 0 {
            r.push(String::from_str("--features"));
            r.push(join_with_commas(&a.features));
        },
        None => {},
    }
    assert(views(r@) =~= metadata_args_of(match args { Some(a) => Some(*a), None => None }));
    r
}

/// The metadata of a workspace, with the target directory that the command
/// line gives in place of cargo's.
pub fn metadata_with_target_dir(metadata: CargoMetadata, args: Option<&Args>) -> (r: CargoMetadata)
    ensures
        r == (CargoMetadata {
            target_directory: match args {
                Some(a) => match a.target_dir {
                    Some(d) => d,
                    None => metadata.target_directory,
                },
                None => metadata.target_directory,
            },
            ..metadata
        }),
{
    match args {
        Some(a) => match &a.target_dir {
            Some(d) => CargoMetadata { target_directory: d.clone(), ..metadata },
            None => metadata,
        },
        None => metadata,
    }
}

/// The arguments to pass to cargo (see [`filtered_args_of`]).
pub fn get_filtered_args(
    zig_version: Option<String>,
    args: &Args,
    target: &Target,
    config: &Config,
    is_nightly: bool,
    build_std: &BuildStd,
) -> (r: Vec<String>)
    ensures
        views(r@) == filtered_args_of(
            match zig_version { Some(v) => Some(v@), None => None },
            views(args.cargo_args@),
            views(args.rest_args@),
            args.subcommand,
            target.spec_triple(),
            match opt_bool(config.env.spec_var("CROSS_UNSTABLE_ENABLE_DOCTESTS"@)) { Some(b) => b, None => false },
            is_nightly,
            build_std_arg(*build_std),
        ),
{
    let zv: Option<&str> = match &zig_version {
        Some(v) => Some(v.as_str()),
        None => None,
    };
    let skip_target = match args.subcommand {
        Some(s) => !s.needs_target_in_command(),
        None => false,
    };
    let mut filtered = if skip_target {
        strip_target_exec(&args.cargo_args)
    } else if !any_target_arg(&args.cargo_args) {
        let mut with_target = copy_strings(&args.cargo_args);
        let ghost before = with_target@;
        with_target.push(String::from_str("--target"));
        with_target.push(add_libc_version(target.triple(), zv));
        assert(views(with_target@) =~= views(before) + seq!["--target"@, libc_triple(target.spec_triple(),
            match zig_version { Some(v) => Some(v@), None => None })]);
        with_target
    } else {
        match zv {
            Some(v) => with_libc_exec(&args.cargo_args, v),
            None => copy_strings(&args.cargo_args),
        }
    };
    let is_test = match args.subcommand {
        Some(crate::cargo::Subcommand::Test) => true,
        _ => false,
    };
    let doctests = match config.doctests() {
        Some(b) => b,
        None => false,
    };
    if is_test && doctests && is_nightly {
        let ghost before = filtered@;
        filtered.push(String::from_str("-Zdoctest-xcompile"));
        assert(views(filtered@) =~= views(before).push("-Zdoctest-xcompile"@));
    }
    if build_std.enabled() {
        let arg = match build_std {
            BuildStd::Crates(crates) => {
                let mut arg = String::from_str("-Zbuild-std=");
                arg.append(join_with_commas(crates).as_str());
                arg
            },
            BuildStd::Bool(_) => String::from_str("-Zbuild-std"),
        };
        let ghost before = filtered@;
        filtered.push(arg);
        assert(views(filtered@) =~= views(before).push(arg@));
    }
    let ghost before = filtered@;
    let mut rest = copy_strings(&args.rest_args);
    filtered.append(&mut rest);
    assert(views(filtered@) =~= views(before) + views(args.rest_args@));
    filtered
}


/// The image that [`setup`] starts from: the one [`get_image`] gives, or an
/// empty image (`scratch`) where no image is provided for the target but a
/// Dockerfile is given to build one.
pub open spec fn setup_image_rel(config: Config, target: Target, uses_zig: bool, r: Result<PossibleImage, GetImageError>) -> bool {
    let no_image = user_image_rel(config, target, uses_zig, Ok(None))
        && compatible_images(target_name_of(target, uses_zig)).len() == 0;
    if no_image && config.spec_dockerfile(target) is Some {
        r matches Ok(p) && p.reference is Name && p.reference.spec_get() == "scratch"@ && p.toolchain@.len() == 0
    } else {
        image_choice_rel(config, target, uses_zig, r)
    }
}

/// The image to start from (see [`setup_image_rel`]).
pub fn setup_image(config: &Config, target: &Target, uses_zig: bool) -> (r: Result<PossibleImage, GetImageError>)
    ensures
        setup_image_rel(*config, *target, uses_zig, r),
{
    broadcast use vstd::seq_lib::group_filter_ensures;
    let found = get_image(config, target, uses_zig);
    let scratch = match &found {
        Err(GetImageError::NoCompatibleImages(_)) => config.dockerfile(target).is_some(),
        _ => false,
    };
    if scratch {
        let name = "scratch";
        proof {
            reveal_strlit("scratch");
        }
        return Ok(PossibleImage::from_name(name));
    }
    found
}

/// Everything that a run of `cross` needs to know before it starts.
#[derive(Debug)]
pub struct CrossSetup {
    pub config: Config,
    pub target: Target,
    pub uses_xargo: bool,
    pub uses_zig: bool,
    pub build_std: BuildStd,
    pub zig_version: Option<String>,
    pub toolchain: QualifiedToolchain,
    pub is_remote: bool,
    pub engine: Engine,
    pub image: Image,
}

/// Why a run cannot be set up.
#[derive(Debug)]
pub enum SetupError {
    /// No image can be used for the target.
    NoImage(GetImageError),
    /// The channel given with `+` is not a toolchain name.
    InvalidChannel(String),
    /// The channel given with `+` names a host (the toolchain without it,
    /// then the host), which only an image's toolchain may give.
    PickedHost(String, String),
    /// The picked toolchain's host has no image platform.
    Platform(PlatformError),
    /// The image is not a full name.
    Image(ImageError),
}

/// The target to build for: the one on the command line, else the
/// configuration's (see [`Config::target_rel`]), else the host.
pub open spec fn setup_target_rel(args_target: Option<Target>, config: Config, target_list: TargetList, host: TargetTriple, t: Target) -> bool {
    match args_target {
        Some(a) => t == a,
        None => config.target_rel(target_list, Some(t))
            || (config.target_rel(target_list, None) && t.spec_triple() == host.spec_triple()
                && (t is BuiltIn <==> views(target_list.triples@).contains(host.spec_triple()))),
    }
}

/// Whether zig builds the target (not where the configuration says
/// nothing).
pub open spec fn zig_enabled(config: Config, target: Target) -> bool {
    match config.spec_zig(target) {
        Some(z) => z,
        None => false,
    }
}

/// Whether a build-std setting builds the standard library.
pub open spec fn build_std_enabled(b: BuildStd) -> bool {
    match b {
        BuildStd::Bool(x) => x,
        BuildStd::Crates(v) => v@.len() > 0,
    }
}

/// The toolchain for a run: `default`, or the channel picked on the command
/// line (see [`QualifiedToolchain::with_picked`]), which may name no host.
pub open spec fn setup_toolchain_rel(channel: Option<Seq<char>>, default: QualifiedToolchain, r: Result<QualifiedToolchain, SetupError>) -> bool {
    match channel {
        None => r == Ok::<QualifiedToolchain, SetupError>(default),
        Some(c) => match toolchain_of(c) {
            None => r matches Err(SetupError::InvalidChannel(n)) && n@ == c,
            Some(p) => match p.2 {
                Some(h) => r matches Err(SetupError::PickedHost(n, host)) && host@ == h
                    && n@ == remove_all(c, "-"@ + h),
                None => match r {
                    Ok(t) => qualified_as(t, p.0, match p.1 { Some(d) => Some(d), None => opt_view(default.date) },
                        default.host, default.sysroot@, false) && t.host == default.host,
                    Err(_) => false,
                },
            },
        },
    }
}

/// The toolchain picked with `+channel` applied to `default`.
fn pick_toolchain(channel: &Option<String>, default: QualifiedToolchain) -> (r: Result<QualifiedToolchain, SetupError>)
    ensures
        setup_toolchain_rel(opt_view(*channel), default, r),
{
    match channel {
        None => Ok(default),
        Some(c) => {
            let picked = match Toolchain::parse(c.as_str()) {
                Ok(t) => t,
                Err(_) => return Err(SetupError::InvalidChannel(c.clone())),
            };
            match &picked.host {
                Some(h) => {
                    let without = picked.remove_host();
                    return Err(SetupError::PickedHost(without.full, copy_str(h.triple())));
                },
                None => {},
            }
            match default.with_picked(picked) {
                Ok(t) => Ok(t),
                Err(e) => Err(SetupError::Platform(e)),
            }
        },
    }
}

/// Sets a run up from what the environment gave: the host's triple, the
/// configuration, the command line, the targets of the toolchain, the
/// default toolchain, whether the engine is remote, and the engine.
/// The target, the image and the toolchain are chosen as
/// [`setup_target_rel`], [`setup_image_rel`] and [`setup_toolchain_rel`]
/// say; the toolchain then runs on the image's platform.
pub fn setup(
    host: &TargetTriple,
    config: Config,
    args: &Args,
    target_list: &TargetList,
    default_toolchain: QualifiedToolchain,
    is_remote: bool,
    engine: Engine,
    msg_info: &mut MessageInfo,
) -> (r: Result<CrossSetup, SetupError>)
    ensures
        match r {
            Ok(s) => {
                &&& s.config == config
                &&& setup_target_rel(args.target, config, *target_list, *host, s.target)
                &&& config.build_std_rel(s.target, Some(s.build_std))
                    || (config.build_std_rel(s.target, None) && s.build_std == BuildStd::Bool(false))
                &&& s.uses_xargo == (!build_std_enabled(s.build_std) && match config.spec_xargo(s.target) {
                        Some(x) => x,
                        None => !(s.target is BuiltIn),
                    })
                &&& s.uses_zig == zig_enabled(config, s.target)
                &&& opt_view(s.zig_version) == config.spec_zig_version(s.target)
                &&& s.is_remote == is_remote
                &&& s.engine == engine
                &&& exists|p: PossibleImage| #[trigger] setup_image_rel(config, s.target, s.uses_zig, Ok(p))
                    && p.reference is Name && s.image.name@ == p.reference.spec_get()
                    && s.image.platform == definite_platform(p.toolchain@, engine)
                &&& exists|t: QualifiedToolchain| #[trigger] setup_toolchain_rel(opt_view(args.channel), default_toolchain, Ok(t))
                    && (t.is_custom ==> s.toolchain == t)
                    && (!t.is_custom ==> qualified_as(s.toolchain, t.channel@, opt_view(t.date), s.image.platform,
                        t.sysroot@, false))
            },
            Err(SetupError::NoImage(e)) => exists|t: Target| setup_target_rel(args.target, config, *target_list, *host, t)
                && #[trigger] setup_image_rel(config, t, zig_enabled(config, t), Err(e)),
            Err(SetupError::Image(e)) => e == ImageError::Unqualified
                && (exists|t: QualifiedToolchain| #[trigger] setup_toolchain_rel(opt_view(args.channel), default_toolchain, Ok(t)))
                && exists|t: Target, p: PossibleImage| setup_target_rel(args.target, config, *target_list, *host, t)
                    && #[trigger] setup_image_rel(config, t, zig_enabled(config, t), Ok(p)) && !(p.reference is Name),
            Err(e) => setup_toolchain_rel(opt_view(args.channel), default_toolchain, Err(e)),
        },
        *final(msg_info) == *old(msg_info)
            || *final(msg_info) == (MessageInfo { has_warned: true, ..*old(msg_info) }),
{
    let target = match &args.target {
        Some(t) => t.duplicate(),
        None => match config.target(target_list) {
            Some(t) => t,
            None => Target::from(host.triple(), target_list),
        },
    };
    let build_std = match config.build_std(&target) {
        Some(b) => b,
        None => BuildStd::Bool(false),
    };
    let uses_xargo = !build_std.enabled() && match config.xargo(&target) {
        Some(x) => x,
        None => !target.is_builtin(),
    };
    let uses_zig = match config.zig(&target) {
        Some(z) => z,
        None => false,
    };
    let zig_version = config.zig_version(&target);
    let image = match setup_image(&config, &target, uses_zig) {
        Ok(i) => i,
        Err(e) => {
            assert(setup_image_rel(config, target, zig_enabled(config, target), Err(e)));
            return Err(SetupError::NoImage(e));
        },
    };
    let mut toolchain = match pick_toolchain(&args.channel, default_toolchain) {
        Ok(t) => t,
        Err(e) => return Err(e),
    };
    let ghost picked = toolchain;
    let ghost image0 = image;
    let image = match image.to_definite_with(&engine, msg_info) {
        Ok(i) => i,
        Err(e) => {
            assert(setup_toolchain_rel(opt_view(args.channel), default_toolchain, Ok(picked)));
            assert(setup_image_rel(config, target, zig_enabled(config, target), Ok(image0)));
            return Err(SetupError::Image(e));
        },
    };
    toolchain.replace_host(&image.platform);
    assert(setup_toolchain_rel(opt_view(args.channel), default_toolchain, Ok(picked)));
    let ghost cfg = config;
    let s = CrossSetup {
        config,
        target,
        uses_xargo,
        uses_zig,
        build_std,
        zig_version,
        toolchain,
        is_remote,
        engine,
        image,
    };
    assert(setup_image_rel(cfg, s.target, s.uses_zig, Ok(image0)));
    Ok(s)
}


/// What a run does once it is set up.
#[derive(Debug, Clone, Copy, PartialEq, Eq)]
pub struct RunPlan {
    /// The image can build for the target.
    pub supported: bool,
    /// The toolchain may not run on the image: their architectures differ.
    pub arch_mismatch: bool,
    /// The toolchain is a nightly one, as far as its channel tells.
    pub is_nightly: bool,
    /// The toolchain's rustc is compared with the host's: its channel is
    /// `stable`, `beta` or `nightly`, with no date.
    pub compare_host_version: bool,
    /// The command runs in a container.
    pub in_container: bool,
}

/// A channel that names no particular release.
pub open spec fn is_generic_channel(c: Seq<char>) -> bool {
    c == "stable"@ || c == "beta"@ || c == "nightly"@
}

/// The plan for a run of `subcommand` (`compatibility_version` is the value
/// of `CROSS_COMPATIBILITY_VERSION`).
pub fn plan_run(setup: &CrossSetup, subcommand: Option<Subcommand>, compatibility_version: Option<&str>) -> (r: RunPlan)
    ensures
        r.supported == supported(setup.image.platform.target, Some(setup.target), match compatibility_version {
            Some(v) => v@ == "0.2.1"@,
            None => false,
        }),
        r.arch_mismatch == (setup.image.platform.architecture != setup.toolchain.host.architecture),
        r.is_nightly == has_infix(setup.toolchain.channel@, "nightly"@),
        r.compare_host_version == (is_generic_channel(setup.toolchain.channel@) && setup.toolchain.date is None),
        r.in_container == (r.supported && setup.target.spec_needs_docker() && match subcommand {
            Some(sc) => !(sc == Subcommand::Other || sc == Subcommand::List || (sc == Subcommand::Clean && !setup.is_remote)),
            None => false,
        }),
{
    let supported = setup.image.platform.target.is_supported(Some(&setup.target), compatibility_version);
    let arch_mismatch = setup.image.platform.architecture != setup.toolchain.host().architecture;
    let channel = setup.toolchain.channel.as_str();
    let is_nightly = contains(channel, "nightly");
    let generic = str_eq(channel, "stable") || str_eq(channel, "beta") || str_eq(channel, "nightly");
    let compare_host_version = generic && setup.toolchain.date.is_none();
    let needs_docker = match subcommand {
        Some(sc) => sc.needs_docker(setup.is_remote),
        None => false,
    };
    let in_container = supported && setup.target.needs_docker() && needs_docker;
    RunPlan { supported, arch_mismatch, is_nightly, compare_host_version, in_container }
}

/// What follows a container's exit: whether to warn about a missing
/// standard library (the build failed), and whether the run ends with the
/// container's status (else the command runs on the host too: a remote
/// `clean` that succeeded).
pub fn after_container(success: bool, subcommand: Option<Subcommand>, is_remote: bool) -> (r: (bool, bool))
    ensures
        r.0 == !success,
        r.1 == !(success && match subcommand {
            Some(sc) => sc == Subcommand::Clean && is_remote,
            None => false,
        }),
{
    let needs_host = match subcommand {
        Some(sc) => sc.needs_host(is_remote),
        None => false,
    };
    (!success, !(success && needs_host))
}

/// How the toolchain's rustc relates to the host's.
#[derive(Debug, Clone, Copy, PartialEq, Eq, Structural)]
pub enum VersionMatch {
    Same,
    OlderTarget,
    NewerTarget,
    Different,
}

/// The order of two values.
#[derive(Debug, Clone, Copy, PartialEq, Eq, Structural)]
pub enum Order {
    Less,
    Equal,
    Greater,
}

/// How the toolchain's rustc relates to the host's, from whether they are
/// the same (version and commit), then the order of their versions and of
/// their commit dates.
pub fn version_match(same: bool, versions: Order, dates: Order) -> (r: VersionMatch)
    ensures
        same ==> r == VersionMatch::Same,
        !same ==> r == if versions == Order::Less || (versions == Order::Equal && dates == Order::Less) {
            VersionMatch::OlderTarget
        } else if versions == Order::Greater || (versions == Order::Equal && dates == Order::Greater) {
            VersionMatch::NewerTarget
        } else {
            VersionMatch::Different
        },
{
    if same {
        return VersionMatch::Same;
    }
    if versions == Order::Less || (versions == Order::Equal && dates == Order::Less) {
        VersionMatch::OlderTarget
    } else if versions == Order::Greater || (versions == Order::Equal && dates == Order::Greater) {
        VersionMatch::NewerTarget
    } else {
        VersionMatch::Different
    }
}


/// What follows the `n`-th `c` of `s`, as `splitn(n + 1, c).nth(n)` gives
/// it: none where `s` has fewer.
pub open spec fn rest_after(s: Seq<char>, c: char, n: nat) -> Option<Seq<char>>
    decreases n,
{
    if n == 0 {
        Some(s)
    } else {
        match crate::text::first_index(s, c) {
            Some(i) => rest_after(s.skip(i + 1), c, (n - 1) as nat),
            None => None,
        }
    }
}

/// The date of a `(commit date)` part: what follows its first space, up to
/// the closing `)`; none where it has no space or no `)` at its end.
pub open spec fn commit_date_of(commit: Seq<char>) -> Option<Seq<char>> {
    match crate::text::first_index(commit, ' ') {
        Some(i) => {
            let rest = commit.skip(i + 1);
            if rest.len() > 0 && rest.last() == ')' { Some(rest.drop_last()) } else { None }
        },
        None => None,
    }
}

/// The order of two optional strings: none before any, strings in the
/// order of their characters.
pub open spec fn opt_str_order(a: Option<Seq<char>>, b: Option<Seq<char>>) -> Order {
    match (a, b) {
        (None, None) => Order::Equal,
        (None, Some(_)) => Order::Less,
        (Some(_), None) => Order::Greater,
        (Some(x), Some(y)) => if x == y {
            Order::Equal
        } else if crate::docker::remote::seq_lt(x, y) {
            Order::Less
        } else {
            Order::Greater
        },
    }
}

/// How a version relation reads (see [`version_match`]).
pub open spec fn version_match_of(same: bool, versions: Order, dates: Order) -> VersionMatch {
    if same {
        VersionMatch::Same
    } else if versions == Order::Less || (versions == Order::Equal && dates == Order::Less) {
        VersionMatch::OlderTarget
    } else if versions == Order::Greater || (versions == Order::Equal && dates == Order::Greater) {
        VersionMatch::NewerTarget
    } else {
        VersionMatch::Different
    }
}

fn rest_after_exec(s: &str, c: char, n: usize) -> (r: Option<String>)
    ensures
        match r {
            Some(x) => rest_after(s@, c, n as nat) == Some(x@),
            None => rest_after(s@, c, n as nat) is None,
        },
    decreases n,
{
    if n == 0 {
        return Some(copy_str(s));
    }
    let v = chars_of(s);
    match crate::text::chars_find(v.as_slice(), c) {
        Some(i) => {
            let rest = substring(v.as_slice(), i + 1, v.len());
            rest_after_exec(rest.as_str(), c, n - 1)
        },
        None => None,
    }
}

fn commit_date(commit: &str) -> (r: Option<String>)
    ensures
        match r {
            Some(x) => commit_date_of(commit@) == Some(x@),
            None => commit_date_of(commit@) is None,
        },
{
    let v = chars_of(commit);
    match crate::text::chars_find(v.as_slice(), ' ') {
        Some(i) => {
            if i + 1 < v.len() && v[v.len() - 1] == ')' {
                let d = substring(v.as_slice(), i + 1, v.len() - 1);
                assert(d@ =~= v@.skip(i + 1).drop_last());
                Some(d)
            } else {
                None
            }
        },
        None => None,
    }
}

/// How the toolchain's compiler relates to the host's: the same where the
/// versions are the same (`same_version`) and the toolchain's
/// `(commit date)` part is what follows the second space of the host's
/// version string; else by the order of the versions (`versions`, the
/// toolchain's against the host's), then of the commit dates.
pub fn host_version_match(
    same_version: bool,
    versions: Order,
    toolchain_commit: &str,
    host_version_string: &str,
    host_commit_date: Option<&str>,
) -> (r: VersionMatch)
    ensures
        r == version_match_of(
            same_version && rest_after(host_version_string@, ' ', 2) == Some(toolchain_commit@),
            versions,
            opt_str_order(commit_date_of(toolchain_commit@), match host_commit_date { Some(d) => Some(d@), None => None }),
        ),
{
    let host_commit = rest_after_exec(host_version_string, ' ', 2);
    let same_commit = match &host_commit {
        Some(h) => str_eq(h.as_str(), toolchain_commit),
        None => false,
    };
    let date = commit_date(toolchain_commit);
    let dates = match (&date, host_commit_date) {
        (None, None) => Order::Equal,
        (None, Some(_)) => Order::Less,
        (Some(_), None) => Order::Greater,
        (Some(x), Some(y)) => if str_eq(x.as_str(), y) {
            Order::Equal
        } else if crate::docker::remote::str_lt(x.as_str(), y) {
            Order::Less
        } else {
            Order::Greater
        },
    };
    version_match(same_version && same_commit, versions, dates)
}

} // verus!
