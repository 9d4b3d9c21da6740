//! The arguments of the engine's `build` command for an image built for a
//! project, and the image that pre-build commands are run in.

use vstd::prelude::*;
use vstd::string::StringExecFns;
use crate::cargo::CargoMetadata;
use crate::config::Config;
use crate::cross_toml::pairs_view;
use crate::docker::image::{PossibleImage, PlatformError};
use crate::docker::custom::{Dockerfile, PreBuild, custom_image_name, tag_name_of};
use crate::docker::shared::{path_hash_of, PATH_HASH_SHORT};
use crate::docker::engine::{Engine, EngineType, shell_words_of, OptsError};
use crate::docker::image::{ImagePlatform, docker_platform_of};
use crate::file::{join, join_of, file_name_of};
use crate::shell::{Verbosity, opt_view};
use crate::target::{Target, deb_arch_of};
use crate::text::{copy_str, views, contains, has_infix, str_eq, has_char, chars_of, chars_find};

verus! {

broadcast use vstd::string::group_string_axioms;

/// The domain of the labels that `cross` puts on images and containers.
pub const CROSS_LABEL_DOMAIN: &'static str = "org.cross-rs";

/// How the engine shows the progress of a build.
#[derive(Debug, Clone, Copy, PartialEq, Eq, Structural)]
pub enum Progress {
    Plain,
    Auto,
    Tty,
}

/// A progress type that the engine does not know.
#[derive(Debug, Clone, PartialEq, Eq)]
pub struct InvalidProgress {
    /// The value as given.
    pub value: String,
}

/// The progress type a name stands for: `plain`, `auto` or `tty`.
pub open spec fn progress_of(s: Seq<char>) -> Option<Progress> {
    if s == "plain"@ {
        Some(Progress::Plain)
    } else if s == "auto"@ {
        Some(Progress::Auto)
    } else if s == "tty"@ {
        Some(Progress::Tty)
    } else {
        None
    }
}

impl Progress {
    /// The name of a progress type.
    pub open spec fn spec_name(self) -> Seq<char> {
        match self {
            Progress::Plain => "plain"@,
            Progress::Auto => "auto"@,
            Progress::Tty => "tty"@,
        }
    }

    /// Reads a progress type from its name (see [`progress_of`]).
    pub fn parse(s: &str) -> (r: Result<Progress, InvalidProgress>)
        ensures
            match r {
                Ok(p) => progress_of(s@) == Some(p),
                Err(e) => progress_of(s@) is None && e.value@ == s@,
            },
    {
        if str_eq(s, "plain") {
            Ok(Progress::Plain)
        } else if str_eq(s, "auto") {
            Ok(Progress::Auto)
        } else if str_eq(s, "tty") {
            Ok(Progress::Tty)
        } else {
            Err(InvalidProgress { value: copy_str(s) })
        }
    }

    /// The name of a progress type, as the engine reads it.
    pub fn name(self) -> (r: &'static str)
        ensures
            r@ == self.spec_name(),
    {
        match self {
            Progress::Plain => "plain",
            Progress::Auto => "auto",
            Progress::Tty => "tty",
        }
    }
}

/// What a build needs to know of its surroundings: whether the engine
/// builds with `buildx`, how it shows progress, how verbose `cross` is,
/// the extra options for the build (`CROSS_BUILD_OPTS`) and the root of
/// the project on the host.
#[derive(Debug, Clone)]
pub struct BuildSettings {
    pub has_buildkit: bool,
    pub progress: Progress,
    pub verbosity: Verbosity,
    pub build_opts: Option<String>,
    pub host_root: String,
}

/// The command that builds: `buildx build`, or `build` without buildkit.
pub open spec fn invocation_args(has_buildkit: bool) -> Seq<Seq<char>> {
    if has_buildkit {
        seq!["buildx"@, "build"@]
    } else {
        seq!["build"@]
    }
}

/// The `--platform` of an image, unless the engine runs that platform
/// already.
pub open spec fn platform_args(p: ImagePlatform, engine: Engine) -> Seq<Seq<char>> {
    if p.variant is None && engine.arch == Some(p.architecture) && engine.os == Some(p.os) {
        Seq::empty()
    } else {
        seq!["--platform"@, docker_platform_of(p.architecture, p.os, opt_view(p.variant))]
    }
}

/// A verbose build of the image when `cross` is very verbose.
pub open spec fn verbose_args(v: Verbosity) -> Seq<Seq<char>> {
    match v {
        Verbosity::Verbose(n) if n >= 2 => seq!["--build-arg"@, "VERBOSE=1"@],
        _ => Seq::empty(),
    }
}

/// A label of the domain of `cross`.
pub open spec fn label_args(key: Seq<char>, value: Seq<char>) -> Seq<Seq<char>> {
    seq!["--label"@, CROSS_LABEL_DOMAIN@ + "."@ + key + "="@ + value]
}

/// A build argument.
pub open spec fn build_arg(key: Seq<char>, value: Seq<char>) -> Seq<Seq<char>> {
    seq!["--build-arg"@, key + "="@ + value]
}

/// The build arguments of a list of pairs, in order.
pub open spec fn build_arg_list(pairs: Seq<(Seq<char>, Seq<char>)>) -> Seq<Seq<char>>
    decreases pairs.len(),
{
    if pairs.len() == 0 {
        Seq::empty()
    } else {
        build_arg_list(pairs.drop_last()) + build_arg(pairs.last().0, pairs.last().1)
    }
}

/// A build argument where there is a value for it.
pub open spec fn opt_build_arg(key: Seq<char>, value: Option<Seq<char>>) -> Seq<Seq<char>> {
    match value {
        Some(v) => build_arg(key, v),
        None => Seq::empty(),
    }
}

/// Build options that name an output of the image already.
pub open spec fn names_output(opts: Option<Seq<char>>) -> bool {
    match opts {
        Some(o) => has_infix(o, "--load"@) || has_infix(o, "--output"@),
        None => false,
    }
}

/// Docker keeps the built image only when told to, unless the options
/// say where it goes.
pub open spec fn output_args(is_docker: bool, opts: Option<Seq<char>>) -> Seq<Seq<char>> {
    if is_docker && !names_output(opts) {
        seq!["--output"@, "type=docker"@]
    } else {
        Seq::empty()
    }
}

/// The pairs of a list of pairs of strings, by their views.
pub open spec fn pair_views(v: Seq<(String, String)>) -> Seq<(Seq<char>, Seq<char>)> {
    v.map_values(|p: (String, String)| (p.0@, p.1@))
}

/// The platform an image built from a Dockerfile runs with.
pub open spec fn runs_with_of(d: Dockerfile) -> ImagePlatform {
    match d {
        Dockerfile::File { runs_with, .. } => *runs_with,
        Dockerfile::Custom { runs_with, .. } => *runs_with,
    }
}

/// Where the Dockerfile of a build is: a project's own, under its
/// workspace root, or the one `cross` writes, `Dockerfile.<target>-custom`
/// in the target's directory under the target directory.
pub open spec fn dockerfile_path_of(d: Dockerfile, triple: Seq<char>, metadata: CargoMetadata) -> Seq<char> {
    match d {
        Dockerfile::File { path, .. } => join_of(metadata.workspace_root@, path@),
        Dockerfile::Custom { .. } => join_of(
            join_of(metadata.target_directory@, triple),
            "Dockerfile."@ + triple + "-custom"@,
        ),
    }
}

/// The build context: the one given for a project's Dockerfile, else the
/// root of the project on the host.
pub open spec fn context_of(d: Dockerfile, host_root: Seq<char>) -> Seq<char> {
    match d {
        Dockerfile::File { context: Some(c), .. } => c@,
        _ => host_root,
    }
}

fn push_arg(out: &mut Vec<String>, s: &str)
    ensures
        views(final(out)@) == views(old(out)@).push(s@),
{
    let ghost before = out@;
    out.push(copy_str(s));
    assert(views(out@) =~= views(before).push(s@));
}

fn push_owned(out: &mut Vec<String>, s: String)
    ensures
        views(final(out)@) == views(old(out)@).push(s@),
{
    let ghost before = out@;
    out.push(s);
    assert(views(out@) =~= views(before).push(s@));
}

fn push_all(out: &mut Vec<String>, items: Vec<String>)
    ensures
        views(final(out)@) == views(old(out)@) + views(items@),
{
    let ghost start = views(out@);
    let mut i: usize = 0;
    while i < items.len()
        invariant
            i <= items.len(),
            views(out@) == start + views(items@).take(i as int),
        decreases items.len() - i,
    {
        let ghost before = out@;
        out.push(copy_str(items[i].as_str()));
        assert(views(out@) =~= views(before).push(items@[i as int]@));
        assert(views(items@).take(i + 1) =~= views(items@).take(i as int).push(items@[i as int]@));
        assert(views(out@) =~= start + views(items@).take(i + 1));
        i = i + 1;
    }
    assert(views(items@).take(items.len() as int) =~= views(items@));
}

/// `key=value`
fn assignment(key: &str, value: &str) -> (r: String)
    ensures
        r@ == key@ + "="@ + value@,
{
    let mut r = String::from_str(key);
    r.append("=");
    r.append(value);
    r
}

fn push_label(out: &mut Vec<String>, key: &str, value: &str)
    ensures
        views(final(out)@) == views(old(out)@) + label_args(key@, value@),
{
    let ghost start = views(out@);
    push_arg(out, "--label");
    let mut l = String::from_str(CROSS_LABEL_DOMAIN);
    l.append(".");
    l.append(key);
    l.append("=");
    l.append(value);
    push_owned(out, l);
    assert(views(out@) =~= start + label_args(key@, value@));
}

fn push_build_arg(out: &mut Vec<String>, key: &str, value: &str)
    ensures
        views(final(out)@) == views(old(out)@) + build_arg(key@, value@),
{
    let ghost start = views(out@);
    push_arg(out, "--build-arg");
    push_owned(out, assignment(key, value));
    assert(views(out@) =~= start + build_arg(key@, value@));
}

fn push_build_args(out: &mut Vec<String>, pairs: &Vec<(String, String)>)
    ensures
        views(final(out)@) == views(old(out)@) + build_arg_list(pair_views(pairs@)),
{
    let ghost start = views(out@);
    let mut i: usize = 0;
    while i < pairs.len()
        invariant
            i <= pairs.len(),
            views(out@) == start + build_arg_list(pair_views(pairs@).take(i as int)),
        decreases pairs.len() - i,
    {
        let ghost before = views(out@);
        push_build_arg(out, pairs[i].0.as_str(), pairs[i].1.as_str());
        proof {
            let t = pair_views(pairs@).take(i + 1);
            assert(t.drop_last() =~= pair_views(pairs@).take(i as int));
            assert(t.last() == (pairs@[i as int].0@, pairs@[i as int].1@));
            assert(views(out@) =~= start + build_arg_list(t));
        }
        i = i + 1;
    }
    assert(pair_views(pairs@).take(pairs.len() as int) =~= pair_views(pairs@));
}

fn push_pair_one(out: &mut Vec<String>, s: &str)
    ensures
        views(final(out)@) == views(old(out)@) + seq![s@],
{
    let ghost start = views(out@);
    push_arg(out, s);
    assert(views(out@) =~= start + seq![s@]);
}

fn push_pair(out: &mut Vec<String>, a: &str, b: &str)
    ensures
        views(final(out)@) == views(old(out)@) + seq![a@, b@],
{
    let ghost start = views(out@);
    push_arg(out, a);
    push_arg(out, b);
    assert(views(out@) =~= start + seq![a@, b@]);
}

fn push_invocation(out: &mut Vec<String>, has_buildkit: bool)
    requires
        old(out)@.len() == 0,
    ensures
        views(final(out)@) == invocation_args(has_buildkit),
{
    if has_buildkit {
        push_arg(out, "buildx");
    }
    push_arg(out, "build");
    assert(views(out@) =~= invocation_args(has_buildkit));
}

fn push_platform(out: &mut Vec<String>, p: &ImagePlatform, engine: &Engine)
    ensures
        views(final(out)@) == views(old(out)@) + platform_args(*p, *engine),
{
    let ghost start = views(out@);
    match p.specify_platform(engine) {
        Some(x) => {
            push_arg(out, "--platform");
            push_owned(out, x);
        },
        None => {},
    }
    assert(views(out@) =~= start + platform_args(*p, *engine));
}

fn push_verbose(out: &mut Vec<String>, v: Verbosity)
    ensures
        views(final(out)@) == views(old(out)@) + verbose_args(v),
{
    let ghost start = views(out@);
    match v {
        Verbosity::Verbose(n) => {
            if n >= 2 {
                push_arg(out, "--build-arg");
                push_arg(out, "VERBOSE=1");
            }
        },
        _ => {},
    }
    assert(views(out@) =~= start + verbose_args(v));
}

fn push_opt_build_arg(out: &mut Vec<String>, key: &str, value: Option<&str>)
    ensures
        views(final(out)@) == views(old(out)@) + opt_build_arg(key@, match value { Some(v) => Some(v@), None => None }),
{
    let ghost start = views(out@);
    match value {
        Some(v) => push_build_arg(out, key, v),
        None => {},
    }
    assert(views(out@) =~= start + opt_build_arg(key@, match value { Some(v) => Some(v@), None => None }));
}

fn push_build_opts(out: &mut Vec<String>, opts: &Option<String>) -> (r: Result<(), OptsError>)
    ensures
        match *opts {
            Some(o) => match r {
                Ok(()) => shell_words_of(o@) is Some
                    && views(final(out)@) == views(old(out)@) + shell_words_of(o@)->0,
                Err(e) => shell_words_of(o@) is None && e.value@ == o@,
            },
            None => r is Ok && views(final(out)@) == views(old(out)@) + Seq::<Seq<char>>::empty(),
        },
{
    match opts {
        Some(o) => match Engine::parse_opts(o.as_str()) {
            Ok(words) => {
                push_all(out, words);
                Ok(())
            },
            Err(e) => Err(e),
        },
        None => {
            assert(views(out@) =~= views(out@) + Seq::<Seq<char>>::empty());
            Ok(())
        },
    }
}

fn push_output(out: &mut Vec<String>, is_docker: bool, opts: &Option<String>)
    ensures
        views(final(out)@) == views(old(out)@) + output_args(is_docker, opt_view(*opts)),
{
    let ghost start = views(out@);
    let has_output = match opts {
        Some(o) => contains(o.as_str(), "--load") || contains(o.as_str(), "--output"),
        None => false,
    };
    if is_docker && !has_output {
        push_arg(out, "--output");
        push_arg(out, "type=docker");
    }
    assert(views(out@) =~= start + output_args(is_docker, opt_view(*opts)));
}

impl<'a> Dockerfile<'a> {
    /// Where the Dockerfile of this build is (see [`dockerfile_path_of`]).
    pub fn path(&self, target: &Target, metadata: &CargoMetadata) -> (r: String)
        ensures
            r@ == dockerfile_path_of(*self, target.spec_triple(), *metadata),
    {
        match self {
            Dockerfile::File { path, .. } => join(metadata.workspace_root.as_str(), path),
            Dockerfile::Custom { .. } => {
                let dir = join(metadata.target_directory.as_str(), target.triple());
                let mut name = String::from_str("Dockerfile.");
                name.append(target.triple());
                name.append("-custom");
                join(dir.as_str(), name.as_str())
            },
        }
    }

    /// The arguments of the engine's command that builds the image, and
    /// the image's name: the build command, the platform, the progress,
    /// the labels of the target, of the platform it runs with and of the
    /// workspace root, the tag, the build arguments given, the Debian
    /// architecture of the target, the image of the target for a project's
    /// Dockerfile (`base_image`), the Dockerfile, the build options, where
    /// the image goes, and the context. Fails where the build options
    /// cannot be split into words.
    pub fn build_args(
        &self,
        engine: &Engine,
        target: &Target,
        metadata: &CargoMetadata,
        build_args: &Vec<(String, String)>,
        base_image: Option<&str>,
        settings: &BuildSettings,
    ) -> (r: Result<(String, Vec<String>), OptsError>)
        requires
            file_name_of(metadata.workspace_root@) is Some,
        ensures
            match settings.build_opts {
                Some(o) => (r is Err <==> shell_words_of(o@) is None)
                    && (r matches Err(e) ==> e.value@ == o@),
                None => r is Ok,
            },
            r matches Ok((name, args)) ==> {
                let opts = match settings.build_opts {
                    Some(o) => shell_words_of(o@)->0,
                    None => Seq::<Seq<char>>::empty(),
                };
                &&& match *self {
                    Dockerfile::File { name: Some(n), .. } => name@ == n@,
                    _ => name@ == custom_image_name(
                        tag_name_of(file_name_of(metadata.workspace_root@)->0),
                        target.spec_triple(),
                        path_hash_of(metadata.workspace_root@, PATH_HASH_SHORT as nat),
                        *self is Custom,
                    ),
                }
                &&& views(args@) == invocation_args(settings.has_buildkit)
                    + platform_args(runs_with_of(*self), *engine)
                    + seq!["--progress"@, settings.progress.spec_name()]
                    + verbose_args(settings.verbosity)
                    + label_args("for-cross-target"@, target.spec_triple())
                    + label_args("runs-with"@, runs_with_of(*self).target.spec_triple())
                    + label_args("workspace_root"@, metadata.workspace_root@)
                    + seq!["--tag"@, name@]
                    + build_arg_list(pair_views(build_args@))
                    + opt_build_arg("CROSS_DEB_ARCH"@, deb_arch_of(target.spec_triple()))
                    + opt_build_arg("CROSS_BASE_IMAGE"@, match base_image { Some(b) if *self is File => Some(b@), _ => None })
                    + seq!["--file"@, dockerfile_path_of(*self, target.spec_triple(), *metadata)]
                    + opts
                    + output_args(engine.kind == EngineType::Docker, opt_view(settings.build_opts))
                    + seq![context_of(*self, settings.host_root@)]
            },
    {
        let mut out: Vec<String> = Vec::new();
        push_invocation(&mut out, settings.has_buildkit);
        let runs_with = self.runs_with();
        push_platform(&mut out, runs_with, engine);
        push_pair(&mut out, "--progress", settings.progress.name());
        push_verbose(&mut out, settings.verbosity);
        push_label(&mut out, "for-cross-target", target.triple());
        push_label(&mut out, "runs-with", runs_with.target.triple());
        push_label(&mut out, "workspace_root", metadata.workspace_root.as_str());
        let name = self.image_name(target.target(), metadata);
        push_pair(&mut out, "--tag", name.as_str());
        push_build_args(&mut out, build_args);
        push_opt_build_arg(&mut out, "CROSS_DEB_ARCH", target.target().deb_arch());
        let is_file = matches!(self, Dockerfile::File { .. });
        push_opt_build_arg(&mut out, "CROSS_BASE_IMAGE", if is_file { base_image } else { None });
        let path = self.path(target, metadata);
        push_pair(&mut out, "--file", path.as_str());
        match push_build_opts(&mut out, &settings.build_opts) {
            Ok(()) => {},
            Err(e) => return Err(e),
        }
        push_output(&mut out, engine.kind.is_docker(), &settings.build_opts);
        match self.context() {
            Some(c) => push_pair_one(&mut out, c),
            None => push_pair_one(&mut out, settings.host_root.as_str()),
        }
        Ok((name, out))
    }
}

/// The image that pre-build commands run in, as `cross` writes it: from
/// the image of the target, a script copied in and run with the target,
/// or commands run through `CROSS_CMD`.
pub open spec fn script_dockerfile(image: Seq<char>) -> Seq<char> {
    "\n                FROM "@ + image
        + "\n                ARG CROSS_DEB_ARCH=\n                ARG CROSS_SCRIPT\n                ARG CROSS_TARGET\n                COPY $CROSS_SCRIPT /pre-build-script\n                RUN chmod +x /pre-build-script\n                RUN ./pre-build-script $CROSS_TARGET"@
}

pub open spec fn commands_dockerfile(image: Seq<char>) -> Seq<char> {
    "\n                FROM "@ + image
        + "\n                ARG CROSS_DEB_ARCH=\n                ARG CROSS_CMD\n                RUN eval \"${CROSS_CMD}\""@
}

/// Lines joined by newlines.
pub open spec fn join_lines(ls: Seq<Seq<char>>) -> Seq<char>
    decreases ls.len(),
{
    if ls.len() == 0 {
        Seq::empty()
    } else if ls.len() == 1 {
        ls[0]
    } else {
        join_lines(ls.drop_last()) + "\n"@ + ls.last()
    }
}

/// The pre-build commands of a configuration, as the image built for them
/// needs them: a script (given in a configuration file, or from the
/// environment as one line naming a file under the project's root on the
/// host, `script_is_file`) is copied in and run with the target; other
/// commands run joined by newlines; no command needs no image. Gives the
/// Dockerfile and its build arguments.
pub open spec fn pre_build_plan_of(
    image: Seq<char>,
    pre_build: PreBuild,
    script_is_file: bool,
    triple: Seq<char>,
) -> Option<(Seq<char>, Seq<(Seq<char>, Seq<char>)>)> {
    match pre_build {
        PreBuild::Single { line, env } => if !env || (!has_char(line@, '\n') && script_is_file) {
            Some((script_dockerfile(image), seq![("CROSS_SCRIPT"@, line@), ("CROSS_TARGET"@, triple)]))
        } else {
            Some((commands_dockerfile(image), seq![("CROSS_CMD"@, line@)]))
        },
        PreBuild::Lines(lines) => if lines@.len() == 0 {
            None
        } else {
            Some((commands_dockerfile(image), seq![("CROSS_CMD"@, join_lines(views(lines@)))]))
        },
    }
}

fn join_newlines(v: &Vec<String>) -> (r: String)
    ensures
        r@ == join_lines(views(v@)),
{
    let mut r = String::new();
    let mut i: usize = 0;
    while i < v.len()
        invariant
            i <= v.len(),
            r@ == join_lines(views(v@).take(i as int)),
        decreases v.len() - i,
    {
        let ghost before = r@;
        assert(views(v@).take(i + 1).drop_last() =~= views(v@).take(i as int));
        if i > 0 {
            r.append("\n");
        }
        r.append(v[i].as_str());
        assert(r@ =~= join_lines(views(v@).take(i + 1)));
        i = i + 1;
    }
    assert(views(v@).take(v.len() as int) =~= views(v@));
    r
}

/// The Dockerfile and build arguments of the image that pre-build commands
/// run in (see [`pre_build_plan_of`]).
pub fn pre_build_plan(image: &str, pre_build: &PreBuild, script_is_file: bool, target: &Target)
    -> (r: Option<(String, Vec<(String, String)>)>)
    ensures
        match r {
            Some((content, args)) => pre_build_plan_of(image@, *pre_build, script_is_file, target.spec_triple())
                == Some((content@, pair_views(args@))),
            None => pre_build_plan_of(image@, *pre_build, script_is_file, target.spec_triple()) is None,
        },
{
    let head = "\n                FROM ";
    match pre_build {
        PreBuild::Single { line, env } => {
            let has_newline = match chars_find(chars_of(line.as_str()).as_slice(), '\n') {
                Some(_) => true,
                None => false,
            };
            let mut content = String::from_str(head);
            content.append(image);
            if !*env || (!has_newline && script_is_file) {
                content.append("\n                ARG CROSS_DEB_ARCH=\n                ARG CROSS_SCRIPT\n                ARG CROSS_TARGET\n                COPY $CROSS_SCRIPT /pre-build-script\n                RUN chmod +x /pre-build-script\n                RUN ./pre-build-script $CROSS_TARGET");
                let args = vec![
                    (String::from_str("CROSS_SCRIPT"), copy_str(line.as_str())),
                    (String::from_str("CROSS_TARGET"), copy_str(target.triple())),
                ];
                assert(pair_views(args@) =~= seq![("CROSS_SCRIPT"@, line@), ("CROSS_TARGET"@, target.spec_triple())]);
                Some((content, args))
            } else {
                content.append("\n                ARG CROSS_DEB_ARCH=\n                ARG CROSS_CMD\n                RUN eval \"${CROSS_CMD}\"");
                let args = vec![(String::from_str("CROSS_CMD"), copy_str(line.as_str()))];
                assert(pair_views(args@) =~= seq![("CROSS_CMD"@, line@)]);
                Some((content, args))
            }
        },
        PreBuild::Lines(lines) => {
            if lines.len() == 0 {
                None
            } else {
                let mut content = String::from_str(head);
                content.append(image);
                content.append("\n                ARG CROSS_DEB_ARCH=\n                ARG CROSS_CMD\n                RUN eval \"${CROSS_CMD}\"");
                let args = vec![(String::from_str("CROSS_CMD"), join_newlines(lines))];
                assert(pair_views(args@) =~= seq![("CROSS_CMD"@, join_lines(views(lines@)))]);
                Some((content, args))
            }
        },
    }
}


/// What building a project's own Dockerfile takes from the configuration:
/// the Dockerfile, its build context, whether the image is named by the
/// configuration (then the built image takes that name), and the build
/// arguments.
#[derive(Debug)]
pub struct DockerfilePlan {
    pub path: String,
    pub context: Option<String>,
    pub named: bool,
    pub build_args: Vec<(String, String)>,
}

/// The project's own Dockerfile to build for `target`, where the
/// configuration gives one (see [`Config::spec_dockerfile`],
/// [`Config::spec_dockerfile_context`] and
/// [`Config::spec_dockerfile_build_args`], none meaning no build
/// arguments); the image it builds keeps the configured image's name where
/// the configuration names one. Fails where the configured image cannot be
/// read.
pub fn dockerfile_plan(config: &Config, target: &Target) -> (r: Result<Option<DockerfilePlan>, PlatformError>)
    ensures
        match config.spec_dockerfile(*target) {
            None => r matches Ok(None),
            Some(f) => match r {
                Ok(Some(p)) => {
                    &&& p.path@ == f
                    &&& opt_view(p.context) == config.spec_dockerfile_context(*target)
                    &&& match config.spec_dockerfile_build_args(*target) {
                        Some(a) => pair_views(p.build_args@) == a,
                        None => p.build_args@.len() == 0,
                    }
                    &&& exists|i: Option<PossibleImage>| #[trigger] config.image_rel(*target, Ok(i)) && p.named == (i is Some)
                },
                Ok(None) => false,
                Err(e) => config.image_rel(*target, Err(e)),
            },
        },
{
    let path = match config.dockerfile(target) {
        Some(p) => p,
        None => return Ok(None),
    };
    let image = match config.image(target) {
        Ok(i) => i,
        Err(e) => return Err(e),
    };
    let ghost i0 = image;
    let named = image.is_some();
    let context = config.dockerfile_context(target);
    let build_args = match config.dockerfile_build_args(target) {
        Some(a) => a,
        None => Vec::new(),
    };
    assert(pair_views(build_args@) =~= pairs_view(build_args@));
    assert(config.image_rel(*target, Ok(i0)));
    Ok(Some(DockerfilePlan { path, context, named, build_args }))
}

/// The run needs an image built for it: the configuration gives a
/// Dockerfile or pre-build commands for the target.
pub fn needs_custom_image(config: &Config, target: &Target) -> (r: bool)
    ensures
        r == (config.spec_dockerfile(*target) is Some || config.spec_has_pre_build(*target)),
{
    config.dockerfile(target).is_some() || config.pre_build(target).is_some()
}

} // verus!
