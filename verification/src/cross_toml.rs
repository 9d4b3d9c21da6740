//! The `Cross.toml` configuration: its `[build]` table, a table for each
//! target, and how two configurations merge.
//!
//! A configuration file is read into these types elsewhere; here they are
//! plain values. The targets of a configuration are kept as a list of
//! pairs, each target named once.

use vstd::prelude::*;
use crate::config::ConfVal;
use crate::docker::custom::PreBuild;
use crate::docker::image::{PossibleImage, same_opt_image};
use crate::rustc::TargetList;
use crate::target::Target;
use crate::text::{str_eq, views};

verus! {

broadcast use vstd::string::group_string_axioms;

/// Environment configuration
#[derive(Debug, Clone, PartialEq, Eq, Default)]
pub struct CrossEnvConfig {
    pub volumes: Option<Vec<String>>,
    pub passthrough: Option<Vec<String>>,
}

/// Build configuration
#[derive(Debug, Clone, PartialEq, Eq, Default)]
pub struct CrossBuildConfig {
    pub env: CrossEnvConfig,
    pub xargo: Option<bool>,
    pub build_std: Option<BuildStd>,
    pub zig: Option<CrossZigConfig>,
    pub default_target: Option<String>,
    pub pre_build: Option<PreBuild>,
    pub dockerfile: Option<CrossTargetDockerfileConfig>,
}

/// Target configuration
#[derive(Debug, Clone, PartialEq, Eq)]
pub struct CrossTargetConfig {
    pub xargo: Option<bool>,
    pub build_std: Option<BuildStd>,
    pub zig: Option<CrossZigConfig>,
    pub image: Option<PossibleImage>,
    pub dockerfile: Option<CrossTargetDockerfileConfig>,
    pub pre_build: Option<PreBuild>,
    pub runner: Option<String>,
    pub env: CrossEnvConfig,
}

/// Whether to build the standard library: a flag, or the crates to build.
#[derive(Debug, Clone, PartialEq, Eq)]
pub enum BuildStd {
    Bool(bool),
    Crates(Vec<String>),
}

/// Two build-std settings that say the same.
pub open spec fn same_build_std(a: BuildStd, b: BuildStd) -> bool {
    match (a, b) {
        (BuildStd::Bool(x), BuildStd::Bool(y)) => x == y,
        (BuildStd::Crates(x), BuildStd::Crates(y)) => x@ == y@,
        _ => false,
    }
}

/// Two pre-build settings that say the same.
pub open spec fn same_pre_build(a: PreBuild, b: PreBuild) -> bool {
    match (a, b) {
        (PreBuild::Single { line: l1, env: e1 }, PreBuild::Single { line: l2, env: e2 }) => l1 == l2 && e1 == e2,
        (PreBuild::Lines(x), PreBuild::Lines(y)) => x@ == y@,
        _ => false,
    }
}

/// A copy of a pre-build setting.
pub fn duplicate_pre_build(p: &PreBuild) -> (r: PreBuild)
    ensures
        same_pre_build(r, *p),
{
    match p {
        PreBuild::Single { line, env } => PreBuild::Single { line: line.clone(), env: *env },
        PreBuild::Lines(v) => PreBuild::Lines(crate::text::copy_strings(v)),
    }
}

impl BuildStd {
    /// A copy of this setting.
    pub fn duplicate(&self) -> (r: BuildStd)
        ensures
            same_build_std(r, *self),
    {
        match self {
            BuildStd::Bool(b) => BuildStd::Bool(*b),
            BuildStd::Crates(v) => BuildStd::Crates(crate::text::copy_strings(v)),
        }
    }

    /// Whether the standard library is built: the flag, or whether any
    /// crate is named.
    pub fn enabled(&self) -> (r: bool)
        ensures
            r == match *self {
                BuildStd::Bool(b) => b,
                BuildStd::Crates(v) => v@.len() > 0,
            },
    {
        match self {
            BuildStd::Bool(enabled) => *enabled,
            BuildStd::Crates(arr) => arr.len() > 0,
        }
    }
}

/// Dockerfile configuration; the build arguments are pairs of a name and a
/// value, each name given once.
#[derive(Debug, Clone, PartialEq, Eq)]
pub struct CrossTargetDockerfileConfig {
    pub file: String,
    pub context: Option<String>,
    pub build_args: Option<Vec<(String, String)>>,
}

impl CrossTargetDockerfileConfig {
    /// A Dockerfile given by its path alone.
    pub fn from_file(s: &str) -> (r: CrossTargetDockerfileConfig)
        ensures
            r.file@ == s@,
            r.context is None,
            r.build_args is None,
    {
        CrossTargetDockerfileConfig { file: crate::text::copy_str(s), context: None, build_args: None }
    }
}

/// Zig configuration
#[derive(Debug, Clone, PartialEq, Eq)]
pub struct CrossZigConfig {
    pub enable: Option<bool>,
    pub version: Option<String>,
    pub image: Option<PossibleImage>,
}

impl CrossZigConfig {
    /// Zig given as a version: enabled, at that version.
    pub fn from_version(s: &str) -> (r: CrossZigConfig)
        ensures
            r.enable == Some(true),
            r.version is Some && r.version->0@ == s@,
            r.image is None,
    {
        CrossZigConfig { enable: Some(true), version: Some(crate::text::copy_str(s)), image: None }
    }

    /// Zig given as a flag.
    pub fn from_bool(b: bool) -> (r: CrossZigConfig)
        ensures
            r.enable == Some(b),
            r.version is None,
            r.image is None,
    {
        CrossZigConfig { enable: Some(b), version: None, image: None }
    }
}

/// Cross configuration
#[derive(Debug, Clone, PartialEq, Eq)]
pub struct CrossToml {
    pub targets: Vec<(Target, CrossTargetConfig)>,
    pub build: CrossBuildConfig,
}

/// Two targets are the same: of the same kind, naming the same triple.
pub open spec fn same_target(a: Target, b: Target) -> bool {
    (a is BuiltIn == b is BuiltIn) && a.spec_triple() == b.spec_triple()
}

/// The configuration of the first entry for target `t`.
pub open spec fn target_cfg(ts: Seq<(Target, CrossTargetConfig)>, t: Target) -> Option<CrossTargetConfig>
    decreases ts.len(),
{
    if ts.len() == 0 {
        None
    } else if same_target(ts[0].0, t) {
        Some(ts[0].1)
    } else {
        target_cfg(ts.drop_first(), t)
    }
}

/// The triples named in a list of targets.
pub open spec fn target_triples(ts: Seq<(Target, CrossTargetConfig)>) -> Seq<Seq<char>> {
    ts.map_values(|p: (Target, CrossTargetConfig)| p.0.spec_triple())
}

/// No triple is named twice.
pub open spec fn triples_unique(ts: Seq<(Target, CrossTargetConfig)>) -> bool {
    forall|i: int, j: int| 0 <= i < j < ts.len() ==> #[trigger] ts[i].0.spec_triple() != #[trigger] ts[j].0.spec_triple()
}

/// An optional reference to the value that `v` holds, if any.
pub open spec fn opt_ref_eq<T>(r: Option<&T>, v: Option<T>) -> bool {
    match r {
        Some(x) => v == Some(*x),
        None => v is None,
    }
}

/// A field given by the configuration of the target `t`.
pub open spec fn field_of<T>(c: Option<CrossTargetConfig>, f: spec_fn(CrossTargetConfig) -> Option<T>) -> Option<T> {
    match c {
        Some(c) => f(c),
        None => None,
    }
}

impl CrossToml {
    /// The configuration of a target.
    pub open spec fn spec_target(&self, t: Target) -> Option<CrossTargetConfig> {
        target_cfg(self.targets@, t)
    }

    /// The table of a target, if the configuration has one.
    pub fn get_target(&self, target: &Target) -> (r: Option<&CrossTargetConfig>)
        ensures
            match r {
                Some(c) => self.spec_target(*target) == Some(*c),
                None => self.spec_target(*target) is None,
            },
    {
        let mut i: usize = 0;
        assert(self.targets@.skip(0) == self.targets@);
        while i < self.targets.len()
            invariant
                i <= self.targets.len(),
                self.spec_target(*target) == target_cfg(self.targets@.skip(i as int), *target),
            decreases self.targets.len() - i,
        {
            assert(self.targets@.skip(i as int)[0] == self.targets@[i as int]);
            assert(self.targets@.skip(i as int).drop_first() == self.targets@.skip(i + 1));
            if self.targets[i].0.same(target) {
                return Some(&self.targets[i].1);
            }
            i = i + 1;
        }
        None
    }

    /// The `target.{}.image` part of `Cross.toml`
    pub fn image(&self, target: &Target) -> (r: Option<&PossibleImage>)
        ensures
            opt_ref_eq(r, field_of(self.spec_target(*target), |c: CrossTargetConfig| c.image)),
    {
        match self.get_target(target) {
            Some(t) => t.image.as_ref(),
            None => None,
        }
    }

    /// The `{}.dockerfile` or `{}.dockerfile.file` part of `Cross.toml`
    pub fn dockerfile(&self, target: &Target) -> (r: ConfVal<&String>)
        ensures
            opt_ref_eq(r.build, match self.build.dockerfile { Some(d) => Some(d.file), None => None }),
            opt_ref_eq(r.target, match field_of(self.spec_target(*target), |c: CrossTargetConfig| c.dockerfile) {
                Some(d) => Some(d.file),
                None => None,
            }),
    {
        let build = match &self.build.dockerfile {
            Some(d) => Some(&d.file),
            None => None,
        };
        let t = match self.get_target(target) {
            Some(t) => match &t.dockerfile {
                Some(d) => Some(&d.file),
                None => None,
            },
            None => None,
        };
        ConfVal::new(build, t)
    }

    /// The `target.{}.dockerfile.context` part of `Cross.toml`
    pub fn dockerfile_context(&self, target: &Target) -> (r: ConfVal<&String>)
        ensures
            opt_ref_eq(r.build, match self.build.dockerfile { Some(d) => d.context, None => None }),
            opt_ref_eq(r.target, match field_of(self.spec_target(*target), |c: CrossTargetConfig| c.dockerfile) {
                Some(d) => d.context,
                None => None,
            }),
    {
        let build = match &self.build.dockerfile {
            Some(d) => d.context.as_ref(),
            None => None,
        };
        let t = match self.get_target(target) {
            Some(t) => match &t.dockerfile {
                Some(d) => d.context.as_ref(),
                None => None,
            },
            None => None,
        };
        ConfVal::new(build, t)
    }

    /// The `target.{}.dockerfile.build_args` and `build.dockerfile.build_args`
    /// parts of `Cross.toml`, joined: a target's argument wins over a build
    /// argument of the same name (see [`opt_merge`]).
    pub fn dockerfile_build_args(&self, target: &Target) -> (r: Option<Vec<(String, String)>>)
        ensures
            opt_pairs_view(r) == opt_merge_of(
                opt_pairs_view(build_args_of(field_of(self.spec_target(*target), |c: CrossTargetConfig| c.dockerfile))),
                opt_pairs_view(build_args_of(self.build.dockerfile)),
            ),
    {
        let t = match self.get_target(target) {
            Some(t) => match &t.dockerfile {
                Some(d) => match &d.build_args {
                    Some(a) => Some(copy_pairs(a)),
                    None => None,
                },
                None => None,
            },
            None => None,
        };
        let b = match &self.build.dockerfile {
            Some(d) => match &d.build_args {
                Some(a) => Some(copy_pairs(a)),
                None => None,
            },
            None => None,
        };
        opt_merge(t, b)
    }

    /// The `build.pre-build` and `target.{}.pre-build` parts of `Cross.toml`
    pub fn pre_build(&self, target: &Target) -> (r: ConfVal<&PreBuild>)
        ensures
            opt_ref_eq(r.build, self.build.pre_build),
            opt_ref_eq(r.target, field_of(self.spec_target(*target), |c: CrossTargetConfig| c.pre_build)),
    {
        let t = match self.get_target(target) {
            Some(t) => t.pre_build.as_ref(),
            None => None,
        };
        ConfVal::new(self.build.pre_build.as_ref(), t)
    }

    /// The `target.{}.runner` part of `Cross.toml`
    pub fn runner(&self, target: &Target) -> (r: Option<&String>)
        ensures
            opt_ref_eq(r, field_of(self.spec_target(*target), |c: CrossTargetConfig| c.runner)),
    {
        match self.get_target(target) {
            Some(t) => t.runner.as_ref(),
            None => None,
        }
    }

    /// The `build.xargo` or the `target.{}.xargo` part of `Cross.toml`
    pub fn xargo(&self, target: &Target) -> (r: ConfVal<bool>)
        ensures
            r.build == self.build.xargo,
            r.target == field_of(self.spec_target(*target), |c: CrossTargetConfig| c.xargo),
    {
        let t = match self.get_target(target) {
            Some(t) => t.xargo,
            None => None,
        };
        ConfVal::new(self.build.xargo, t)
    }

    /// The `build.build-std` or the `target.{}.build-std` part of `Cross.toml`
    pub fn build_std(&self, target: &Target) -> (r: ConfVal<&BuildStd>)
        ensures
            opt_ref_eq(r.build, self.build.build_std),
            opt_ref_eq(r.target, field_of(self.spec_target(*target), |c: CrossTargetConfig| c.build_std)),
    {
        let t = match self.get_target(target) {
            Some(t) => t.build_std.as_ref(),
            None => None,
        };
        ConfVal::new(self.build.build_std.as_ref(), t)
    }

    /// The `{}.zig` or `{}.zig.enable` part of `Cross.toml`
    pub fn zig(&self, target: &Target) -> (r: ConfVal<bool>)
        ensures
            r.build == (match self.build.zig { Some(z) => z.enable, None => None }),
            r.target == (match field_of(self.spec_target(*target), |c: CrossTargetConfig| c.zig) {
                Some(z) => z.enable,
                None => None,
            }),
    {
        let build = match &self.build.zig {
            Some(z) => z.enable,
            None => None,
        };
        let t = match self.get_target(target) {
            Some(t) => match &t.zig {
                Some(z) => z.enable,
                None => None,
            },
            None => None,
        };
        ConfVal::new(build, t)
    }

    /// The `{}.zig.version` part of `Cross.toml`
    pub fn zig_version(&self, target: &Target) -> (r: ConfVal<String>)
        ensures
            r.build == (match self.build.zig { Some(z) => z.version, None => None }),
            r.target == (match field_of(self.spec_target(*target), |c: CrossTargetConfig| c.zig) {
                Some(z) => z.version,
                None => None,
            }),
    {
        let build = match &self.build.zig {
            Some(z) => match &z.version {
                Some(v) => Some(v.clone()),
                None => None,
            },
            None => None,
        };
        let t = match self.get_target(target) {
            Some(t) => match &t.zig {
                Some(z) => match &z.version {
                    Some(v) => Some(v.clone()),
                    None => None,
                },
                None => None,
            },
            None => None,
        };
        ConfVal::new(build, t)
    }

    /// The `{}.zig.image` part of `Cross.toml`
    pub fn zig_image(&self, target: &Target) -> (r: ConfVal<PossibleImage>)
        ensures
            same_opt_image(r.build, match self.build.zig { Some(z) => z.image, None => None }),
            same_opt_image(r.target, match field_of(self.spec_target(*target), |c: CrossTargetConfig| c.zig) {
                Some(z) => z.image,
                None => None,
            }),
    {
        let build = match &self.build.zig {
            Some(z) => match &z.image {
                Some(i) => Some(i.duplicate()),
                None => None,
            },
            None => None,
        };
        let t = match self.get_target(target) {
            Some(t) => match &t.zig {
                Some(z) => match &z.image {
                    Some(i) => Some(i.duplicate()),
                    None => None,
                },
                None => None,
            },
            None => None,
        };
        ConfVal::new(build, t)
    }

    /// The environment variables to pass through for `build` and `target`
    pub fn env_passthrough(&self, target: &Target) -> (r: ConfVal<&Vec<String>>)
        ensures
            opt_ref_eq(r.build, self.build.env.passthrough),
            opt_ref_eq(r.target, field_of(self.spec_target(*target), |c: CrossTargetConfig| c.env.passthrough)),
    {
        let t = match self.get_target(target) {
            Some(t) => t.env.passthrough.as_ref(),
            None => None,
        };
        ConfVal::new(self.build.env.passthrough.as_ref(), t)
    }

    /// The volumes to mount for `build` and `target`
    pub fn env_volumes(&self, target: &Target) -> (r: ConfVal<&Vec<String>>)
        ensures
            opt_ref_eq(r.build, self.build.env.volumes),
            opt_ref_eq(r.target, field_of(self.spec_target(*target), |c: CrossTargetConfig| c.env.volumes)),
    {
        let t = match self.get_target(target) {
            Some(t) => t.env.volumes.as_ref(),
            None => None,
        };
        ConfVal::new(self.build.env.volumes.as_ref(), t)
    }

    /// The default target to build, built in if `rustc` knows it.
    pub fn default_target(&self, target_list: &TargetList) -> (r: Option<Target>)
        ensures
            match r {
                Some(t) => self.build.default_target is Some
                    && t.spec_triple() == self.build.default_target->0@
                    && (t is BuiltIn <==> views(target_list.triples@).contains(self.build.default_target->0@)),
                None => self.build.default_target is None,
            },
    {
        match &self.build.default_target {
            Some(t) => Some(Target::from(t.as_str(), target_list)),
            None => None,
        }
    }
}

/// The build arguments of a Dockerfile configuration.
pub open spec fn build_args_of(d: Option<CrossTargetDockerfileConfig>) -> Option<Vec<(String, String)>> {
    match d {
        Some(d) => d.build_args,
        None => None,
    }
}

/// A list of string pairs, as character sequences.
pub open spec fn pairs_view(v: Seq<(String, String)>) -> Seq<(Seq<char>, Seq<char>)> {
    v.map_values(|p: (String, String)| (p.0@, p.1@))
}

pub open spec fn opt_pairs_view(v: Option<Vec<(String, String)>>) -> Option<Seq<(Seq<char>, Seq<char>)>> {
    match v {
        Some(v) => Some(pairs_view(v@)),
        None => None,
    }
}

/// The value of the first pair named `k`.
pub open spec fn pair_lookup(ps: Seq<(Seq<char>, Seq<char>)>, k: Seq<char>) -> Option<Seq<char>>
    decreases ps.len(),
{
    if ps.len() == 0 {
        None
    } else if ps[0].0 == k {
        Some(ps[0].1)
    } else {
        pair_lookup(ps.drop_first(), k)
    }
}

/// The pairs of `ys` whose name `xs` does not hold.
pub open spec fn new_pairs(xs: Seq<(Seq<char>, Seq<char>)>, ys: Seq<(Seq<char>, Seq<char>)>) -> Seq<(Seq<char>, Seq<char>)>
    decreases ys.len(),
{
    if ys.len() == 0 {
        Seq::empty()
    } else {
        let r = new_pairs(xs, ys.drop_last());
        if pair_lookup(xs, ys.last().0) is None {
            r.push(ys.last())
        } else {
            r
        }
    }
}

/// `xs` updated by `ys`: each pair of `xs` takes the value `ys` gives its
/// name, and the pairs of names that only `ys` holds follow.
pub open spec fn merge_pairs(xs: Seq<(Seq<char>, Seq<char>)>, ys: Seq<(Seq<char>, Seq<char>)>) -> Seq<(Seq<char>, Seq<char>)> {
    Seq::new(xs.len(), |i: int| match pair_lookup(ys, xs[i].0) {
        Some(v) => (xs[i].0, v),
        None => xs[i],
    }) + new_pairs(xs, ys)
}

/// Two optional maps joined: where both are given, the pairs of `opt1` win
/// over those of `opt2` of the same name.
pub open spec fn opt_merge_of(
    opt1: Option<Seq<(Seq<char>, Seq<char>)>>,
    opt2: Option<Seq<(Seq<char>, Seq<char>)>>,
) -> Option<Seq<(Seq<char>, Seq<char>)>> {
    match (opt1, opt2) {
        (None, None) => None,
        (None, Some(b)) => Some(b),
        (Some(a), None) => Some(a),
        (Some(a), Some(b)) => Some(merge_pairs(b, a)),
    }
}

proof fn lemma_pairs_view_push(s: Seq<(String, String)>, x: (String, String))
    ensures
        pairs_view(s.push(x)) == pairs_view(s).push((x.0@, x.1@)),
{
    assert(pairs_view(s.push(x)) =~= pairs_view(s).push((x.0@, x.1@)));
}

/// A copy of a list of string pairs.
fn copy_pairs(v: &Vec<(String, String)>) -> (r: Vec<(String, String)>)
    ensures
        pairs_view(r@) == pairs_view(v@),
{
    let mut r: Vec<(String, String)> = Vec::new();
    let mut i: usize = 0;
    while i < v.len()
        invariant
            i <= v.len(),
            pairs_view(r@) == pairs_view(v@).take(i as int),
        decreases v.len() - i,
    {
        let a = v[i].0.clone();
        let b = v[i].1.clone();
        let ghost before = r@;
        r.push((a, b));
        proof { lemma_pairs_view_push(before, (a, b)); }
        assert(pairs_view(r@) =~= pairs_view(v@).take(i + 1));
        i = i + 1;
    }
    assert(pairs_view(v@).take(v.len() as int) =~= pairs_view(v@));
    r
}

/// The value of the first pair named `k`.
fn lookup_pair(v: &Vec<(String, String)>, k: &str) -> (r: Option<String>)
    ensures
        match r {
            Some(s) => pair_lookup(pairs_view(v@), k@) == Some(s@),
            None => pair_lookup(pairs_view(v@), k@) is None,
        },
{
    let ghost ps = pairs_view(v@);
    let mut i: usize = 0;
    assert(ps.skip(0) == ps);
    while i < v.len()
        invariant
            i <= v.len(),
            ps == pairs_view(v@),
            pair_lookup(ps, k@) == pair_lookup(ps.skip(i as int), k@),
        decreases v.len() - i,
    {
        assert(ps.skip(i as int)[0] == ps[i as int]);
        assert(ps.skip(i as int).drop_first() == ps.skip(i + 1));
        if str_eq(v[i].0.as_str(), k) {
            return Some(v[i].1.clone());
        }
        i = i + 1;
    }
    None
}

/// `xs` updated by `ys` (see [`merge_pairs`]).
fn merge_pair_lists(xs: Vec<(String, String)>, ys: Vec<(String, String)>) -> (r: Vec<(String, String)>)
    ensures
        pairs_view(r@) == merge_pairs(pairs_view(xs@), pairs_view(ys@)),
{
    let ghost xv = pairs_view(xs@);
    let ghost yv = pairs_view(ys@);
    let mut r: Vec<(String, String)> = Vec::new();
    let mut i: usize = 0;
    while i < xs.len()
        invariant
            i <= xs.len(),
            xv == pairs_view(xs@),
            yv == pairs_view(ys@),
            pairs_view(r@) == Seq::new(i as nat, |k: int| match pair_lookup(yv, xv[k].0) {
                Some(v) => (xv[k].0, v),
                None => xv[k],
            }),
        decreases xs.len() - i,
    {
        let name = xs[i].0.clone();
        let value = match lookup_pair(&ys, xs[i].0.as_str()) {
            Some(v) => v,
            None => xs[i].1.clone(),
        };
        let ghost before = r@;
        assert(xv[i as int] == (xs@[i as int].0@, xs@[i as int].1@));
        r.push((name, value));
        proof { lemma_pairs_view_push(before, (name, value)); }
        assert(pairs_view(r@) =~= Seq::new((i + 1) as nat, |k: int| match pair_lookup(yv, xv[k].0) {
            Some(v) => (xv[k].0, v),
            None => xv[k],
        }));
        i = i + 1;
    }
    let ghost head = pairs_view(r@);
    let mut j: usize = 0;
    while j < ys.len()
        invariant
            j <= ys.len(),
            xv == pairs_view(xs@),
            yv == pairs_view(ys@),
            pairs_view(r@) == head + new_pairs(xv, yv.take(j as int)),
        decreases ys.len() - j,
    {
        assert(yv.take(j + 1).drop_last() == yv.take(j as int));
        assert(yv.take(j + 1).last() == yv[j as int]);
        if lookup_pair(&xs, ys[j].0.as_str()).is_none() {
            let a = ys[j].0.clone();
            let b = ys[j].1.clone();
            let ghost before = r@;
            r.push((a, b));
            proof { lemma_pairs_view_push(before, (a, b)); }
            assert(yv[j as int] == (a@, b@));
            assert(pairs_view(r@) =~= head + new_pairs(xv, yv.take(j + 1)));
        }
        j = j + 1;
    }
    assert(yv.take(ys.len() as int) == yv);
    r
}

/// Two optional maps of build arguments joined: where both are given, the
/// pairs of `opt1` win over those of `opt2` of the same name.
pub fn opt_merge(opt1: Option<Vec<(String, String)>>, opt2: Option<Vec<(String, String)>>) -> (r: Option<Vec<(String, String)>>)
    ensures
        opt_pairs_view(r) == opt_merge_of(opt_pairs_view(opt1), opt_pairs_view(opt2)),
{
    match (opt1, opt2) {
        (None, None) => None,
        (None, Some(b)) => Some(b),
        (Some(a), None) => Some(a),
        (Some(a), Some(b)) => Some(merge_pair_lists(b, a)),
    }
}

/// `y` where it is given, else `x`: how a value of the second configuration
/// wins in a merge.
pub open spec fn merge_opt<T>(x: Option<T>, y: Option<T>) -> Option<T> {
    match y {
        Some(_) => y,
        None => x,
    }
}

/// A pre-build command as a configuration file gives it back: a single
/// command is a path to a script, not a line from the environment.
pub open spec fn reread_pre_build(p: Option<PreBuild>) -> Option<PreBuild> {
    match p {
        Some(PreBuild::Single { line, env }) => Some(PreBuild::Single { line, env: false }),
        _ => p,
    }
}

pub open spec fn merge_env(x: CrossEnvConfig, y: CrossEnvConfig) -> CrossEnvConfig {
    CrossEnvConfig { volumes: merge_opt(x.volumes, y.volumes), passthrough: merge_opt(x.passthrough, y.passthrough) }
}

/// Zig tables merge field by field.
pub open spec fn merge_zig(x: Option<CrossZigConfig>, y: Option<CrossZigConfig>) -> Option<CrossZigConfig> {
    match (x, y) {
        (Some(a), Some(b)) => Some(CrossZigConfig {
            enable: merge_opt(a.enable, b.enable),
            version: merge_opt(a.version, b.version),
            image: merge_opt(a.image, b.image),
        }),
        _ => merge_opt(x, y),
    }
}

/// Build arguments merge name by name.
pub open spec fn merge_args_view(
    a: Option<Seq<(Seq<char>, Seq<char>)>>,
    b: Option<Seq<(Seq<char>, Seq<char>)>>,
) -> Option<Seq<(Seq<char>, Seq<char>)>> {
    match (a, b) {
        (Some(x), Some(y)) => Some(merge_pairs(x, y)),
        _ => merge_opt(a, b),
    }
}

/// Dockerfile tables merge field by field, their build arguments name by
/// name.
pub open spec fn dockerfile_merged(
    x: Option<CrossTargetDockerfileConfig>,
    y: Option<CrossTargetDockerfileConfig>,
    r: Option<CrossTargetDockerfileConfig>,
) -> bool {
    match (x, y) {
        (Some(a), Some(b)) => r is Some && r->0.file == b.file && r->0.context == merge_opt(a.context, b.context)
            && opt_pairs_view(r->0.build_args) == merge_args_view(opt_pairs_view(a.build_args), opt_pairs_view(b.build_args)),
        _ => r == merge_opt(x, y),
    }
}

/// `r` is the `[build]` table `x` merged with `y`.
pub open spec fn build_merged(x: CrossBuildConfig, y: CrossBuildConfig, r: CrossBuildConfig) -> bool {
    &&& r.env == merge_env(x.env, y.env)
    &&& r.xargo == merge_opt(x.xargo, y.xargo)
    &&& r.build_std == merge_opt(x.build_std, y.build_std)
    &&& r.zig == merge_zig(x.zig, y.zig)
    &&& r.default_target == merge_opt(x.default_target, y.default_target)
    &&& r.pre_build == reread_pre_build(merge_opt(x.pre_build, y.pre_build))
    &&& dockerfile_merged(x.dockerfile, y.dockerfile, r.dockerfile)
}

/// A target table that gives nothing.
pub open spec fn empty_target_cfg() -> CrossTargetConfig {
    CrossTargetConfig {
        xargo: None,
        build_std: None,
        zig: None,
        image: None,
        dockerfile: None,
        pre_build: None,
        runner: None,
        env: CrossEnvConfig { volumes: None, passthrough: None },
    }
}

/// `r` is the target table `x` merged with `y`.
pub open spec fn target_merged(x: CrossTargetConfig, y: CrossTargetConfig, r: CrossTargetConfig) -> bool {
    &&& r.env == merge_env(x.env, y.env)
    &&& r.xargo == merge_opt(x.xargo, y.xargo)
    &&& r.build_std == merge_opt(x.build_std, y.build_std)
    &&& r.zig == merge_zig(x.zig, y.zig)
    &&& r.image == merge_opt(x.image, y.image)
    &&& r.runner == merge_opt(x.runner, y.runner)
    &&& r.pre_build == reread_pre_build(merge_opt(x.pre_build, y.pre_build))
    &&& dockerfile_merged(x.dockerfile, y.dockerfile, r.dockerfile)
}

/// The table of the first target of `ts` that names the triple `t`.
pub open spec fn triple_cfg(ts: Seq<(Target, CrossTargetConfig)>, t: Seq<char>) -> Option<CrossTargetConfig>
    decreases ts.len(),
{
    if ts.len() == 0 {
        None
    } else if ts[0].0.spec_triple() == t {
        Some(ts[0].1)
    } else {
        triple_cfg(ts.drop_first(), t)
    }
}

/// The targets of `ys` whose triple `xs` does not name, in order.
pub open spec fn new_targets(xs: Seq<(Target, CrossTargetConfig)>, ys: Seq<(Target, CrossTargetConfig)>) -> Seq<(Target, CrossTargetConfig)>
    decreases ys.len(),
{
    if ys.len() == 0 {
        Seq::empty()
    } else {
        let r = new_targets(xs, ys.drop_last());
        if triple_cfg(xs, ys.last().0.spec_triple()) is None {
            r.push(ys.last())
        } else {
            r
        }
    }
}

/// `rs` is the target list `xs` merged with `ys`: the targets of `xs` in
/// order, each merged with the table `ys` gives its triple, then the
/// targets only `ys` names.
pub open spec fn targets_merged(
    xs: Seq<(Target, CrossTargetConfig)>,
    ys: Seq<(Target, CrossTargetConfig)>,
    rs: Seq<(Target, CrossTargetConfig)>,
) -> bool {
    let nt = new_targets(xs, ys);
    &&& rs.len() == xs.len() + nt.len()
    &&& forall|i: int| 0 <= i < xs.len() ==> {
        &&& (#[trigger] rs[i]).0 == xs[i].0
        &&& target_merged(xs[i].1, match triple_cfg(ys, xs[i].0.spec_triple()) {
            Some(c) => c,
            None => empty_target_cfg(),
        }, rs[i].1)
    }
    &&& forall|k: int| 0 <= k < nt.len() ==> {
        &&& (#[trigger] rs[xs.len() + k]).0 == nt[k].0
        &&& target_merged(empty_target_cfg(), nt[k].1, rs[xs.len() + k].1)
    }
}

impl CrossToml {
    /// Each target is named once.
    pub open spec fn wf(&self) -> bool {
        triples_unique(self.targets@)
    }

    /// Whether no target is configured twice (see [`CrossToml::wf`]).
    pub fn is_wf(&self) -> (r: bool)
        ensures
            r == self.wf(),
    {
        let n = self.targets.len();
        let mut i: usize = 0;
        while i < n
            invariant
                n == self.targets@.len(),
                i <= n,
                forall|a: int, b: int| 0 <= a < b < n && a < i ==> #[trigger] self.targets@[a].0.spec_triple() != #[trigger] self.targets@[b].0.spec_triple(),
            decreases n - i,
        {
            let mut j: usize = i + 1;
            while j < n
                invariant
                    n == self.targets@.len(),
                    i < n,
                    i + 1 <= j <= n,
                    forall|a: int, b: int| 0 <= a < b < n && a < i ==> #[trigger] self.targets@[a].0.spec_triple() != #[trigger] self.targets@[b].0.spec_triple(),
                    forall|b: int| i < b < j ==> self.targets@[i as int].0.spec_triple() != #[trigger] self.targets@[b].0.spec_triple(),
                decreases n - j,
            {
                if str_eq(self.targets[i].0.triple(), self.targets[j].0.triple()) {
                    assert(!triples_unique(self.targets@)) by {
                        assert(self.targets@[i as int].0.spec_triple() == self.targets@[j as int].0.spec_triple());
                    }
                    return false;
                }
                j += 1;
            }
            i += 1;
        }
        true
    }
}

/// A configuration that is empty.
pub fn empty_env() -> (r: CrossEnvConfig)
    ensures
        r == (CrossEnvConfig { volumes: None, passthrough: None }),
{
    CrossEnvConfig { volumes: None, passthrough: None }
}

fn empty_target() -> (r: CrossTargetConfig)
    ensures
        r == empty_target_cfg(),
{
    CrossTargetConfig {
        xargo: None,
        build_std: None,
        zig: None,
        image: None,
        dockerfile: None,
        pre_build: None,
        runner: None,
        env: empty_env(),
    }
}

fn pick<T>(x: Option<T>, y: Option<T>) -> (r: Option<T>)
    ensures
        r == merge_opt(x, y),
{
    match y {
        Some(v) => Some(v),
        None => x,
    }
}

fn reread(p: Option<PreBuild>) -> (r: Option<PreBuild>)
    ensures
        r == reread_pre_build(p),
{
    match p {
        Some(PreBuild::Single { line, env: _ }) => Some(PreBuild::Single { line, env: false }),
        other => other,
    }
}

fn merge_env_exec(x: CrossEnvConfig, y: CrossEnvConfig) -> (r: CrossEnvConfig)
    ensures
        r == merge_env(x, y),
{
    CrossEnvConfig { volumes: pick(x.volumes, y.volumes), passthrough: pick(x.passthrough, y.passthrough) }
}

fn merge_zig_exec(x: Option<CrossZigConfig>, y: Option<CrossZigConfig>) -> (r: Option<CrossZigConfig>)
    ensures
        r == merge_zig(x, y),
{
    match (x, y) {
        (Some(a), Some(b)) => Some(CrossZigConfig {
            enable: pick(a.enable, b.enable),
            version: pick(a.version, b.version),
            image: pick(a.image, b.image),
        }),
        (x, y) => pick(x, y),
    }
}

fn merge_args(a: Option<Vec<(String, String)>>, b: Option<Vec<(String, String)>>) -> (r: Option<Vec<(String, String)>>)
    ensures
        opt_pairs_view(r) == merge_args_view(opt_pairs_view(a), opt_pairs_view(b)),
{
    match (a, b) {
        (Some(x), Some(y)) => Some(merge_pair_lists(x, y)),
        (a, b) => pick(a, b),
    }
}

fn merge_dockerfile(x: Option<CrossTargetDockerfileConfig>, y: Option<CrossTargetDockerfileConfig>) -> (r: Option<CrossTargetDockerfileConfig>)
    ensures
        dockerfile_merged(x, y, r),
{
    match (x, y) {
        (Some(a), Some(b)) => Some(CrossTargetDockerfileConfig {
            file: b.file,
            context: pick(a.context, b.context),
            build_args: merge_args(a.build_args, b.build_args),
        }),
        (x, y) => pick(x, y),
    }
}

fn merge_build(x: CrossBuildConfig, y: CrossBuildConfig) -> (r: CrossBuildConfig)
    ensures
        build_merged(x, y, r),
{
    CrossBuildConfig {
        env: merge_env_exec(x.env, y.env),
        xargo: pick(x.xargo, y.xargo),
        build_std: pick(x.build_std, y.build_std),
        zig: merge_zig_exec(x.zig, y.zig),
        default_target: pick(x.default_target, y.default_target),
        pre_build: reread(pick(x.pre_build, y.pre_build)),
        dockerfile: merge_dockerfile(x.dockerfile, y.dockerfile),
    }
}

fn merge_target(x: CrossTargetConfig, y: CrossTargetConfig) -> (r: CrossTargetConfig)
    ensures
        target_merged(x, y, r),
{
    CrossTargetConfig {
        env: merge_env_exec(x.env, y.env),
        xargo: pick(x.xargo, y.xargo),
        build_std: pick(x.build_std, y.build_std),
        zig: merge_zig_exec(x.zig, y.zig),
        image: pick(x.image, y.image),
        runner: pick(x.runner, y.runner),
        pre_build: reread(pick(x.pre_build, y.pre_build)),
        dockerfile: merge_dockerfile(x.dockerfile, y.dockerfile),
    }
}

/// The elements of a list, each in a slot of its own.
fn into_slots<T>(v: Vec<T>) -> (r: Vec<Option<T>>)
    ensures
        r@.len() == v@.len(),
        forall|i: int| 0 <= i < v@.len() ==> r@[i] == Some(#[trigger] v@[i]),
{
    let mut v = v;
    let ghost orig = v@;
    let mut rev: Vec<T> = Vec::new();
    while v.len() > 0
        invariant
            v@.len() + rev@.len() == orig.len(),
            forall|i: int| 0 <= i < v@.len() ==> v@[i] == orig[i],
            forall|i: int| 0 <= i < rev@.len() ==> rev@[i] == orig[orig.len() - 1 - i],
        decreases v@.len(),
    {
        let x = v.pop().unwrap();
        rev.push(x);
    }
    let mut r: Vec<Option<T>> = Vec::new();
    while rev.len() > 0
        invariant
            r@.len() + rev@.len() == orig.len(),
            forall|i: int| 0 <= i < rev@.len() ==> rev@[i] == orig[orig.len() - 1 - i],
            forall|i: int| 0 <= i < r@.len() ==> r@[i] == Some(orig[i]),
        decreases rev@.len(),
    {
        let x = rev.pop().unwrap();
        r.push(Some(x));
    }
    r
}

/// Takes the element out of a slot, leaving it empty.
fn take_slot<T>(v: &mut Vec<Option<T>>, i: usize) -> (r: Option<T>)
    requires
        i < old(v)@.len(),
    ensures
        r == old(v)@[i as int],
        final(v)@ == old(v)@.update(i as int, None),
{
    let r = v.remove(i);
    v.insert(i, None);
    assert(v@ =~= old(v)@.update(i as int, None));
    r
}

proof fn lemma_triple_cfg_at(ts: Seq<(Target, CrossTargetConfig)>, k: int)
    requires
        0 <= k < ts.len(),
        forall|j: int| 0 <= j < k ==> (#[trigger] ts[j]).0.spec_triple() != ts[k].0.spec_triple(),
    ensures
        triple_cfg(ts, ts[k].0.spec_triple()) == Some(ts[k].1),
    decreases k,
{
    if k > 0 {
        let t = ts.drop_first();
        assert forall|j: int| 0 <= j < k - 1 implies (#[trigger] t[j]).0.spec_triple() != t[k - 1].0.spec_triple() by {
            assert(t[j] == ts[j + 1]);
        }
        lemma_triple_cfg_at(t, k - 1);
    }
}

proof fn lemma_triple_cfg_none(ts: Seq<(Target, CrossTargetConfig)>, t: Seq<char>)
    requires
        forall|j: int| 0 <= j < ts.len() ==> (#[trigger] ts[j]).0.spec_triple() != t,
    ensures
        triple_cfg(ts, t) is None,
    decreases ts.len(),
{
    if ts.len() > 0 {
        let r = ts.drop_first();
        assert forall|j: int| 0 <= j < r.len() implies (#[trigger] r[j]).0.spec_triple() != t by {
            assert(r[j] == ts[j + 1]);
        }
        lemma_triple_cfg_none(r, t);
    }
}

proof fn lemma_triple_cfg_some(ts: Seq<(Target, CrossTargetConfig)>, t: Seq<char>)
    requires
        triple_cfg(ts, t) is Some,
    ensures
        exists|j: int| 0 <= j < ts.len() && (#[trigger] ts[j]).0.spec_triple() == t,
    decreases ts.len(),
{
    if ts.len() > 0 && ts[0].0.spec_triple() != t {
        lemma_triple_cfg_some(ts.drop_first(), t);
        let j = choose|j: int| 0 <= j < ts.drop_first().len() && (#[trigger] ts.drop_first()[j]).0.spec_triple() == t;
        assert(ts[j + 1] == ts.drop_first()[j]);
    }
}

proof fn lemma_triple_cfg_prefix(ts: Seq<(Target, CrossTargetConfig)>, n: int, t: Seq<char>)
    requires
        0 <= n <= ts.len(),
        triple_cfg(ts.take(n), t) is Some,
    ensures
        triple_cfg(ts, t) == triple_cfg(ts.take(n), t),
    decreases n,
{
    if n > 0 && ts[0].0.spec_triple() != t {
        assert(ts.take(n).drop_first() == ts.drop_first().take(n - 1));
        lemma_triple_cfg_prefix(ts.drop_first(), n - 1, t);
    }
}

proof fn lemma_new_targets_triples(xs: Seq<(Target, CrossTargetConfig)>, ys: Seq<(Target, CrossTargetConfig)>)
    ensures
        forall|k: int| 0 <= k < new_targets(xs, ys).len() ==> triple_cfg(xs, (#[trigger] new_targets(xs, ys)[k]).0.spec_triple()) is None
            && exists|j: int| 0 <= j < ys.len() && ys[j] == new_targets(xs, ys)[k],
    decreases ys.len(),
{
    if ys.len() > 0 {
        lemma_new_targets_triples(xs, ys.drop_last());
        let r = new_targets(xs, ys.drop_last());
        assert forall|k: int| 0 <= k < new_targets(xs, ys).len() implies triple_cfg(xs, (#[trigger] new_targets(xs, ys)[k]).0.spec_triple()) is None
            && exists|j: int| 0 <= j < ys.len() && ys[j] == new_targets(xs, ys)[k] by {
            if k < r.len() {
                let j = choose|j: int| 0 <= j < ys.drop_last().len() && ys.drop_last()[j] == r[k];
                assert(ys[j] == ys.drop_last()[j]);
            } else {
                assert(ys[ys.len() - 1] == ys.last());
            }
        }
    }
}

proof fn lemma_triple_cfg_push(s: Seq<(Target, CrossTargetConfig)>, e: (Target, CrossTargetConfig), u: Seq<char>)
    ensures
        triple_cfg(s.push(e), u) == if triple_cfg(s, u) is Some {
            triple_cfg(s, u)
        } else if e.0.spec_triple() == u {
            Some(e.1)
        } else {
            None::<CrossTargetConfig>
        },
    decreases s.len(),
{
    if s.len() > 0 {
        assert(s.push(e)[0] == s[0]);
        assert(s.push(e).drop_first() == s.drop_first().push(e));
        lemma_triple_cfg_push(s.drop_first(), e, u);
    } else {
        assert(s.push(e)[0] == e);
        assert(s.push(e).drop_first().len() == 0);
        assert(triple_cfg(s.push(e).drop_first(), u) is None);
        assert(triple_cfg(s, u) is None);
    }
}

proof fn lemma_triple_cfg_has(ts: Seq<(Target, CrossTargetConfig)>, j: int)
    requires
        0 <= j < ts.len(),
    ensures
        triple_cfg(ts, ts[j].0.spec_triple()) is Some,
    decreases j,
{
    if j > 0 && ts[0].0.spec_triple() != ts[j].0.spec_triple() {
        assert(ts.drop_first()[j - 1] == ts[j]);
        lemma_triple_cfg_has(ts.drop_first(), j - 1);
    }
}

/// In a merged `[build]` table, each setting is the one of the second
/// table where it gives one, else the one of the first; a Dockerfile that
/// the second gives names the file.
pub proof fn merge_prefers_other(x: CrossBuildConfig, y: CrossBuildConfig, r: CrossBuildConfig)
    requires
        build_merged(x, y, r),
    ensures
        r.xargo == (if y.xargo is Some { y.xargo } else { x.xargo }),
        r.build_std == (if y.build_std is Some { y.build_std } else { x.build_std }),
        r.default_target == (if y.default_target is Some { y.default_target } else { x.default_target }),
        r.env.volumes == (if y.env.volumes is Some { y.env.volumes } else { x.env.volumes }),
        r.env.passthrough == (if y.env.passthrough is Some { y.env.passthrough } else { x.env.passthrough }),
        r.pre_build == reread_pre_build(if y.pre_build is Some { y.pre_build } else { x.pre_build }),
        y.zig is None ==> r.zig == x.zig,
        x.zig is None ==> r.zig == y.zig,
        y.dockerfile is None ==> r.dockerfile == x.dockerfile,
        y.dockerfile is Some ==> r.dockerfile is Some && r.dockerfile->0.file == y.dockerfile->0.file,
{
}

proof fn lemma_new_targets_has(xs: Seq<(Target, CrossTargetConfig)>, ys: Seq<(Target, CrossTargetConfig)>, t: Seq<char>)
    requires
        triple_cfg(xs, t) is None,
        triple_cfg(ys, t) is Some,
    ensures
        exists|k: int| 0 <= k < new_targets(xs, ys).len() && (#[trigger] new_targets(xs, ys)[k]).0.spec_triple() == t,
    decreases ys.len(),
{
    let d = ys.drop_last();
    assert(d.push(ys.last()) =~= ys);
    lemma_triple_cfg_push(d, ys.last(), t);
    let r = new_targets(xs, d);
    if ys.last().0.spec_triple() == t {
        assert(new_targets(xs, ys)[r.len() as int] == ys.last());
    } else {
        lemma_new_targets_has(xs, d, t);
        let k = choose|k: int| 0 <= k < r.len() && (#[trigger] r[k]).0.spec_triple() == t;
        assert(new_targets(xs, ys)[k] == r[k]);
    }
}

/// Every target that either configuration names has a table in the merged
/// one.
pub proof fn merge_keeps_every_target(
    xs: Seq<(Target, CrossTargetConfig)>,
    ys: Seq<(Target, CrossTargetConfig)>,
    rs: Seq<(Target, CrossTargetConfig)>,
    t: Seq<char>,
)
    requires
        targets_merged(xs, ys, rs),
        triple_cfg(xs, t) is Some || triple_cfg(ys, t) is Some,
    ensures
        triple_cfg(rs, t) is Some,
{
    if triple_cfg(xs, t) is Some {
        lemma_triple_cfg_some(xs, t);
        let j = choose|j: int| 0 <= j < xs.len() && (#[trigger] xs[j]).0.spec_triple() == t;
        assert(rs[j].0 == xs[j].0);
        lemma_triple_cfg_has(rs, j);
    } else {
        lemma_new_targets_has(xs, ys, t);
        let nt = new_targets(xs, ys);
        let k = choose|k: int| 0 <= k < nt.len() && (#[trigger] nt[k]).0.spec_triple() == t;
        assert(rs[xs.len() + k].0 == nt[k].0);
        lemma_triple_cfg_has(rs, xs.len() + k);
    }
}

/// `r` is `b` where `b` gives a value, else `a`.
pub open spec fn given_else<T>(a: Option<T>, b: Option<T>, r: Option<T>) -> bool {
    &&& b is Some ==> r == b
    &&& b is None ==> r == a
}

/// A target's table, or the table that gives nothing.
pub open spec fn table_or_empty(c: Option<CrossTargetConfig>) -> CrossTargetConfig {
    match c {
        Some(c) => c,
        None => empty_target_cfg(),
    }
}

proof fn lemma_new_targets_from(xs: Seq<(Target, CrossTargetConfig)>, ys: Seq<(Target, CrossTargetConfig)>, k: int)
    requires
        0 <= k < new_targets(xs, ys).len(),
    ensures
        exists|i: int| 0 <= i < ys.len() && ys[i] == #[trigger] new_targets(xs, ys)[k],
    decreases ys.len(),
{
    let d = ys.drop_last();
    let r = new_targets(xs, d);
    if k < r.len() {
        lemma_new_targets_from(xs, d, k);
        let i = choose|i: int| 0 <= i < d.len() && d[i] == #[trigger] new_targets(xs, d)[k];
        assert(ys[i] == d[i]);
    } else {
        assert(ys[ys.len() - 1] == new_targets(xs, ys)[k]);
    }
}

proof fn lemma_unique_cfg(ts: Seq<(Target, CrossTargetConfig)>, j: int)
    requires
        triples_unique(ts),
        0 <= j < ts.len(),
    ensures
        triple_cfg(ts, ts[j].0.spec_triple()) == Some(ts[j].1),
{
    assert forall|i: int| 0 <= i < j implies (#[trigger] ts[i]).0.spec_triple() != ts[j].0.spec_triple() by {}
    lemma_triple_cfg_at(ts, j);
}

/// In a merged configuration, the table of a target that either
/// configuration names takes each setting from the second configuration
/// where it gives one, else from the first: the runner, xargo, build-std,
/// the image, the volumes and the variables passed, the pre-build
/// commands, and each setting of zig and of the Dockerfile where both
/// give one; a Dockerfile that the second gives names the file.
pub proof fn merge_target_prefers_other(x: CrossToml, y: CrossToml, m: CrossToml, t: Seq<char>)
    requires
        x.wf(),
        y.wf(),
        m.wf(),
        targets_merged(x.targets@, y.targets@, m.targets@),
        triple_cfg(x.targets@, t) is Some || triple_cfg(y.targets@, t) is Some,
    ensures
        triple_cfg(m.targets@, t) is Some,
        ({
            let a = table_or_empty(triple_cfg(x.targets@, t));
            let b = table_or_empty(triple_cfg(y.targets@, t));
            let r = triple_cfg(m.targets@, t)->0;
            &&& given_else(a.runner, b.runner, r.runner)
            &&& given_else(a.xargo, b.xargo, r.xargo)
            &&& given_else(a.build_std, b.build_std, r.build_std)
            &&& given_else(a.image, b.image, r.image)
            &&& given_else(a.env.volumes, b.env.volumes, r.env.volumes)
            &&& given_else(a.env.passthrough, b.env.passthrough, r.env.passthrough)
            &&& (b.pre_build is Some ==> r.pre_build == reread_pre_build(b.pre_build))
            &&& (b.pre_build is None ==> r.pre_build == reread_pre_build(a.pre_build))
            &&& (b.dockerfile is Some ==> r.dockerfile is Some && r.dockerfile->0.file == b.dockerfile->0.file)
            &&& (b.dockerfile is None ==> r.dockerfile == a.dockerfile)
            &&& (a.dockerfile is Some && b.dockerfile is Some ==>
                given_else(a.dockerfile->0.context, b.dockerfile->0.context, r.dockerfile->0.context))
            &&& (b.zig is None ==> r.zig == a.zig)
            &&& (a.zig is None ==> r.zig == b.zig)
            &&& (a.zig is Some && b.zig is Some ==> r.zig is Some
                && given_else(a.zig->0.enable, b.zig->0.enable, r.zig->0.enable)
                && given_else(a.zig->0.version, b.zig->0.version, r.zig->0.version)
                && given_else(a.zig->0.image, b.zig->0.image, r.zig->0.image))
        }),
{
    let xs = x.targets@;
    let ys = y.targets@;
    let ms = m.targets@;
    if triple_cfg(xs, t) is Some {
        lemma_triple_cfg_some(xs, t);
        let j = choose|j: int| 0 <= j < xs.len() && (#[trigger] xs[j]).0.spec_triple() == t;
        lemma_unique_cfg(xs, j);
        assert(ms[j].0 == xs[j].0);
        lemma_unique_cfg(ms, j);
    } else {
        lemma_new_targets_has(xs, ys, t);
        let nt = new_targets(xs, ys);
        let k = choose|k: int| 0 <= k < nt.len() && (#[trigger] nt[k]).0.spec_triple() == t;
        lemma_new_targets_from(xs, ys, k);
        let i = choose|i: int| 0 <= i < ys.len() && ys[i] == #[trigger] new_targets(xs, ys)[k];
        lemma_unique_cfg(ys, i);
        assert(ms[xs.len() + k].0 == nt[k].0);
        lemma_unique_cfg(ms, xs.len() + k);
    }
}

/// A `[build]` table that gives nothing.
pub open spec fn empty_build_cfg() -> CrossBuildConfig {
    CrossBuildConfig {
        env: CrossEnvConfig { volumes: None, passthrough: None },
        xargo: None,
        build_std: None,
        zig: None,
        default_target: None,
        pre_build: None,
        dockerfile: None,
    }
}

/// Pre-build commands as a configuration file gives them: a single
/// command is a script, not a line from the environment.
pub open spec fn file_pre_builds(b: CrossBuildConfig, ts: Seq<(Target, CrossTargetConfig)>) -> bool {
    &&& reread_pre_build(b.pre_build) == b.pre_build
    &&& forall|i: int| 0 <= i < ts.len() ==> reread_pre_build((#[trigger] ts[i]).1.pre_build) == ts[i].1.pre_build
}

proof fn lemma_new_targets_of_none(ys: Seq<(Target, CrossTargetConfig)>)
    ensures
        new_targets(Seq::empty(), ys) == ys,
    decreases ys.len(),
{
    if ys.len() > 0 {
        lemma_new_targets_of_none(ys.drop_last());
        assert(ys.drop_last().push(ys.last()) =~= ys);
    }
}

/// Merging with a configuration that gives nothing, on either side, keeps
/// a configuration as it is, where its pre-build commands are as a file
/// gives them: absent settings never erase or change the other side's.
pub proof fn merge_with_empty_keeps(
    c_build: CrossBuildConfig,
    c_targets: Seq<(Target, CrossTargetConfig)>,
    left: CrossBuildConfig,
    left_targets: Seq<(Target, CrossTargetConfig)>,
    right: CrossBuildConfig,
    right_targets: Seq<(Target, CrossTargetConfig)>,
)
    requires
        file_pre_builds(c_build, c_targets),
        build_merged(c_build, empty_build_cfg(), left),
        targets_merged(c_targets, Seq::empty(), left_targets),
        build_merged(empty_build_cfg(), c_build, right),
        targets_merged(Seq::empty(), c_targets, right_targets),
    ensures
        left == c_build,
        left_targets == c_targets,
        right == c_build,
        right_targets == c_targets,
{
    let e: Seq<(Target, CrossTargetConfig)> = Seq::empty();
    assert(new_targets(c_targets, e) =~= e);
    assert(left_targets =~= c_targets) by {
        assert forall|i: int| 0 <= i < c_targets.len() implies left_targets[i] == c_targets[i] by {
            assert(left_targets[i].0 == c_targets[i].0);
            assert(triple_cfg(e, c_targets[i].0.spec_triple()) is None);
        }
    }
    lemma_new_targets_of_none(c_targets);
    assert(right_targets =~= c_targets) by {
        assert forall|k: int| 0 <= k < c_targets.len() implies right_targets[k] == c_targets[k] by {
            assert(right_targets[0 + k].0 == new_targets(e, c_targets)[k].0);
        }
    }
}

impl Default for CrossToml {
    /// The configuration that gives nothing: no target and an empty
    /// `[build]` table.
    fn default() -> (r: CrossToml)
        ensures
            r.build == empty_build_cfg(),
            r.targets@.len() == 0,
    {
        CrossToml {
            targets: Vec::new(),
            build: CrossBuildConfig {
                env: empty_env(),
                xargo: None,
                build_std: None,
                zig: None,
                default_target: None,
                pre_build: None,
                dockerfile: None,
            },
        }
    }
}

/// Merging a configuration with the default configuration (see
/// [`CrossToml::default`]), on either side, gives the configuration back,
/// where its pre-build commands are as a file gives them (as every
/// configuration read from a file has them): the absent settings of the
/// default never erase or change a setting.
pub proof fn merge_with_default_is_identity(c: CrossToml, d: CrossToml, left: CrossToml, right: CrossToml)
    requires
        c.wf(),
        file_pre_builds(c.build, c.targets@),
        d.build == empty_build_cfg(),
        d.targets@.len() == 0,
        build_merged(c.build, d.build, left.build),
        targets_merged(c.targets@, d.targets@, left.targets@),
        build_merged(d.build, c.build, right.build),
        targets_merged(d.targets@, c.targets@, right.targets@),
    ensures
        left.build == c.build,
        left.targets@ == c.targets@,
        right.build == c.build,
        right.targets@ == c.targets@,
{
    assert(d.targets@ =~= Seq::<(Target, CrossTargetConfig)>::empty());
    merge_with_empty_keeps(c.build, c.targets@, left.build, left.targets@, right.build, right.targets@);
}

/// The targets of `ys` whose triple `xs` does not name, merged into empty
/// tables, appended to `rs`.
fn push_new_targets(
    rs: &mut Vec<(Target, CrossTargetConfig)>,
    yo: &mut Vec<Option<(Target, CrossTargetConfig)>>,
    Ghost(xs): Ghost<Seq<(Target, CrossTargetConfig)>>,
    Ghost(ys): Ghost<Seq<(Target, CrossTargetConfig)>>,
)
    requires
        triples_unique(xs),
        triples_unique(ys),
        old(yo)@.len() == ys.len(),
        forall|k: int| 0 <= k < ys.len() ==> (#[trigger] old(yo)@[k]) == if triple_cfg(xs, ys[k].0.spec_triple()) is Some {
            None
        } else {
            Some(ys[k])
        },
        old(rs)@.len() == xs.len(),
        forall|i: int| 0 <= i < xs.len() ==> (#[trigger] old(rs)@[i]).0 == xs[i].0,
    ensures
        final(rs)@.len() == xs.len() + new_targets(xs, ys).len(),
        forall|i: int| 0 <= i < xs.len() ==> (#[trigger] final(rs)@[i]) == old(rs)@[i],
        forall|k: int| 0 <= k < new_targets(xs, ys).len() ==> {
            &&& (#[trigger] final(rs)@[xs.len() + k]).0 == new_targets(xs, ys)[k].0
            &&& target_merged(empty_target_cfg(), new_targets(xs, ys)[k].1, final(rs)@[xs.len() + k].1)
        },
        triples_unique(final(rs)@),
{
    let ghost n = xs.len();
    let ghost rs0 = rs@;
    let mut k: usize = 0;
    assert(ys.take(0) == Seq::<(Target, CrossTargetConfig)>::empty());
    assert forall|a: int, b: int| 0 <= a < b < rs@.len() implies #[trigger] rs@[a].0.spec_triple() != #[trigger] rs@[b].0.spec_triple() by {
        assert(rs@[a].0 == xs[a].0 && rs@[b].0 == xs[b].0);
    }
    while k < yo.len()
        invariant
            k <= yo@.len(),
            yo@.len() == ys.len(),
            n == xs.len(),
            triples_unique(xs),
            triples_unique(ys),
            forall|j: int| k <= j < ys.len() ==> (#[trigger] yo@[j]) == if triple_cfg(xs, ys[j].0.spec_triple()) is Some {
                None
            } else {
                Some(ys[j])
            },
            rs@.len() == n + new_targets(xs, ys.take(k as int)).len(),
            forall|i: int| 0 <= i < n ==> (#[trigger] rs@[i]) == rs0[i],
            forall|i: int| 0 <= i < n ==> (#[trigger] rs0[i]).0 == xs[i].0,
            forall|m: int| 0 <= m < new_targets(xs, ys.take(k as int)).len() ==> {
                &&& (#[trigger] rs@[n + m]).0 == new_targets(xs, ys.take(k as int))[m].0
                &&& target_merged(empty_target_cfg(), new_targets(xs, ys.take(k as int))[m].1, rs@[n + m].1)
            },
            forall|m: int| n <= m < rs@.len() ==> triple_cfg(xs, (#[trigger] rs@[m]).0.spec_triple()) is None
                && exists|j: int| #![trigger ys[j]] 0 <= j < k && rs@[m].0 == ys[j].0,
            triples_unique(rs@),
        decreases yo@.len() - k,
    {
        let ghost nt = new_targets(xs, ys.take(k as int));
        assert(ys.take(k + 1).drop_last() == ys.take(k as int));
        assert(ys.take(k + 1).last() == ys[k as int]);
        let slot = take_slot(yo, k);
        match slot {
            Some(p) => {
                assert(p == ys[k as int]);
                let ghost before = rs@;
                let merged = merge_target(empty_target(), p.1);
                rs.push((p.0, merged));
                proof {
                    let u = ys[k as int].0.spec_triple();
                    assert(triple_cfg(xs, u) is None);
                    assert(new_targets(xs, ys.take(k + 1)) == nt.push(ys[k as int]));
                    assert forall|a: int, b: int| 0 <= a < b < rs@.len() implies #[trigger] rs@[a].0.spec_triple() != #[trigger] rs@[b].0.spec_triple() by {
                        if b == rs@.len() - 1 {
                            if a < n {
                                assert(rs@[a].0 == xs[a].0);
                                if xs[a].0.spec_triple() == u {
                                    lemma_triple_cfg_has(xs, a);
                                }
                            } else {
                                assert(before[a] == rs@[a]);
                                assert(triple_cfg(xs, before[a].0.spec_triple()) is None);
                                let j = choose|j: int| #![trigger ys[j]] 0 <= j < k && before[a].0 == ys[j].0;
                                assert(ys[j].0 == rs@[a].0);
                                assert(ys[j].0.spec_triple() != ys[k as int].0.spec_triple());
                            }
                        } else {
                            assert(rs@[a] == before[a] && rs@[b] == before[b]);
                        }
                    }
                    assert forall|m: int| n <= m < rs@.len() implies triple_cfg(xs, (#[trigger] rs@[m]).0.spec_triple()) is None
                        && exists|j: int| #![trigger ys[j]] 0 <= j < k + 1 && rs@[m].0 == ys[j].0 by {
                        if m == rs@.len() - 1 {
                            assert(ys[k as int].0 == rs@[m].0);
                        } else {
                            assert(rs@[m] == before[m]);
                            assert(triple_cfg(xs, before[m].0.spec_triple()) is None);
                            let j = choose|j: int| #![trigger ys[j]] 0 <= j < k && before[m].0 == ys[j].0;
                            assert(ys[j].0 == rs@[m].0);
                        }
                    }
                }
            },
            None => {
                proof {
                    assert(triple_cfg(xs, ys[k as int].0.spec_triple()) is Some);
                    assert(new_targets(xs, ys.take(k + 1)) == nt);
                    assert forall|m: int| n <= m < rs@.len() implies triple_cfg(xs, (#[trigger] rs@[m]).0.spec_triple()) is None
                        && exists|j: int| #![trigger ys[j]] 0 <= j < k + 1 && rs@[m].0 == ys[j].0 by {
                        let j = choose|j: int| #![trigger ys[j]] 0 <= j < k && rs@[m].0 == ys[j].0;
                        assert(ys[j].0 == rs@[m].0);
                    }
                }
            },
        }
        k = k + 1;
    }
    assert(ys.take(ys.len() as int) == ys);
}

impl CrossToml {
    /// Merges another configuration into this one: a value `other` gives
    /// wins, tables merge key by key (see [`build_merged`] and
    /// [`targets_merged`]).
    pub fn merge(self, other: CrossToml) -> (r: Result<CrossToml, MergeError>)
        requires
            self.wf(),
            other.wf(),
        ensures
            match r {
                Ok(m) => m.wf() && build_merged(self.build, other.build, m.build)
                    && targets_merged(self.targets@, other.targets@, m.targets@),
                Err(_) => false,
            },
    {
        let ghost xs = self.targets@;
        let ghost ys = other.targets@;
        let build = merge_build(self.build, other.build);
        let n = self.targets.len();
        let mut xo = into_slots(self.targets);
        let mut yo = into_slots(other.targets);
        let mut rs: Vec<(Target, CrossTargetConfig)> = Vec::new();
        let mut i: usize = 0;
        assert(xs.take(0) == Seq::<(Target, CrossTargetConfig)>::empty());
        while i < n
            invariant
                n == xs.len(),
                i <= n,
                triples_unique(xs),
                triples_unique(ys),
                xo@.len() == n,
                forall|k: int| i <= k < n ==> xo@[k] == Some(#[trigger] xs[k]),
                yo@.len() == ys.len(),
                forall|k: int| 0 <= k < ys.len() ==> (#[trigger] yo@[k]) == if triple_cfg(xs.take(i as int), ys[k].0.spec_triple()) is Some {
                    None
                } else {
                    Some(ys[k])
                },
                rs@.len() == i,
                forall|k: int| 0 <= k < i ==> {
                    &&& (#[trigger] rs@[k]).0 == xs[k].0
                    &&& target_merged(xs[k].1, match triple_cfg(ys, xs[k].0.spec_triple()) {
                        Some(c) => c,
                        None => empty_target_cfg(),
                    }, rs@[k].1)
                },
            decreases n - i,
        {
            assert(xo@[i as int] == Some(xs[i as int]));
            let x = take_slot(&mut xo, i).unwrap();
            let ghost t = xs[i as int].0.spec_triple();
            assert(x == xs[i as int]);
            proof {
                assert forall|j: int| 0 <= j < i implies (#[trigger] xs.take(i as int)[j]).0.spec_triple() != t by {
                    assert(xs.take(i as int)[j] == xs[j]);
                }
                lemma_triple_cfg_none(xs.take(i as int), t);
                assert(xs.take(i + 1) == xs.take(i as int).push(xs[i as int]));
                assert forall|u: Seq<char>| #[trigger] triple_cfg(xs.take(i + 1), u) == if triple_cfg(xs.take(i as int), u) is Some {
                    triple_cfg(xs.take(i as int), u)
                } else if t == u {
                    Some(xs[i as int].1)
                } else {
                    None::<CrossTargetConfig>
                } by {
                    lemma_triple_cfg_push(xs.take(i as int), xs[i as int], u);
                }
            }
            let mut found: Option<usize> = None;
            let mut k: usize = 0;
            while k < yo.len()
                invariant
                    k <= yo@.len(),
                    yo@.len() == ys.len(),
                    x == xs[i as int],
                    t == x.0.spec_triple(),
                    found is None ==> forall|j: int| 0 <= j < k ==> !((#[trigger] yo@[j]) is Some && (yo@[j]->0).0.spec_triple() == t),
                    found is Some ==> (found->0 < yo@.len() && yo@[found->0 as int] is Some
                        && (yo@[found->0 as int]->0).0.spec_triple() == t),
                decreases yo@.len() - k,
            {
                if found.is_none() {
                    let hit = match &yo[k] {
                        Some(p) => str_eq(p.0.triple(), x.0.triple()),
                        None => false,
                    };
                    if hit {
                        found = Some(k);
                    }
                }
                k = k + 1;
            }
            let ghost yo_before = yo@;
            let merged = match found {
                Some(f) => {
                    let y = take_slot(&mut yo, f).unwrap();
                    proof {
                        assert(y == ys[f as int]);
                        assert forall|j: int| 0 <= j < f implies (#[trigger] ys[j]).0.spec_triple() != ys[f as int].0.spec_triple() by {}
                        lemma_triple_cfg_at(ys, f as int);
                        assert forall|k2: int| 0 <= k2 < ys.len() implies (#[trigger] yo@[k2]) == if triple_cfg(xs.take(i + 1), ys[k2].0.spec_triple()) is Some {
                            None
                        } else {
                            Some(ys[k2])
                        } by {
                            if k2 != f {
                                assert(yo@[k2] == yo_before[k2]);
                                assert(ys[k2].0.spec_triple() != t);
                            }
                        }
                    }
                    merge_target(x.1, y.1)
                },
                None => {
                    proof {
                        assert forall|j: int| 0 <= j < ys.len() implies (#[trigger] ys[j]).0.spec_triple() != t by {
                            if ys[j].0.spec_triple() == t {
                                assert(yo@[j] == Some(ys[j]));
                            }
                        }
                        lemma_triple_cfg_none(ys, t);
                        assert forall|k2: int| 0 <= k2 < ys.len() implies (#[trigger] yo@[k2]) == if triple_cfg(xs.take(i + 1), ys[k2].0.spec_triple()) is Some {
                            None
                        } else {
                            Some(ys[k2])
                        } by {
                            assert(ys[k2].0.spec_triple() != t);
                        }
                    }
                    merge_target(x.1, empty_target())
                },
            };
            rs.push((x.0, merged));
            i = i + 1;
        }
        assert(xs.take(n as int) == xs);
        push_new_targets(&mut rs, &mut yo, Ghost(xs), Ghost(ys));
        Ok(CrossToml { targets: rs, build })
    }
}

/// Merging never fails for configurations that name each target once.
#[derive(Debug, Clone, Copy, PartialEq, Eq, Structural)]
pub struct MergeError;


/// `steps` are the configurations of `sources` merged in order: the
/// first is the first source, and each next one is the one before it
/// merged with the next source (see [`CrossToml::merge`]).
pub open spec fn merge_steps(sources: Seq<CrossToml>, steps: Seq<CrossToml>) -> bool {
    &&& steps.len() == sources.len()
    &&& sources.len() > 0 ==> steps[0].build == sources[0].build && steps[0].targets@ == sources[0].targets@
    &&& forall|i: int| 0 < i < sources.len() ==> build_merged(steps[i - 1].build, sources[i].build, (#[trigger] steps[i]).build)
        && targets_merged(steps[i - 1].targets@, sources[i].targets@, steps[i].targets@)
}

/// `r` is the configurations of `sources` merged in order (see
/// [`merge_steps`]).
pub open spec fn merged_in_order(sources: Seq<CrossToml>, r: CrossToml) -> bool {
    exists|steps: Seq<CrossToml>| #[trigger] merge_steps(sources, steps) && sources.len() > 0
        && r.build == steps.last().build && r.targets@ == steps.last().targets@
}

/// A sequence of the value an option holds, if any.
pub open spec fn opt_seq<T>(o: Option<T>) -> Seq<T> {
    match o {
        Some(x) => seq![x],
        None => Seq::empty(),
    }
}

/// The configurations that are merged, in order, each later one winning:
/// the workspace's metadata, or, where the workspace has none, the
/// metadata of the first workspace member that has some; then the
/// configuration file, whose values win over the metadata.
pub open spec fn config_sources(
    file: Option<CrossToml>,
    workspace: Option<CrossToml>,
    packages: Seq<(String, CrossToml)>,
) -> Seq<CrossToml> {
    opt_seq(workspace)
        + (if workspace is None && packages.len() > 0 { seq![packages[0].1] } else { Seq::empty() })
        + opt_seq(file)
}

/// The members whose metadata is left out, as it conflicts with what was
/// taken: all of them where the workspace has metadata, else all but the
/// first.
pub open spec fn conflicting_packages(workspace: Option<CrossToml>, packages: Seq<(String, CrossToml)>) -> Seq<Seq<char>> {
    let skipped = if workspace is None && packages.len() > 0 { packages.skip(1) } else { packages };
    skipped.map_values(|p: (String, CrossToml)| p.0@)
}

fn merge_into(
    acc: Option<CrossToml>,
    c: CrossToml,
    Ghost(srcs): Ghost<Seq<CrossToml>>,
    Ghost(steps): Ghost<Seq<CrossToml>>,
) -> (r: (CrossToml, Ghost<Seq<CrossToml>>))
    requires
        c.wf(),
        acc is None <==> srcs.len() == 0,
        merge_steps(srcs, steps),
        acc matches Some(a) ==> a.wf() && a.build == steps.last().build && a.targets@ == steps.last().targets@,
    ensures
        r.0.wf(),
        merge_steps(srcs.push(c), r.1@),
        r.0.build == r.1@.last().build && r.0.targets@ == r.1@.last().targets@,
{
    let ghost next = srcs.push(c);
    match acc {
        None => {
            let ghost st = seq![c];
            assert(merge_steps(next, st));
            (c, Ghost(st))
        },
        Some(a) => {
            match a.merge(c) {
                Ok(m) => {
                    let ghost st = steps.push(m);
                    assert(merge_steps(next, st)) by {
                        assert forall|i: int| 0 < i < next.len() implies build_merged(st[i - 1].build, next[i].build, (#[trigger] st[i]).build)
                            && targets_merged(st[i - 1].targets@, next[i].targets@, st[i].targets@) by {
                            if i < srcs.len() {
                                assert(st[i] == steps[i] && st[i - 1] == steps[i - 1] && next[i] == srcs[i]);
                            }
                        }
                    }
                    (m, Ghost(st))
                },
                Err(_) => {
                    assert(false);
                    (CrossToml {
                        targets: Vec::new(),
                        build: CrossBuildConfig {
                            env: empty_env(),
                            xargo: None,
                            build_std: None,
                            zig: None,
                            default_target: None,
                            pre_build: None,
                            dockerfile: None,
                        },
                    }, Ghost(steps))
                },
            }
        },
    }
}

fn names_of(packages: &Vec<(String, CrossToml)>, from: usize) -> (r: Vec<String>)
    requires
        from <= packages@.len(),
    ensures
        views(r@) == packages@.skip(from as int).map_values(|p: (String, CrossToml)| p.0@),
{
    let mut r: Vec<String> = Vec::new();
    let mut i: usize = from;
    while i < packages.len()
        invariant
            from <= i <= packages@.len(),
            views(r@) == packages@.subrange(from as int, i as int).map_values(|p: (String, CrossToml)| p.0@),
        decreases packages@.len() - i,
    {
        let ghost before = r@;
        r.push(packages[i].0.clone());
        assert(views(r@) =~= views(before).push(packages@[i as int].0@));
        assert(packages@.subrange(from as int, i + 1).map_values(|p: (String, CrossToml)| p.0@)
            =~= packages@.subrange(from as int, i as int).map_values(|p: (String, CrossToml)| p.0@).push(packages@[i as int].0@));
        i += 1;
    }
    assert(packages@.subrange(from as int, i as int) =~= packages@.skip(from as int));
    r
}

/// The configuration of a project from its sources (see
/// [`config_sources`]), merged in order (see [`merged_in_order`]); none
/// where there is none. Also gives the members whose metadata is left out
/// (see [`conflicting_packages`]), to be warned about.
pub fn combine_configs(
    file: Option<CrossToml>,
    workspace: Option<CrossToml>,
    packages: Vec<(String, CrossToml)>,
) -> (r: (Option<CrossToml>, Vec<String>))
    requires
        file matches Some(f) ==> f.wf(),
        workspace matches Some(w) ==> w.wf(),
        forall|i: int| 0 <= i < packages@.len() ==> (#[trigger] packages@[i]).1.wf(),
    ensures
        match r.0 {
            None => config_sources(file, workspace, packages@).len() == 0,
            Some(c) => c.wf() && merged_in_order(config_sources(file, workspace, packages@), c),
        },
        views(r.1@) == conflicting_packages(workspace, packages@),
{
    let ghost ps = packages@;
    let ghost ws = workspace;
    let ghost mut srcs: Seq<CrossToml> = Seq::empty();
    let ghost mut steps: Seq<CrossToml> = Seq::empty();
    let mut acc: Option<CrossToml> = None;
    let mut packages = packages;
    let conflicts = match workspace {
        Some(w) => {
            let (m, st) = merge_into(acc, w, Ghost(srcs), Ghost(steps));
            acc = Some(m);
            proof {
                srcs = srcs.push(w);
                steps = st@;
            }
            assert(ps.skip(0) =~= ps);
            names_of(&packages, 0)
        },
        None => {
            if packages.len() > 0 {
                let conflicts = names_of(&packages, 1);
                let (_, c) = packages.remove(0);
                assert(c == ps[0].1);
                let (m, st) = merge_into(acc, c, Ghost(srcs), Ghost(steps));
                acc = Some(m);
                proof {
                    srcs = srcs.push(c);
                    steps = st@;
                }
                conflicts
            } else {
                assert(ps.skip(0) =~= ps);
                names_of(&packages, 0)
            }
        },
    };
    assert(srcs =~= opt_seq(ws)
        + (if ws is None && ps.len() > 0 { seq![ps[0].1] } else { Seq::empty() }));
    match file {
        Some(f) => {
            let (m, st) = merge_into(acc, f, Ghost(srcs), Ghost(steps));
            proof {
                srcs = srcs.push(f);
                assert(srcs =~= config_sources(file, ws, ps));
                assert(merge_steps(srcs, st@));
            }
            (Some(m), conflicts)
        },
        None => {
            proof {
                assert(srcs =~= config_sources(file, ws, ps));
                if acc is Some {
                    assert(merge_steps(srcs, steps));
                }
            }
            (acc, conflicts)
        },
    }
}

/// The configuration file wins over the metadata of `Cargo.toml`: each
/// `[build]` setting it gives is the combined configuration's.
pub proof fn config_file_wins(
    file: CrossToml,
    workspace: Option<CrossToml>,
    packages: Seq<(String, CrossToml)>,
    c: CrossToml,
)
    requires
        merged_in_order(config_sources(Some(file), workspace, packages), c),
    ensures
        file.build.xargo is Some ==> c.build.xargo == file.build.xargo,
        file.build.build_std is Some ==> c.build.build_std == file.build.build_std,
        file.build.default_target is Some ==> c.build.default_target == file.build.default_target,
        file.build.env.volumes is Some ==> c.build.env.volumes == file.build.env.volumes,
        file.build.env.passthrough is Some ==> c.build.env.passthrough == file.build.env.passthrough,
        file.build.dockerfile is Some ==> c.build.dockerfile is Some && c.build.dockerfile->0.file == file.build.dockerfile->0.file,
{
    let srcs = config_sources(Some(file), workspace, packages);
    let steps = choose|steps: Seq<CrossToml>| #[trigger] merge_steps(srcs, steps) && srcs.len() > 0
        && c.build == steps.last().build && c.targets@ == steps.last().targets@;
    let n = srcs.len() - 1;
    assert(srcs[n] == file);
    if n > 0 {
        assert(build_merged(steps[n - 1].build, srcs[n].build, steps[n].build));
        merge_prefers_other(steps[n - 1].build, file.build, steps[n].build);
    }
}

} // verus!
