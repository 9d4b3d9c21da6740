//! The targets `cross` can build for: those it provides images for, then
//! those a configuration gives an image for.

use vstd::prelude::*;
use vstd::string::StringExecFns;
use crate::cross_toml::{CrossToml, CrossTargetConfig};
use crate::docker::image::{ImagePlatform, Architecture, Os, docker_platform_of};
use crate::docker::provided::{provided_images, provided_view, provided_table, on_default_platform, ProvidedImage};
use crate::shell::opt_view;
use crate::target::{Target, TargetTriple};
use crate::text::{copy_str, views, str_eq};

verus! {

broadcast use vstd::string::group_string_axioms;

/// The versions of the format of the list.
#[derive(Debug, Clone, Copy, PartialEq, Eq, Structural)]
pub enum FormatVersion {
    One,
}

/// A format version that is not known.
#[derive(Debug, Clone, Copy, PartialEq, Eq, Structural)]
pub struct FormatVersionError;

impl FormatVersion {
    /// Reads a format version: `1` is the only one.
    pub fn parse(s: &str) -> (r: Result<FormatVersion, FormatVersionError>)
        ensures
            r == (if s@ == "1"@ { Ok::<FormatVersion, FormatVersionError>(FormatVersion::One) } else { Err(FormatVersionError) }),
    {
        if str_eq(s, "1") {
            Ok(FormatVersion::One)
        } else {
            Err(FormatVersionError)
        }
    }
}

/// A target and the platforms its image runs on.
#[derive(Debug, Clone, PartialEq, Eq)]
pub struct TargetEntry {
    pub triplet: String,
    pub platforms: Vec<String>,
}

/// How a platform is written in the list: `os/arch[/variant]=triple`.
pub open spec fn platform_label_of(p: ImagePlatform) -> Seq<char> {
    docker_platform_of(p.architecture, p.os, opt_view(p.variant)) + "="@ + p.target.spec_triple()
}

/// The default platform, as the list writes it.
pub open spec fn default_label() -> Seq<char> {
    docker_platform_of(Architecture::Amd64, Os::Linux, None) + "="@ + TargetTriple::X86_64UnknownLinuxGnu.spec_triple()
}

/// The platforms of a configured target: those its image is given for,
/// else the default one.
pub open spec fn config_platforms(c: CrossTargetConfig) -> Seq<Seq<char>> {
    match c.image {
        Some(i) => if i.toolchain@.len() > 0 {
            i.toolchain@.map_values(|p: ImagePlatform| platform_label_of(p))
        } else {
            seq![default_label()]
        },
        None => seq![default_label()],
    }
}

/// The images `cross` provides, but for zig's, each with the default
/// platform.
pub open spec fn provided_entries(t: Seq<(Seq<char>, Option<Seq<char>>)>) -> Seq<(Seq<char>, Seq<Seq<char>>)>
    decreases t.len(),
{
    if t.len() == 0 {
        Seq::empty()
    } else if t.last().0 == "zig"@ {
        provided_entries(t.drop_last())
    } else {
        provided_entries(t.drop_last()).push((t.last().0, seq![default_label()]))
    }
}

/// Some entry of a list is for `triple`.
pub open spec fn listed(l: Seq<(Seq<char>, Seq<Seq<char>>)>, triple: Seq<char>) -> bool {
    exists|i: int| 0 <= i < l.len() && (#[trigger] l[i]).0 == triple
}

/// The list, with each configured target that it does not hold yet added
/// at its end, in order.
pub open spec fn with_configured(
    base: Seq<(Seq<char>, Seq<Seq<char>>)>,
    cfgs: Seq<(Target, CrossTargetConfig)>,
) -> Seq<(Seq<char>, Seq<Seq<char>>)>
    decreases cfgs.len(),
{
    if cfgs.len() == 0 {
        base
    } else {
        let prev = with_configured(base, cfgs.drop_last());
        let t = cfgs.last().0.spec_triple();
        if listed(prev, t) {
            prev
        } else {
            prev.push((t, config_platforms(cfgs.last().1)))
        }
    }
}

/// The entries of a list, by their views.
pub open spec fn entries_of(v: Seq<TargetEntry>) -> Seq<(Seq<char>, Seq<Seq<char>>)> {
    v.map_values(|e: TargetEntry| (e.triplet@, views(e.platforms@)))
}

fn platform_label(p: &ImagePlatform) -> (r: String)
    ensures
        r@ == platform_label_of(*p),
{
    let mut r = p.docker_platform();
    r.append("=");
    r.append(p.target.triple());
    r
}

fn default_entry(name: &str) -> (r: TargetEntry)
    ensures
        r.triplet@ == name@,
        views(r.platforms@) == seq![default_label()],
{
    let p = ImagePlatform::default_platform();
    let l = platform_label(&p);
    let platforms = vec![l];
    assert(views(platforms@) =~= seq![default_label()]);
    TargetEntry { triplet: copy_str(name), platforms }
}

fn configured_entry(triple: &str, c: &CrossTargetConfig) -> (r: TargetEntry)
    ensures
        r.triplet@ == triple@,
        views(r.platforms@) == config_platforms(*c),
{
    match &c.image {
        Some(i) => {
            if i.toolchain.len() > 0 {
                let mut platforms: Vec<String> = Vec::new();
                let mut k: usize = 0;
                while k < i.toolchain.len()
                    invariant
                        k <= i.toolchain@.len(),
                        views(platforms@) == i.toolchain@.take(k as int).map_values(|p: ImagePlatform| platform_label_of(p)),
                    decreases i.toolchain@.len() - k,
                {
                    let ghost before = platforms@;
                    let l = platform_label(&i.toolchain[k]);
                    platforms.push(l);
                    assert(views(platforms@) =~= views(before).push(platform_label_of(i.toolchain@[k as int])));
                    assert(i.toolchain@.take(k + 1) =~= i.toolchain@.take(k as int).push(i.toolchain@[k as int]));
                    assert(views(platforms@) =~= i.toolchain@.take(k + 1).map_values(|p: ImagePlatform| platform_label_of(p)));
                    k += 1;
                }
                assert(i.toolchain@.take(k as int) =~= i.toolchain@);
                return TargetEntry { triplet: copy_str(triple), platforms };
            }
            default_entry(triple)
        },
        None => default_entry(triple),
    }
}

fn is_listed(v: &Vec<TargetEntry>, triple: &str) -> (r: bool)
    ensures
        r == listed(entries_of(v@), triple@),
{
    let ghost l = entries_of(v@);
    let mut i: usize = 0;
    while i < v.len()
        invariant
            i <= v@.len(),
            l == entries_of(v@),
            forall|j: int| 0 <= j < i ==> (#[trigger] l[j]).0 != triple@,
        decreases v@.len() - i,
    {
        assert(l[i as int].0 == v@[i as int].triplet@);
        if str_eq(v[i].triplet.as_str(), triple) {
            return true;
        }
        i += 1;
    }
    false
}

fn push_entry(v: &mut Vec<TargetEntry>, e: TargetEntry)
    ensures
        entries_of(final(v)@) == entries_of(old(v)@).push((e.triplet@, views(e.platforms@))),
{
    let ghost before = v@;
    v.push(e);
    assert(entries_of(v@) =~= entries_of(before).push((e.triplet@, views(e.platforms@))));
}

/// The targets `cross` provides images for, but zig, in the order of the
/// images, each with the default platform; then each target a
/// configuration sets that the list does not hold yet, with the platforms
/// of its image (see [`config_platforms`]).
pub fn list_targets(toml: Option<&CrossToml>) -> (r: Vec<TargetEntry>)
    ensures
        entries_of(r@) == with_configured(
            provided_entries(provided_table()),
            match toml { Some(t) => t.targets@, None => Seq::empty() },
        ),
{
    let images = provided_images();
    let ghost table = provided_view(images@);
    let mut out: Vec<TargetEntry> = Vec::new();
    let mut i: usize = 0;
    assert(table.take(0) =~= Seq::<(Seq<char>, Option<Seq<char>>)>::empty());
    while i < images.len()
        invariant
            i <= images@.len(),
            table == provided_view(images@),
            table == provided_table(),
            entries_of(out@) == provided_entries(table.take(i as int)),
        decreases images@.len() - i,
    {
        let name = images[i].name;
        assert(table.take(i + 1).drop_last() =~= table.take(i as int));
        assert(table.take(i + 1).last().0 == name@);
        if !str_eq(name, "zig") {
            push_entry(&mut out, default_entry(name));
        }
        i += 1;
    }
    assert(table.take(i as int) =~= table);
    let ghost base = entries_of(out@);
    match toml {
        None => {},
        Some(t) => {
            let mut k: usize = 0;
            assert(t.targets@.take(0) =~= Seq::<(Target, CrossTargetConfig)>::empty());
            while k < t.targets.len()
                invariant
                    k <= t.targets@.len(),
                    entries_of(out@) == with_configured(base, t.targets@.take(k as int)),
                decreases t.targets@.len() - k,
            {
                let triple = t.targets[k].0.triple();
                assert(t.targets@.take(k + 1).drop_last() =~= t.targets@.take(k as int));
                assert(t.targets@.take(k + 1).last() == t.targets@[k as int]);
                if !is_listed(&out, triple) {
                    push_entry(&mut out, configured_entry(triple, &t.targets[k].1));
                }
                k += 1;
            }
            assert(t.targets@.take(k as int) =~= t.targets@);
        },
    }
    out
}

} // verus!
