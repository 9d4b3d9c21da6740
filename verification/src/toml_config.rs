//! Reading `Cross.toml`, and the `cross` metadata of a `Cargo.toml`, from
//! their TOML values: which keys give which settings, in which forms, and
//! which keys are not used.

use vstd::prelude::*;
use vstd::string::StringExecFns;
use crate::cargo_toml::{TomlValue, TomlView, lookup, entries_view, values_view, is_string, all_strings};
use crate::cargo_toml::{lemma_lookup_append, lemma_lookup_single};
use crate::text::{copy_str, str_eq, views};
use crate::cross_toml::{CrossToml, triples_unique};
use crate::rustc::TargetList;
use crate::target::{Target, TargetTriple, is_named_triple};
use crate::shell::{MessageInfo, opt_view};
use crate::toml_text::{toml_doc_of, parse_toml};
use crate::cross_toml::{BuildStd, CrossZigConfig, CrossTargetDockerfileConfig, CrossEnvConfig, CrossBuildConfig, CrossTargetConfig, pairs_view};
use crate::docker::custom::PreBuild;
use crate::docker::image::{
    PossibleImage, ImagePlatform, ImageReference, platform_of_str, triple_from, reference_kind,
};

verus! {

broadcast use vstd::string::group_string_axioms;

/// Why a configuration could not be read.
#[derive(Debug, Clone, PartialEq, Eq)]
pub enum TomlError {
    /// The key has a value of the wrong type.
    InvalidType(String),
    /// The table lacks the key.
    Missing(String),
    /// The text is no TOML document.
    Syntax,
}

/// `r` is the error for a value of the wrong type at key `k`.
pub open spec fn type_error<T>(r: Result<T, TomlError>, k: Seq<char>) -> bool {
    r matches Err(TomlError::InvalidType(s)) && s@ == k
}

/// The strings of an array of strings.
pub open spec fn strings_view(a: Seq<TomlView>) -> Seq<Seq<char>> {
    a.map_values(|x: TomlView| x->String_0)
}

/// The entry of key `k` of a table, as a value.
fn find<'a>(t: &'a Vec<(String, TomlValue)>, k: &str) -> (r: Option<&'a TomlValue>)
    ensures
        match r {
            Some(v) => lookup(entries_view(t@), k@) == Some(v.view_of()),
            None => lookup(entries_view(t@), k@) is None,
        },
{
    let ghost ev = entries_view(t@);
    proof { lemma_entries_view_props(t@); }
    let mut i: usize = 0;
    assert(ev.skip(0) =~= ev);
    while i < t.len()
        invariant
            i <= t@.len(),
            ev == entries_view(t@),
            ev.len() == t@.len(),
            forall|j: int| 0 <= j < t@.len() ==> #[trigger] ev[j] == (t@[j].0@, t@[j].1.view_of()),
            lookup(ev, k@) == lookup(ev.skip(i as int), k@),
        decreases t@.len() - i,
    {
        assert(ev.skip(i as int)[0] == ev[i as int]);
        assert(ev.skip(i as int).drop_first() =~= ev.skip(i + 1));
        if str_eq(t[i].0.as_str(), k) {
            return Some(&t[i].1);
        }
        i += 1;
    }
    None
}

proof fn lemma_entries_view_props(s: Seq<(String, TomlValue)>)
    ensures
        entries_view(s).len() == s.len(),
        forall|i: int| 0 <= i < s.len() ==> #[trigger] entries_view(s)[i] == (s[i].0@, s[i].1.view_of()),
    decreases s.len(),
{
    if s.len() > 0 {
        lemma_entries_view_props(s.drop_last());
        assert forall|i: int| 0 <= i < s.len() implies #[trigger] entries_view(s)[i] == (s[i].0@, s[i].1.view_of()) by {
            if i < s.len() - 1 {
                assert(s.drop_last()[i] == s[i]);
            }
        }
    }
}

proof fn lemma_values_view_props(s: Seq<TomlValue>)
    ensures
        values_view(s).len() == s.len(),
        forall|i: int| 0 <= i < s.len() ==> #[trigger] values_view(s)[i] == s[i].view_of(),
    decreases s.len(),
{
    if s.len() > 0 {
        lemma_values_view_props(s.drop_last());
        assert forall|i: int| 0 <= i < s.len() implies #[trigger] values_view(s)[i] == s[i].view_of() by {
            if i < s.len() - 1 {
                assert(s.drop_last()[i] == s[i]);
            }
        }
    }
}

fn type_err<T>(k: &str) -> (r: Result<T, TomlError>)
    ensures
        type_error(r, k@),
{
    Err(TomlError::InvalidType(copy_str(k)))
}

/// An optional flag.
pub open spec fn bool_rel(v: Option<TomlView>, k: Seq<char>, r: Result<Option<bool>, TomlError>) -> bool {
    match v {
        None => r == Ok::<Option<bool>, TomlError>(None),
        Some(TomlView::Boolean(b)) => r == Ok::<Option<bool>, TomlError>(Some(b)),
        Some(_) => type_error(r, k),
    }
}

fn read_bool(v: Option<&TomlValue>, k: &str) -> (r: Result<Option<bool>, TomlError>)
    ensures
        bool_rel(match v { Some(x) => Some(x.view_of()), None => None }, k@, r),
{
    match v {
        None => Ok(None),
        Some(TomlValue::Boolean(b)) => Ok(Some(*b)),
        Some(_) => type_err(k),
    }
}

/// An optional string.
pub open spec fn string_rel(v: Option<TomlView>, k: Seq<char>, r: Result<Option<String>, TomlError>) -> bool {
    match v {
        None => r matches Ok(None),
        Some(TomlView::String(s)) => r matches Ok(Some(x)) && x@ == s,
        Some(_) => type_error(r, k),
    }
}

fn read_string(v: Option<&TomlValue>, k: &str) -> (r: Result<Option<String>, TomlError>)
    ensures
        string_rel(match v { Some(x) => Some(x.view_of()), None => None }, k@, r),
{
    match v {
        None => Ok(None),
        Some(TomlValue::String(s)) => Ok(Some(s.clone())),
        Some(_) => type_err(k),
    }
}

/// The strings of an array that holds only strings.
fn array_strings(a: &Vec<TomlValue>) -> (r: Option<Vec<String>>)
    ensures
        match r {
            Some(w) => all_strings(values_view(a@)) && views(w@) == strings_view(values_view(a@)),
            None => !all_strings(values_view(a@)),
        },
{
    proof { lemma_values_view_props(a@); }
    let ghost av = values_view(a@);
    let mut words: Vec<String> = Vec::new();
    let mut i: usize = 0;
    while i < a.len()
        invariant
            i <= a@.len(),
            av == values_view(a@),
            av.len() == a@.len(),
            forall|j: int| 0 <= j < a@.len() ==> #[trigger] av[j] == a@[j].view_of(),
            forall|j: int| 0 <= j < i ==> #[trigger] is_string(av[j]),
            views(words@) == strings_view(av.take(i as int)),
        decreases a@.len() - i,
    {
        match &a[i] {
            TomlValue::String(s) => {
                assert(av[i as int] == TomlView::String(s@));
                let ghost before = words@;
                let c = s.clone();
                words.push(c);
                assert(views(words@) =~= views(before).push(c@));
                assert(strings_view(av.take(i + 1)) =~= strings_view(av.take(i as int)).push(s@));
            },
            _ => {
                assert(!is_string(av[i as int]));
                return None;
            },
        }
        i += 1;
    }
    assert(av.take(i as int) =~= av);
    Some(words)
}

/// An optional list of strings.
pub open spec fn strings_rel(v: Option<TomlView>, k: Seq<char>, r: Result<Option<Vec<String>>, TomlError>) -> bool {
    match v {
        None => r matches Ok(None),
        Some(TomlView::Array(a)) => if all_strings(a) {
            r matches Ok(Some(w)) && views(w@) == strings_view(a)
        } else {
            type_error(r, k)
        },
        Some(_) => type_error(r, k),
    }
}

fn read_strings(v: Option<&TomlValue>, k: &str) -> (r: Result<Option<Vec<String>>, TomlError>)
    ensures
        strings_rel(match v { Some(x) => Some(x.view_of()), None => None }, k@, r),
{
    match v {
        None => Ok(None),
        Some(TomlValue::Array(a)) => match array_strings(a) {
            Some(w) => Ok(Some(w)),
            None => type_err(k),
        },
        Some(_) => type_err(k),
    }
}

/// How the standard library is built: a flag, or the crates to build.
pub open spec fn build_std_rel(v: Option<TomlView>, k: Seq<char>, r: Result<Option<BuildStd>, TomlError>) -> bool {
    match v {
        None => r matches Ok(None),
        Some(TomlView::Boolean(b)) => r == Ok::<Option<BuildStd>, TomlError>(Some(BuildStd::Bool(b))),
        Some(TomlView::Array(a)) => if all_strings(a) {
            r matches Ok(Some(BuildStd::Crates(w))) && views(w@) == strings_view(a)
        } else {
            type_error(r, k)
        },
        Some(_) => type_error(r, k),
    }
}

fn read_build_std(v: Option<&TomlValue>, k: &str) -> (r: Result<Option<BuildStd>, TomlError>)
    ensures
        build_std_rel(match v { Some(x) => Some(x.view_of()), None => None }, k@, r),
{
    match v {
        None => Ok(None),
        Some(TomlValue::Boolean(b)) => Ok(Some(BuildStd::Bool(*b))),
        Some(TomlValue::Array(a)) => match array_strings(a) {
            Some(w) => Ok(Some(BuildStd::Crates(w))),
            None => type_err(k),
        },
        Some(_) => type_err(k),
    }
}

/// Commands to run before the image is used: a script, or lines.
pub open spec fn pre_build_rel(v: Option<TomlView>, k: Seq<char>, r: Result<Option<PreBuild>, TomlError>) -> bool {
    match v {
        None => r matches Ok(None),
        Some(TomlView::String(s)) => r matches Ok(Some(PreBuild::Single { line, env })) && line@ == s && !env,
        Some(TomlView::Array(a)) => if all_strings(a) {
            r matches Ok(Some(PreBuild::Lines(w))) && views(w@) == strings_view(a)
        } else {
            type_error(r, k)
        },
        Some(_) => type_error(r, k),
    }
}

fn read_pre_build(v: Option<&TomlValue>, k: &str) -> (r: Result<Option<PreBuild>, TomlError>)
    ensures
        pre_build_rel(match v { Some(x) => Some(x.view_of()), None => None }, k@, r),
{
    match v {
        None => Ok(None),
        Some(TomlValue::String(s)) => Ok(Some(PreBuild::Single { line: s.clone(), env: false })),
        Some(TomlValue::Array(a)) => match array_strings(a) {
            Some(w) => Ok(Some(PreBuild::Lines(w))),
            None => type_err(k),
        },
        Some(_) => type_err(k),
    }
}

/// Strings that all name platforms.
pub open spec fn all_platforms(ws: Seq<Seq<char>>) -> bool {
    forall|i: int| 0 <= i < ws.len() ==> #[trigger] platform_of_str(ws[i]) is Ok
}

/// The platforms that strings name.
pub open spec fn platforms_of(ws: Seq<Seq<char>>, ps: Seq<ImagePlatform>) -> bool {
    &&& ps.len() == ws.len()
    &&& forall|i: int| 0 <= i < ws.len() ==> {
        let q = platform_of_str(ws[i])->Ok_0;
        &&& (q.0, q.1, q.2) == (#[trigger] ps[i]).spec_parts()
        &&& triple_from(ps[i].target, q.3)
    }
}

fn read_platforms(a: &Vec<TomlValue>, k: &str) -> (r: Result<Vec<ImagePlatform>, TomlError>)
    ensures
        match r {
            Ok(ps) => all_strings(values_view(a@)) && all_platforms(strings_view(values_view(a@)))
                && platforms_of(strings_view(values_view(a@)), ps@),
            Err(e) => (!all_strings(values_view(a@)) || !all_platforms(strings_view(values_view(a@))))
                && type_error(Err::<(), TomlError>(e), k@),
        },
{
    let w = match array_strings(a) {
        Some(w) => w,
        None => return type_err(k),
    };
    let ghost ws = views(w@);
    let mut ps: Vec<ImagePlatform> = Vec::new();
    let mut i: usize = 0;
    while i < w.len()
        invariant
            i <= w@.len(),
            ws == views(w@),
            ws == strings_view(values_view(a@)),
            all_strings(values_view(a@)),
            ps@.len() == i,
            forall|j: int| 0 <= j < i ==> #[trigger] platform_of_str(ws[j]) is Ok,
            forall|j: int| 0 <= j < i ==> {
                let q = platform_of_str(ws[j])->Ok_0;
                &&& (q.0, q.1, q.2) == (#[trigger] ps@[j]).spec_parts()
                &&& triple_from(ps@[j].target, q.3)
            },
        decreases w@.len() - i,
    {
        assert(ws[i as int] == w@[i as int]@);
        match ImagePlatform::parse(w[i].as_str()) {
            Ok(p) => ps.push(p),
            Err(_) => {
                assert(!(platform_of_str(ws[i as int]) is Ok));
                return type_err(k);
            },
        }
        i += 1;
    }
    Ok(ps)
}

/// An image: a name, or a table of its `name` and `toolchain` platforms.
pub open spec fn image_rel(v: Option<TomlView>, k: Seq<char>, r: Result<Option<PossibleImage>, TomlError>) -> bool {
    match v {
        None => r matches Ok(None),
        Some(TomlView::String(s)) => r matches Ok(Some(p)) && p.reference.spec_get() == s
            && p.reference.spec_kind() == reference_kind(s) && p.toolchain@.len() == 0,
        Some(TomlView::Table(t)) => match lookup(t, "name"@) {
            None => r matches Err(TomlError::Missing(m)) && m@ == "name"@,
            Some(TomlView::String(n)) => match lookup(t, "toolchain"@) {
                None => r matches Ok(Some(p)) && p.reference.spec_get() == n
                    && p.reference.spec_kind() == reference_kind(n) && p.toolchain@.len() == 0,
                Some(TomlView::Array(a)) => if all_strings(a) && all_platforms(strings_view(a)) {
                    r matches Ok(Some(p)) && p.reference.spec_get() == n
                        && p.reference.spec_kind() == reference_kind(n) && platforms_of(strings_view(a), p.toolchain@)
                } else {
                    type_error(r, "toolchain"@)
                },
                Some(_) => type_error(r, "toolchain"@),
            },
            Some(_) => type_error(r, "name"@),
        },
        Some(_) => type_error(r, k),
    }
}

/// An image given as a string reads as the table that holds only that
/// string as its `name`.
pub proof fn image_short_form(
    s: Seq<char>,
    k: Seq<char>,
    short: Result<Option<PossibleImage>, TomlError>,
    long: Result<Option<PossibleImage>, TomlError>,
)
    requires
        image_rel(Some(TomlView::String(s)), k, short),
        image_rel(Some(TomlView::Table(seq![("name"@, TomlView::String(s))])), k, long),
    ensures
        short is Ok && short->Ok_0 is Some,
        long is Ok && long->Ok_0 is Some,
        short->Ok_0->0.reference.spec_get() == long->Ok_0->0.reference.spec_get(),
        short->Ok_0->0.reference.spec_kind() == long->Ok_0->0.reference.spec_kind(),
        short->Ok_0->0.toolchain@ == long->Ok_0->0.toolchain@,
{
    reveal_strlit("name");
    reveal_strlit("toolchain");
    let e = ("name"@, TomlView::String(s));
    lemma_lookup_single(e, "name"@);
    lemma_lookup_single(e, "toolchain"@);
    assert("name"@[0] != "toolchain"@[0]);
    assert(short->Ok_0->0.toolchain@ =~= long->Ok_0->0.toolchain@);
}

fn read_image(v: Option<&TomlValue>, k: &str) -> (r: Result<Option<PossibleImage>, TomlError>)
    ensures
        image_rel(match v { Some(x) => Some(x.view_of()), None => None }, k@, r),
{
    proof {
        reveal_strlit("name");
        reveal_strlit("toolchain");
    }
    match v {
        None => Ok(None),
        Some(TomlValue::String(s)) => Ok(Some(PossibleImage { reference: ImageReference::from_string(s.clone()), toolchain: Vec::new() })),
        Some(TomlValue::Table(t)) => {
            let name = match find(t, "name") {
                None => return Err(TomlError::Missing(copy_str("name"))),
                Some(TomlValue::String(n)) => n,
                Some(_) => return type_err("name"),
            };
            let toolchain = match find(t, "toolchain") {
                None => Vec::new(),
                Some(TomlValue::Array(a)) => match read_platforms(a, "toolchain") {
                    Ok(ps) => ps,
                    Err(e) => return Err(e),
                },
                Some(_) => return type_err("toolchain"),
            };
            Ok(Some(PossibleImage { reference: ImageReference::from_string(name.clone()), toolchain }))
        },
        Some(_) => type_err(k),
    }
}

/// A table whose values are all strings.
pub open spec fn all_string_values(t: Seq<(Seq<char>, TomlView)>) -> bool {
    forall|i: int| 0 <= i < t.len() ==> #[trigger] is_string(t[i].1)
}

/// The pairs of a table of strings.
pub open spec fn string_pairs(t: Seq<(Seq<char>, TomlView)>) -> Seq<(Seq<char>, Seq<char>)> {
    t.map_values(|e: (Seq<char>, TomlView)| (e.0, e.1->String_0))
}

fn table_strings(t: &Vec<(String, TomlValue)>) -> (r: Option<Vec<(String, String)>>)
    ensures
        match r {
            Some(w) => all_string_values(entries_view(t@)) && pairs_view(w@) == string_pairs(entries_view(t@)),
            None => !all_string_values(entries_view(t@)),
        },
{
    proof { lemma_entries_view_props(t@); }
    let ghost ev = entries_view(t@);
    let mut pairs: Vec<(String, String)> = Vec::new();
    let mut i: usize = 0;
    while i < t.len()
        invariant
            i <= t@.len(),
            ev == entries_view(t@),
            ev.len() == t@.len(),
            forall|j: int| 0 <= j < t@.len() ==> #[trigger] ev[j] == (t@[j].0@, t@[j].1.view_of()),
            forall|j: int| 0 <= j < i ==> #[trigger] is_string(ev[j].1),
            pairs_view(pairs@) == string_pairs(ev.take(i as int)),
        decreases t@.len() - i,
    {
        match &t[i].1 {
            TomlValue::String(v) => {
                assert(ev[i as int] == (t@[i as int].0@, TomlView::String(v@)));
                let ghost before = pairs@;
                let e = (t[i].0.clone(), v.clone());
                pairs.push(e);
                assert(pairs_view(pairs@) =~= pairs_view(before).push((e.0@, e.1@)));
                assert(string_pairs(ev.take(i + 1)) =~= string_pairs(ev.take(i as int)).push((e.0@, e.1@)));
            },
            _ => {
                assert(!is_string(ev[i as int].1));
                return None;
            },
        }
        i += 1;
    }
    assert(ev.take(i as int) =~= ev);
    Some(pairs)
}

/// A Dockerfile given as a path reads as the table that holds only that
/// path as its `file`.
pub proof fn dockerfile_short_form(
    s: Seq<char>,
    k: Seq<char>,
    short: Result<Option<CrossTargetDockerfileConfig>, TomlError>,
    long: Result<Option<CrossTargetDockerfileConfig>, TomlError>,
)
    requires
        dockerfile_rel(Some(TomlView::String(s)), k, short),
        dockerfile_rel(Some(TomlView::Table(seq![("file"@, TomlView::String(s))])), k, long),
    ensures
        short is Ok && short->Ok_0 is Some,
        long is Ok && long->Ok_0 is Some,
        short->Ok_0->0.file@ == s && long->Ok_0->0.file@ == s,
        short->Ok_0->0.context is None && long->Ok_0->0.context is None,
        short->Ok_0->0.build_args is None && long->Ok_0->0.build_args is None,
{
    reveal_strlit("file");
    reveal_strlit("context");
    reveal_strlit("build-args");
    let e = ("file"@, TomlView::String(s));
    lemma_lookup_single(e, "file"@);
    lemma_lookup_single(e, "context"@);
    lemma_lookup_single(e, "build-args"@);
    assert("file"@[0] != "context"@[0]);
    assert("file"@[0] != "build-args"@[0]);
}

/// A Dockerfile: its path, or a table of its `file`, `context` and
/// `build-args`.
pub open spec fn dockerfile_rel(v: Option<TomlView>, k: Seq<char>, r: Result<Option<CrossTargetDockerfileConfig>, TomlError>) -> bool {
    match v {
        None => r matches Ok(None),
        Some(TomlView::String(s)) => r matches Ok(Some(d)) && d.file@ == s && d.context is None && d.build_args is None,
        Some(TomlView::Table(t)) => match lookup(t, "file"@) {
            None => r matches Err(TomlError::Missing(m)) && m@ == "file"@,
            Some(TomlView::String(f)) => {
                let c = lookup(t, "context"@);
                let ba = lookup(t, "build-args"@);
                if !(c is None || c matches Some(TomlView::String(_))) {
                    type_error(r, "context"@)
                } else if !(ba is None || (ba matches Some(TomlView::Table(bt)) && all_string_values(bt))) {
                    type_error(r, "build-args"@)
                } else {
                    r matches Ok(Some(d)) && d.file@ == f
                        && string_rel(c, "context"@, Ok(d.context))
                        && match ba {
                            Some(TomlView::Table(bt)) => d.build_args matches Some(w) && pairs_view(w@) == string_pairs(bt),
                            _ => d.build_args is None,
                        }
                }
            },
            Some(_) => type_error(r, "file"@),
        },
        Some(_) => type_error(r, k),
    }
}

fn read_dockerfile(v: Option<&TomlValue>, k: &str) -> (r: Result<Option<CrossTargetDockerfileConfig>, TomlError>)
    ensures
        dockerfile_rel(match v { Some(x) => Some(x.view_of()), None => None }, k@, r),
{
    proof {
        reveal_strlit("file");
        reveal_strlit("context");
        reveal_strlit("build-args");
    }
    match v {
        None => Ok(None),
        Some(TomlValue::String(s)) => Ok(Some(CrossTargetDockerfileConfig { file: s.clone(), context: None, build_args: None })),
        Some(TomlValue::Table(t)) => {
            let file = match find(t, "file") {
                None => return Err(TomlError::Missing(copy_str("file"))),
                Some(TomlValue::String(f)) => f.clone(),
                Some(_) => return type_err("file"),
            };
            let context = match read_string(find(t, "context"), "context") {
                Ok(c) => c,
                Err(e) => return Err(e),
            };
            let build_args = match find(t, "build-args") {
                None => None,
                Some(TomlValue::Table(bt)) => match table_strings(bt) {
                    Some(w) => Some(w),
                    None => return type_err("build-args"),
                },
                Some(_) => return type_err("build-args"),
            };
            Ok(Some(CrossTargetDockerfileConfig { file, context, build_args }))
        },
        Some(_) => type_err(k),
    }
}

/// Zig: a flag, a version of the C library, or a table of `enable`,
/// `version` and `image`.
pub open spec fn zig_rel(v: Option<TomlView>, k: Seq<char>, r: Result<Option<CrossZigConfig>, TomlError>) -> bool {
    match v {
        None => r matches Ok(None),
        Some(TomlView::Boolean(b)) => r matches Ok(Some(z)) && z.enable == Some(b) && z.version is None && z.image is None,
        Some(TomlView::String(s)) => r matches Ok(Some(z)) && z.enable == Some(true) && z.version is Some
            && z.version->0@ == s && z.image is None,
        Some(TomlView::Table(t)) => {
            let en = lookup(t, "enable"@);
            let ve = lookup(t, "version"@);
            let im = lookup(t, "image"@);
            if !(en is None || en matches Some(TomlView::Boolean(_))) {
                type_error(r, "enable"@)
            } else if !(ve is None || ve matches Some(TomlView::String(_))) {
                type_error(r, "version"@)
            } else {
                match r {
                    Ok(Some(z)) => bool_rel(en, "enable"@, Ok(z.enable)) && string_rel(ve, "version"@, Ok(z.version))
                        && image_rel(im, "image"@, Ok(z.image)),
                    Ok(None) => false,
                    Err(e) => image_rel(im, "image"@, Err(e)),
                }
            }
        },
        Some(_) => type_error(r, k),
    }
}

/// Zig given as a version of the C library reads as the table that
/// enables it with that version.
pub proof fn zig_short_form(
    s: Seq<char>,
    k: Seq<char>,
    short: Result<Option<CrossZigConfig>, TomlError>,
    long: Result<Option<CrossZigConfig>, TomlError>,
)
    requires
        zig_rel(Some(TomlView::String(s)), k, short),
        zig_rel(Some(TomlView::Table(seq![("enable"@, TomlView::Boolean(true)), ("version"@, TomlView::String(s))])), k, long),
    ensures
        short is Ok && short->Ok_0 is Some,
        long is Ok && long->Ok_0 is Some,
        short->Ok_0->0.enable == Some(true) && long->Ok_0->0.enable == Some(true),
        short->Ok_0->0.version is Some && long->Ok_0->0.version is Some,
        short->Ok_0->0.version->0@ == s && long->Ok_0->0.version->0@ == s,
        short->Ok_0->0.image is None && long->Ok_0->0.image is None,
{
    reveal_strlit("enable");
    reveal_strlit("version");
    reveal_strlit("image");
    let a = ("enable"@, TomlView::Boolean(true));
    let b = ("version"@, TomlView::String(s));
    assert(seq![a, b] =~= seq![a] + seq![b]);
    assert("enable"@[0] != "version"@[0]);
    assert("enable"@[0] != "image"@[0]);
    assert("version"@[0] != "image"@[0]);
    lemma_lookup_single(a, "enable"@);
    lemma_lookup_single(b, "enable"@);
    lemma_lookup_append(seq![a], seq![b], "enable"@);
    lemma_lookup_single(a, "version"@);
    lemma_lookup_single(b, "version"@);
    lemma_lookup_append(seq![a], seq![b], "version"@);
    lemma_lookup_single(a, "image"@);
    lemma_lookup_single(b, "image"@);
    lemma_lookup_append(seq![a], seq![b], "image"@);
}

fn read_zig(v: Option<&TomlValue>, k: &str) -> (r: Result<Option<CrossZigConfig>, TomlError>)
    ensures
        zig_rel(match v { Some(x) => Some(x.view_of()), None => None }, k@, r),
{
    proof {
        reveal_strlit("enable");
        reveal_strlit("version");
        reveal_strlit("image");
    }
    match v {
        None => Ok(None),
        Some(TomlValue::Boolean(b)) => Ok(Some(CrossZigConfig { enable: Some(*b), version: None, image: None })),
        Some(TomlValue::String(s)) => Ok(Some(CrossZigConfig { enable: Some(true), version: Some(s.clone()), image: None })),
        Some(TomlValue::Table(t)) => {
            let enable = match read_bool(find(t, "enable"), "enable") {
                Ok(x) => x,
                Err(e) => return Err(e),
            };
            let version = match read_string(find(t, "version"), "version") {
                Ok(x) => x,
                Err(e) => return Err(e),
            };
            let image = match read_image(find(t, "image"), "image") {
                Ok(x) => x,
                Err(e) => return Err(e),
            };
            Ok(Some(CrossZigConfig { enable, version, image }))
        },
        Some(_) => type_err(k),
    }
}

/// The environment of the container: a table of `volumes` and
/// `passthrough`.
pub open spec fn env_rel(v: Option<TomlView>, r: Result<CrossEnvConfig, TomlError>) -> bool {
    match v {
        None => r matches Ok(c) && c.volumes is None && c.passthrough is None,
        Some(TomlView::Table(t)) => {
            let vo = lookup(t, "volumes"@);
            let pa = lookup(t, "passthrough"@);
            match r {
                Ok(c) => strings_rel(vo, "volumes"@, Ok(c.volumes)) && strings_rel(pa, "passthrough"@, Ok(c.passthrough)),
                Err(e) => strings_rel(vo, "volumes"@, Err(e))
                    || (exists|x: Option<Vec<String>>| #[trigger] strings_rel(vo, "volumes"@, Ok(x)))
                        && strings_rel(pa, "passthrough"@, Err(e)),
            }
        },
        Some(_) => type_error(r, "env"@),
    }
}

fn read_env(v: Option<&TomlValue>) -> (r: Result<CrossEnvConfig, TomlError>)
    ensures
        env_rel(match v { Some(x) => Some(x.view_of()), None => None }, r),
{
    proof {
        reveal_strlit("volumes");
        reveal_strlit("passthrough");
        reveal_strlit("env");
    }
    match v {
        None => Ok(CrossEnvConfig { volumes: None, passthrough: None }),
        Some(TomlValue::Table(t)) => {
            let volumes = match read_strings(find(t, "volumes"), "volumes") {
                Ok(x) => x,
                Err(e) => return Err(e),
            };
            let passthrough = match read_strings(find(t, "passthrough"), "passthrough") {
                Ok(x) => x,
                Err(e) => return Err(e),
            };
            Ok(CrossEnvConfig { volumes, passthrough })
        },
        Some(_) => type_err("env"),
    }
}

pub open spec fn bool_ok(v: Option<TomlView>) -> bool {
    v is None || v matches Some(TomlView::Boolean(_))
}

pub open spec fn string_ok(v: Option<TomlView>) -> bool {
    v is None || v matches Some(TomlView::String(_))
}

pub open spec fn strings_ok(v: Option<TomlView>) -> bool {
    v is None || (v matches Some(TomlView::Array(a)) && all_strings(a))
}

pub open spec fn build_std_ok(v: Option<TomlView>) -> bool {
    v is None || v matches Some(TomlView::Boolean(_)) || (v matches Some(TomlView::Array(a)) && all_strings(a))
}

pub open spec fn pre_build_ok(v: Option<TomlView>) -> bool {
    v is None || v matches Some(TomlView::String(_)) || (v matches Some(TomlView::Array(a)) && all_strings(a))
}

pub open spec fn image_ok(v: Option<TomlView>) -> bool {
    match v {
        None => true,
        Some(TomlView::String(_)) => true,
        Some(TomlView::Table(t)) => lookup(t, "name"@) matches Some(TomlView::String(_)) && match lookup(t, "toolchain"@) {
            None => true,
            Some(TomlView::Array(a)) => all_strings(a) && all_platforms(strings_view(a)),
            Some(_) => false,
        },
        Some(_) => false,
    }
}

pub open spec fn dockerfile_ok(v: Option<TomlView>) -> bool {
    match v {
        None => true,
        Some(TomlView::String(_)) => true,
        Some(TomlView::Table(t)) => lookup(t, "file"@) matches Some(TomlView::String(_))
            && string_ok(lookup(t, "context"@))
            && (lookup(t, "build-args"@) is None
                || (lookup(t, "build-args"@) matches Some(TomlView::Table(bt)) && all_string_values(bt))),
        Some(_) => false,
    }
}

pub open spec fn zig_ok(v: Option<TomlView>) -> bool {
    match v {
        None => true,
        Some(TomlView::Boolean(_)) => true,
        Some(TomlView::String(_)) => true,
        Some(TomlView::Table(t)) => bool_ok(lookup(t, "enable"@)) && string_ok(lookup(t, "version"@))
            && image_ok(lookup(t, "image"@)),
        Some(_) => false,
    }
}

pub open spec fn env_ok(v: Option<TomlView>) -> bool {
    match v {
        None => true,
        Some(TomlView::Table(t)) => strings_ok(lookup(t, "volumes"@)) && strings_ok(lookup(t, "passthrough"@)),
        Some(_) => false,
    }
}

/// The `[build]` table: each setting read as its reader says (see
/// [`env_rel`] and the others); the first setting, in the order of the
/// fields, that cannot be read gives the error.
pub open spec fn build_rel(v: Option<TomlView>, r: Result<CrossBuildConfig, TomlError>) -> bool {
    match v {
        None => r matches Ok(c) && c.env.volumes is None && c.env.passthrough is None && c.xargo is None
            && c.build_std is None && c.zig is None && c.default_target is None && c.pre_build is None
            && c.dockerfile is None,
        Some(TomlView::Table(t)) => {
            let env = lookup(t, "env"@);
            let xargo = lookup(t, "xargo"@);
            let bs = lookup(t, "build-std"@);
            let zig = lookup(t, "zig"@);
            let dt = lookup(t, "default-target"@);
            let pb = lookup(t, "pre-build"@);
            let df = lookup(t, "dockerfile"@);
            match r {
                Ok(c) => env_rel(env, Ok(c.env)) && bool_rel(xargo, "xargo"@, Ok(c.xargo))
                    && build_std_rel(bs, "build-std"@, Ok(c.build_std)) && zig_rel(zig, "zig"@, Ok(c.zig))
                    && string_rel(dt, "default-target"@, Ok(c.default_target))
                    && pre_build_rel(pb, "pre-build"@, Ok(c.pre_build))
                    && dockerfile_rel(df, "dockerfile"@, Ok(c.dockerfile)),
                Err(e) => if !env_ok(env) {
                    env_rel(env, Err(e))
                } else if !bool_ok(xargo) {
                    bool_rel(xargo, "xargo"@, Err(e))
                } else if !build_std_ok(bs) {
                    build_std_rel(bs, "build-std"@, Err(e))
                } else if !zig_ok(zig) {
                    zig_rel(zig, "zig"@, Err(e))
                } else if !string_ok(dt) {
                    string_rel(dt, "default-target"@, Err(e))
                } else if !pre_build_ok(pb) {
                    pre_build_rel(pb, "pre-build"@, Err(e))
                } else {
                    !dockerfile_ok(df) && dockerfile_rel(df, "dockerfile"@, Err(e))
                },
            }
        },
        Some(_) => type_error(r, "build"@),
    }
}

/// Reads the `[build]` table (see [`build_rel`]).
pub fn read_build(v: Option<&TomlValue>) -> (r: Result<CrossBuildConfig, TomlError>)
    ensures
        build_rel(match v { Some(x) => Some(x.view_of()), None => None }, r),
{
    proof {
        reveal_strlit("env");
        reveal_strlit("xargo");
        reveal_strlit("build-std");
        reveal_strlit("zig");
        reveal_strlit("default-target");
        reveal_strlit("pre-build");
        reveal_strlit("dockerfile");
        reveal_strlit("build");
    }
    let t = match v {
        None => {
            return Ok(CrossBuildConfig {
                env: CrossEnvConfig { volumes: None, passthrough: None },
                xargo: None,
                build_std: None,
                zig: None,
                default_target: None,
                pre_build: None,
                dockerfile: None,
            });
        },
        Some(TomlValue::Table(t)) => t,
        Some(_) => return type_err("build"),
    };
    let env = match read_env(find(t, "env")) {
        Ok(x) => x,
        Err(e) => return Err(e),
    };
    let xargo = match read_bool(find(t, "xargo"), "xargo") {
        Ok(x) => x,
        Err(e) => return Err(e),
    };
    let build_std = match read_build_std(find(t, "build-std"), "build-std") {
        Ok(x) => x,
        Err(e) => return Err(e),
    };
    let zig = match read_zig(find(t, "zig"), "zig") {
        Ok(x) => x,
        Err(e) => return Err(e),
    };
    let default_target = match read_string(find(t, "default-target"), "default-target") {
        Ok(x) => x,
        Err(e) => return Err(e),
    };
    let pre_build = match read_pre_build(find(t, "pre-build"), "pre-build") {
        Ok(x) => x,
        Err(e) => return Err(e),
    };
    let dockerfile = match read_dockerfile(find(t, "dockerfile"), "dockerfile") {
        Ok(x) => x,
        Err(e) => return Err(e),
    };
    Ok(CrossBuildConfig { env, xargo, build_std, zig, default_target, pre_build, dockerfile })
}

/// A `[target.<triple>]` table: each setting read as its reader says; the
/// first setting, in the order of the fields, that cannot be read gives the
/// error; a value that is no table is an error at the triple `k`.
pub open spec fn target_rel(v: TomlView, k: Seq<char>, r: Result<CrossTargetConfig, TomlError>) -> bool {
    match v {
        TomlView::Table(t) => {
            let xargo = lookup(t, "xargo"@);
            let bs = lookup(t, "build-std"@);
            let zig = lookup(t, "zig"@);
            let im = lookup(t, "image"@);
            let df = lookup(t, "dockerfile"@);
            let pb = lookup(t, "pre-build"@);
            let ru = lookup(t, "runner"@);
            let env = lookup(t, "env"@);
            match r {
                Ok(c) => bool_rel(xargo, "xargo"@, Ok(c.xargo))
                    && build_std_rel(bs, "build-std"@, Ok(c.build_std)) && zig_rel(zig, "zig"@, Ok(c.zig))
                    && image_rel(im, "image"@, Ok(c.image))
                    && dockerfile_rel(df, "dockerfile"@, Ok(c.dockerfile))
                    && pre_build_rel(pb, "pre-build"@, Ok(c.pre_build))
                    && string_rel(ru, "runner"@, Ok(c.runner))
                    && env_rel(env, Ok(c.env)),
                Err(e) => if !bool_ok(xargo) {
                    bool_rel(xargo, "xargo"@, Err(e))
                } else if !build_std_ok(bs) {
                    build_std_rel(bs, "build-std"@, Err(e))
                } else if !zig_ok(zig) {
                    zig_rel(zig, "zig"@, Err(e))
                } else if !image_ok(im) {
                    image_rel(im, "image"@, Err(e))
                } else if !dockerfile_ok(df) {
                    dockerfile_rel(df, "dockerfile"@, Err(e))
                } else if !pre_build_ok(pb) {
                    pre_build_rel(pb, "pre-build"@, Err(e))
                } else if !string_ok(ru) {
                    string_rel(ru, "runner"@, Err(e))
                } else {
                    !env_ok(env) && env_rel(env, Err(e))
                },
            }
        },
        _ => type_error(r, k),
    }
}

/// Whether a target's table can be read.
pub open spec fn target_ok(v: TomlView) -> bool {
    v matches TomlView::Table(t) && bool_ok(lookup(t, "xargo"@)) && build_std_ok(lookup(t, "build-std"@))
        && zig_ok(lookup(t, "zig"@)) && image_ok(lookup(t, "image"@)) && dockerfile_ok(lookup(t, "dockerfile"@))
        && pre_build_ok(lookup(t, "pre-build"@)) && string_ok(lookup(t, "runner"@)) && env_ok(lookup(t, "env"@))
}

/// Reads a `[target.<triple>]` table (see [`target_rel`]).
pub fn read_target(v: &TomlValue, k: &str) -> (r: Result<CrossTargetConfig, TomlError>)
    ensures
        target_rel(v.view_of(), k@, r),
        r is Ok <==> target_ok(v.view_of()),
{
    proof {
        reveal_strlit("env");
        reveal_strlit("xargo");
        reveal_strlit("build-std");
        reveal_strlit("zig");
        reveal_strlit("image");
        reveal_strlit("runner");
        reveal_strlit("pre-build");
        reveal_strlit("dockerfile");
    }
    let t = match v {
        TomlValue::Table(t) => t,
        _ => return type_err(k),
    };
    let xargo = match read_bool(find(t, "xargo"), "xargo") {
        Ok(x) => x,
        Err(e) => return Err(e),
    };
    let build_std = match read_build_std(find(t, "build-std"), "build-std") {
        Ok(x) => x,
        Err(e) => return Err(e),
    };
    let zig = match read_zig(find(t, "zig"), "zig") {
        Ok(x) => x,
        Err(e) => return Err(e),
    };
    let image = match read_image(find(t, "image"), "image") {
        Ok(x) => x,
        Err(e) => return Err(e),
    };
    let dockerfile = match read_dockerfile(find(t, "dockerfile"), "dockerfile") {
        Ok(x) => x,
        Err(e) => return Err(e),
    };
    let pre_build = match read_pre_build(find(t, "pre-build"), "pre-build") {
        Ok(x) => x,
        Err(e) => return Err(e),
    };
    let runner = match read_string(find(t, "runner"), "runner") {
        Ok(x) => x,
        Err(e) => return Err(e),
    };
    let env = match read_env(find(t, "env")) {
        Ok(x) => x,
        Err(e) => return Err(e),
    };
    Ok(CrossTargetConfig { xargo, build_std, zig, image, dockerfile, pre_build, runner, env })
}

/// The entries of a table whose key no earlier entry has.
pub open spec fn distinct_entries(t: Seq<(Seq<char>, TomlView)>) -> Seq<(Seq<char>, TomlView)>
    decreases t.len(),
{
    if t.len() == 0 {
        Seq::empty()
    } else {
        let d = distinct_entries(t.drop_last());
        if lookup(t.drop_last(), t.last().0) is Some {
            d
        } else {
            d.push(t.last())
        }
    }
}

proof fn lemma_lookup_push(t: Seq<(Seq<char>, TomlView)>, e: (Seq<char>, TomlView), k: Seq<char>)
    ensures
        lookup(t.push(e), k) == if lookup(t, k) is Some { lookup(t, k) } else if e.0 == k { Some(e.1) } else { None },
    decreases t.len(),
{
    let te = t.push(e);
    if t.len() > 0 {
        assert(te[0] == t[0]);
        assert(te.drop_first() =~= t.drop_first().push(e));
        lemma_lookup_push(t.drop_first(), e, k);
        if t[0].0 == k {
            assert(lookup(te, k) == Some(t[0].1));
            assert(lookup(t, k) == Some(t[0].1));
        } else {
            assert(lookup(te, k) == lookup(te.drop_first(), k));
            assert(lookup(t, k) == lookup(t.drop_first(), k));
        }
    } else {
        assert(te[0] == e);
        assert(te.drop_first().len() == 0);
        assert(lookup(te.drop_first(), k) is None);
        assert(lookup(t, k) is None);
    }
}

proof fn lemma_distinct_entries(t: Seq<(Seq<char>, TomlView)>)
    ensures
        forall|k: Seq<char>| lookup(t, k) is Some <==> exists|j: int| 0 <= j < distinct_entries(t).len()
            && (#[trigger] distinct_entries(t)[j]).0 == k,
        forall|i: int, j: int| 0 <= i < j < distinct_entries(t).len() ==> (#[trigger] distinct_entries(t)[i]).0
            != (#[trigger] distinct_entries(t)[j]).0,
        forall|j: int| 0 <= j < distinct_entries(t).len() ==> lookup(t, (#[trigger] distinct_entries(t)[j]).0)
            == Some(distinct_entries(t)[j].1),
    decreases t.len(),
{
    if t.len() > 0 {
        let p = t.drop_last();
        let e = t.last();
        lemma_distinct_entries(p);
        assert(p.push(e) =~= t);
        let d = distinct_entries(p);
        assert forall|k: Seq<char>| #[trigger] lookup(t, k) == if lookup(p, k) is Some { lookup(p, k) } else if e.0 == k { Some(e.1) } else { None } by {
            lemma_lookup_push(p, e, k);
        }
        if lookup(p, e.0) is None {
            let d2 = d.push(e);
            assert forall|k: Seq<char>| lookup(t, k) is Some implies exists|j: int| 0 <= j < d2.len() && (#[trigger] d2[j]).0 == k by {
                if lookup(p, k) is Some {
                    let j = choose|j: int| 0 <= j < d.len() && (#[trigger] d[j]).0 == k;
                    assert(d2[j] == d[j]);
                } else {
                    assert(d2[d.len() as int] == e);
                }
            }
            assert forall|k: Seq<char>| (exists|j: int| 0 <= j < d2.len() && (#[trigger] d2[j]).0 == k) implies lookup(t, k) is Some by {
                let j = choose|j: int| 0 <= j < d2.len() && (#[trigger] d2[j]).0 == k;
                if j < d.len() {
                    assert(d2[j] == d[j]);
                }
            }
            assert forall|i: int, j: int| 0 <= i < j < d2.len() implies (#[trigger] d2[i]).0 != (#[trigger] d2[j]).0 by {
                if j < d.len() {
                    assert(d2[i] == d[i] && d2[j] == d[j]);
                } else {
                    assert(d2[i] == d[i]);
                    if d[i].0 == e.0 {
                        assert(lookup(p, e.0) is Some);
                    }
                }
            }
            assert forall|j: int| 0 <= j < d2.len() implies lookup(t, (#[trigger] d2[j]).0) == Some(d2[j].1) by {
                if j < d.len() {
                    assert(d2[j] == d[j]);
                }
            }
        }
    }
}

/// The target a key of `[target]` names: built in where the key is a triple
/// `cross` knows or one that `target_list` holds.
pub open spec fn key_target(k: Seq<char>, target_list: Seq<Seq<char>>, t: Target) -> bool {
    t.spec_triple() == k && (t is BuiltIn <==> (is_named_triple(k) || target_list.contains(k)))
}

/// The target a key of `[target]` names (see [`key_target`]).
fn target_of_key(k: &str, target_list: &TargetList) -> (r: Target)
    ensures
        key_target(k@, views(target_list.triples@), r),
{
    match TargetTriple::from(k) {
        TargetTriple::Other(_) => Target::from(k, target_list),
        _ => Target::new_built_in(k),
    }
}

/// The targets of `[target]`: each distinct key with its table, in order;
/// the first table that cannot be read gives the error.
pub open spec fn targets_rel(
    d: Seq<(Seq<char>, TomlView)>,
    target_list: Seq<Seq<char>>,
    r: Result<Vec<(Target, CrossTargetConfig)>, TomlError>,
) -> bool {
    match r {
        Ok(ts) => {
            &&& ts@.len() == d.len()
            &&& forall|i: int| 0 <= i < d.len() ==> key_target(d[i].0, target_list, (#[trigger] ts@[i]).0)
                && target_rel(d[i].1, d[i].0, Ok(ts@[i].1))
        },
        Err(e) => exists|i: int| 0 <= i < d.len() && (forall|j: int| 0 <= j < i ==> target_ok(#[trigger] d[j].1))
            && !target_ok(#[trigger] d[i].1) && target_rel(d[i].1, d[i].0, Err(e)),
    }
}

/// A configuration read from its TOML value: its `[target]` tables (see
/// [`targets_rel`]), then its `[build]` table (see [`build_rel`]).
pub open spec fn cross_toml_rel(doc: TomlView, target_list: Seq<Seq<char>>, r: Result<CrossToml, TomlError>) -> bool {
    match doc {
        TomlView::Table(t) => {
            let bv = lookup(t, "build"@);
            match lookup(t, "target"@) {
                None => match r {
                    Ok(c) => c.targets@.len() == 0 && build_rel(bv, Ok(c.build)),
                    Err(e) => build_rel(bv, Err(e)),
                },
                Some(TomlView::Table(tt)) => {
                    let d = distinct_entries(tt);
                    match r {
                        Ok(c) => targets_rel(d, target_list, Ok(c.targets)) && build_rel(bv, Ok(c.build)),
                        Err(e) => targets_rel(d, target_list, Err(e))
                            || ((forall|j: int| 0 <= j < d.len() ==> target_ok(#[trigger] d[j].1))
                                && build_rel(bv, Err(e))),
                    }
                },
                Some(_) => type_error(r, "target"@),
            }
        },
        _ => type_error(r, Seq::empty()),
    }
}

fn read_targets(tt: &Vec<(String, TomlValue)>, target_list: &TargetList) -> (r: Result<Vec<(Target, CrossTargetConfig)>, TomlError>)
    ensures
        targets_rel(distinct_entries(entries_view(tt@)), views(target_list.triples@), r),
        r matches Ok(ts) ==> triples_unique(ts@),
        r is Ok ==> forall|j: int| 0 <= j < distinct_entries(entries_view(tt@)).len()
            ==> target_ok(#[trigger] distinct_entries(entries_view(tt@))[j].1),
{
    let ghost ev = entries_view(tt@);
    proof {
        lemma_entries_view_props(tt@);
    }
    let mut ts: Vec<(Target, CrossTargetConfig)> = Vec::new();
    let mut i: usize = 0;
    while i < tt.len()
        invariant
            i <= tt@.len(),
            ev == entries_view(tt@),
            ev.len() == tt@.len(),
            forall|j: int| 0 <= j < tt@.len() ==> #[trigger] ev[j] == (tt@[j].0@, tt@[j].1.view_of()),
            ts@.len() == distinct_entries(ev.take(i as int)).len(),
            forall|j: int| 0 <= j < ts@.len() ==> target_ok(#[trigger] distinct_entries(ev.take(i as int))[j].1),
            forall|j: int| 0 <= j < ts@.len() ==> {
                let d = distinct_entries(ev.take(i as int));
                key_target(d[j].0, views(target_list.triples@), (#[trigger] ts@[j]).0)
                    && target_rel(d[j].1, d[j].0, Ok(ts@[j].1)) && target_ok(d[j].1)
            },
        decreases tt@.len() - i,
    {
        let ghost p = ev.take(i as int);
        let ghost d = distinct_entries(p);
        assert(ev.take(i + 1).drop_last() =~= p);
        assert(ev.take(i + 1).last() == ev[i as int]);
        proof { lemma_distinct_entries(p); }
        let key = tt[i].0.as_str();
        let mut seen = false;
        let mut j: usize = 0;
        while j < ts.len()
            invariant
                j <= ts@.len(),
                ts@.len() == d.len(),
                forall|m: int| 0 <= m < ts@.len() ==> #[trigger] ts@[m].0.spec_triple() == d[m].0,
                seen == exists|m: int| 0 <= m < j && (#[trigger] d[m]).0 == key@,
            decreases ts@.len() - j,
        {
            assert(ts@[j as int].0.spec_triple() == d[j as int].0);
            if str_eq(ts[j].0.triple(), key) {
                seen = true;
            }
            j += 1;
        }
        if !seen {
            assert(lookup(p, key@) is None);
            match read_target(&tt[i].1, key) {
                Ok(c) => {
                    let t = target_of_key(key, target_list);
                    ts.push((t, c));
                    assert(distinct_entries(ev.take(i + 1)) == d.push(ev[i as int]));
                },
                Err(e) => {
                    proof {
                        assert(distinct_entries(ev.take(i + 1)) == d.push(ev[i as int]));
                        lemma_distinct_prefix_err(ev, i as int + 1, d.len() as int);
                        let dd = distinct_entries(ev);
                        assert(dd[d.len() as int] == ev[i as int]);
                        assert forall|m: int| 0 <= m < d.len() implies target_ok(#[trigger] dd[m].1) by {
                            lemma_distinct_prefix_err(ev, i as int + 1, m);
                            assert(distinct_entries(ev.take(i + 1))[m] == d[m]);
                        }
                        let w = d.len() as int;
                        assert(dd[w] == ev[i as int]);
                        assert(ev[i as int] == (key@, tt@[i as int].1.view_of()));
                        assert(!target_ok(dd[w].1) && target_rel(dd[w].1, dd[w].0, Err(e)));
                        assert(0 <= w < dd.len() && (forall|j: int| 0 <= j < w ==> target_ok(#[trigger] dd[j].1))
                            && !target_ok(dd[w].1) && target_rel(dd[w].1, dd[w].0, Err(e)));
                    }
                    return Err(e);
                },
            }
        } else {
            assert(lookup(p, key@) is Some);
            assert(distinct_entries(ev.take(i + 1)) == d);
        }
        i += 1;
    }
    assert(ev.take(i as int) =~= ev);
    proof {
        lemma_distinct_entries(ev);
        let dd = distinct_entries(ev);
        assert forall|a: int, b: int| 0 <= a < b < ts@.len() implies #[trigger] ts@[a].0.spec_triple()
            != #[trigger] ts@[b].0.spec_triple() by {
            assert(dd[a].0 != dd[b].0);
        }
    }
    Ok(ts)
}

proof fn lemma_distinct_prefix_err(ev: Seq<(Seq<char>, TomlView)>, n: int, k: int)
    requires
        0 <= n <= ev.len(),
        0 <= k < distinct_entries(ev.take(n)).len(),
    ensures
        k < distinct_entries(ev).len(),
        distinct_entries(ev)[k] == distinct_entries(ev.take(n))[k],
    decreases ev.len() - n,
{
    if n < ev.len() {
        assert(ev.take(n + 1).drop_last() =~= ev.take(n));
        lemma_distinct_prefix_err(ev, n + 1, k);
    } else {
        assert(ev.take(n) =~= ev);
    }
}

impl CrossToml {
    /// The configuration that a TOML value gives (see [`cross_toml_rel`]).
    pub fn parse_from_value(doc: &TomlValue, target_list: &TargetList) -> (r: Result<CrossToml, TomlError>)
        ensures
            cross_toml_rel(doc.view_of(), views(target_list.triples@), r),
            r matches Ok(c) ==> c.wf(),
    {
        proof {
            reveal_strlit("build");
            reveal_strlit("target");
            reveal_strlit("");
        }
        let t = match doc {
            TomlValue::Table(t) => t,
            _ => {
                assert(""@ =~= Seq::<char>::empty());
                return type_err("");
            },
        };
        let targets = match find(t, "target") {
            None => Vec::new(),
            Some(TomlValue::Table(tt)) => match read_targets(tt, target_list) {
                Ok(ts) => ts,
                Err(e) => return Err(e),
            },
            Some(_) => return type_err("target"),
        };
        let build = match read_build(find(t, "build")) {
            Ok(b) => b,
            Err(e) => return Err(e),
        };
        Ok(CrossToml { targets, build })
    }
}

/// The keys of a table that are not `known`, each after `prefix`.
pub open spec fn unknown_keys(t: Seq<(Seq<char>, TomlView)>, known: Seq<Seq<char>>, prefix: Seq<char>) -> Seq<Seq<char>> {
    t.filter(|e: (Seq<char>, TomlView)| !known.contains(e.0)).map_values(|e: (Seq<char>, TomlView)| prefix + e.0)
}

pub open spec fn image_keys() -> Seq<Seq<char>> {
    seq!["name"@, "toolchain"@]
}

pub open spec fn dockerfile_keys() -> Seq<Seq<char>> {
    seq!["file"@, "context"@, "build-args"@]
}

pub open spec fn env_keys() -> Seq<Seq<char>> {
    seq!["volumes"@, "passthrough"@]
}

pub open spec fn zig_keys() -> Seq<Seq<char>> {
    seq!["enable"@, "version"@, "image"@]
}

pub open spec fn build_keys() -> Seq<Seq<char>> {
    seq!["env"@, "xargo"@, "build-std"@, "zig"@, "default-target"@, "pre-build"@, "dockerfile"@]
}

pub open spec fn target_keys() -> Seq<Seq<char>> {
    seq!["xargo"@, "build-std"@, "zig"@, "image"@, "dockerfile"@, "pre-build"@, "runner"@, "env"@]
}

pub open spec fn top_keys() -> Seq<Seq<char>> {
    seq!["target"@, "build"@]
}

/// The unknown keys of a table value (none for any other value).
pub open spec fn unknown_in(v: Option<TomlView>, known: Seq<Seq<char>>, prefix: Seq<char>) -> Seq<Seq<char>> {
    match v {
        Some(TomlView::Table(t)) => unknown_keys(t, known, prefix),
        _ => Seq::empty(),
    }
}

/// The unused keys of a zig setting.
pub open spec fn unused_zig(v: Option<TomlView>, prefix: Seq<char>) -> Seq<Seq<char>> {
    match v {
        Some(TomlView::Table(t)) => unknown_keys(t, zig_keys(), prefix)
            + unknown_in(lookup(t, "image"@), image_keys(), prefix + "image."@),
        _ => Seq::empty(),
    }
}

/// The unused keys of the `[build]` table.
pub open spec fn unused_build(v: Option<TomlView>) -> Seq<Seq<char>> {
    match v {
        Some(TomlView::Table(t)) => unknown_keys(t, build_keys(), "build."@)
            + unknown_in(lookup(t, "env"@), env_keys(), "build.env."@)
            + unused_zig(lookup(t, "zig"@), "build.zig."@)
            + unknown_in(lookup(t, "dockerfile"@), dockerfile_keys(), "build.dockerfile."@),
        _ => Seq::empty(),
    }
}

/// The unused keys of a `[target.<k>]` table.
pub open spec fn unused_target(k: Seq<char>, v: TomlView) -> Seq<Seq<char>> {
    let p = "target."@ + k + "."@;
    match v {
        TomlView::Table(t) => unknown_keys(t, target_keys(), p)
            + unused_zig(lookup(t, "zig"@), p + "zig."@)
            + unknown_in(lookup(t, "image"@), image_keys(), p + "image."@)
            + unknown_in(lookup(t, "dockerfile"@), dockerfile_keys(), p + "dockerfile."@)
            + unknown_in(lookup(t, "env"@), env_keys(), p + "env."@),
        _ => Seq::empty(),
    }
}

/// The unused keys of the targets' tables, in order.
pub open spec fn unused_targets(d: Seq<(Seq<char>, TomlView)>) -> Seq<Seq<char>>
    decreases d.len(),
{
    if d.len() == 0 {
        Seq::empty()
    } else {
        unused_targets(d.drop_last()) + unused_target(d.last().0, d.last().1)
    }
}

/// The keys of a configuration that no setting reads: those of its tables,
/// then those of each target's table, then those of `[build]`.
pub open spec fn unused_of(doc: TomlView) -> Seq<Seq<char>> {
    match doc {
        TomlView::Table(t) => unknown_keys(t, top_keys(), Seq::empty())
            + match lookup(t, "target"@) {
                Some(TomlView::Table(tt)) => unused_targets(distinct_entries(tt)),
                _ => Seq::empty(),
            }
            + unused_build(lookup(t, "build"@)),
        _ => Seq::empty(),
    }
}

/// Strings of literal keys.
fn key_list(keys: &[&str]) -> (r: Vec<String>)
    ensures
        views(r@) == keys@.map_values(|k: &str| k@),
{
    let mut r: Vec<String> = Vec::new();
    let mut i: usize = 0;
    while i < keys.len()
        invariant
            i <= keys@.len(),
            views(r@) == keys@.take(i as int).map_values(|k: &str| k@),
        decreases keys@.len() - i,
    {
        let ghost before = r@;
        let k = copy_str(keys[i]);
        r.push(k);
        assert(views(r@) =~= views(before).push(k@));
        assert(keys@.take(i + 1).map_values(|k: &str| k@) =~= keys@.take(i as int).map_values(|k: &str| k@).push(keys@[i as int]@));
        i += 1;
    }
    assert(keys@.take(i as int) =~= keys@);
    r
}

fn is_known(k: &str, known: &Vec<String>) -> (r: bool)
    ensures
        r == views(known@).contains(k@),
{
    let mut i: usize = 0;
    while i < known.len()
        invariant
            i <= known@.len(),
            forall|j: int| 0 <= j < i ==> views(known@)[j] != k@,
        decreases known@.len() - i,
    {
        if str_eq(known[i].as_str(), k) {
            assert(views(known@)[i as int] == k@);
            return true;
        }
        i += 1;
    }
    false
}

/// Appends the unknown keys of a table (see [`unknown_keys`]).
fn push_unknown(t: &Vec<(String, TomlValue)>, known: &Vec<String>, prefix: &str, out: &mut Vec<String>)
    ensures
        views(final(out)@) == views(old(out)@) + unknown_keys(entries_view(t@), views(known@), prefix@),
{
    proof { lemma_entries_view_props(t@); }
    let ghost ev = entries_view(t@);
    let ghost kn = views(known@);
    let ghost pred = |e: (Seq<char>, TomlView)| !kn.contains(e.0);
    let ghost start = views(out@);
    let mut i: usize = 0;
    while i < t.len()
        invariant
            i <= t@.len(),
            ev == entries_view(t@),
            ev.len() == t@.len(),
            kn == views(known@),
            pred == (|e: (Seq<char>, TomlView)| !kn.contains(e.0)),
            forall|j: int| 0 <= j < t@.len() ==> #[trigger] ev[j] == (t@[j].0@, t@[j].1.view_of()),
            views(out@) == start + ev.take(i as int).filter(pred).map_values(|e: (Seq<char>, TomlView)| prefix@ + e.0),
        decreases t@.len() - i,
    {
        proof {
            assert(ev.take(i + 1) =~= ev.take(i as int).push(ev[i as int]));
            ev.take(i as int).lemma_filter_push(ev[i as int], pred);
        }
        if !is_known(t[i].0.as_str(), known) {
            let mut k = copy_str(prefix);
            k.append(t[i].0.as_str());
            let ghost before = out@;
            out.push(k);
            assert(views(out@) =~= views(before).push(k@));
            assert(ev.take(i as int).filter(pred).push(ev[i as int]).map_values(|e: (Seq<char>, TomlView)| prefix@ + e.0)
                =~= ev.take(i as int).filter(pred).map_values(|e: (Seq<char>, TomlView)| prefix@ + e.0).push(prefix@ + ev[i as int].0));
        }
        i += 1;
    }
    assert(ev.take(i as int) =~= ev);
}

/// Appends the unknown keys of a value that is a table.
fn push_unknown_in(v: Option<&TomlValue>, known: &Vec<String>, prefix: &str, out: &mut Vec<String>)
    ensures
        views(final(out)@) == views(old(out)@) + unknown_in(match v { Some(x) => Some(x.view_of()), None => None }, views(known@), prefix@),
{
    match v {
        Some(TomlValue::Table(t)) => push_unknown(t, known, prefix, out),
        _ => {
            assert(views(out@) =~= views(out@) + Seq::<Seq<char>>::empty());
        },
    }
}

fn concat(a: &str, b: &str) -> (r: String)
    ensures
        r@ == a@ + b@,
{
    let mut r = copy_str(a);
    r.append(b);
    r
}

fn push_unused_zig(v: Option<&TomlValue>, prefix: &str, out: &mut Vec<String>)
    ensures
        views(final(out)@) == views(old(out)@) + unused_zig(match v { Some(x) => Some(x.view_of()), None => None }, prefix@),
{
    proof { reveal_strlit("image"); reveal_strlit("image."); }
    match v {
        Some(TomlValue::Table(t)) => {
            let ghost o = views(out@);
            push_unknown(t, &key_list(&["enable", "version", "image"]), prefix, out);
            let p = concat(prefix, "image.");
            push_unknown_in(find(t, "image"), &key_list(&["name", "toolchain"]), p.as_str(), out);
            assert(seq!["enable", "version", "image"].map_values(|k: &str| k@) =~= zig_keys());
            assert(seq!["name", "toolchain"].map_values(|k: &str| k@) =~= image_keys());
        },
        _ => {
            assert(views(out@) =~= views(out@) + Seq::<Seq<char>>::empty());
        },
    }
}

fn push_unused_build(v: Option<&TomlValue>, out: &mut Vec<String>)
    ensures
        views(final(out)@) == views(old(out)@) + unused_build(match v { Some(x) => Some(x.view_of()), None => None }),
{
    proof {
        reveal_strlit("env");
        reveal_strlit("zig");
        reveal_strlit("dockerfile");
    }
    match v {
        Some(TomlValue::Table(t)) => {
            let ghost o = views(out@);
            let keys = key_list(&["env", "xargo", "build-std", "zig", "default-target", "pre-build", "dockerfile"]);
            assert(views(keys@) =~= build_keys());
            push_unknown(t, &keys, "build.", out);
            let ghost o1 = views(out@);
            let env_keys_v = key_list(&["volumes", "passthrough"]);
            assert(views(env_keys_v@) =~= env_keys());
            push_unknown_in(find(t, "env"), &env_keys_v, "build.env.", out);
            let ghost o2 = views(out@);
            push_unused_zig(find(t, "zig"), "build.zig.", out);
            let ghost o3 = views(out@);
            let df_keys = key_list(&["file", "context", "build-args"]);
            assert(views(df_keys@) =~= dockerfile_keys());
            push_unknown_in(find(t, "dockerfile"), &df_keys, "build.dockerfile.", out);
            assert(views(out@) =~= o + unused_build(Some(v.unwrap().view_of())));
        },
        _ => {
            assert(views(out@) =~= views(out@) + Seq::<Seq<char>>::empty());
        },
    }
}

fn push_unused_target(k: &str, v: &TomlValue, out: &mut Vec<String>)
    ensures
        views(final(out)@) == views(old(out)@) + unused_target(k@, v.view_of()),
{
    proof {
        reveal_strlit("env");
        reveal_strlit("zig");
        reveal_strlit("image");
        reveal_strlit("dockerfile");
    }
    match v {
        TomlValue::Table(t) => {
            let ghost o = views(out@);
            let p0 = concat("target.", k);
            let p = concat(p0.as_str(), ".");
            let keys = key_list(&["xargo", "build-std", "zig", "image", "dockerfile", "pre-build", "runner", "env"]);
            assert(views(keys@) =~= target_keys());
            push_unknown(t, &keys, p.as_str(), out);
            let pz = concat(p.as_str(), "zig.");
            push_unused_zig(find(t, "zig"), pz.as_str(), out);
            let pi = concat(p.as_str(), "image.");
            let image_keys_v = key_list(&["name", "toolchain"]);
            assert(views(image_keys_v@) =~= image_keys());
            push_unknown_in(find(t, "image"), &image_keys_v, pi.as_str(), out);
            let pd = concat(p.as_str(), "dockerfile.");
            let df_keys = key_list(&["file", "context", "build-args"]);
            assert(views(df_keys@) =~= dockerfile_keys());
            push_unknown_in(find(t, "dockerfile"), &df_keys, pd.as_str(), out);
            let pe = concat(p.as_str(), "env.");
            let env_keys_v = key_list(&["volumes", "passthrough"]);
            assert(views(env_keys_v@) =~= env_keys());
            push_unknown_in(find(t, "env"), &env_keys_v, pe.as_str(), out);
            assert(views(out@) =~= o + unused_target(k@, v.view_of()));
        },
        _ => {
            assert(views(out@) =~= views(out@) + Seq::<Seq<char>>::empty());
        },
    }
}

/// The keys of a configuration that no setting reads (see [`unused_of`]).
pub fn unused_keys(doc: &TomlValue) -> (r: Vec<String>)
    ensures
        views(r@) == unused_of(doc.view_of()),
{
    proof {
        reveal_strlit("target");
        reveal_strlit("build");
        reveal_strlit("");
    }
    let mut out: Vec<String> = Vec::new();
    let t = match doc {
        TomlValue::Table(t) => t,
        _ => {
            assert(views(out@) =~= Seq::<Seq<char>>::empty());
            return out;
        },
    };
    let keys = key_list(&["target", "build"]);
    assert(views(keys@) =~= top_keys());
    assert(""@ =~= Seq::<char>::empty());
    push_unknown(t, &keys, "", &mut out);
    let ghost o1 = views(out@);
    match find(t, "target") {
        Some(TomlValue::Table(tt)) => {
            let ghost ev = entries_view(tt@);
            proof { lemma_entries_view_props(tt@); }
            let mut seen: Vec<String> = Vec::new();
            let mut i: usize = 0;
            while i < tt.len()
                invariant
                    i <= tt@.len(),
                    ev == entries_view(tt@),
                    ev.len() == tt@.len(),
                    forall|j: int| 0 <= j < tt@.len() ==> #[trigger] ev[j] == (tt@[j].0@, tt@[j].1.view_of()),
                    views(seen@) == distinct_entries(ev.take(i as int)).map_values(|e: (Seq<char>, TomlView)| e.0),
                    views(out@) == o1 + unused_targets(distinct_entries(ev.take(i as int))),
                decreases tt@.len() - i,
            {
                let ghost p = ev.take(i as int);
                let ghost d = distinct_entries(p);
                assert(ev.take(i + 1).drop_last() =~= p);
                assert(ev.take(i + 1).last() == ev[i as int]);
                proof { lemma_distinct_entries(p); }
                if is_known(tt[i].0.as_str(), &seen) {
                    proof {
                        let j = choose|j: int| 0 <= j < views(seen@).len() && views(seen@)[j] == tt@[i as int].0@;
                        assert(d[j].0 == tt@[i as int].0@);
                    }
                    assert(distinct_entries(ev.take(i + 1)) == d);
                } else {
                    proof {
                        if lookup(p, ev[i as int].0) is Some {
                            let j = choose|j: int| 0 <= j < d.len() && (#[trigger] d[j]).0 == ev[i as int].0;
                            assert(views(seen@)[j] == d[j].0);
                        }
                    }
                    assert(distinct_entries(ev.take(i + 1)) == d.push(ev[i as int]));
                    let ghost before = views(out@);
                    push_unused_target(tt[i].0.as_str(), &tt[i].1, &mut out);
                    assert(unused_targets(d.push(ev[i as int])) == unused_targets(d) + unused_target(ev[i as int].0, ev[i as int].1)) by {
                        assert(d.push(ev[i as int]).drop_last() =~= d);
                    }
                    let ghost sb = views(seen@);
                    let c = tt[i].0.clone();
                    seen.push(c);
                    assert(views(seen@) =~= sb.push(c@));
                    assert(d.push(ev[i as int]).map_values(|e: (Seq<char>, TomlView)| e.0)
                        =~= d.map_values(|e: (Seq<char>, TomlView)| e.0).push(ev[i as int].0));
                }
                i += 1;
            }
            assert(ev.take(i as int) =~= ev);
        },
        _ => {},
    }
    let ghost o2 = views(out@);
    push_unused_build(find(t, "build"), &mut out);
    out
}

/// The `cross` table of the metadata of the package of a `Cargo.toml`.
pub open spec fn cross_metadata(doc: TomlView) -> Option<TomlView> {
    match doc {
        TomlView::Table(t) => match lookup(t, "package"@) {
            Some(TomlView::Table(p)) => match lookup(p, "metadata"@) {
                Some(TomlView::Table(m)) => lookup(m, "cross"@),
                _ => None,
            },
            _ => None,
        },
        _ => None,
    }
}

/// `r` is what reading the configuration of a `Cross.toml` document gives
/// (see [`cross_toml_rel`]), with its unused keys (see [`unused_of`]);
/// where there are unused keys, a warning is recorded.
pub open spec fn cross_value_rel(
    doc: TomlView,
    triples: Seq<Seq<char>>,
    r: Result<(CrossToml, Vec<String>), TomlError>,
    before: MessageInfo,
    after: MessageInfo,
) -> bool {
    match r {
        Ok((c, u)) => cross_toml_rel(doc, triples, Ok(c)) && c.wf()
            && views(u@) == unused_of(doc)
            && after == if u@.len() > 0 {
                MessageInfo { has_warned: true, ..before }
            } else {
                before
            },
        Err(e) => cross_toml_rel(doc, triples, Err(e)) && after == before,
    }
}

/// `r` is what reading the `package.metadata.cross` table of a `Cargo.toml`
/// document gives: nothing where there is none, else its configuration and
/// unused keys (see [`cross_value_rel`]).
pub open spec fn cargo_package_rel(
    doc: TomlView,
    triples: Seq<Seq<char>>,
    r: Result<Option<(CrossToml, Vec<String>)>, TomlError>,
    before: MessageInfo,
    after: MessageInfo,
) -> bool {
    match cross_metadata(doc) {
        None => r matches Ok(None) && after == before,
        Some(m) => match r {
            Ok(Some(x)) => cross_value_rel(m, triples, Ok(x), before, after),
            Ok(None) => false,
            Err(e) => cross_value_rel(m, triples, Err(e), before, after),
        },
    }
}

/// The version a toolchain's channel manifest gives, at `pkg.rust.version`,
/// where it is a string.
pub open spec fn manifest_version_of(doc: TomlView) -> Option<Seq<char>> {
    match doc {
        TomlView::Table(t) => match lookup(t, "pkg"@) {
            Some(TomlView::Table(p)) => match lookup(p, "rust"@) {
                Some(TomlView::Table(q)) => match lookup(q, "version"@) {
                    Some(TomlView::String(v)) => Some(v),
                    _ => None,
                },
                _ => None,
            },
            _ => None,
        },
        _ => None,
    }
}

/// The version string of a toolchain's channel manifest (see
/// [`manifest_version_of`]); `None` where the text is no TOML table.
pub fn rustc_version_string_of(manifest: &str) -> (r: Option<Option<String>>)
    ensures
        match toml_doc_of(manifest@) {
            Some(TomlView::Table(t)) => r matches Some(v) && opt_view(v) == manifest_version_of(TomlView::Table(t)),
            _ => r is None,
        },
{
    proof {
        reveal_strlit("pkg");
        reveal_strlit("rust");
        reveal_strlit("version");
    }
    let doc = match parse_toml(manifest) {
        Some(d) => d,
        None => return None,
    };
    let t = match &doc {
        TomlValue::Table(t) => t,
        _ => return None,
    };
    let p = match find(t, "pkg") {
        Some(TomlValue::Table(p)) => p,
        _ => return Some(None),
    };
    let q = match find(p, "rust") {
        Some(TomlValue::Table(q)) => q,
        _ => return Some(None),
    };
    match find(q, "version") {
        Some(TomlValue::String(v)) => Some(Some(v.clone())),
        _ => Some(None),
    }
}

impl CrossToml {
    /// The configuration of a `Cross.toml` text (see [`cross_value_rel`]);
    /// an error where the text is no TOML document.
    pub fn parse_from_cross_str(text: &str, target_list: &TargetList, msg_info: &mut MessageInfo)
        -> (r: Result<(CrossToml, Vec<String>), TomlError>)
        ensures
            match toml_doc_of(text@) {
                None => r matches Err(TomlError::Syntax) && *final(msg_info) == *old(msg_info),
                Some(d) => cross_value_rel(d, views(target_list.triples@), r, *old(msg_info), *final(msg_info)),
            },
    {
        match parse_toml(text) {
            Some(doc) => CrossToml::parse_from_cross_value(&doc, target_list, msg_info),
            None => Err(TomlError::Syntax),
        }
    }

    /// The configuration in the `package.metadata.cross` table of a
    /// `Cargo.toml` text (see [`cargo_package_rel`]); an error where the
    /// text is no TOML document.
    pub fn parse_from_cargo_package_str(text: &str, target_list: &TargetList, msg_info: &mut MessageInfo)
        -> (r: Result<Option<(CrossToml, Vec<String>)>, TomlError>)
        ensures
            match toml_doc_of(text@) {
                None => r matches Err(TomlError::Syntax) && *final(msg_info) == *old(msg_info),
                Some(d) => cargo_package_rel(d, views(target_list.triples@), r, *old(msg_info), *final(msg_info)),
            },
    {
        match parse_toml(text) {
            Some(doc) => CrossToml::parse_from_cargo_package(&doc, target_list, msg_info),
            None => Err(TomlError::Syntax),
        }
    }
}

impl CrossToml {
    /// The configuration of a `Cross.toml` (see [`cross_toml_rel`]) and its
    /// unused keys (see [`unused_of`]); where there are unused keys, a
    /// warning is recorded.
    pub fn parse_from_cross_value(doc: &TomlValue, target_list: &TargetList, msg_info: &mut MessageInfo)
        -> (r: Result<(CrossToml, Vec<String>), TomlError>)
        ensures
            cross_value_rel(doc.view_of(), views(target_list.triples@), r, *old(msg_info), *final(msg_info)),
    {
        let c = match CrossToml::parse_from_value(doc, target_list) {
            Ok(c) => c,
            Err(e) => return Err(e),
        };
        let unused = unused_keys(doc);
        if unused.len() > 0 {
            msg_info.warn();
        }
        Ok((c, unused))
    }

    /// The configuration in the `package.metadata.cross` table of a
    /// `Cargo.toml`, if it has one (see [`cross_metadata`]).
    pub fn parse_from_cargo_package(doc: &TomlValue, target_list: &TargetList, msg_info: &mut MessageInfo)
        -> (r: Result<Option<(CrossToml, Vec<String>)>, TomlError>)
        ensures
            cargo_package_rel(doc.view_of(), views(target_list.triples@), r, *old(msg_info), *final(msg_info)),
    {
        proof {
            reveal_strlit("package");
            reveal_strlit("metadata");
            reveal_strlit("cross");
        }
        let t = match doc {
            TomlValue::Table(t) => t,
            _ => return Ok(None),
        };
        let p = match find(t, "package") {
            Some(TomlValue::Table(p)) => p,
            _ => return Ok(None),
        };
        let m = match find(p, "metadata") {
            Some(TomlValue::Table(m)) => m,
            _ => return Ok(None),
        };
        match find(m, "cross") {
            None => Ok(None),
            Some(c) => match CrossToml::parse_from_cross_value(c, target_list, msg_info) {
                Ok(x) => Ok(Some(x)),
                Err(e) => Err(e),
            },
        }
    }
}

} // verus!
