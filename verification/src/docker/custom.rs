//! Images built for a project: from its own Dockerfile, or from the image
//! of its target with pre-build commands run in it.

use vstd::prelude::*;
use vstd::string::StringExecFns;
use crate::cargo::CargoMetadata;
use crate::docker::image::ImagePlatform;
use crate::docker::shared::{path_hash, path_hash_of, PATH_HASH_SHORT};
use crate::file::{file_name, file_name_of};
use crate::target::TargetTriple;
use crate::text::{chars_of, push_char, copy_str, views};

verus! {

broadcast use vstd::string::group_string_axioms;

/// The prefix of the names of the images built for a project.
pub const CROSS_CUSTOM_DOCKERFILE_IMAGE_PREFIX: &'static str = "localhost/cross-rs/cross-custom-";

/// A Dockerfile to build an image from.
#[derive(Debug, PartialEq, Eq)]
pub enum Dockerfile<'a> {
    /// A Dockerfile of the project, with its build context and the name of
    /// the image to build, where they are given.
    File {
        path: &'a str,
        context: Option<&'a str>,
        name: Option<&'a str>,
        runs_with: &'a ImagePlatform,
    },
    /// A Dockerfile that `cross` writes.
    Custom {
        content: String,
        runs_with: &'a ImagePlatform,
    },
}

/// Commands to run in an image before it is used.
#[derive(Debug, Clone, PartialEq, Eq)]
pub enum PreBuild {
    /// A path to a file to copy or a single line to `RUN` if line comes from env
    Single { line: String, env: bool },
    /// Lines to execute in a single `RUN`
    Lines(Vec<String>),
}

impl PreBuild {
    pub fn is_single(&self) -> (r: bool)
        ensures
            r == (self is Single),
    {
        matches!(self, PreBuild::Single { .. })
    }

    pub fn is_lines(&self) -> (r: bool)
        ensures
            r == (self is Lines),
    {
        matches!(self, PreBuild::Lines(..))
    }

    /// A pre-build command given as a string in a configuration file: a
    /// path to a script, not a line from the environment.
    pub fn from_line(s: &str) -> (r: PreBuild)
        ensures
            r matches PreBuild::Single { line, env } && line@ == s@ && !env,
    {
        PreBuild::Single { line: copy_str(s), env: false }
    }

    /// Pre-build commands given as a list.
    pub fn from_lines(lines: Vec<String>) -> (r: PreBuild)
        ensures
            r == PreBuild::Lines(lines),
    {
        PreBuild::Lines(lines)
    }
}

/// A character that an image name keeps as it is.
pub open spec fn is_tag_char(c: char) -> bool {
    ('a' <= c && c <= 'z') || ('0' <= c && c <= '9') || c == '.' || c == '-'
}

pub open spec fn is_upper(c: char) -> bool {
    'A' <= c && c <= 'Z'
}

/// The lowercase letter of an uppercase ASCII letter.
pub open spec fn lower_of(c: char) -> char {
    ((c as u32) + 32) as char
}

/// Reads a file name into an image name: lowercase ASCII letters, digits,
/// `.` and `-` stay, uppercase ASCII letters are lowered, at most two `_`
/// in a row stay, and everything else is dropped (without ending a run of
/// `_`). Gives the name so far and the length of the current run of `_`.
pub open spec fn tag_scan(s: Seq<char>) -> (Seq<char>, nat)
    decreases s.len(),
{
    if s.len() == 0 {
        (Seq::empty(), 0)
    } else {
        let prev = tag_scan(s.drop_last());
        let c = s.last();
        if is_tag_char(c) {
            (prev.0.push(c), 0)
        } else if is_upper(c) {
            (prev.0.push(lower_of(c)), 0)
        } else if c == '_' {
            if prev.1 + 1 <= 2 {
                (prev.0.push(c), prev.1 + 1)
            } else {
                (prev.0, prev.1 + 1)
            }
        } else {
            prev
        }
    }
}

/// `s` without the `.` and `-` it ends with.
pub open spec fn trim_dots_dashes(s: Seq<char>) -> Seq<char>
    decreases s.len(),
{
    if s.len() > 0 && (s.last() == '.' || s.last() == '-') {
        trim_dots_dashes(s.drop_last())
    } else {
        s
    }
}

/// The image name of a file name (see [`tag_scan`]), without a trailing
/// `.` or `-`, and `empty` where nothing is left.
pub open spec fn tag_name_of(s: Seq<char>) -> Seq<char> {
    let t = trim_dots_dashes(tag_scan(s).0);
    if t.len() == 0 {
        "empty"@
    } else {
        t
    }
}

/// A character that may stand in an image name.
pub open spec fn is_name_char(c: char) -> bool {
    is_tag_char(c) || c == '_'
}

proof fn lemma_tag_scan_chars(s: Seq<char>)
    ensures
        forall|i: int| 0 <= i < tag_scan(s).0.len() ==> is_name_char(#[trigger] tag_scan(s).0[i]),
    decreases s.len(),
{
    if s.len() > 0 {
        lemma_tag_scan_chars(s.drop_last());
        let prev = tag_scan(s.drop_last());
        let c = s.last();
        if is_upper(c) {
            assert('a' <= lower_of(c) && lower_of(c) <= 'z');
        }
        assert forall|i: int| 0 <= i < tag_scan(s).0.len() implies is_name_char(#[trigger] tag_scan(s).0[i]) by {
            if i < prev.0.len() {
                assert(is_name_char(prev.0[i]));
            }
        }
    }
}

proof fn lemma_trim_dots_dashes(s: Seq<char>)
    ensures
        trim_dots_dashes(s).len() <= s.len(),
        forall|i: int| 0 <= i < trim_dots_dashes(s).len() ==> trim_dots_dashes(s)[i] == s[i],
        trim_dots_dashes(s).len() > 0 ==> trim_dots_dashes(s).last() != '.' && trim_dots_dashes(s).last() != '-',
    decreases s.len(),
{
    if s.len() > 0 && (s.last() == '.' || s.last() == '-') {
        lemma_trim_dots_dashes(s.drop_last());
        assert forall|i: int| 0 <= i < trim_dots_dashes(s).len() implies trim_dots_dashes(s)[i] == s[i] by {
            assert(trim_dots_dashes(s)[i] == s.drop_last()[i]);
        }
    }
}

/// The image name made of any file name is a valid one: not empty, made of
/// lowercase ASCII letters, digits, `.`, `-` and `_`, and not ending with
/// `.` or `-`.
pub proof fn tag_name_is_valid(file_name: Seq<char>)
    ensures
        tag_name_of(file_name).len() > 0,
        forall|i: int| 0 <= i < tag_name_of(file_name).len() ==> is_name_char(#[trigger] tag_name_of(file_name)[i]),
        tag_name_of(file_name).last() != '.' && tag_name_of(file_name).last() != '-',
{
    let t = tag_scan(file_name).0;
    lemma_tag_scan_chars(file_name);
    lemma_trim_dots_dashes(t);
    reveal_strlit("empty");
    if trim_dots_dashes(t).len() > 0 {
        assert forall|i: int| 0 <= i < tag_name_of(file_name).len() implies is_name_char(#[trigger] tag_name_of(file_name)[i]) by {
            assert(tag_name_of(file_name)[i] == t[i]);
        }
    } else {
        assert("empty"@ =~= seq!['e', 'm', 'p', 't', 'y']);
    }
}

/// The lowercase letter of an uppercase ASCII letter.
fn to_lower(c: char) -> (r: char)
    requires
        is_upper(c),
    ensures
        r == lower_of(c),
{
    let b: u8 = (c as u8) + 32;
    b as char
}

/// The image name of a file name (see [`tag_name_of`]).
pub fn docker_tag_name(file_name: &str) -> (r: String)
    ensures
        r@ == tag_name_of(file_name@),
{
    let v = chars_of(file_name);
    let mut result = String::new();
    let mut underscores: usize = 0;
    let mut i: usize = 0;
    while i < v.len()
        invariant
            i <= v.len(),
            underscores <= i,
            (result@, underscores as nat) == tag_scan(v@.take(i as int)),
        decreases v.len() - i,
    {
        let c = v[i];
        assert(v@.take(i + 1).drop_last() == v@.take(i as int));
        assert(v@.take(i + 1).last() == c);
        if ('a' <= c && c <= 'z') || ('0' <= c && c <= '9') || c == '.' || c == '-' {
            underscores = 0;
            push_char(&mut result, c);
        } else if 'A' <= c && c <= 'Z' {
            underscores = 0;
            push_char(&mut result, to_lower(c));
        } else if c == '_' {
            underscores = underscores + 1;
            if underscores <= 2 {
                push_char(&mut result, c);
            }
        }
        i = i + 1;
    }
    assert(v@.take(v.len() as int) == v@);
    let rv = chars_of(result.as_str());
    let mut end: usize = rv.len();
    assert(rv@.take(rv.len() as int) == rv@);
    while end > 0 && (rv[end - 1] == '.' || rv[end - 1] == '-')
        invariant
            end <= rv.len(),
            trim_dots_dashes(rv@) == trim_dots_dashes(rv@.take(end as int)),
        decreases end,
    {
        assert(rv@.take(end as int).drop_last() == rv@.take(end - 1));
        end = end - 1;
    }
    assert(rv@.take(rv.len() as int) == rv@);
    if end == 0 {
        String::from_str("empty")
    } else {
        crate::text::substring(rv.as_slice(), 0, end)
    }
}

/// The image name of a project: that of the last component of its
/// workspace root.
pub fn docker_package_name(metadata: &CargoMetadata) -> (r: String)
    requires
        file_name_of(metadata.workspace_root@) is Some,
    ensures
        r@ == tag_name_of(file_name_of(metadata.workspace_root@)->0),
{
    match file_name(metadata.workspace_root.as_str()) {
        Some(name) => docker_tag_name(name.as_str()),
        None => String::new(),
    }
}

/// The name of the image built for a project from a Dockerfile of its own
/// (`custom` false) or one that `cross` writes (`custom` true).
pub open spec fn custom_image_name(
    package: Seq<char>,
    triple: Seq<char>,
    hash: Seq<char>,
    custom: bool,
) -> Seq<char> {
    CROSS_CUSTOM_DOCKERFILE_IMAGE_PREFIX@ + package + ":"@ + triple + "-"@ + hash
        + if custom { "-pre-build"@ } else { Seq::empty() }
}

impl<'a> Dockerfile<'a> {
    /// The name of the image to build: the name given for a project's
    /// Dockerfile, else one made of the project's name, the target and a
    /// hash of the workspace root (see [`custom_image_name`]).
    pub fn image_name(&self, target_triple: &TargetTriple, metadata: &CargoMetadata) -> (r: String)
        requires
            file_name_of(metadata.workspace_root@) is Some,
        ensures
            match *self {
                Dockerfile::File { name: Some(n), .. } => r@ == n@,
                _ => r@ == custom_image_name(
                    tag_name_of(file_name_of(metadata.workspace_root@)->0),
                    target_triple.spec_triple(),
                    path_hash_of(metadata.workspace_root@, PATH_HASH_SHORT as nat),
                    self is Custom,
                ),
            },
    {
        match self {
            Dockerfile::File { name: Some(n), .. } => copy_str(n),
            _ => {
                let mut r = String::from_str(CROSS_CUSTOM_DOCKERFILE_IMAGE_PREFIX);
                let package = docker_package_name(metadata);
                r.append(package.as_str());
                r.append(":");
                r.append(target_triple.triple());
                r.append("-");
                let hash = path_hash(metadata.workspace_root.as_str(), PATH_HASH_SHORT);
                r.append(hash.as_str());
                if matches!(self, Dockerfile::Custom { .. }) {
                    r.append("-pre-build");
                }
                r
            },
        }
    }

    /// The build context given for a project's Dockerfile.
    pub fn context(&self) -> (r: Option<&'a str>)
        ensures
            match *self {
                Dockerfile::File { context: Some(c), .. } => r == Some(c),
                _ => r is None,
            },
    {
        match self {
            Dockerfile::File { context: Some(context), .. } => Some(context),
            _ => None,
        }
    }

    /// The platform the image runs on.
    pub fn runs_with(&self) -> (r: &'a ImagePlatform)
        ensures
            match *self {
                Dockerfile::File { runs_with, .. } => r == runs_with,
                Dockerfile::Custom { runs_with, .. } => r == runs_with,
            },
    {
        match self {
            Dockerfile::File { runs_with, .. } => runs_with,
            Dockerfile::Custom { runs_with, .. } => runs_with,
        }
    }
}

} // verus!
