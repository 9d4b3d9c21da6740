//! Images of `cross` in the engine's local storage: reading the engine's
//! listing, telling `cross` images apart, and finding their targets.

use vstd::prelude::*;
use vstd::string::StringExecFns;
use vstd::utf8::encode_utf8;
use crate::docker::image::CROSS_IMAGE;
use crate::docker::custom::CROSS_CUSTOM_DOCKERFILE_IMAGE_PREFIX;
use crate::rustc::TargetList;
use crate::text::{
    split_on, is_alnum, has_prefix, first_index, chars_of, chars_split, char_views, starts_with, str_eq,
    copy_str, string_of, chars_find, substring, views,
};

verus! {

broadcast use vstd::string::group_string_axioms;

/// The repository of the images of `cross` on the GitHub registry.
pub const GHCR_IO: &'static str = CROSS_IMAGE;

/// The repository of the old images of `cross`.
pub const RUST_EMBEDDED: &'static str = "rustembedded/cross";

/// The repository of the old images of `cross`, with its registry.
pub const DOCKER_IO: &'static str = "docker.io/rustembedded/cross";

/// A character that may stand in a component of a target's name.
pub open spec fn is_target_char(c: char) -> bool {
    c == '_' || is_alnum(c)
}

/// A component that is part of a target's name.
pub open spec fn is_target_component(p: Seq<char>) -> bool {
    p.len() > 0 && forall|i: int| 0 <= i < p.len() ==> is_target_char(#[trigger] p[i])
}

/// How many of the components from the `i`-th on are part of the target's
/// name: the first three always are, then each one made of target
/// characters, up to the first that is not.
pub open spec fn kept_from(parts: Seq<Seq<char>>, i: int) -> int
    decreases parts.len() - i,
{
    if i < 0 || i >= parts.len() {
        0
    } else if i <= 2 || is_target_component(parts[i]) {
        1 + kept_from(parts, i + 1)
    } else {
        0
    }
}

/// The strings of `v` joined by `d`.
pub open spec fn join_with(v: Seq<Seq<char>>, d: char) -> Seq<char>
    decreases v.len(),
{
    if v.len() == 0 {
        Seq::empty()
    } else if v.len() == 1 {
        v[0]
    } else {
        join_with(v.drop_last(), d).push(d) + v.last()
    }
}

/// The target of an old image's tag, `target(-version)?`: at least the first
/// three `-`-separated components, then those made of ASCII letters, digits
/// and `_`.
pub open spec fn rustembedded_target_of(tag: Seq<char>) -> Seq<char> {
    let parts = split_on(tag, '-');
    join_with(parts.take(kept_from(parts, 0)), '-')
}

/// Whether every character of `p` may stand in a target's name.
fn all_target_chars(p: &Vec<char>) -> (r: bool)
    ensures
        r == is_target_component(p@),
{
    if p.len() == 0 {
        return false;
    }
    let mut i: usize = 0;
    while i < p.len()
        invariant
            i <= p@.len(),
            forall|j: int| 0 <= j < i ==> is_target_char(#[trigger] p@[j]),
        decreases p@.len() - i,
    {
        let c = p[i];
        let ok = c == '_' || ('0' <= c && c <= '9') || ('a' <= c && c <= 'z') || ('A' <= c && c <= 'Z');
        if !ok {
            assert(!is_target_char(p@[i as int]));
            return false;
        }
        i += 1;
    }
    true
}

/// The target of an old image's tag (see [`rustembedded_target_of`]).
pub fn rustembedded_target(tag: &str) -> (r: String)
    ensures
        r@ == rustembedded_target_of(tag@),
{
    let v = chars_of(tag);
    let parts = chars_split(v.as_slice(), '-');
    let ghost ps = char_views(parts@);
    assert(ps == split_on(tag@, '-'));
    let mut n: usize = 0;
    while n < parts.len()
        invariant
            n <= parts@.len(),
            ps == char_views(parts@),
            ps.len() == parts@.len(),
            kept_from(ps, 0) == n + kept_from(ps, n as int),
        ensures
            n <= parts@.len(),
            kept_from(ps, 0) == n,
        decreases parts@.len() - n,
    {
        assert(ps[n as int] == parts@[n as int]@);
        if n <= 2 || all_target_chars(&parts[n]) {
            n += 1;
        } else {
            break;
        }
    }
    let mut r = String::new();
    let mut i: usize = 0;
    while i < n
        invariant
            i <= n <= parts@.len(),
            ps == char_views(parts@),
            ps.len() == parts@.len(),
            r@ == join_with(ps.take(i as int), '-'),
        decreases n - i,
    {
        assert(ps.take(i + 1).drop_last() =~= ps.take(i as int));
        assert(ps.take(i + 1).last() == parts@[i as int]@);
        if i > 0 {
            crate::text::push_char(&mut r, '-');
        }
        let p = string_of(&parts[i]);
        r.append(p.as_str());
        proof {
            if i == 0 {
                assert(ps.take(1) =~= seq![ps[0]]);
            }
        }
        i += 1;
    }
    r
}

/// An image in the engine's local storage.
#[derive(Debug, Clone, PartialEq, Eq)]
pub struct LocalImage {
    pub repository: String,
    pub tag: String,
    pub id: String,
}

/// A line of the engine's listing, `repository:tag id`, as an image: the
/// repository ends at the first `:`, the tag at the first space after it.
pub open spec fn image_line_ok(s: Seq<char>) -> bool {
    first_index(s, ':') is Some && first_index(s.skip(first_index(s, ':')->0 + 1), ' ') is Some
}

impl LocalImage {
    /// The image's name, `repository:tag`.
    pub fn name(&self) -> (r: String)
        ensures
            r@ == self.repository@ + ":"@ + self.tag@,
    {
        let mut r = self.repository.clone();
        r.append(":");
        r.append(self.tag.as_str());
        r
    }

    /// How the image is shown: by its id where it has no repository, else by
    /// its name.
    pub fn display(&self) -> (r: String)
        ensures
            self.repository@ == "<none>"@ ==> r@ == self.id@,
            self.repository@ != "<none>"@ ==> r@ == self.repository@ + ":"@ + self.tag@,
    {
        if str_eq(self.repository.as_str(), "<none>") {
            self.id.clone()
        } else {
            self.name()
        }
    }
}

/// Reads a line of the engine's listing (see [`image_line_ok`]).
pub fn parse_image(image: &str) -> (r: LocalImage)
    requires
        image_line_ok(image@),
    ensures
        ({
            let i = first_index(image@, ':')->0;
            let rest = image@.skip(i + 1);
            let j = first_index(rest, ' ')->0;
            &&& r.repository@ == image@.take(i)
            &&& r.tag@ == rest.take(j)
            &&& r.id@ == rest.skip(j + 1)
        }),
{
    let v = chars_of(image);
    let i = match chars_find(v.as_slice(), ':') {
        Some(i) => i,
        None => {
            assert(false);
            0
        },
    };
    let repository = substring(v.as_slice(), 0, i);
    let rest = chars_of(substring(v.as_slice(), i + 1, v.len()).as_str());
    assert(rest@ == image@.skip(i + 1));
    let j = match chars_find(rest.as_slice(), ' ') {
        Some(j) => j,
        None => {
            assert(false);
            0
        },
    };
    let tag = substring(rest.as_slice(), 0, j);
    let id = substring(rest.as_slice(), j + 1, rest.len());
    LocalImage { repository, tag, id }
}

/// A repository of `cross`'s images, on either registry.
pub open spec fn is_cross_repository(r: Seq<char>) -> bool {
    has_prefix(r, GHCR_IO@) || has_prefix(r, DOCKER_IO@) || has_prefix(r, RUST_EMBEDDED@)
}

/// Whether a repository holds images of `cross`.
pub fn is_cross_image(repository: &str) -> (r: bool)
    ensures
        r == is_cross_repository(repository@),
{
    starts_with(repository, GHCR_IO) || starts_with(repository, DOCKER_IO) || starts_with(repository, RUST_EMBEDDED)
}

/// Whether a tag names a locally built development image.
pub fn is_local_image(tag: &str) -> (r: bool)
    ensures
        r == has_prefix(tag@, "local"@),
{
    starts_with(tag, "local")
}

/// The first of `triples` that `tag` starts with.
pub open spec fn first_prefix(triples: Seq<Seq<char>>, tag: Seq<char>) -> Option<Seq<char>>
    decreases triples.len(),
{
    if triples.len() == 0 {
        None
    } else if has_prefix(tag, triples[0]) {
        Some(triples[0])
    } else {
        first_prefix(triples.drop_first(), tag)
    }
}

/// The target of an image that its name tells: the rest of a repository
/// on the GitHub registry, the target in the tag of an old image, or the
/// first target of `triples` that begins the tag of an image built from a
/// Dockerfile of a project.
pub open spec fn known_target_of(repository: Seq<char>, tag: Seq<char>, triples: Seq<Seq<char>>) -> Option<Seq<char>> {
    let ghcr = GHCR_IO@ + "/"@;
    if has_prefix(repository, ghcr) {
        Some(repository.skip(ghcr.len() as int))
    } else if has_prefix(tag, RUST_EMBEDDED@) {
        Some(rustembedded_target_of(tag.skip(RUST_EMBEDDED@.len() as int)))
    } else if has_prefix(tag, DOCKER_IO@) {
        Some(rustembedded_target_of(tag.skip(DOCKER_IO@.len() as int)))
    } else if has_prefix(repository, CROSS_CUSTOM_DOCKERFILE_IMAGE_PREFIX@) {
        first_prefix(triples, tag)
    } else {
        None
    }
}

/// The rest of `s` after the prefix `p`, where `s` starts with it.
fn strip_prefix_of(s: &str, p: &str) -> (r: Option<String>)
    ensures
        match r {
            Some(x) => has_prefix(s@, p@) && x@ == s@.skip(p@.len() as int),
            None => !has_prefix(s@, p@),
        },
{
    if starts_with(s, p) {
        let v = chars_of(s);
        let n = chars_of(p).len();
        Some(substring(v.as_slice(), n, v.len()))
    } else {
        None
    }
}

/// The target of an image that its name tells (see [`known_target_of`]);
/// `None` where only the engine can tell it, by the image's label.
pub fn known_image_target(image: &LocalImage, target_list: &TargetList) -> (r: Option<String>)
    ensures
        match r {
            Some(t) => known_target_of(image.repository@, image.tag@, views(target_list.triples@)) == Some(t@),
            None => known_target_of(image.repository@, image.tag@, views(target_list.triples@)) is None,
        },
{
    let mut ghcr = copy_str(GHCR_IO);
    ghcr.append("/");
    match strip_prefix_of(image.repository.as_str(), ghcr.as_str()) {
        Some(t) => return Some(t),
        None => {},
    }
    match strip_prefix_of(image.tag.as_str(), RUST_EMBEDDED) {
        Some(t) => return Some(rustembedded_target(t.as_str())),
        None => {},
    }
    match strip_prefix_of(image.tag.as_str(), DOCKER_IO) {
        Some(t) => return Some(rustembedded_target(t.as_str())),
        None => {},
    }
    if !starts_with(image.repository.as_str(), CROSS_CUSTOM_DOCKERFILE_IMAGE_PREFIX) {
        return None;
    }
    let ghost ts = views(target_list.triples@);
    assert(known_target_of(image.repository@, image.tag@, ts) == first_prefix(ts, image.tag@));
    let mut i: usize = 0;
    assert(ts.skip(0) =~= ts);
    while i < target_list.triples.len()
        invariant
            i <= target_list.triples@.len(),
            ts == views(target_list.triples@),
            known_target_of(image.repository@, image.tag@, ts) == first_prefix(ts, image.tag@),
            first_prefix(ts, image.tag@) == first_prefix(ts.skip(i as int), image.tag@),
        decreases target_list.triples@.len() - i,
    {
        assert(ts.skip(i as int)[0] == target_list.triples@[i as int]@);
        assert(ts.skip(i as int).drop_first() =~= ts.skip(i + 1));
        if starts_with(image.tag.as_str(), target_list.triples[i].as_str()) {
            return Some(target_list.triples[i].clone());
        }
        i += 1;
    }
    None
}

/// A row of the table of images: `|`, the fill, the first column padded to
/// `width1 + 1`, `|`, the fill, the second column padded to `width2 + 1`,
/// `|`; a column longer than its width is not cut.
pub open spec fn table_row(col1: Seq<char>, col2: Seq<char>, fill: char, pad1: nat, pad2: nat) -> Seq<char> {
    seq!['|', fill] + col1 + Seq::new(pad1, |_i: int| fill) + seq!['|', fill] + col2
        + Seq::new(pad2, |_i: int| fill) + seq!['|']
}

/// How many fill characters pad a column of `len` bytes to `width + 1`.
pub open spec fn pad_of(len: nat, width: nat) -> nat {
    ((if width > len { width } else { len }) + 1 - len) as nat
}

fn push_fill(r: &mut String, fill: char, n: usize)
    ensures
        final(r)@ == old(r)@ + Seq::new(n as nat, |_i: int| fill),
{
    let mut k: usize = 0;
    while k < n
        invariant
            k <= n,
            r@ == old(r)@ + Seq::new(k as nat, |_i: int| fill),
        decreases n - k,
    {
        crate::text::push_char(r, fill);
        assert(r@ =~= old(r)@ + Seq::new((k + 1) as nat, |_i: int| fill));
        k += 1;
    }
}

/// A row of the table of images (see [`table_row`]), for columns as wide as
/// the longest target and image name, in bytes.
pub fn format_row(col1: &str, col2: &str, fill: char, max_target_len: usize, max_image_len: usize) -> (r: String)
    requires
        max_target_len < usize::MAX,
        max_image_len < usize::MAX,
    ensures
        r@ == table_row(col1@, col2@, fill,
            pad_of((encode_utf8(col1@).len() as usize) as nat, max_target_len as nat),
            pad_of((encode_utf8(col2@).len() as usize) as nat, max_image_len as nat)),
{
    let l1 = col1.len();
    let l2 = col2.len();
    let w1 = if max_target_len > l1 { max_target_len } else { l1 };
    let w2 = if max_image_len > l2 { max_image_len } else { l2 };
    let p1 = (w1 - l1) + 1;
    let p2 = (w2 - l2) + 1;
    assert(p1 as nat == pad_of((encode_utf8(col1@).len() as usize) as nat, max_target_len as nat));
    assert(p2 as nat == pad_of((encode_utf8(col2@).len() as usize) as nat, max_image_len as nat));
    let mut r = String::new();
    crate::text::push_char(&mut r, '|');
    crate::text::push_char(&mut r, fill);
    r.append(col1);
    push_fill(&mut r, fill, p1);
    crate::text::push_char(&mut r, '|');
    crate::text::push_char(&mut r, fill);
    r.append(col2);
    push_fill(&mut r, fill, p2);
    crate::text::push_char(&mut r, '|');
    assert(r@ =~= table_row(col1@, col2@, fill, p1 as nat, p2 as nat));
    r
}

} // verus!
