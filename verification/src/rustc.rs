//! The targets and toolchains of `rustc`.

use vstd::prelude::*;
use vstd::string::StringExecFns;
use vstd::utf8::encode_utf8;
use crate::docker::image::{ImagePlatform, PlatformError, target_platform};
use crate::docker::shared::{sha1_hex, sha1_hex_of};
use crate::file::file_name_of;
use crate::shell::opt_view;
use crate::target::{TargetTriple, is_named_triple};
use crate::text::{
    views, str_eq, chars_of, chars_find, substring, is_hex_digit, is_digit, first_index, has_prefix, copy_str,
    push_char, last_index, starts_with, has_char,
};

verus! {

/// The target triples that `rustc --print target-list` names.
#[derive(Debug)]
pub struct TargetList {
    pub triples: Vec<String>,
}

impl TargetList {
    /// Whether `triple` is among the listed targets.
    pub fn contains(&self, triple: &str) -> (r: bool)
        ensures
            r == views(self.triples@).contains(triple@),
    {
        let mut i: usize = 0;
        while i < self.triples.len()
            invariant
                i <= self.triples.len(),
                forall|k: int| 0 <= k < i ==> self.triples@[k]@ != triple@,
            decreases self.triples.len() - i,
        {
            if str_eq(self.triples[i].as_str(), triple) {
                assert(views(self.triples@)[i as int] == triple@);
                return true;
            }
            i = i + 1;
        }
        assert forall|k: int| 0 <= k < views(self.triples@).len() implies views(self.triples@)[k] != triple@ by {}
        false
    }
}

/// A toolchain as `rustup` names it: `channel[-date][-host]`.
#[derive(Debug, Clone, PartialEq, Eq)]
pub struct Toolchain {
    pub channel: String,
    pub date: Option<String>,
    pub host: Option<TargetTriple>,
    pub is_custom: bool,
    pub full: String,
}

/// A toolchain name with a date that is not `YYYY-MM-DD` digits.
#[derive(Debug, Clone, Copy, PartialEq, Eq, Structural)]
pub struct InvalidToolchain;

pub open spec fn all_digits_seq(s: Seq<char>) -> bool {
    forall|i: int| 0 <= i < s.len() ==> is_digit(s[i])
}

/// The piece of `s` at `n` when it is split at its first `n` spaces
/// (`splitn(n + 1, ' ').nth(n)`).
pub open spec fn nth_piece(s: Seq<char>, n: nat, d: char) -> Option<Seq<char>>
    decreases n,
{
    if n == 0 {
        Some(s)
    } else {
        match first_index(s, d) {
            Some(i) => nth_piece(s.skip(i + 1), (n - 1) as nat, d),
            None => None,
        }
    }
}

/// The piece of `s` before its first `d` (all of `s` without one).
pub open spec fn first_piece(s: Seq<char>, d: char) -> Seq<char> {
    match first_index(s, d) {
        Some(i) => s.take(i),
        None => s,
    }
}

/// How a toolchain name reads: the channel before the first `-`; after it
/// either a date (three `-`-separated runs of digits, then the host if
/// anything follows), or the host. Gives the channel, the date and the
/// host, or `None` for a date that is not all digits.
pub open spec fn toolchain_of(s: Seq<char>) -> Option<(Seq<char>, Option<Seq<char>>, Option<Seq<char>>)> {
    match first_index(s, '-') {
        None => Some((s, None, None)),
        Some(i) => {
            let channel = s.take(i);
            let parts = s.skip(i + 1);
            if parts.len() > 0 && is_digit(parts[0]) {
                let y = nth_piece(parts, 0, '-');
                let m = nth_piece(parts, 1, '-');
                let d = nth_piece(parts, 2, '-');
                match (m, d) {
                    (Some(m), Some(d)) => {
                        let y = first_piece(parts, '-');
                        let m = first_piece(m, '-');
                        let d = first_piece(d, '-');
                        if all_digits_seq(y) && all_digits_seq(m) && all_digits_seq(d) {
                            Some((channel, Some(y + "-"@ + m + "-"@ + d), nth_piece(parts, 3, '-')))
                        } else {
                            None
                        }
                    },
                    _ => None,
                }
            } else {
                Some((channel, None, Some(parts)))
            }
        },
    }
}

/// The first piece of `s` before `d`, the rest after it.
fn split_first(s: &[char], d: char) -> (r: Option<(String, Vec<char>)>)
    ensures
        match r {
            Some((a, b)) => first_index(s@, d) is Some && a@ == s@.take(first_index(s@, d)->0)
                && b@ == s@.skip(first_index(s@, d)->0 + 1),
            None => first_index(s@, d) is None,
        },
{
    match chars_find(s, d) {
        Some(i) => {
            let a = substring(s, 0, i);
            let b = crate::text::chars_slice(s, i + 1, s.len());
            assert(b@ == s@.skip(i + 1));
            Some((a, b))
        },
        None => None,
    }
}

/// Whether every character is an ASCII digit.
fn digits_only(s: &[char]) -> (r: bool)
    ensures
        r == all_digits_seq(s@),
{
    let mut i: usize = 0;
    while i < s.len()
        invariant
            i <= s.len(),
            forall|k: int| 0 <= k < i ==> is_digit(s@[k]),
        decreases s.len() - i,
    {
        if !('0' <= s[i] && s[i] <= '9') {
            return false;
        }
        i = i + 1;
    }
    true
}

/// The first piece of `s` before `d` (all of `s` without one).
pub fn first_piece_chars(s: &[char], d: char) -> (r: Vec<char>)
    ensures
        r@ == first_piece(s@, d),
{
    match chars_find(s, d) {
        Some(i) => crate::text::chars_slice(s, 0, i),
        None => crate::text::chars_slice(s, 0, s.len()),
    }
}

/// What follows the first `d` of `s`.
fn after_first(s: &[char], d: char) -> (r: Option<Vec<char>>)
    ensures
        match r {
            Some(b) => first_index(s@, d) is Some && b@ == s@.skip(first_index(s@, d)->0 + 1),
            None => first_index(s@, d) is None,
        },
{
    match chars_find(s, d) {
        Some(i) => {
            let b = crate::text::chars_slice(s, i + 1, s.len());
            assert(b@ == s@.skip(i + 1));
            Some(b)
        },
        None => None,
    }
}

impl Toolchain {
    /// Reads a toolchain name (see [`toolchain_of`]).
    pub fn parse(s: &str) -> (r: Result<Toolchain, InvalidToolchain>)
        ensures
            match r {
                Ok(t) => toolchain_of(s@) matches Some(p) && t.channel@ == p.0 && opt_view(t.date) == p.1
                    && match p.2 {
                        Some(h) => t.host is Some && t.host->0.spec_triple() == h
                            && (t.host->0 is Other <==> !is_named_triple(h)),
                        None => t.host is None,
                    }
                    && !t.is_custom && t.full@ == s@,
                Err(_) => toolchain_of(s@) is None,
            },
    {
        let v = chars_of(s);
        match split_first(v.as_slice(), '-') {
            None => Ok(Toolchain { channel: copy_str(s), date: None, host: None, is_custom: false, full: copy_str(s) }),
            Some((channel, parts)) => {
                if parts.len() > 0 && '0' <= parts[0] && parts[0] <= '9' {
                    assert(nth_piece(parts@, 0, '-') == Some(parts@));
                    let m = match after_first(parts.as_slice(), '-') {
                        Some(m) => m,
                        None => return Err(InvalidToolchain),
                    };
                    assert(nth_piece(parts@, 1, '-') == Some(m@)) by {
                        assert(nth_piece(m@, 0, '-') == Some(m@));
                    }
                    let d = match after_first(m.as_slice(), '-') {
                        Some(d) => d,
                        None => {
                            assert(nth_piece(parts@, 2, '-') is None) by {
                                assert(nth_piece(m@, 1, '-') is None);
                            }
                            return Err(InvalidToolchain);
                        },
                    };
                    assert(nth_piece(parts@, 2, '-') == Some(d@)) by {
                        assert(nth_piece(d@, 0, '-') == Some(d@));
                        assert(nth_piece(m@, 1, '-') == Some(d@));
                    }
                    let y = first_piece_chars(parts.as_slice(), '-');
                    let mm = first_piece_chars(m.as_slice(), '-');
                    let dd = first_piece_chars(d.as_slice(), '-');
                    if !(digits_only(y.as_slice()) && digits_only(mm.as_slice()) && digits_only(dd.as_slice())) {
                        return Err(InvalidToolchain);
                    }
                    let mut date = crate::text::string_of(&y);
                    date.append("-");
                    date.append(crate::text::string_of(&mm).as_str());
                    date.append("-");
                    date.append(crate::text::string_of(&dd).as_str());
                    let host = match after_first(d.as_slice(), '-') {
                        Some(h) => {
                            assert(nth_piece(parts@, 3, '-') == Some(h@)) by {
                                assert(nth_piece(h@, 0, '-') == Some(h@));
                                assert(nth_piece(d@, 1, '-') == Some(h@));
                                assert(nth_piece(m@, 2, '-') == Some(h@));
                            }
                            Some(TargetTriple::from(crate::text::string_of(&h).as_str()))
                        },
                        None => {
                            assert(nth_piece(parts@, 3, '-') is None) by {
                                assert(nth_piece(d@, 1, '-') is None);
                                assert(nth_piece(m@, 2, '-') is None);
                            }
                            None
                        },
                    };
                    Ok(Toolchain { channel, date: Some(date), host, is_custom: false, full: copy_str(s) })
                } else {
                    let h = crate::text::string_of(&parts);
                    Ok(Toolchain {
                        channel,
                        date: None,
                        host: Some(TargetTriple::from(h.as_str())),
                        is_custom: false,
                        full: copy_str(s),
                    })
                }
            },
        }
    }

    /// The toolchain without its host: the host is dropped, and every
    /// `-host` is taken out of its full name.
    pub fn remove_host(&self) -> (r: Toolchain)
        ensures
            r.channel == self.channel,
            r.date == self.date,
            r.host is None,
            r.is_custom == self.is_custom,
            r.full@ == match self.host {
                Some(h) => remove_all(self.full@, "-"@ + h.spec_triple()),
                None => self.full@,
            },
    {
        let full = match &self.host {
            Some(h) => {
                let mut pat = String::from_str("-");
                pat.append(h.triple());
                remove_all_str(self.full.as_str(), pat.as_str())
            },
            None => self.full.clone(),
        };
        Toolchain {
            channel: self.channel.clone(),
            date: match &self.date {
                Some(d) => Some(d.clone()),
                None => None,
            },
            host: None,
            is_custom: self.is_custom,
            full,
        }
    }
}

/// `s` with every occurrence of `p` taken out, left to right
/// (`str::replace(p, "")` for a non-empty `p`).
pub open spec fn remove_all(s: Seq<char>, p: Seq<char>) -> Seq<char>
    decreases s.len(),
{
    if s.len() == 0 || p.len() == 0 {
        s
    } else if has_prefix(s, p) {
        remove_all(s.skip(p.len() as int), p)
    } else {
        seq![s[0]] + remove_all(s.drop_first(), p)
    }
}

proof fn lemma_remove_all_step(s: Seq<char>, p: Seq<char>, i: int)
    requires
        0 <= i < s.len(),
        p.len() > 0,
    ensures
        has_prefix(s.skip(i), p) ==> remove_all(s.skip(i), p) == remove_all(s.skip(i + p.len()), p),
        !has_prefix(s.skip(i), p) ==> remove_all(s.skip(i), p) == seq![s[i]] + remove_all(s.skip(i + 1), p),
{
    assert(s.skip(i).drop_first() == s.skip(i + 1));
    if has_prefix(s.skip(i), p) {
        assert(s.skip(i).skip(p.len() as int) == s.skip(i + p.len()));
    }
}

/// `s` with every occurrence of `p` taken out (see [`remove_all`]).
pub fn remove_all_str(s: &str, p: &str) -> (r: String)
    ensures
        r@ == remove_all(s@, p@),
{
    let v = chars_of(s);
    let pv = chars_of(p);
    if pv.len() == 0 {
        return copy_str(s);
    }
    let mut out = String::new();
    let mut i: usize = 0;
    assert(v@.skip(0) == v@);
    while i < v.len()
        invariant
            i <= v.len(),
            pv.len() > 0,
            v@ == s@,
            pv@ == p@,
            remove_all(s@, p@) == out@ + remove_all(v@.skip(i as int), pv@),
        decreases v.len() - i,
    {
        proof { lemma_remove_all_step(v@, pv@, i as int); }
        if crate::text::chars_occur_at(v.as_slice(), pv.as_slice(), i) {
            assert(has_prefix(v@.skip(i as int), pv@)) by {
                assert(v@.skip(i as int).subrange(0, pv@.len() as int) == v@.subrange(i as int, i + pv@.len()));
            }
            i = i + pv.len();
        } else {
            assert(!has_prefix(v@.skip(i as int), pv@)) by {
                if pv@.len() <= v@.skip(i as int).len() {
                    assert(v@.skip(i as int).subrange(0, pv@.len() as int) == v@.subrange(i as int, i + pv@.len()));
                }
            }
            let ghost before = out@;
            push_char(&mut out, v[i]);
            assert(out@ + remove_all(v@.skip(i + 1), pv@) == before + (seq![v@[i as int]] + remove_all(v@.skip(i + 1), pv@)));
            i = i + 1;
        }
    }
    assert(v@.skip(v.len() as int).len() == 0);
    out
}

/// The first nine characters of a commit hash.
pub fn short_commit_hash(hash: &str) -> (r: String)
    requires
        hash@.len() >= 9,
    ensures
        r@ == hash@.take(9),
{
    let v = chars_of(hash);
    substring(v.as_slice(), 0, 9)
}

/// A string of hexadecimal digits.
pub open spec fn all_hex(s: Seq<char>) -> bool {
    forall|i: int| 0 <= i < s.len() ==> is_hex_digit(s[i])
}

/// A string of digits and `-`.
pub open spec fn all_date_chars(s: Seq<char>) -> bool {
    forall|i: int| 0 <= i < s.len() ==> (is_digit(s[i]) || s[i] == '-')
}

/// The commit hash and date of a version's `(hash date)` part, the piece
/// at `index` of the version's space-separated pieces, if it has that form.
pub open spec fn version_meta_of(version: Seq<char>, index: nat) -> Option<(Seq<char>, Seq<char>)> {
    match nth_piece(version, index, ' ') {
        Some(meta) => if meta.len() >= 2 && meta[0] == '(' && meta.last() == ')' {
            let inner = meta.subrange(1, meta.len() - 1);
            match first_index(inner, ' ') {
                Some(i) => Some((inner.take(i), inner.skip(i + 1))),
                None => None,
            }
        } else {
            None
        },
        None => None,
    }
}

/// The commit hash a version string names, in its short form: the hash of
/// its `(hash date)` part where it has one, else the start of the SHA-1 of
/// the whole string.
pub open spec fn commit_hash_of(version: Seq<char>, index: nat) -> Seq<char> {
    match version_meta_of(version, index) {
        Some((commit, date)) => if all_hex(commit) && all_date_chars(date) {
            commit.take(9)
        } else {
            sha1_hex_of(encode_utf8(version)).take(9)
        },
        None => sha1_hex_of(encode_utf8(version)).take(9),
    }
}

/// A version whose `(hash date)` part, if it has one, names a hash of at
/// least nine digits.
pub open spec fn version_hash_ok(version: Seq<char>, index: nat) -> bool {
    match version_meta_of(version, index) {
        Some((commit, date)) => all_hex(commit) && all_date_chars(date) ==> commit.len() >= 9,
        None => true,
    }
}

/// The piece at `n` of `s` split at `d` (see [`nth_piece`]).
fn nth_piece_of(s: &[char], n: usize, d: char) -> (r: Option<Vec<char>>)
    ensures
        match r {
            Some(p) => nth_piece(s@, n as nat, d) == Some(p@),
            None => nth_piece(s@, n as nat, d) is None,
        },
    decreases n,
{
    if n == 0 {
        return Some(crate::text::chars_slice(s, 0, s.len()));
    }
    match after_first(s, d) {
        Some(rest) => nth_piece_of(rest.as_slice(), n - 1, d),
        None => None,
    }
}

/// The commit hash a version string names (see [`commit_hash_of`]).
pub fn hash_from_version_string(version: &str, index: usize) -> (r: String)
    requires
        version_hash_ok(version@, index as nat),
    ensures
        r@ == commit_hash_of(version@, index as nat),
{
    let v = chars_of(version);
    match nth_piece_of(v.as_slice(), index, ' ') {
        Some(meta) => {
            if meta.len() >= 2 && meta[0] == '(' && meta[meta.len() - 1] == ')' {
                let inner = crate::text::chars_slice(meta.as_slice(), 1, meta.len() - 1);
                match split_first(inner.as_slice(), ' ') {
                    Some((commit, date)) => {
                        let cv = chars_of(commit.as_str());
                        if hex_only(cv.as_slice()) && date_only(date.as_slice()) {
                            return short_commit_hash(commit.as_str());
                        }
                    },
                    None => {},
                }
            }
        },
        None => {},
    }
    let digest = sha1_hex(version.as_bytes());
    short_commit_hash(digest.as_str())
}

/// Whether a version string's `(hash date)` part, if it has one, names a
/// hash of at least nine digits (see [`version_hash_ok`]).
pub fn version_hash_is_ok(version: &str, index: usize) -> (r: bool)
    ensures
        r == version_hash_ok(version@, index as nat),
{
    let v = chars_of(version);
    match nth_piece_of(v.as_slice(), index, ' ') {
        Some(meta) => {
            if meta.len() >= 2 && meta[0] == '(' && meta[meta.len() - 1] == ')' {
                let inner = crate::text::chars_slice(meta.as_slice(), 1, meta.len() - 1);
                match split_first(inner.as_slice(), ' ') {
                    Some((commit, date)) => {
                        let cv = chars_of(commit.as_str());
                        !(hex_only(cv.as_slice()) && date_only(date.as_slice())) || cv.len() >= 9
                    },
                    None => true,
                }
            } else {
                true
            }
        },
        None => true,
    }
}

/// Whether the version names a usable commit hash (see
/// [`VersionMetaExt::commit_ok`]).
pub fn commit_is_ok(meta: &VersionMeta) -> (r: bool)
    ensures
        r == meta.commit_ok(),
{
    match &meta.commit_hash {
        Some(h) => chars_of(h.as_str()).len() >= 9,
        None => version_hash_is_ok(meta.short_version_string.as_str(), 2),
    }
}

fn hex_only(s: &[char]) -> (r: bool)
    ensures
        r == all_hex(s@),
{
    let mut i: usize = 0;
    while i < s.len()
        invariant
            i <= s.len(),
            forall|k: int| 0 <= k < i ==> is_hex_digit(s@[k]),
        decreases s.len() - i,
    {
        let c = s[i];
        if !(('0' <= c && c <= '9') || ('a' <= c && c <= 'f') || ('A' <= c && c <= 'F')) {
            return false;
        }
        i = i + 1;
    }
    true
}

fn date_only(s: &[char]) -> (r: bool)
    ensures
        r == all_date_chars(s@),
{
    let mut i: usize = 0;
    while i < s.len()
        invariant
            i <= s.len(),
            forall|k: int| 0 <= k < i ==> (is_digit(s@[k]) || s@[k] == '-'),
        decreases s.len() - i,
    {
        let c = s[i];
        if !(('0' <= c && c <= '9') || c == '-') {
            return false;
        }
        i = i + 1;
    }
    true
}

/// The full name of a qualified toolchain: `channel[-date]-host`.
pub open spec fn full_name_of(channel: Seq<char>, date: Option<Seq<char>>, host: Seq<char>) -> Seq<char> {
    match date {
        Some(d) => channel + "-"@ + d + "-"@ + host,
        None => channel + "-"@ + host,
    }
}

/// A path with its last component replaced by `name` (`name` appended to a
/// path that has no last component), as `PathBuf::set_file_name` does.
pub open spec fn with_file_name_of(p: Seq<char>, name: Seq<char>) -> Seq<char> {
    if file_name_of(p) is Some {
        match last_index(p, '/') {
            Some(i) => p.take(i + 1) + name,
            None => name,
        }
    } else {
        crate::file::join_of(p, name)
    }
}

/// A path with its last component replaced (see [`with_file_name_of`]).
pub fn with_file_name(p: &str, name: &str) -> (r: String)
    ensures
        r@ == with_file_name_of(p@, name@),
{
    match crate::file::file_name(p) {
        Some(_) => {
            let v = chars_of(p);
            match crate::text::chars_rfind(v.as_slice(), '/') {
                Some(i) => {
                    let mut r = substring(v.as_slice(), 0, i + 1);
                    r.append(name);
                    r
                },
                None => copy_str(name),
            }
        },
        None => crate::file::join(p, name),
    }
}

/// A toolchain with all its parts known: its channel, date and host
/// platform, its full name and the directory it is installed in.
#[derive(Debug, Clone, PartialEq, Eq)]
pub struct QualifiedToolchain {
    pub channel: String,
    pub date: Option<String>,
    pub host: ImagePlatform,
    pub is_custom: bool,
    pub full: String,
    pub sysroot: String,
}

/// `t` is the toolchain of `channel`, `date` and `host` in `sysroot`: its
/// full name is made of those (see [`full_name_of`]), and a toolchain that
/// `rustup` installed lives in the sibling of `sysroot` named after it.
pub open spec fn qualified_as(
    t: QualifiedToolchain,
    channel: Seq<char>,
    date: Option<Seq<char>>,
    host: ImagePlatform,
    sysroot: Seq<char>,
    is_custom: bool,
) -> bool {
    &&& t.channel@ == channel
    &&& opt_view(t.date) == date
    &&& t.host == host
    &&& t.is_custom == is_custom
    &&& t.full@ == full_name_of(channel, date, host.target.spec_triple())
    &&& t.sysroot@ == if is_custom { sysroot } else { with_file_name_of(sysroot, t.full@) }
}

/// Why a toolchain name could not be read as a qualified toolchain.
#[derive(Debug, Clone, Copy, PartialEq, Eq, Structural)]
pub enum ToolchainError {
    /// The name is not a toolchain name.
    Invalid,
    /// The name gives no host, and custom toolchains are not enabled.
    NotFullyQualified,
    /// The name gives no host, but custom toolchains are enabled: the
    /// toolchain must be inspected.
    Custom,
    /// The host has no image platform.
    Platform(PlatformError),
    /// The output of the custom toolchain's `rustc -vV` cannot be read.
    VersionMeta,
    /// What the custom toolchain is cannot be found: its `rustc` did not
    /// run.
    Unknown,
}

impl QualifiedToolchain {
    pub fn new(
        channel: &str,
        date: &Option<String>,
        host: &ImagePlatform,
        sysroot: &str,
        is_custom: bool,
    ) -> (r: QualifiedToolchain)
        ensures
            qualified_as(r, channel@, opt_view(*date), *host, sysroot@, is_custom),
    {
        let mut full = String::from_str(channel);
        full.append("-");
        match date {
            Some(d) => {
                full.append(d.as_str());
                full.append("-");
            },
            None => {},
        }
        full.append(host.target.triple());
        let sysroot = if is_custom {
            copy_str(sysroot)
        } else {
            with_file_name(sysroot, full.as_str())
        };
        QualifiedToolchain {
            channel: copy_str(channel),
            date: match date {
                Some(d) => Some(d.clone()),
                None => None,
            },
            host: host.duplicate(),
            is_custom,
            full,
            sysroot,
        }
    }

    /// The platform the toolchain runs on.
    pub fn host(&self) -> (r: &ImagePlatform)
        ensures
            *r == self.host,
    {
        &self.host
    }

    /// The directory the toolchain is installed in.
    pub fn get_sysroot(&self) -> (r: &str)
        ensures
            r@ == self.sysroot@,
    {
        self.sysroot.as_str()
    }

    /// Replaces the host; a custom toolchain is left as it is.
    pub fn replace_host(&mut self, host: &ImagePlatform)
        ensures
            old(self).is_custom ==> *final(self) == *old(self),
            !old(self).is_custom ==> qualified_as(*final(self), old(self).channel@, opt_view(old(self).date), *host,
                old(self).sysroot@, false),
    {
        if !self.is_custom {
            *self = QualifiedToolchain::new(self.channel.as_str(), &self.date, host, self.sysroot.as_str(), false);
        }
    }

    /// The toolchain with the parts that `picked` gives: its channel, its
    /// date and host where it gives them.
    pub fn with_picked(self, picked: Toolchain) -> (r: Result<QualifiedToolchain, PlatformError>)
        ensures
            match picked.host {
                Some(h) => match target_platform(h) {
                    Ok(parts) => r is Ok && r->Ok_0.host.spec_parts() == parts && r->Ok_0.host.target == h,
                    Err(e) => r == Err::<QualifiedToolchain, PlatformError>(e),
                },
                None => r is Ok && r->Ok_0.host == self.host,
            },
            r is Ok ==> qualified_as(
                r->Ok_0,
                picked.channel@,
                match picked.date { Some(d) => Some(d@), None => opt_view(self.date) },
                r->Ok_0.host,
                self.sysroot@,
                false,
            ),
    {
        let date = match picked.date {
            Some(d) => Some(d),
            None => self.date,
        };
        let host = match picked.host {
            Some(h) => match ImagePlatform::from_target(h) {
                Ok(p) => p,
                Err(e) => return Err(e),
            },
            None => self.host,
        };
        Ok(QualifiedToolchain::new(picked.channel.as_str(), &date, &host, self.sysroot.as_str(), false))
    }

    /// Converts the directory the toolchain is installed in.
    pub fn set_sysroot<F: Fn(&String) -> String>(&mut self, convert: F)
        requires
            convert.requires((&old(self).sysroot,)),
        ensures
            convert.ensures((&old(self).sysroot,), final(self).sysroot),
            final(self).channel == old(self).channel,
            final(self).date == old(self).date,
            final(self).host == old(self).host,
            final(self).is_custom == old(self).is_custom,
            final(self).full == old(self).full,
    {
        let s = convert(&self.sysroot);
        self.sysroot = s;
    }

    /// The qualified toolchain a toolchain name gives, installed in
    /// `sysroot`. A name without a host is an error: one that asks for the
    /// toolchain to be inspected where custom toolchains are enabled.
    pub fn parse(sysroot: String, toolchain: &str, custom_toolchain: bool) -> (r: Result<QualifiedToolchain, ToolchainError>)
        ensures
            match toolchain_of(toolchain@) {
                None => r == Err::<QualifiedToolchain, ToolchainError>(
                    if custom_toolchain { ToolchainError::Custom } else { ToolchainError::Invalid }),
                Some(p) => match p.2 {
                    None => r == Err::<QualifiedToolchain, ToolchainError>(
                        if custom_toolchain { ToolchainError::Custom } else { ToolchainError::NotFullyQualified }),
                    Some(h) => match r {
                        Ok(t) => t.channel@ == p.0 && opt_view(t.date) == p.1 && !t.is_custom
                            && t.full@ == toolchain@ && t.sysroot@ == sysroot@
                            && t.host.target.spec_triple() == h && target_platform(t.host.target) == Ok::<_, PlatformError>(t.host.spec_parts()),
                        Err(e) => e is Platform,
                    },
                },
            },
    {
        match Toolchain::parse(toolchain) {
            Ok(t) => match t.host {
                Some(host) => match ImagePlatform::from_target(host) {
                    Ok(platform) => Ok(QualifiedToolchain {
                        channel: t.channel,
                        date: t.date,
                        host: platform,
                        is_custom: t.is_custom,
                        full: t.full,
                        sysroot,
                    }),
                    Err(e) => Err(ToolchainError::Platform(e)),
                },
                None => if custom_toolchain {
                    Err(ToolchainError::Custom)
                } else {
                    Err(ToolchainError::NotFullyQualified)
                },
            },
            Err(_) => if custom_toolchain {
                Err(ToolchainError::Custom)
            } else {
                Err(ToolchainError::Invalid)
            },
        }
    }
}

/// A semantic version: its numbers and its pre-release tag.
#[derive(Debug, Clone, PartialEq, Eq)]
pub struct SemVer {
    pub major: u64,
    pub minor: u64,
    pub patch: u64,
    pub pre: String,
}

/// What `rustc -vV` reports of itself.
#[derive(Debug, Clone)]
pub struct VersionMeta {
    pub semver: SemVer,
    pub commit_hash: Option<String>,
    pub host: String,
    pub short_version_string: String,
}

/// A version before 1.19.0 (a pre-release of 1.19.0 among them).
pub open spec fn before_1_19(v: SemVer) -> bool {
    ||| v.major < 1
    ||| (v.major == 1 && v.minor < 19)
    ||| (v.major == 1 && v.minor == 19 && v.patch == 0 && v.pre@.len() > 0)
}

/// What `cross` reads of the version of `rustc`.
pub trait VersionMetaExt {
    /// The version names a commit hash of at least nine characters, or a
    /// version string whose hash is read (see [`version_hash_ok`]).
    spec fn commit_ok(&self) -> bool;

    fn host(&self) -> TargetTriple;

    fn needs_interpreter(&self) -> bool;

    fn commit_hash(&self) -> String
        requires
            self.commit_ok(),
    ;
}

impl VersionMetaExt for VersionMeta {
    open spec fn commit_ok(&self) -> bool {
        match self.commit_hash {
            Some(h) => h@.len() >= 9,
            None => version_hash_ok(self.short_version_string@, 2),
        }
    }

    /// The host triple.
    fn host(&self) -> (r: TargetTriple)
        ensures
            r.spec_triple() == self.host@,
            r is Other <==> !is_named_triple(self.host@),
    {
        TargetTriple::from(self.host.as_str())
    }

    /// Whether `rustc` is older than 1.19.0.
    fn needs_interpreter(&self) -> (r: bool)
        ensures
            r == before_1_19(self.semver),
    {
        let v = &self.semver;
        v.major < 1 || (v.major == 1 && v.minor < 19) || (v.major == 1 && v.minor == 19 && v.patch == 0
            && !v.pre.as_str().is_empty())
    }

    /// The short commit hash: that of the commit hash, else the one read
    /// from the version string (see [`commit_hash_of`]).
    fn commit_hash(&self) -> (r: String)
        ensures
            r@ == match self.commit_hash {
                Some(h) => h@.take(9),
                None => commit_hash_of(self.short_version_string@, 2),
            },
    {
        match &self.commit_hash {
            Some(h) => short_commit_hash(h.as_str()),
            None => hash_from_version_string(self.short_version_string.as_str(), 2),
        }
    }
}


/// The version that `semver::Version::parse` reads from a string, as its
/// numbers and its pre-release tag; none where the string is no version.
pub uninterp spec fn semver_of(s: Seq<char>) -> Option<(u64, u64, u64, Seq<char>)>;

/// Reads a version with `semver::Version::parse` (through the
/// `rustc_version` crate): its numbers and its pre-release tag are those
/// [`semver_of`] names, and it fails exactly where that names none.
#[verifier::external_body]
fn semver_parse(s: &str) -> (r: Option<(u64, u64, u64, String)>)
    ensures
        match r {
            Some((major, minor, patch, pre)) => semver_of(s@) == Some((major, minor, patch, pre@)),
            None => semver_of(s@) is None,
        },
{
    match rustc_version::Version::parse(s) {
        Ok(v) => Some((v.major, v.minor, v.patch, v.pre.as_str().to_owned())),
        Err(_) => None,
    }
}

/// The release channel of a compiler.
#[derive(Debug, Clone, Copy, PartialEq, Eq, Structural)]
pub enum Channel {
    Stable,
    Dev,
    Beta,
    Nightly,
}

/// The channel a pre-release tag names by its first `.`-separated part:
/// none for a stable release, `dev`, `beta` or `nightly`.
pub open spec fn channel_of(pre: Seq<char>) -> Option<Channel> {
    let tag = first_piece(pre, '.');
    if tag.len() == 0 {
        Some(Channel::Stable)
    } else if tag == "dev"@ {
        Some(Channel::Dev)
    } else if tag == "beta"@ {
        Some(Channel::Beta)
    } else if tag == "nightly"@ {
        Some(Channel::Nightly)
    } else {
        None
    }
}

/// The version of a toolchain's compiler, as its channel manifest gives
/// it: the numbers, the pre-release tag, the channel, and the
/// `(commit date)` part.
#[derive(Debug, Clone, PartialEq, Eq)]
pub struct RustcVersion {
    pub major: u64,
    pub minor: u64,
    pub patch: u64,
    pub pre: String,
    pub channel: Channel,
    pub commit: String,
}

/// Why the version field of a channel manifest could not be read.
#[derive(Debug, Clone, PartialEq, Eq)]
pub enum RustcVersionError {
    /// The part before the first space is no version.
    InvalidVersion(String),
    /// The pre-release tag names no known channel.
    UnknownChannel(String),
}

/// Reads the version field of a channel manifest, `version (commit date)`:
/// nothing where it has no space; else the version before the first space
/// (an error where it is no version, or its pre-release tag names no
/// channel), its channel, and the rest after the space.
pub fn rustc_version_of(field: &str) -> (r: Result<Option<RustcVersion>, RustcVersionError>)
    ensures
        match first_index(field@, ' ') {
            None => r matches Ok(None),
            Some(i) => match semver_of(field@.take(i)) {
                None => r matches Err(RustcVersionError::InvalidVersion(v)) && v@ == field@.take(i),
                Some((major, minor, patch, pre)) => match channel_of(pre) {
                    None => r matches Err(RustcVersionError::UnknownChannel(t)) && t@ == first_piece(pre, '.'),
                    Some(ch) => r matches Ok(Some(v)) && v.major == major && v.minor == minor && v.patch == patch
                        && v.pre@ == pre && v.channel == ch && v.commit@ == field@.skip(i + 1),
                },
            },
        },
{
    let v = chars_of(field);
    let i = match chars_find(v.as_slice(), ' ') {
        Some(i) => i,
        None => return Ok(None),
    };
    let version = substring(v.as_slice(), 0, i);
    let commit = substring(v.as_slice(), i + 1, v.len());
    let (major, minor, patch, pre) = match semver_parse(version.as_str()) {
        Some(x) => x,
        None => return Err(RustcVersionError::InvalidVersion(version)),
    };
    let pv = chars_of(pre.as_str());
    let tag = first_piece_chars(pv.as_slice(), '.');
    let channel = if tag.len() == 0 {
        Channel::Stable
    } else {
        let t = crate::text::string_of(&tag);
        if str_eq(t.as_str(), "dev") {
            Channel::Dev
        } else if str_eq(t.as_str(), "beta") {
            Channel::Beta
        } else if str_eq(t.as_str(), "nightly") {
            Channel::Nightly
        } else {
            return Err(RustcVersionError::UnknownChannel(t));
        }
    };
    Ok(Some(RustcVersion { major, minor, patch, pre, channel, commit }))
}


/// What `rustc_version::version_meta_for` reads from the output of
/// `rustc -vV`: the release channel, the build date and the host; none
/// where it fails.
pub uninterp spec fn rustc_vv_of(text: Seq<char>) -> Option<(Channel, Option<Seq<char>>, Seq<char>)>;

/// Reads the output of `rustc -vV` with `rustc_version::version_meta_for`:
/// its channel, build date and host are those [`rustc_vv_of`] names, and it
/// fails exactly where that names none.
#[verifier::external_body]
fn version_meta_for(text: &str) -> (r: Option<(Channel, Option<String>, String)>)
    ensures
        match r {
            Some((c, d, h)) => rustc_vv_of(text@) == Some((c, opt_view(d), h@)),
            None => rustc_vv_of(text@) is None,
        },
{
    match rustc_version::version_meta_for(text) {
        Ok(m) => Some((
            match m.channel {
                rustc_version::Channel::Dev => Channel::Dev,
                rustc_version::Channel::Nightly => Channel::Nightly,
                rustc_version::Channel::Beta => Channel::Beta,
                rustc_version::Channel::Stable => Channel::Stable,
            },
            m.build_date,
            m.host,
        )),
        Err(_) => None,
    }
}

/// The name of a release channel.
pub open spec fn channel_name(c: Channel) -> Seq<char> {
    match c {
        Channel::Dev => "dev"@,
        Channel::Nightly => "nightly"@,
        Channel::Beta => "beta"@,
        Channel::Stable => "stable"@,
    }
}

fn channel_str(c: Channel) -> (r: &'static str)
    ensures
        r@ == channel_name(c),
{
    proof {
        reveal_strlit("dev");
        reveal_strlit("nightly");
        reveal_strlit("beta");
        reveal_strlit("stable");
    }
    match c {
        Channel::Dev => "dev",
        Channel::Nightly => "nightly",
        Channel::Beta => "beta",
        Channel::Stable => "stable",
    }
}

/// A toolchain name with a host: fully qualified.
pub open spec fn fully_qualified(n: Seq<char>) -> bool {
    toolchain_of(n) matches Some(p) && p.2 is Some
}

/// What follows the first `-` of a name.
pub open spec fn after_dash(n: Seq<char>) -> Seq<char> {
    match first_index(n, '-') {
        Some(i) => n.skip(i + 1),
        None => n,
    }
}

/// The name a custom toolchain is read as: the compatible name given,
/// else, for a toolchain that cargo-bisect-rustc installed
/// (`bisector-nightly-...`), the name after its first `-` where that is
/// fully qualified; none where the toolchain's `rustc` must tell.
pub open spec fn custom_name_of(name: Seq<char>, compat: Option<Seq<char>>) -> Option<Seq<char>> {
    match compat {
        Some(c) => Some(c),
        None => if has_prefix(name, "bisector-nightly"@) && fully_qualified(after_dash(name)) {
            Some(after_dash(name))
        } else {
            None
        },
    }
}

/// `t` is the toolchain of `channel`, `date` and the host `h`, with its
/// platform read from `h`.
pub open spec fn toolchain_parts(t: QualifiedToolchain, channel: Seq<char>, date: Option<Seq<char>>, h: Seq<char>) -> bool {
    &&& t.channel@ == channel
    &&& opt_view(t.date) == date
    &&& t.host.target.spec_triple() == h
    &&& target_platform(t.host.target) == Ok::<_, PlatformError>(t.host.spec_parts())
}

impl QualifiedToolchain {
    /// Makes out a custom toolchain named `name`, installed in `sysroot`:
    /// as the fully qualified name of `CROSS_CUSTOM_TOOLCHAIN_COMPAT`
    /// (`compat`) or of a bisector toolchain (see [`custom_name_of`]), else
    /// by what its `rustc -vV` reports (`rustc_vv`, none where it did not
    /// run). The toolchain keeps its name and directory.
    pub fn custom(name: &str, sysroot: String, compat: Option<&str>, rustc_vv: Option<&str>)
        -> (r: Result<QualifiedToolchain, ToolchainError>)
        requires
            compat matches Some(c) ==> fully_qualified(c@),
        ensures
            r matches Ok(t) ==> t.is_custom && t.full@ == name@ && t.sysroot@ == sysroot@,
            match custom_name_of(name@, match compat { Some(c) => Some(c@), None => None }) {
                Some(n) => match toolchain_of(n) {
                    Some((ch, d, Some(h))) => match r {
                        Ok(t) => toolchain_parts(t, ch, d, h),
                        Err(e) => e is Platform,
                    },
                    _ => false,
                },
                None => match rustc_vv {
                    None => r == Err::<QualifiedToolchain, ToolchainError>(ToolchainError::Unknown),
                    Some(out) => match rustc_vv_of(out@) {
                        None => r == Err::<QualifiedToolchain, ToolchainError>(ToolchainError::VersionMeta),
                        Some((c, d, h)) => match r {
                            Ok(t) => toolchain_parts(t, channel_name(c), d, h),
                            Err(e) => e is Platform,
                        },
                    },
                },
            },
    {
        let ghost sys = sysroot@;
        match compat {
            Some(c) => {
                return match QualifiedToolchain::parse(sysroot, c, true) {
                    Ok(t) => {
                        let mut t = t;
                        t.is_custom = true;
                        t.full = copy_str(name);
                        Ok(t)
                    },
                    Err(e) => Err(e),
                };
            },
            None => {},
        }
        proof {
            reveal_strlit("bisector-nightly");
        }
        if starts_with(name, "bisector-nightly") {
            let cs = chars_of(name);
            let i = match chars_find(cs.as_slice(), '-') {
                Some(i) => i,
                None => {
                    assert("bisector-nightly"@[8] == '-');
                    assert(name@.subrange(0, 16)[8] == name@[8]);
                    assert(cs@[8] == '-');
                    assert(has_char(cs@, '-'));
                    return Err(ToolchainError::Unknown);
                },
            };
            let rest = substring(cs.as_slice(), i + 1, cs.len());
            assert(rest@ =~= after_dash(name@));
            match QualifiedToolchain::parse(sysroot.clone(), rest.as_str(), true) {
                Ok(t) => {
                    let mut t = t;
                    t.is_custom = true;
                    t.full = copy_str(name);
                    return Ok(t);
                },
                Err(ToolchainError::Custom) => {},
                Err(e) => return Err(e),
            }
        }
        match rustc_vv {
            None => Err(ToolchainError::Unknown),
            Some(out) => match version_meta_for(out) {
                None => Err(ToolchainError::VersionMeta),
                Some((ch, date, host)) => match ImagePlatform::from_target(TargetTriple::from(host.as_str())) {
                    Ok(p) => {
                        let mut t = QualifiedToolchain::new(channel_str(ch), &date, &p, sysroot.as_str(), true);
                        t.full = copy_str(name);
                        Ok(t)
                    },
                    Err(e) => Err(ToolchainError::Platform(e)),
                },
            },
        }
    }
}

} // verus!
