//! Paths, as `/`-separated strings, and their display.
//!
//! A path is handled as the string that names it: components are the pieces
//! between `/` separators, and no other normalization takes place.

use vstd::prelude::*;
use crate::text::{
    chars_of, chars_rfind, chars_slice, chars_contain, string_of, copy_str, has_infix, has_char,
    last_index, push_char, chars_find, has_prefix, first_index,
};

verus! {

broadcast use vstd::string::group_string_axioms;

/// The last component of a path: what follows its last `/`, unless that is
/// empty, `.` or `..`.
pub open spec fn file_name_of(p: Seq<char>) -> Option<Seq<char>> {
    let name = match last_index(p, '/') {
        Some(i) => p.skip(i + 1),
        None => p,
    };
    if name.len() == 0 || name == seq!['.'] || name == seq!['.', '.'] {
        None
    } else {
        Some(name)
    }
}

/// The stem of a file name: what precedes its last `.`, unless the only `.`
/// starts the name.
pub open spec fn stem_of(name: Seq<char>) -> Seq<char> {
    match last_index(name, '.') {
        Some(i) => if i > 0 { name.take(i) } else { name },
        None => name,
    }
}

/// `p` starts at the root.
pub open spec fn is_absolute_path(p: Seq<char>) -> bool {
    p.len() > 0 && p[0] == '/'
}

/// `p` appended to `base`: `p` itself when it is absolute.
pub open spec fn join_of(base: Seq<char>, p: Seq<char>) -> Seq<char> {
    if is_absolute_path(p) {
        p
    } else if base.len() == 0 || base.last() == '/' {
        base + p
    } else {
        base + seq!['/'] + p
    }
}

/// What is left of `p` after the leading components `base`, if `base` is a
/// leading run of whole components of `p`.
pub open spec fn strip_components(p: Seq<char>, base: Seq<char>) -> Option<Seq<char>> {
    if p == base {
        Some(Seq::empty())
    } else if base.len() > 0 && base.last() == '/' && crate::text::has_prefix(p, base) {
        Some(p.skip(base.len() as int))
    } else if crate::text::has_prefix(p, base + seq!['/']) {
        Some(p.skip(base.len() as int + 1))
    } else {
        None
    }
}

/// The characters that make `shell_escape` quote a string.
pub open spec fn is_escape_char(c: char) -> bool {
    c == '$' || c == '\'' || c == '\\' || c == '!' || c == '"'
}

pub open spec fn needs_escape(s: Seq<char>) -> bool {
    exists|i: int| 0 <= i < s.len() && is_escape_char(s[i])
}

/// The `Debug` rendering of a string: quoted, with escapes.
pub uninterp spec fn debug_quoted(s: Seq<char>) -> Seq<char>;

/// The `Debug` rendering of a string (`format!("{:?}", s)`).
#[verifier::external_body]
fn debug_quote(s: &str) -> (r: String)
    ensures
        r@ == debug_quoted(s@),
{
    format!("{s:?}")
}

/// A string fit for a shell command line.
pub open spec fn shell_escape_of(s: Seq<char>) -> Seq<char> {
    if needs_escape(s) {
        debug_quoted(s)
    } else if has_char(s, ' ') {
        seq!['"'] + s + seq!['"']
    } else {
        s
    }
}

/// The directory of a path (see [`crate::cargo::parent_of`]).
pub fn parent(p: &str) -> (r: Option<String>)
    ensures
        match r {
            Some(d) => crate::cargo::parent_of(p@) == Some(d@),
            None => crate::cargo::parent_of(p@) is None,
        },
{
    let v = chars_of(p);
    match chars_rfind(v.as_slice(), '/') {
        None => if v.len() == 0 {
            None
        } else {
            let e = String::new();
            assert(e@ =~= Seq::<char>::empty());
            Some(e)
        },
        Some(i) => {
            if v.len() == 1 {
                None
            } else if i == 0 {
                let mut root = String::new();
                push_char(&mut root, '/');
                assert(root@ =~= seq!['/']);
                Some(root)
            } else {
                let d = chars_slice(v.as_slice(), 0, i);
                assert(d@ =~= p@.take(i as int));
                Some(string_of(&d))
            }
        },
    }
}

/// The last component of a path.
pub fn file_name(p: &str) -> (r: Option<String>)
    ensures
        match r {
            Some(n) => file_name_of(p@) == Some(n@),
            None => file_name_of(p@) is None,
        },
{
    let v = chars_of(p);
    let start: usize = match chars_rfind(v.as_slice(), '/') {
        Some(i) => i + 1,
        None => 0,
    };
    proof { crate::text::lemma_last_index_props(v@, '/'); }
    let name = chars_slice(v.as_slice(), start, v.len());
    assert(name@ == (match last_index(p@, '/') { Some(i) => p@.skip(i + 1), None => p@ }));
    if name.len() == 0 {
        None
    } else if name.len() == 1 && name[0] == '.' {
        assert(name@ =~= seq!['.']);
        None
    } else if name.len() == 2 && name[0] == '.' && name[1] == '.' {
        assert(name@ =~= seq!['.', '.']);
        None
    } else {
        assert(name@ != seq!['.']) by {
            if name@ == seq!['.'] { assert(name@.len() == 1 && name@[0] == '.'); }
        }
        assert(name@ != seq!['.', '.']) by {
            if name@ == seq!['.', '.'] { assert(name@.len() == 2 && name@[0] == '.' && name@[1] == '.'); }
        }
        Some(string_of(&name))
    }
}

/// The stem of a path's file name, if it has a file name.
pub fn file_stem(p: &str) -> (r: Option<String>)
    ensures
        match r {
            Some(n) => file_name_of(p@) is Some && stem_of(file_name_of(p@)->0) == n@,
            None => file_name_of(p@) is None,
        },
{
    match file_name(p) {
        None => None,
        Some(name) => {
            let v = chars_of(name.as_str());
            match chars_rfind(v.as_slice(), '.') {
                Some(i) => {
                    if i > 0 {
                        proof { crate::text::lemma_last_index_props(v@, '.'); }
                        let s = chars_slice(v.as_slice(), 0, i);
                        Some(string_of(&s))
                    } else {
                        Some(name)
                    }
                },
                None => Some(name),
            }
        },
    }
}

/// Whether a path starts at the root.
pub fn is_absolute(p: &str) -> (r: bool)
    ensures
        r == is_absolute_path(p@),
{
    let v = chars_of(p);
    v.len() > 0 && v[0] == '/'
}

/// `p` appended to `base`.
pub fn join(base: &str, p: &str) -> (r: String)
    ensures
        r@ == join_of(base@, p@),
{
    if is_absolute(p) {
        return copy_str(p);
    }
    let b = chars_of(base);
    let mut r = copy_str(base);
    if !(b.len() == 0 || b[b.len() - 1] == '/') {
        push_char(&mut r, '/');
    }
    let q = chars_of(p);
    let mut i: usize = 0;
    let ghost start = r@;
    while i < q.len()
        invariant
            i <= q.len(),
            r@ == start + q@.take(i as int),
        decreases q.len() - i,
    {
        push_char(&mut r, q[i]);
        assert(start + q@.take(i + 1) =~= (start + q@.take(i as int)).push(q@[i as int]));
        i = i + 1;
    }
    assert(q@.take(q.len() as int) == q@);
    r
}

/// `p` relative to `base`, when `base` is a leading run of its components.
pub fn strip_prefix(p: &str, base: &str) -> (r: Option<String>)
    ensures
        match r {
            Some(s) => strip_components(p@, base@) == Some(s@),
            None => strip_components(p@, base@) is None,
        },
{
    let pv = chars_of(p);
    let bv = chars_of(base);
    if crate::text::chars_eq(pv.as_slice(), bv.as_slice()) {
        return Some(String::new());
    }
    if bv.len() > 0 && bv[bv.len() - 1] == '/' && crate::text::chars_starts_with(pv.as_slice(), bv.as_slice()) {
        return Some(crate::text::substring(pv.as_slice(), bv.len(), pv.len()));
    }
    let mut bs = chars_of(base);
    bs.push('/');
    assert(bs@ == bv@ + seq!['/']);
    if crate::text::chars_starts_with(pv.as_slice(), bs.as_slice()) {
        return Some(crate::text::substring(pv.as_slice(), bs.len(), pv.len()));
    }
    None
}

/// Quotes a string for a shell when it holds a special character or a space.
pub fn shell_escape(s: &str) -> (r: String)
    ensures
        r@ == shell_escape_of(s@),
{
    let v = chars_of(s);
    let mut i: usize = 0;
    while i < v.len()
        invariant
            i <= v.len(),
            v@ == s@,
            forall|k: int| 0 <= k < i ==> !is_escape_char(v@[k]),
        decreases v.len() - i,
    {
        let c = v[i];
        if c == '$' || c == '\'' || c == '\\' || c == '!' || c == '"' {
            return debug_quote(s);
        }
        i = i + 1;
    }
    match chars_find(v.as_slice(), ' ') {
        Some(_) => {
            let mut r = String::new();
            push_char(&mut r, '"');
            let mut i: usize = 0;
            while i < v.len()
                invariant
                    i <= v.len(),
                    r@ == seq!['"'] + v@.take(i as int),
                decreases v.len() - i,
            {
                push_char(&mut r, v[i]);
                assert(seq!['"'] + v@.take(i + 1) =~= (seq!['"'] + v@.take(i as int)).push(v@[i as int]));
                i = i + 1;
            }
            push_char(&mut r, '"');
            assert(v@.take(v.len() as int) == v@);
            r
        },
        None => copy_str(s),
    }
}

/// A path for display: its file stem when `strip` accepts its file name,
/// the path itself otherwise (or its canonical form, where the path has no
/// file name and one is known), quoted for a shell where needed.
pub fn pretty_path_with<F: Fn(&str) -> bool>(path: &str, strip: F, canonical: Option<&str>) -> (r: String)
    requires
        forall|s: &str| strip.requires((s,)),
    ensures
        match file_name_of(path@) {
            Some(name) => exists|n: &str, b: bool|
                n@ == name && strip.ensures((n,), b)
                    && r@ == shell_escape_of(if b { stem_of(name) } else { path@ }),
            None => r@ == shell_escape_of(match canonical { Some(c) => c@, None => path@ }),
        },
{
    match file_name(path) {
        Some(name) => {
            let b = strip(name.as_str());
            let stem = file_stem(path);
            match stem {
                Some(st) => {
                    if b {
                        shell_escape(st.as_str())
                    } else {
                        shell_escape(path)
                    }
                },
                None => shell_escape(path),
            }
        },
        None => match canonical {
            Some(c) => shell_escape(c),
            None => shell_escape(path),
        },
    }
}

/// A path for display, as [`pretty_path_with`] gives it where no canonical
/// form is known.
pub fn pretty_path<F: Fn(&str) -> bool>(path: &str, strip: F) -> (r: String)
    requires
        forall|s: &str| strip.requires((s,)),
    ensures
        match file_name_of(path@) {
            Some(name) => exists|n: &str, b: bool|
                n@ == name && strip.ensures((n,), b)
                    && r@ == shell_escape_of(if b { stem_of(name) } else { path@ }),
            None => r@ == shell_escape_of(path@),
        },
{
    pretty_path_with(path, strip, None)
}

/// The path as a POSIX path relative to the current directory: on this
/// platform the path itself.
pub fn as_posix_relative(p: &str) -> (r: String)
    ensures
        r@ == p@,
{
    copy_str(p)
}

/// The path made absolute against the current directory `cwd`.
pub fn absolute_path(cwd: &str, p: &str) -> (r: String)
    ensures
        r@ == join_of(cwd@, p@),
{
    join(cwd, p)
}


/// The part of a path that names a drive mounted under WSL: the first
/// component after `/mnt/` (or of the path itself, without that prefix).
pub open spec fn wsl_drive_of(p: Seq<char>) -> Seq<char> {
    let rest = if has_prefix(p, "/mnt/"@) { p.skip(5) } else { p };
    match first_index(rest, '/') {
        Some(i) => rest.take(i),
        None => rest,
    }
}

/// Whether a path names a Windows drive mounted under WSL (`/mnt/c`,
/// `/mnt/c/Users`): only on Windows, and only for a drive that is one
/// lowercase ASCII letter.
pub open spec fn is_wsl_absolute_of(p: Seq<char>, on_windows: bool) -> bool {
    on_windows && wsl_drive_of(p).len() == 1 && 'a' <= wsl_drive_of(p)[0] && wsl_drive_of(p)[0] <= 'z'
}

/// Whether a path names a Windows drive mounted under WSL (see
/// [`is_wsl_absolute_of`]); `on_windows` is whether `cross` runs on Windows.
pub fn is_wsl_absolute(path: &str, on_windows: bool) -> (r: bool)
    ensures
        r == is_wsl_absolute_of(path@, on_windows),
{
    if !on_windows {
        return false;
    }
    proof { reveal_strlit("/mnt/"); }
    let v = chars_of(path);
    let prefix = chars_of("/mnt/");
    let start: usize = if crate::text::chars_starts_with(v.as_slice(), prefix.as_slice()) { 5 } else { 0 };
    let rest = crate::text::chars_slice(v.as_slice(), start, v.len());
    assert(rest@ == if has_prefix(path@, "/mnt/"@) { path@.skip(5) } else { path@ });
    let drive = match chars_find(rest.as_slice(), '/') {
        Some(i) => crate::text::chars_slice(rest.as_slice(), 0, i),
        None => rest,
    };
    assert(drive@ == wsl_drive_of(path@));
    drive.len() == 1 && 'a' <= drive[0] && drive[0] <= 'z'
}

} // verus!
