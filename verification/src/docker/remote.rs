//! Paths inside a container that is driven from a remote host.

use vstd::prelude::*;
use crate::cargo::parent_of;
use crate::config::{digits_value, all_digits, lemma_digits_value_nonneg, lemma_digits_value_mono};
use crate::docker::shared::{decimal, decimal_of};
use crate::text::views;
use crate::text::{chars_of, chars_find, substring, first_index, push_char, is_digit, str_eq};
use vstd::string::StringExecFns;

verus! {

/// The directory of a POSIX path (see [`parent_of`]).
pub fn posix_parent(path: &str) -> (r: Option<String>)
    ensures
        match r {
            Some(p) => parent_of(path@) == Some(p@),
            None => parent_of(path@) is None,
        },
{
    crate::file::parent(path)
}

/// `a` comes before `b` in the order of strings: compared character by
/// character, a prefix first.
pub open spec fn seq_lt(a: Seq<char>, b: Seq<char>) -> bool
    decreases a.len(),
{
    if a.len() == 0 {
        b.len() > 0
    } else if b.len() == 0 {
        false
    } else if a[0] == b[0] {
        seq_lt(a.drop_first(), b.drop_first())
    } else {
        a[0] < b[0]
    }
}

/// The order of strings is strict and total.
pub proof fn seq_lt_total(a: Seq<char>, b: Seq<char>)
    ensures
        !(seq_lt(a, b) && seq_lt(b, a)),
        !seq_lt(a, a),
        a != b ==> seq_lt(a, b) || seq_lt(b, a),
    decreases a.len(),
{
    if a.len() > 0 && b.len() > 0 && a[0] == b[0] {
        seq_lt_total(a.drop_first(), b.drop_first());
        if a != b {
            assert(a.drop_first() != b.drop_first()) by {
                if a.drop_first() == b.drop_first() {
                    assert forall|i: int| 0 <= i < a.len() implies a[i] == b[i] by {
                        if i > 0 {
                            assert(a[i] == a.drop_first()[i - 1]);
                            assert(b[i] == b.drop_first()[i - 1]);
                        }
                    }
                    assert(a =~= b);
                }
            }
        }
    } else if a.len() > 0 && b.len() > 0 {
        seq_lt_total(a.drop_first(), a.drop_first());
    } else if a.len() > 0 {
        seq_lt_total(a.drop_first(), a.drop_first());
    }
    if a.len() == 0 && b.len() == 0 {
        assert(a =~= b);
    }
}

/// The order of strings is transitive.
pub proof fn seq_lt_transitive(a: Seq<char>, b: Seq<char>, c: Seq<char>)
    requires
        seq_lt(a, b),
        seq_lt(b, c),
    ensures
        seq_lt(a, c),
    decreases a.len(),
{
    if a.len() > 0 && a[0] == b[0] && b[0] == c[0] {
        seq_lt_transitive(a.drop_first(), b.drop_first(), c.drop_first());
    }
}

/// Whether `a` comes before `b` (see [`seq_lt`]).
pub fn str_lt(a: &str, b: &str) -> (r: bool)
    ensures
        r == seq_lt(a@, b@),
{
    let x = chars_of(a);
    let y = chars_of(b);
    let mut i: usize = 0;
    assert(x@.skip(0) =~= x@);
    assert(y@.skip(0) =~= y@);
    while i < x.len() && i < y.len() && x[i] == y[i]
        invariant
            i <= x@.len(),
            i <= y@.len(),
            seq_lt(x@, y@) == seq_lt(x@.skip(i as int), y@.skip(i as int)),
        decreases x@.len() - i,
    {
        assert(x@.skip(i as int).drop_first() =~= x@.skip(i + 1));
        assert(y@.skip(i as int).drop_first() =~= y@.skip(i + 1));
        i += 1;
    }
    if i == x.len() {
        i < y.len()
    } else if i == y.len() {
        false
    } else {
        assert(x@.skip(i as int)[0] == x@[i as int]);
        assert(y@.skip(i as int)[0] == y@[i as int]);
        x[i] < y[i]
    }
}

/// The `u64` that `str::parse::<u64>` reads from `s`, if any: an optional
/// `+` and at least one decimal digit, in range.
pub open spec fn parse_u64(s: Seq<char>) -> Option<u64> {
    let digits = if s.len() > 0 && s[0] == '+' { s.drop_first() } else { s };
    if digits.len() > 0 && all_digits(digits) && digits_value(digits) <= u64::MAX {
        Some(digits_value(digits) as u64)
    } else {
        None
    }
}

/// Reads the `u64` of `s` (see [`parse_u64`]).
pub fn parse_u64_exec(s: &str) -> (r: Option<u64>)
    ensures
        r == parse_u64(s@),
{
    let v = chars_of(s);
    let start: usize = if v.len() > 0 && v[0] == '+' { 1 } else { 0 };
    let ghost digits = if s@.len() > 0 && s@[0] == '+' { s@.drop_first() } else { s@ };
    assert(digits =~= v@.skip(start as int));
    if start >= v.len() {
        return None;
    }
    let mut acc: u64 = 0;
    let mut i: usize = start;
    assert(digits.take(0) =~= Seq::<char>::empty());
    while i < v.len()
        invariant
            start <= i <= v.len(),
            v@ == s@,
            digits == v@.skip(start as int),
            digits == (if s@.len() > 0 && s@[0] == '+' { s@.drop_first() } else { s@ }),
            all_digits(digits.take(i - start)),
            acc == digits_value(digits.take(i - start)),
        decreases v.len() - i,
    {
        let c = v[i];
        if !('0' <= c && c <= '9') {
            assert(!all_digits(digits)) by {
                assert(digits[i - start] == c);
            }
            return None;
        }
        let d = (c as u32 - '0' as u32) as u64;
        assert(digits.take(i + 1 - start).drop_last() == digits.take(i - start));
        assert(all_digits(digits.take(i + 1 - start)));
        assert(digits_value(digits.take(i + 1 - start)) == acc * 10 + d);
        if acc > 1844674407370955161 || (acc == 1844674407370955161 && d > 5) {
            proof {
                if all_digits(digits) {
                    lemma_digits_value_mono(digits, i + 1 - start);
                }
            }
            return None;
        }
        acc = acc * 10 + d;
        i = i + 1;
    }
    assert(digits.take(v.len() - start) == digits);
    Some(acc)
}

/// Why a line of a fingerprint file could not be read.
#[derive(Debug, Clone, Copy, PartialEq, Eq, Structural)]
pub enum FingerprintError {
    /// The line has no tab between the time and the path.
    MissingTab,
    /// The time is not a number of milliseconds.
    InvalidTime,
}

/// A line of a fingerprint file, `millis<TAB>path`: the path and its time.
pub open spec fn fingerprint_line_of(l: Seq<char>) -> Result<(Seq<char>, u64), FingerprintError> {
    match first_index(l, '\t') {
        None => Err(FingerprintError::MissingTab),
        Some(i) => match parse_u64(l.take(i)) {
            None => Err(FingerprintError::InvalidTime),
            Some(t) => Ok((l.skip(i + 1), t)),
        },
    }
}

/// Reads a line of a fingerprint file (see [`fingerprint_line_of`]).
pub fn parse_fingerprint_line(line: &str) -> (r: Result<(String, u64), FingerprintError>)
    ensures
        match r {
            Ok((p, t)) => fingerprint_line_of(line@) == Ok::<(Seq<char>, u64), FingerprintError>((p@, t)),
            Err(e) => fingerprint_line_of(line@) == Err::<(Seq<char>, u64), FingerprintError>(e),
        },
{
    let v = chars_of(line);
    match chars_find(v.as_slice(), '\t') {
        None => Err(FingerprintError::MissingTab),
        Some(i) => {
            let time = substring(v.as_slice(), 0, i);
            match parse_u64_exec(time.as_str()) {
                None => Err(FingerprintError::InvalidTime),
                Some(t) => Ok((substring(v.as_slice(), i + 1, v.len()), t)),
            }
        },
    }
}

/// The files of a directory as they were when last copied: each path once,
/// in the order of paths, with the time it was last modified, in
/// milliseconds.
#[derive(Debug)]
pub struct Fingerprint {
    map: Vec<(String, u64)>,
}

/// The entries of a fingerprint with their paths taken as characters.
pub open spec fn fp_view(s: Seq<(String, u64)>) -> Seq<(Seq<char>, u64)> {
    s.map_values(|e: (String, u64)| (e.0@, e.1))
}

/// Entries in strictly increasing order of path.
pub open spec fn fp_sorted(s: Seq<(Seq<char>, u64)>) -> bool {
    forall|i: int, j: int| 0 <= i < j < s.len() ==> seq_lt(#[trigger] s[i].0, #[trigger] s[j].0)
}

/// The time of a path.
pub open spec fn fp_lookup(s: Seq<(Seq<char>, u64)>, q: Seq<char>) -> Option<u64>
    decreases s.len(),
{
    if s.len() == 0 {
        None
    } else if s[0].0 == q {
        Some(s[0].1)
    } else {
        fp_lookup(s.drop_first(), q)
    }
}

proof fn lemma_fp_lookup_at(s: Seq<(Seq<char>, u64)>, k: int)
    requires
        fp_sorted(s),
        0 <= k < s.len(),
    ensures
        fp_lookup(s, s[k].0) == Some(s[k].1),
    decreases k,
{
    if k > 0 {
        seq_lt_total(s[0].0, s[k].0);
        assert(s[0].0 != s[k].0);
        assert(fp_sorted(s.drop_first()));
        lemma_fp_lookup_at(s.drop_first(), k - 1);
    }
}

proof fn lemma_fp_lookup_none(s: Seq<(Seq<char>, u64)>, q: Seq<char>)
    requires
        forall|i: int| 0 <= i < s.len() ==> (#[trigger] s[i]).0 != q,
    ensures
        fp_lookup(s, q) is None,
    decreases s.len(),
{
    if s.len() > 0 {
        assert forall|i: int| 0 <= i < s.len() - 1 implies (#[trigger] s.drop_first()[i]).0 != q by {
            assert(s.drop_first()[i] == s[i + 1]);
        }
        lemma_fp_lookup_none(s.drop_first(), q);
    }
}

proof fn lemma_fp_lookup_some(s: Seq<(Seq<char>, u64)>, q: Seq<char>)
    requires
        fp_lookup(s, q) is Some,
    ensures
        exists|i: int| 0 <= i < s.len() && (#[trigger] s[i]).0 == q && s[i].1 == fp_lookup(s, q)->0,
    decreases s.len(),
{
    if s[0].0 != q {
        lemma_fp_lookup_some(s.drop_first(), q);
        let i = choose|i: int| 0 <= i < s.drop_first().len() && (#[trigger] s.drop_first()[i]).0 == q
            && s.drop_first()[i].1 == fp_lookup(s.drop_first(), q)->0;
        assert(s[i + 1] == s.drop_first()[i]);
    }
}

impl Fingerprint {
    /// The entries with their paths taken as characters.
    pub closed spec fn spec_entries(&self) -> Seq<(Seq<char>, u64)> {
        fp_view(self.map@)
    }

    /// Each path once, in order: kept by every operation.
    #[verifier::type_invariant]
    spec fn sorted_inv(self) -> bool {
        fp_sorted(fp_view(self.map@))
    }

    /// The entries, each path once and in order.
    pub fn entries(&self) -> (r: &Vec<(String, u64)>)
        ensures
            fp_view(r@) == self.spec_entries(),
            fp_sorted(self.spec_entries()),
    {
        proof { use_type_invariant(self); }
        &self.map
    }

    /// A fingerprint of no file.
    pub fn new() -> (r: Fingerprint)
        ensures
            r.spec_entries().len() == 0,
    {
        Fingerprint { map: Vec::new() }
    }

    /// Records the time of a path, over any time recorded before.
    pub fn insert(&mut self, path: String, modified: u64)
        ensures
            fp_sorted(final(self).spec_entries()),
            forall|q: Seq<char>| #[trigger] fp_lookup(final(self).spec_entries(), q)
                == if q == path@ { Some(modified) } else { fp_lookup(old(self).spec_entries(), q) },
            forall|q: Seq<char>| fp_lookup(final(self).spec_entries(), q) is Some
                ==> exists|i: int| 0 <= i < final(self).spec_entries().len() && (#[trigger] final(self).spec_entries()[i]).0 == q,
    {
        proof { use_type_invariant(&*self); }
        let mut map: Vec<(String, u64)> = Vec::new();
        std::mem::swap(&mut map, &mut self.map);
        let ghost s0 = fp_view(map@);
        let mut k: usize = 0;
        while k < map.len() && str_lt(map[k].0.as_str(), path.as_str())
            invariant
                k <= map@.len(),
                s0 == fp_view(map@),
                fp_sorted(s0),
                forall|i: int| 0 <= i < k ==> seq_lt(#[trigger] s0[i].0, path@),
            decreases map@.len() - k,
        {
            k += 1;
        }
        let replace = k < map.len() && crate::text::str_eq(map[k].0.as_str(), path.as_str());
        let ghost p = path@;
        proof {
            assert forall|i: int| 0 <= i < s0.len() && s0[i].0 == p implies i == k by {
                if i < k {
                    seq_lt_total(s0[i].0, p);
                } else if i > k {
                    seq_lt_total(s0[k as int].0, p);
                    seq_lt_total(s0[k as int].0, s0[i].0);
                    if seq_lt(p, s0[k as int].0) {
                        seq_lt_transitive(p, s0[k as int].0, s0[i].0);
                        seq_lt_total(p, s0[i].0);
                    }
                }
            }
        }
        if replace {
            map.set(k, (path, modified));
        } else {
            map.insert(k, (path, modified));
        }
        let ghost s1 = fp_view(map@);
        proof {
            if replace {
                assert(s1 =~= s0.update(k as int, (p, modified)));
            } else {
                assert(s1 =~= s0.insert(k as int, (p, modified)));
                if k < s0.len() {
                    seq_lt_total(s0[k as int].0, p);
                }
            }
            assert forall|i: int, j: int| 0 <= i < j < s1.len() implies seq_lt(#[trigger] s1[i].0, #[trigger] s1[j].0) by {
                if replace {
                    if i == k {
                        assert(seq_lt(s0[i].0, s0[j].0));
                    } else if j == k {
                        assert(seq_lt(s0[i].0, s0[j].0));
                    }
                } else {
                    if j < k {
                        assert(s1[i] == s0[i] && s1[j] == s0[j]);
                    } else if j == k {
                        assert(s1[i] == s0[i]);
                    } else if i == k {
                        assert(s1[j] == s0[j - 1]);
                        if j - 1 > k {
                            seq_lt_transitive(p, s0[k as int].0, s0[j - 1].0);
                        }
                    } else if i < k {
                        assert(s1[i] == s0[i] && s1[j] == s0[j - 1]);
                    } else {
                        assert(s1[i] == s0[i - 1] && s1[j] == s0[j - 1]);
                    }
                }
            }
            assert forall|q: Seq<char>| #[trigger] fp_lookup(s1, q)
                == if q == p { Some(modified) } else { fp_lookup(s0, q) } by {
                if q == p {
                    lemma_fp_lookup_at(s1, k as int);
                } else if fp_lookup(s0, q) is Some {
                    lemma_fp_lookup_some(s0, q);
                    let i = choose|i: int| 0 <= i < s0.len() && (#[trigger] s0[i]).0 == q && s0[i].1 == fp_lookup(s0, q)->0;
                    if replace || i < k {
                        assert(s1[i] == s0[i]);
                        lemma_fp_lookup_at(s1, i);
                    } else {
                        assert(s1[i + 1] == s0[i]);
                        lemma_fp_lookup_at(s1, i + 1);
                    }
                } else {
                    assert forall|i: int| 0 <= i < s1.len() implies (#[trigger] s1[i]).0 != q by {
                        if replace {
                            if i != k {
                                assert(s1[i] == s0[i]);
                                if s0[i].0 == q {
                                    lemma_fp_lookup_at(s0, i);
                                }
                            }
                        } else if i < k {
                            assert(s1[i] == s0[i]);
                            if s0[i].0 == q {
                                lemma_fp_lookup_at(s0, i);
                            }
                        } else if i > k {
                            assert(s1[i] == s0[i - 1]);
                            if s0[i - 1].0 == q {
                                lemma_fp_lookup_at(s0, i - 1);
                            }
                        }
                    }
                    lemma_fp_lookup_none(s1, q);
                }
            }
            assert forall|q: Seq<char>| fp_lookup(s1, q) is Some
                implies exists|i: int| 0 <= i < s1.len() && (#[trigger] s1[i]).0 == q by {
                lemma_fp_lookup_some(s1, q);
            }
        }
        self.map = map;
    }
}

/// The paths of entries.
pub open spec fn fp_paths(s: Seq<(Seq<char>, u64)>) -> Seq<Seq<char>> {
    s.map_values(|e: (Seq<char>, u64)| e.0)
}

/// The entries of `current` that `old` does not have at the same time:
/// the files to copy.
pub open spec fn changed_entries(old: Seq<(Seq<char>, u64)>, current: Seq<(Seq<char>, u64)>) -> Seq<(Seq<char>, u64)> {
    current.filter(|e: (Seq<char>, u64)| fp_lookup(old, e.0) != Some(e.1))
}

/// The entries of `old` whose path `current` does not have: the files to
/// remove.
pub open spec fn removed_entries(old: Seq<(Seq<char>, u64)>, current: Seq<(Seq<char>, u64)>) -> Seq<(Seq<char>, u64)> {
    old.filter(|e: (Seq<char>, u64)| fp_lookup(current, e.0) is None)
}

/// The time of a path, by its position in a fingerprint.
fn find_path(map: &Vec<(String, u64)>, q: &str) -> (r: Option<u64>)
    ensures
        r == fp_lookup(fp_view(map@), q@),
{
    let ghost s = fp_view(map@);
    let mut i: usize = 0;
    assert(s.skip(0) =~= s);
    while i < map.len()
        invariant
            i <= map@.len(),
            s == fp_view(map@),
            fp_lookup(s, q@) == fp_lookup(s.skip(i as int), q@),
        decreases map@.len() - i,
    {
        assert(s.skip(i as int)[0] == s[i as int]);
        assert(s.skip(i as int).drop_first() =~= s.skip(i + 1));
        if str_eq(map[i].0.as_str(), q) {
            return Some(map[i].1);
        }
        i += 1;
    }
    None
}

/// The paths of the entries of `from` that `keep` accepts.
fn filtered_paths(from: &Vec<(String, u64)>, other: &Vec<(String, u64)>, copy: bool) -> (r: Vec<String>)
    ensures
        views(r@) == fp_paths(if copy {
            changed_entries(fp_view(other@), fp_view(from@))
        } else {
            removed_entries(fp_view(from@), fp_view(other@))
        }),
{
    let ghost f = fp_view(from@);
    let ghost o = fp_view(other@);
    let ghost pred = if copy {
        |e: (Seq<char>, u64)| fp_lookup(o, e.0) != Some(e.1)
    } else {
        |e: (Seq<char>, u64)| fp_lookup(o, e.0) is None
    };
    let mut r: Vec<String> = Vec::new();
    let mut i: usize = 0;
    while i < from.len()
        invariant
            i <= from@.len(),
            f == fp_view(from@),
            o == fp_view(other@),
            pred == (if copy {
                |e: (Seq<char>, u64)| fp_lookup(o, e.0) != Some(e.1)
            } else {
                |e: (Seq<char>, u64)| fp_lookup(o, e.0) is None
            }),
            views(r@) == fp_paths(f.take(i as int).filter(pred)),
        decreases from@.len() - i,
    {
        proof {
            assert(f.take(i + 1) =~= f.take(i as int).push(f[i as int]));
            f.take(i as int).lemma_filter_push(f[i as int], pred);
        }
        let found = find_path(other, from[i].0.as_str());
        let keep = if copy {
            match found {
                Some(t) => t != from[i].1,
                None => true,
            }
        } else {
            found.is_none()
        };
        if keep {
            let ghost before = r@;
            let p = from[i].0.clone();
            r.push(p);
            assert(views(r@) =~= views(before).push(p@));
            assert(fp_paths(f.take(i as int).filter(pred).push(f[i as int]))
                =~= fp_paths(f.take(i as int).filter(pred)).push(f[i as int].0));
        }
        i += 1;
    }
    assert(f.take(i as int) =~= f);
    r
}


/// Paths in strictly increasing order, so each occurs once.
pub open spec fn ascending(ps: Seq<Seq<char>>) -> bool {
    forall|i: int, j: int| 0 <= i < j < ps.len() ==> seq_lt(#[trigger] ps[i], #[trigger] ps[j])
}

proof fn lemma_filter_sorted(s: Seq<(Seq<char>, u64)>, pred: spec_fn((Seq<char>, u64)) -> bool)
    requires
        fp_sorted(s),
    ensures
        fp_sorted(s.filter(pred)),
    decreases s.len(),
{
    if s.len() == 0 {
        s.filter_lemma(pred);
    } else {
        let r = s.drop_last();
        let last = s.last();
        assert(fp_sorted(r));
        lemma_filter_sorted(r, pred);
        assert(s =~= r.push(last));
        r.lemma_filter_push(last, pred);
        if pred(last) {
            let f = r.filter(pred);
            assert forall|i: int, j: int| 0 <= i < j < f.push(last).len()
                implies seq_lt(#[trigger] f.push(last)[i].0, #[trigger] f.push(last)[j].0) by {
                if j == f.len() {
                    assert(f.push(last)[i] == f[i]);
                    assert(f.contains(f[i]));
                    r.lemma_filter_contains_rev(pred, f[i]);
                    let k = choose|k: int| 0 <= k < r.len() && r[k] == f[i];
                    assert(s[k] == r[k]);
                    assert(s[s.len() - 1] == last);
                } else {
                    assert(f.push(last)[i] == f[i]);
                    assert(f.push(last)[j] == f[j]);
                }
            }
        }
    }
}

proof fn lemma_sorted_paths(s: Seq<(Seq<char>, u64)>)
    requires
        fp_sorted(s),
    ensures
        ascending(fp_paths(s)),
        fp_paths(s).no_duplicates(),
{
    let ps = fp_paths(s);
    assert forall|i: int, j: int| 0 <= i < j < ps.len() implies seq_lt(#[trigger] ps[i], #[trigger] ps[j]) by {
        assert(ps[i] == s[i].0);
        assert(ps[j] == s[j].0);
    }
    assert forall|i: int, j: int| 0 <= i < ps.len() && 0 <= j < ps.len() && i != j
        implies ps[i] != ps[j] by {
        if i < j {
            seq_lt_total(ps[i], ps[j]);
        } else {
            seq_lt_total(ps[j], ps[i]);
        }
    }
}

impl Fingerprint {
    /// What changed from this fingerprint to `current`: the paths to copy
    /// (new, or of another time), then the paths to remove (gone), each in
    /// the order of paths and each path once.
    pub fn difference(&self, current: &Fingerprint) -> (r: (Vec<String>, Vec<String>))
        ensures
            views(r.0@) == fp_paths(changed_entries(self.spec_entries(), current.spec_entries())),
            views(r.1@) == fp_paths(removed_entries(self.spec_entries(), current.spec_entries())),
            ascending(views(r.0@)) && views(r.0@).no_duplicates(),
            ascending(views(r.1@)) && views(r.1@).no_duplicates(),
    {
        proof {
            use_type_invariant(self);
            use_type_invariant(current);
        }
        let to_copy = filtered_paths(&current.map, &self.map, true);
        let to_remove = filtered_paths(&self.map, &current.map, false);
        proof {
            let o = self.spec_entries();
            let c = current.spec_entries();
            lemma_filter_sorted(c, |e: (Seq<char>, u64)| fp_lookup(o, e.0) != Some(e.1));
            lemma_sorted_paths(changed_entries(o, c));
            lemma_filter_sorted(o, |e: (Seq<char>, u64)| fp_lookup(c, e.0) is None);
            lemma_sorted_paths(removed_entries(o, c));
        }
        (to_copy, to_remove)
    }

    /// The lines of the fingerprint's file, `millis<TAB>path`, in order.
    pub fn to_lines(&self) -> (r: Vec<String>)
        ensures
            r@.len() == self.spec_entries().len(),
            forall|i: int| 0 <= i < r@.len() ==> (#[trigger] r@[i])@
                == decimal_of(self.spec_entries()[i].1 as nat) + seq!['\t'] + self.spec_entries()[i].0,
    {
        let mut r: Vec<String> = Vec::new();
        let mut i: usize = 0;
        while i < self.map.len()
            invariant
                i <= self.map@.len(),
                r@.len() == i,
                forall|j: int| 0 <= j < i ==> (#[trigger] r@[j])@
                    == decimal_of(self.map@[j].1 as nat) + seq!['\t'] + self.map@[j].0@,
            decreases self.map@.len() - i,
        {
            let mut line = decimal(self.map[i].1 as u128);
            push_char(&mut line, '\t');
            line.append(self.map[i].0.as_str());
            r.push(line);
            i += 1;
        }
        r
    }
}

/// The entries that the lines of a fingerprint file record: each path with
/// the time of its last line.
pub open spec fn fp_of_lines(ls: Seq<Seq<char>>, q: Seq<char>) -> Option<u64>
    decreases ls.len(),
{
    if ls.len() == 0 {
        None
    } else {
        match fingerprint_line_of(ls.last()) {
            Ok((p, t)) => if p == q { Some(t) } else { fp_of_lines(ls.drop_last(), q) },
            Err(_) => None,
        }
    }
}

/// The first line that cannot be read, if any.
pub open spec fn first_bad_line(ls: Seq<Seq<char>>) -> Option<FingerprintError>
    decreases ls.len(),
{
    if ls.len() == 0 {
        None
    } else {
        match first_bad_line(ls.drop_last()) {
            Some(e) => Some(e),
            None => match fingerprint_line_of(ls.last()) {
                Err(e) => Some(e),
                Ok(_) => None,
            },
        }
    }
}

/// Reads the lines of a fingerprint file; an error for the first line that
/// cannot be read.
pub fn fingerprint_from_lines(lines: &Vec<String>) -> (r: Result<Fingerprint, FingerprintError>)
    ensures
        match r {
            Ok(f) => first_bad_line(views(lines@)) is None
                && forall|q: Seq<char>| #[trigger] fp_lookup(f.spec_entries(), q) == fp_of_lines(views(lines@), q),
            Err(e) => first_bad_line(views(lines@)) == Some(e),
        },
{
    let ghost ls = views(lines@);
    let mut f = Fingerprint::new();
    let mut i: usize = 0;
    while i < lines.len()
        invariant
            i <= lines@.len(),
            ls == views(lines@),
            first_bad_line(ls.take(i as int)) is None,
            forall|q: Seq<char>| #[trigger] fp_lookup(f.spec_entries(), q) == fp_of_lines(ls.take(i as int), q),
        decreases lines@.len() - i,
    {
        assert(ls.take(i + 1).drop_last() =~= ls.take(i as int));
        assert(ls.take(i + 1).last() == lines@[i as int]@);
        match parse_fingerprint_line(lines[i].as_str()) {
            Ok((p, t)) => {
                f.insert(p, t);
            },
            Err(e) => {
                proof {
                    lemma_first_bad_prefix(ls, i + 1);
                }
                return Err(e);
            },
        }
        i += 1;
    }
    assert(ls.take(i as int) =~= ls);
    Ok(f)
}

proof fn lemma_first_bad_prefix(ls: Seq<Seq<char>>, n: int)
    requires
        0 <= n <= ls.len(),
        first_bad_line(ls.take(n)) is Some,
    ensures
        first_bad_line(ls) == first_bad_line(ls.take(n)),
    decreases ls.len() - n,
{
    if n < ls.len() {
        assert(ls.take(n + 1).drop_last() =~= ls.take(n));
        lemma_first_bad_prefix(ls, n + 1);
    } else {
        assert(ls.take(n) =~= ls);
    }
}

/// Copying the files that the difference lists to copy and removing those
/// it lists to remove brings the old copy up to date: a file of the
/// current directory that is not copied has its time already, and a file
/// that is gone is removed.
pub proof fn difference_brings_up_to_date(old: Seq<(Seq<char>, u64)>, current: Seq<(Seq<char>, u64)>, q: Seq<char>)
    requires
        fp_sorted(old),
        fp_sorted(current),
    ensures
        fp_lookup(current, q) is Some && !fp_paths(changed_entries(old, current)).contains(q)
            ==> fp_lookup(old, q) == fp_lookup(current, q),
        fp_lookup(old, q) is Some && fp_lookup(current, q) is None
            ==> fp_paths(removed_entries(old, current)).contains(q),
{
    broadcast use vstd::seq_lib::group_filter_ensures;
    let cp = |e: (Seq<char>, u64)| fp_lookup(old, e.0) != Some(e.1);
    let rp = |e: (Seq<char>, u64)| fp_lookup(current, e.0) is None;
    if fp_lookup(current, q) is Some {
        lemma_fp_lookup_some(current, q);
        let i = choose|i: int| 0 <= i < current.len() && (#[trigger] current[i]).0 == q && current[i].1 == fp_lookup(current, q)->0;
        if fp_lookup(old, q) != fp_lookup(current, q) {
            assert(cp(current[i]));
            assert(current.filter(cp).contains(current[i]));
            let j = choose|j: int| 0 <= j < current.filter(cp).len() && current.filter(cp)[j] == current[i];
            assert(fp_paths(changed_entries(old, current))[j] == q);
        }
    }
    if fp_lookup(old, q) is Some && fp_lookup(current, q) is None {
        lemma_fp_lookup_some(old, q);
        let i = choose|i: int| 0 <= i < old.len() && (#[trigger] old[i]).0 == q && old[i].1 == fp_lookup(old, q)->0;
        assert(rp(old[i]));
        assert(old.filter(rp).contains(old[i]));
        let j = choose|j: int| 0 <= j < old.filter(rp).len() && old.filter(rp)[j] == old[i];
        assert(fp_paths(removed_entries(old, current))[j] == q);
    }
}

} // verus!
