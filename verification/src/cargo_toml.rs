//! The configuration files of cargo (`.cargo/config.toml`): their tables,
//! how a file deeper in the directory tree is merged with one above it, and
//! the aliases they define.

use vstd::prelude::*;
use vstd::string::StringExecFns;
use crate::text::{str_eq, copy_str, split_whitespace, words_of, views, chars_of, push_char};
use crate::config::{Environment, var_char, var_char_exec};
use crate::shell::opt_view;

verus! {

broadcast use vstd::string::group_string_axioms;

/// A value of a TOML document.
#[derive(Debug)]
pub enum TomlValue {
    String(String),
    Integer(i64),
    /// A float, by the bits of its binary representation.
    Float(u64),
    Boolean(bool),
    /// A date or time, as written.
    Datetime(String),
    Array(Vec<TomlValue>),
    /// The keys of a table, each once, with their values.
    Table(Vec<(String, TomlValue)>),
}

/// A value of a TOML document with its strings taken as characters.
pub enum TomlView {
    String(Seq<char>),
    Integer(i64),
    Float(u64),
    Boolean(bool),
    Datetime(Seq<char>),
    Array(Seq<TomlView>),
    Table(Seq<(Seq<char>, TomlView)>),
}

impl TomlValue {
    /// The value with its strings taken as characters.
    pub open spec fn view_of(self) -> TomlView
        decreases self,
    {
        match self {
            TomlValue::String(s) => TomlView::String(s@),
            TomlValue::Integer(i) => TomlView::Integer(i),
            TomlValue::Float(f) => TomlView::Float(f),
            TomlValue::Boolean(b) => TomlView::Boolean(b),
            TomlValue::Datetime(s) => TomlView::Datetime(s@),
            TomlValue::Array(v) => TomlView::Array(values_view(v@)),
            TomlValue::Table(t) => TomlView::Table(entries_view(t@)),
        }
    }
}

/// The views of a sequence of values.
pub open spec fn values_view(s: Seq<TomlValue>) -> Seq<TomlView>
    decreases s,
{
    if s.len() == 0 {
        Seq::empty()
    } else {
        values_view(s.drop_last()).push(s.last().view_of())
    }
}

/// The views of the entries of a table.
pub open spec fn entries_view(s: Seq<(String, TomlValue)>) -> Seq<(Seq<char>, TomlView)>
    decreases s,
{
    if s.len() == 0 {
        Seq::empty()
    } else {
        entries_view(s.drop_last()).push((s.last().0@, s.last().1.view_of()))
    }
}


proof fn lemma_values_view(s: Seq<TomlValue>)
    ensures
        values_view(s).len() == s.len(),
        forall|i: int| 0 <= i < s.len() ==> #[trigger] values_view(s)[i] == s[i].view_of(),
    decreases s.len(),
{
    if s.len() > 0 {
        lemma_values_view(s.drop_last());
        assert forall|i: int| 0 <= i < s.len() implies #[trigger] values_view(s)[i] == s[i].view_of() by {
            if i < s.len() - 1 {
                assert(s.drop_last()[i] == s[i]);
            }
        }
    }
}

proof fn lemma_entries_view(s: Seq<(String, TomlValue)>)
    ensures
        entries_view(s).len() == s.len(),
        forall|i: int| 0 <= i < s.len() ==> #[trigger] entries_view(s)[i] == (s[i].0@, s[i].1.view_of()),
    decreases s.len(),
{
    if s.len() > 0 {
        lemma_entries_view(s.drop_last());
        assert forall|i: int| 0 <= i < s.len() implies #[trigger] entries_view(s)[i] == (s[i].0@, s[i].1.view_of()) by {
            if i < s.len() - 1 {
                assert(s.drop_last()[i] == s[i]);
            }
        }
    }
}

proof fn lemma_values_view_push(s: Seq<TomlValue>, v: TomlValue)
    ensures
        values_view(s.push(v)) == values_view(s).push(v.view_of()),
{
    assert(s.push(v).drop_last() =~= s);
}

proof fn lemma_entries_view_push(s: Seq<(String, TomlValue)>, e: (String, TomlValue))
    ensures
        entries_view(s.push(e)) == entries_view(s).push((e.0@, e.1.view_of())),
{
    assert(s.push(e).drop_last() =~= s);
}

impl TomlValue {
    /// A copy of the value.
    pub fn duplicate(&self) -> (r: TomlValue)
        ensures
            r.view_of() == self.view_of(),
        decreases self,
    {
        match self {
            TomlValue::String(s) => TomlValue::String(s.clone()),
            TomlValue::Integer(i) => TomlValue::Integer(*i),
            TomlValue::Float(f) => TomlValue::Float(*f),
            TomlValue::Boolean(b) => TomlValue::Boolean(*b),
            TomlValue::Datetime(s) => TomlValue::Datetime(s.clone()),
            TomlValue::Array(v) => {
                let mut r: Vec<TomlValue> = Vec::new();
                let mut i: usize = 0;
                while i < v.len()
                    invariant
                        i <= v@.len(),
                        *self == TomlValue::Array(*v),
                        values_view(r@) == values_view(v@.take(i as int)),
                    decreases v@.len() - i,
                {
                    proof {
                        assert(decreases_to!(*self => self->Array_0));
                        assert(decreases_to!(*v => v@));
                        assert(decreases_to!(v@ => v@[i as int]));
                    }
                    let x = v[i].duplicate();
                    proof {
                        lemma_values_view_push(r@, x);
                        assert(v@.take(i + 1) =~= v@.take(i as int).push(v@[i as int]));
                        lemma_values_view_push(v@.take(i as int), v@[i as int]);
                    }
                    r.push(x);
                    i += 1;
                }
                assert(v@.take(i as int) =~= v@);
                TomlValue::Array(r)
            },
            TomlValue::Table(t) => {
                let mut r: Vec<(String, TomlValue)> = Vec::new();
                let mut i: usize = 0;
                while i < t.len()
                    invariant
                        i <= t@.len(),
                        *self == TomlValue::Table(*t),
                        entries_view(r@) == entries_view(t@.take(i as int)),
                    decreases t@.len() - i,
                {
                    proof {
                        assert(decreases_to!(*self => self->Table_0));
                        assert(decreases_to!(*t => t@));
                        assert(decreases_to!(t@ => t@[i as int]));
                        assert(decreases_to!(t@[i as int] => t@[i as int].1));
                    }
                    let e = (t[i].0.clone(), t[i].1.duplicate());
                    proof {
                        lemma_entries_view_push(r@, e);
                        assert(t@.take(i + 1) =~= t@.take(i as int).push(t@[i as int]));
                        lemma_entries_view_push(t@.take(i as int), t@[i as int]);
                    }
                    r.push(e);
                    i += 1;
                }
                assert(t@.take(i as int) =~= t@);
                TomlValue::Table(r)
            },
        }
    }
}

/// Two values of the same TOML type.
pub open spec fn same_kind(a: TomlView, b: TomlView) -> bool {
    match (a, b) {
        (TomlView::String(_), TomlView::String(_)) => true,
        (TomlView::Integer(_), TomlView::Integer(_)) => true,
        (TomlView::Float(_), TomlView::Float(_)) => true,
        (TomlView::Boolean(_), TomlView::Boolean(_)) => true,
        (TomlView::Datetime(_), TomlView::Datetime(_)) => true,
        (TomlView::Array(_), TomlView::Array(_)) => true,
        (TomlView::Table(_), TomlView::Table(_)) => true,
        _ => false,
    }
}

/// The value of a key in a table.
pub open spec fn lookup(t: Seq<(Seq<char>, TomlView)>, k: Seq<char>) -> Option<TomlView>
    decreases t.len(),
{
    if t.len() == 0 {
        None
    } else if t[0].0 == k {
        Some(t[0].1)
    } else {
        lookup(t.drop_first(), k)
    }
}

/// The entries of `y` whose key `x` does not have.
pub open spec fn new_entries(x: Seq<(Seq<char>, TomlView)>, y: Seq<(Seq<char>, TomlView)>) -> Seq<(Seq<char>, TomlView)> {
    y.filter(|e: (Seq<char>, TomlView)| lookup(x, e.0) is None)
}

/// A value `x` of a file merged with the value `y` of the same key in a
/// file above it: tables merge key by key, arrays are joined, anything else
/// keeps `x`; values of different types cannot be merged.
pub open spec fn merge_value(x: TomlView, y: TomlView) -> Option<TomlView>
    decreases x,
{
    if !same_kind(x, y) {
        None
    } else {
        match x {
            TomlView::Table(xt) => match merge_entries(xt, y->Table_0) {
                Some(r) => Some(TomlView::Table(r + new_entries(xt, y->Table_0))),
                None => None,
            },
            TomlView::Array(xa) => Some(TomlView::Array(xa + y->Array_0)),
            _ => Some(x),
        }
    }
}

/// The entries of `x`, each merged with the value that `y` gives its key.
pub open spec fn merge_entries(x: Seq<(Seq<char>, TomlView)>, y: Seq<(Seq<char>, TomlView)>) -> Option<Seq<(Seq<char>, TomlView)>>
    decreases x,
{
    if x.len() == 0 {
        Some(Seq::empty())
    } else {
        match merge_entries(x.drop_last(), y) {
            None => None,
            Some(r) => {
                let e = x.last();
                match lookup(y, e.0) {
                    None => Some(r.push(e)),
                    Some(yv) => match merge_value(e.1, yv) {
                        Some(v) => Some(r.push((e.0, v))),
                        None => None,
                    },
                }
            },
        }
    }
}

/// The table `x` merged with the table `y` of a file above it: the keys of
/// `x`, merged where `y` has them too, then the keys only `y` has.
pub open spec fn merge_table(x: Seq<(Seq<char>, TomlView)>, y: Seq<(Seq<char>, TomlView)>) -> Option<Seq<(Seq<char>, TomlView)>> {
    match merge_entries(x, y) {
        Some(r) => Some(r + new_entries(x, y)),
        None => None,
    }
}

pub(crate) proof fn lemma_lookup_append(a: Seq<(Seq<char>, TomlView)>, b: Seq<(Seq<char>, TomlView)>, k: Seq<char>)
    ensures
        lookup(a + b, k) == if lookup(a, k) is Some { lookup(a, k) } else { lookup(b, k) },
    decreases a.len(),
{
    if a.len() > 0 {
        assert((a + b)[0] == a[0]);
        assert((a + b).drop_first() =~= a.drop_first() + b);
        lemma_lookup_append(a.drop_first(), b, k);
    } else {
        assert(a + b =~= b);
    }
}

pub(crate) proof fn lemma_lookup_single(e: (Seq<char>, TomlView), k: Seq<char>)
    ensures
        lookup(seq![e], k) == if e.0 == k { Some(e.1) } else { None },
{
    let s = seq![e];
    assert(s[0] == e);
    assert(s.drop_first() =~= Seq::<(Seq<char>, TomlView)>::empty());
    reveal_with_fuel(lookup, 2);
}

proof fn lemma_lookup_new_entries(x: Seq<(Seq<char>, TomlView)>, y: Seq<(Seq<char>, TomlView)>, k: Seq<char>)
    requires
        lookup(x, k) is None,
    ensures
        lookup(new_entries(x, y), k) == lookup(y, k),
    decreases y.len(),
{
    let pred = |e: (Seq<char>, TomlView)| lookup(x, e.0) is None;
    if y.len() > 0 {
        let d = y.drop_last();
        let e = y.last();
        assert(d.push(e) =~= y);
        d.lemma_filter_push(e, pred);
        lemma_lookup_new_entries(x, d, k);
        lemma_lookup_append(d, seq![e], k);
        assert(d + seq![e] =~= y);
        if pred(e) {
            lemma_lookup_append(d.filter(pred), seq![e], k);
            assert(d.filter(pred) + seq![e] =~= d.filter(pred).push(e));
        } else if e.0 == k {
            assert(false);
        } else {
            lemma_lookup_single(e, k);
        }
    } else {
        assert(new_entries(x, y).len() == 0) by {
            reveal(Seq::filter);
        }
    }
}

proof fn lemma_lookup_merge_entries(x: Seq<(Seq<char>, TomlView)>, y: Seq<(Seq<char>, TomlView)>, r: Seq<(Seq<char>, TomlView)>, k: Seq<char>)
    requires
        merge_entries(x, y) == Some(r),
    ensures
        lookup(r, k) == match lookup(x, k) {
            None => None,
            Some(a) => match lookup(y, k) {
                None => Some(a),
                Some(b) => merge_value(a, b),
            },
        },
        lookup(r, k) is Some == lookup(x, k) is Some,
    decreases x.len(),
{
    if x.len() > 0 {
        let d = x.drop_last();
        let e = x.last();
        let rd = merge_entries(d, y)->0;
        lemma_lookup_merge_entries(d, y, rd, k);
        assert(d.push(e) =~= x);
        lemma_lookup_append(d, seq![e], k);
        assert(d + seq![e] =~= x);
        let v = match lookup(y, e.0) {
            None => e.1,
            Some(yv) => merge_value(e.1, yv)->0,
        };
        assert(r == rd.push((e.0, v)));
        if lookup(y, e.0) is Some {
            assert(merge_value(e.1, lookup(y, e.0)->0) == Some(v));
        }
        lemma_lookup_append(rd, seq![(e.0, v)], k);
        assert(rd + seq![(e.0, v)] =~= r);
        lemma_lookup_single(e, k);
        lemma_lookup_single((e.0, v), k);
    } else {
        assert(r.len() == 0);
    }
}

/// Merging a file with the one above it: a key that both have gets both
/// values merged (see [`merge_value`]), a key that one of them has keeps its
/// value, and no other key appears.
pub proof fn merged_keys(x: Seq<(Seq<char>, TomlView)>, y: Seq<(Seq<char>, TomlView)>, r: Seq<(Seq<char>, TomlView)>, k: Seq<char>)
    requires
        merge_table(x, y) == Some(r),
    ensures
        lookup(r, k) == match (lookup(x, k), lookup(y, k)) {
            (Some(a), Some(b)) => merge_value(a, b),
            (Some(a), None) => Some(a),
            (None, b) => b,
        },
{
    let m = merge_entries(x, y)->0;
    assert(r == m + new_entries(x, y));
    lemma_lookup_merge_entries(x, y, m, k);
    lemma_lookup_append(m, new_entries(x, y), k);
    if lookup(x, k) is None {
        lemma_lookup_new_entries(x, y, k);
    }
}

/// The position of the first entry of `t` with the key `k`.
fn find_key(t: &Vec<(String, TomlValue)>, k: &str) -> (r: Option<usize>)
    ensures
        match r {
            Some(j) => j < t@.len() && t@[j as int].0@ == k@ && lookup(entries_view(t@), k@) == Some(t@[j as int].1.view_of()),
            None => lookup(entries_view(t@), k@) is None,
        },
{
    proof { lemma_entries_view(t@); }
    let ghost ev = entries_view(t@);
    let mut i: usize = 0;
    assert(ev.skip(0) =~= ev);
    while i < t.len()
        invariant
            i <= t@.len(),
            ev == entries_view(t@),
            ev.len() == t@.len(),
            forall|j: int| 0 <= j < t@.len() ==> #[trigger] ev[j] == (t@[j].0@, t@[j].1.view_of()),
            lookup(ev, k@) == lookup(ev.skip(i as int), k@),
        decreases t@.len() - i,
    {
        assert(ev.skip(i as int)[0] == ev[i as int]);
        assert(ev.skip(i as int).drop_first() =~= ev.skip(i + 1));
        if str_eq(t[i].0.as_str(), k) {
            return Some(i);
        }
        i += 1;
    }
    None
}

proof fn lemma_entries_view_take(s: Seq<(String, TomlValue)>, i: int)
    requires
        0 <= i <= s.len(),
    ensures
        entries_view(s.take(i)) == entries_view(s).take(i),
{
    lemma_entries_view(s);
    lemma_entries_view(s.take(i));
    assert(entries_view(s.take(i)) =~= entries_view(s).take(i));
}

proof fn lemma_merge_entries_none(x: Seq<(Seq<char>, TomlView)>, y: Seq<(Seq<char>, TomlView)>, n: int)
    requires
        0 <= n <= x.len(),
        merge_entries(x.take(n), y) is None,
    ensures
        merge_entries(x, y) is None,
    decreases x.len() - n,
{
    if n < x.len() {
        assert(x.take(n + 1).drop_last() =~= x.take(n));
        lemma_merge_entries_none(x, y, n + 1);
    } else {
        assert(x.take(n) =~= x);
    }
}

/// Copies of the values of `v`, in order.
fn copy_values(v: &Vec<TomlValue>) -> (r: Vec<TomlValue>)
    ensures
        values_view(r@) == values_view(v@),
{
    let mut r: Vec<TomlValue> = Vec::new();
    let mut i: usize = 0;
    while i < v.len()
        invariant
            i <= v@.len(),
            values_view(r@) == values_view(v@.take(i as int)),
        decreases v@.len() - i,
    {
        let x = v[i].duplicate();
        proof {
            lemma_values_view_push(r@, x);
            assert(v@.take(i + 1) =~= v@.take(i as int).push(v@[i as int]));
            lemma_values_view_push(v@.take(i as int), v@[i as int]);
        }
        r.push(x);
        i += 1;
    }
    assert(v@.take(i as int) =~= v@);
    r
}

proof fn lemma_values_view_add(a: Seq<TomlValue>, b: Seq<TomlValue>)
    ensures
        values_view(a + b) == values_view(a) + values_view(b),
{
    lemma_values_view(a);
    lemma_values_view(b);
    lemma_values_view(a + b);
    assert(values_view(a + b) =~= values_view(a) + values_view(b));
}

/// A value of a file merged with the value of the same key in a file above
/// it (see [`merge_value`]).
fn merge_values(x: &TomlValue, y: &TomlValue) -> (r: Option<TomlValue>)
    ensures
        match r {
            Some(v) => merge_value(x.view_of(), y.view_of()) == Some(v.view_of()),
            None => merge_value(x.view_of(), y.view_of()) is None,
        },
    decreases x,
{
    match x {
        TomlValue::Table(xt) => match y {
            TomlValue::Table(yt) => {
                proof {
                    assert(decreases_to!(*x => x->Table_0));
                }
                match merge_tables(xt, yt) {
                    Some(t) => Some(TomlValue::Table(t)),
                    None => None,
                }
            },
            _ => None,
        },
        TomlValue::Array(xa) => match y {
            TomlValue::Array(ya) => {
                let mut r = copy_values(xa);
                let mut rest = copy_values(ya);
                proof {
                    lemma_values_view_add(r@, rest@);
                }
                r.append(&mut rest);
                Some(TomlValue::Array(r))
            },
            _ => None,
        },
        TomlValue::String(_) => match y {
            TomlValue::String(_) => Some(x.duplicate()),
            _ => None,
        },
        TomlValue::Integer(_) => match y {
            TomlValue::Integer(_) => Some(x.duplicate()),
            _ => None,
        },
        TomlValue::Float(_) => match y {
            TomlValue::Float(_) => Some(x.duplicate()),
            _ => None,
        },
        TomlValue::Boolean(_) => match y {
            TomlValue::Boolean(_) => Some(x.duplicate()),
            _ => None,
        },
        TomlValue::Datetime(_) => match y {
            TomlValue::Datetime(_) => Some(x.duplicate()),
            _ => None,
        },
    }
}

/// A table of a file merged with the table of a file above it (see
/// [`merge_table`]); `None` where two values of a key have different types.
fn merge_tables(x: &Vec<(String, TomlValue)>, y: &Vec<(String, TomlValue)>) -> (r: Option<Vec<(String, TomlValue)>>)
    ensures
        match r {
            Some(t) => merge_table(entries_view(x@), entries_view(y@)) == Some(entries_view(t@)),
            None => merge_table(entries_view(x@), entries_view(y@)) is None,
        },
    decreases x,
{
    let ghost xv = entries_view(x@);
    let ghost yv = entries_view(y@);
    proof {
        lemma_entries_view(x@);
        lemma_entries_view(y@);
    }
    let mut r: Vec<(String, TomlValue)> = Vec::new();
    let mut i: usize = 0;
    while i < x.len()
        invariant
            i <= x@.len(),
            xv == entries_view(x@),
            yv == entries_view(y@),
            xv.len() == x@.len(),
            forall|j: int| 0 <= j < x@.len() ==> #[trigger] xv[j] == (x@[j].0@, x@[j].1.view_of()),
            merge_entries(xv.take(i as int), yv) == Some(entries_view(r@)),
        decreases x@.len() - i,
    {
        assert(xv.take(i + 1).drop_last() =~= xv.take(i as int));
        assert(xv.take(i + 1).last() == xv[i as int]);
        let key = x[i].0.clone();
        match find_key(y, key.as_str()) {
            None => {
                let e = (key, x[i].1.duplicate());
                proof { lemma_entries_view_push(r@, e); }
                r.push(e);
            },
            Some(j) => {
                proof {
                    assert(decreases_to!(*x => x@));
                    assert(decreases_to!(x@ => x@[i as int]));
                    assert(decreases_to!(x@[i as int] => x@[i as int].1));
                }
                match merge_values(&x[i].1, &y[j].1) {
                    Some(v) => {
                        let e = (key, v);
                        proof { lemma_entries_view_push(r@, e); }
                        r.push(e);
                    },
                    None => {
                        proof { lemma_merge_entries_none(xv, yv, i + 1); }
                        return None;
                    },
                }
            },
        }
        i += 1;
    }
    assert(xv.take(i as int) =~= xv);
    let ghost merged = entries_view(r@);
    let ghost pred = |e: (Seq<char>, TomlView)| lookup(xv, e.0) is None;
    let mut k: usize = 0;
    while k < y.len()
        invariant
            k <= y@.len(),
            xv == entries_view(x@),
            yv == entries_view(y@),
            yv.len() == y@.len(),
            pred == (|e: (Seq<char>, TomlView)| lookup(xv, e.0) is None),
            forall|j: int| 0 <= j < y@.len() ==> #[trigger] yv[j] == (y@[j].0@, y@[j].1.view_of()),
            entries_view(r@) == merged + yv.take(k as int).filter(pred),
        decreases y@.len() - k,
    {
        proof {
            assert(yv.take(k + 1) =~= yv.take(k as int).push(yv[k as int]));
            yv.take(k as int).lemma_filter_push(yv[k as int], pred);
        }
        match find_key(x, y[k].0.as_str()) {
            None => {
                let e = (y[k].0.clone(), y[k].1.duplicate());
                proof {
                    lemma_entries_view_push(r@, e);
                    assert(merged + yv.take(k as int).filter(pred).push(yv[k as int])
                        =~= (merged + yv.take(k as int).filter(pred)).push(yv[k as int]));
                }
                r.push(e);
            },
            Some(_) => {},
        }
        k += 1;
    }
    assert(yv.take(k as int) =~= yv);
    Some(r)
}

/// A cargo configuration file: its top table.
#[derive(Debug)]
pub struct CargoToml(pub Vec<(String, TomlValue)>);

/// Two values of a key had different types.
#[derive(Debug, Clone, Copy, PartialEq, Eq, Structural)]
pub struct MergeError;

/// Why an alias could not be read.
#[derive(Debug, Clone, Copy, PartialEq, Eq, Structural)]
pub enum AliasError {
    /// `alias` is not a table.
    NotATable,
    /// The alias is neither a string nor an array of strings.
    InvalidType,
}

/// A value that is a string.
pub open spec fn is_string(v: TomlView) -> bool {
    v is String
}

/// Values that are all strings.
pub open spec fn all_strings(a: Seq<TomlView>) -> bool {
    forall|i: int| 0 <= i < a.len() ==> #[trigger] is_string(a[i])
}

/// An alias as a configuration file gives it: a string of words, or an
/// array of strings.
pub open spec fn alias_value(v: TomlView) -> Result<Seq<Seq<char>>, AliasError> {
    match v {
        TomlView::String(s) => Ok(words_of(s)),
        TomlView::Array(a) => if all_strings(a) {
            Ok(a.map_values(|x: TomlView| x->String_0))
        } else {
            Err(AliasError::InvalidType)
        },
        _ => Err(AliasError::InvalidType),
    }
}

/// The alias `name` that a table gives, in its `alias` table.
pub open spec fn alias_in(t: Seq<(Seq<char>, TomlView)>, name: Seq<char>) -> Result<Option<Seq<Seq<char>>>, AliasError> {
    match lookup(t, "alias"@) {
        None => Ok(None),
        Some(TomlView::Table(at)) => match lookup(at, name) {
            None => Ok(None),
            Some(v) => match alias_value(v) {
                Ok(words) => Ok(Some(words)),
                Err(e) => Err(e),
            },
        },
        Some(_) => Err(AliasError::NotATable),
    }
}

/// The words of an alias, as strings.
fn alias_words(v: &TomlValue) -> (r: Result<Vec<String>, AliasError>)
    ensures
        match r {
            Ok(w) => alias_value(v.view_of()) == Ok::<Seq<Seq<char>>, AliasError>(views(w@)),
            Err(e) => alias_value(v.view_of()) == Err::<Seq<Seq<char>>, AliasError>(e),
        },
{
    match v {
        TomlValue::String(s) => Ok(split_whitespace(s.as_str())),
        TomlValue::Array(a) => {
            proof { lemma_values_view(a@); }
            let ghost av = values_view(a@);
            assert(v.view_of() == TomlView::Array(av));
            let mut words: Vec<String> = Vec::new();
            let mut i: usize = 0;
            while i < a.len()
                invariant
                    i <= a@.len(),
                    av == values_view(a@),
                    v.view_of() == TomlView::Array(av),
                    av.len() == a@.len(),
                    forall|j: int| 0 <= j < a@.len() ==> #[trigger] av[j] == a@[j].view_of(),
                    forall|j: int| 0 <= j < i ==> #[trigger] is_string(av[j]),
                    views(words@) == av.take(i as int).map_values(|x: TomlView| x->String_0),
                decreases a@.len() - i,
            {
                match &a[i] {
                    TomlValue::String(s) => {
                        assert(av[i as int] == TomlView::String(s@));
                        let ghost before = words@;
                        let c = s.clone();
                        words.push(c);
                        assert(words@ == before.push(c));
                        assert(views(before) == av.take(i as int).map_values(|x: TomlView| x->String_0));
                        assert(views(words@) =~= views(before).push(c@));
                        assert(views(words@) =~= av.take(i + 1).map_values(|x: TomlView| x->String_0));
                    },
                    _ => {
                        assert(!is_string(av[i as int]));
                        assert(!all_strings(av));
                        return Err(AliasError::InvalidType);
                    },
                }
                i += 1;
            }
            assert(av.take(i as int) =~= av);
            Ok(words)
        },
        _ => Err(AliasError::InvalidType),
    }
}

impl CargoToml {
    /// The top table with its strings taken as characters.
    pub open spec fn spec_table(&self) -> Seq<(Seq<char>, TomlView)> {
        entries_view(self.0@)
    }

    /// This file merged with the file `parent` above it: tables merge key by
    /// key, arrays are joined, and otherwise the values of this file win.
    pub fn merge(&mut self, parent: &CargoToml) -> (r: Result<(), MergeError>)
        ensures
            match merge_table(old(self).spec_table(), parent.spec_table()) {
                Some(t) => r is Ok && final(self).spec_table() == t,
                None => r is Err && *final(self) == *old(self),
            },
    {
        match merge_tables(&self.0, &parent.0) {
            Some(t) => {
                self.0 = t;
                Ok(())
            },
            None => Err(MergeError),
        }
    }

    /// The alias `name` that this file defines (see [`alias_in`]).
    pub fn alias(&self, name: &str) -> (r: Result<Option<Vec<String>>, AliasError>)
        ensures
            match r {
                Ok(o) => alias_in(self.spec_table(), name@) == Ok::<Option<Seq<Seq<char>>>, AliasError>(
                    match o { Some(w) => Some(views(w@)), None => None }),
                Err(e) => alias_in(self.spec_table(), name@) == Err::<Option<Seq<Seq<char>>>, AliasError>(e),
            },
    {
        let key = "alias";
        proof { reveal_strlit("alias"); }
        let alias = match find_key(&self.0, key) {
            None => return Ok(None),
            Some(j) => &self.0[j].1,
        };
        let table = match alias {
            TomlValue::Table(t) => t,
            _ => return Err(AliasError::NotATable),
        };
        match find_key(table, name) {
            None => Ok(None),
            Some(j) => match alias_words(&table[j].1) {
                Ok(w) => Ok(Some(w)),
                Err(e) => Err(e),
            },
        }
    }
}

/// The name of the variable of cargo that gives the alias `name`.
pub open spec fn alias_var_of(name: Seq<char>) -> Seq<char> {
    "CARGO_ALIAS_"@ + name.map_values(|c: char| var_char(c))
}

/// The environment as cargo reads it.
#[derive(Debug, Clone)]
pub struct CargoEnvironment(pub Environment);

impl CargoEnvironment {
    /// The alias `name` that a variable `CARGO_ALIAS_<NAME>` gives: its
    /// words.
    pub fn alias(&self, name: &str) -> (r: Option<Vec<String>>)
        ensures
            match r {
                Some(w) => self.0.spec_var(alias_var_of(name@)) is Some
                    && views(w@) == words_of(self.0.spec_var(alias_var_of(name@))->0),
                None => self.0.spec_var(alias_var_of(name@)) is None,
            },
    {
        let v = chars_of(name);
        let mut var = String::from_str("CARGO_ALIAS_");
        let ghost start = var@;
        proof { reveal_strlit("CARGO_ALIAS_"); }
        let mut i: usize = 0;
        while i < v.len()
            invariant
                i <= v.len(),
                start == "CARGO_ALIAS_"@,
                var@ == start + v@.take(i as int).map_values(|c: char| var_char(c)),
            decreases v.len() - i,
        {
            push_char(&mut var, var_char_exec(v[i]));
            assert(v@.take(i + 1).map_values(|c: char| var_char(c))
                =~= v@.take(i as int).map_values(|c: char| var_char(c)).push(var_char(v@[i as int])));
            i += 1;
        }
        assert(v@.take(i as int) =~= v@);
        match self.0.get_var(var.as_str()) {
            Some(x) => Some(split_whitespace(x.as_str())),
            None => None,
        }
    }
}

/// The configuration of cargo: its files and its environment.
#[derive(Debug)]
pub struct CargoConfig {
    pub toml: Option<CargoToml>,
    pub env: CargoEnvironment,
}

impl CargoConfig {
    pub fn new(toml: Option<CargoToml>, env: Environment) -> (r: CargoConfig)
        ensures
            r.toml == toml,
            r.env.0 == env,
    {
        CargoConfig { toml, env: CargoEnvironment(env) }
    }

    /// The alias `name`: the environment's, else the files' (see
    /// [`alias_in`]).
    pub fn alias(&self, name: &str) -> (r: Result<Option<Vec<String>>, AliasError>)
        ensures
            ({
                let ev = self.env.0.spec_var(alias_var_of(name@));
                match ev {
                    Some(v) => r matches Ok(Some(w)) && views(w@) == words_of(v),
                    None => match self.toml {
                        Some(t) => match r {
                            Ok(o) => alias_in(t.spec_table(), name@) == Ok::<Option<Seq<Seq<char>>>, AliasError>(
                                match o { Some(w) => Some(views(w@)), None => None }),
                            Err(e) => alias_in(t.spec_table(), name@) == Err::<Option<Seq<Seq<char>>>, AliasError>(e),
                        },
                        None => r matches Ok(None),
                    },
                }
            }),
    {
        match self.env.alias(name) {
            Some(a) => Ok(Some(a)),
            None => match &self.toml {
                Some(t) => t.alias(name),
                None => Ok(None),
            },
        }
    }
}


/// A directory and those above it, nearest first.
pub open spec fn ancestors(p: Seq<char>) -> Seq<Seq<char>>
    decreases p.len(),
{
    match crate::cargo::parent_of(p) {
        Some(q) => if q.len() < p.len() { seq![p] + ancestors(q) } else { seq![p] },
        None => seq![p],
    }
}

/// The directories whose cargo configuration is read, in the order it is
/// merged (nearest, and so strongest, first): `.cargo` in the current
/// directory and in each directory above it, then cargo's home.
pub open spec fn config_dirs_of(cwd: Seq<char>, cargo_home: Seq<char>) -> Seq<Seq<char>> {
    ancestors(cwd).map_values(|d: Seq<char>| crate::file::join_of(d, ".cargo"@)) + seq![cargo_home]
}

fn cargo_dirs_from(p: &str) -> (r: Vec<String>)
    ensures
        views(r@) == ancestors(p@).map_values(|d: Seq<char>| crate::file::join_of(d, ".cargo"@)),
    decreases p@.len(),
{
    let mut r: Vec<String> = Vec::new();
    r.push(crate::file::join(p, ".cargo"));
    let ghost first = views(r@);
    match crate::file::parent(p) {
        Some(q) => {
            if crate::text::chars_of(q.as_str()).len() < crate::text::chars_of(p).len() {
                let mut rest = cargo_dirs_from(q.as_str());
                let ghost rv = views(rest@);
                r.append(&mut rest);
                assert(views(r@) =~= first + rv);
                assert(ancestors(p@) == seq![p@] + ancestors(q@));
                assert(views(r@) =~= ancestors(p@).map_values(|d: Seq<char>| crate::file::join_of(d, ".cargo"@)));
            } else {
                assert(views(r@) =~= ancestors(p@).map_values(|d: Seq<char>| crate::file::join_of(d, ".cargo"@)));
            }
        },
        None => {
            assert(views(r@) =~= ancestors(p@).map_values(|d: Seq<char>| crate::file::join_of(d, ".cargo"@)));
        },
    }
    r
}

/// The directories whose cargo configuration is read (see
/// [`config_dirs_of`]).
pub fn config_dirs(cwd: &str, cargo_home: &str) -> (r: Vec<String>)
    ensures
        views(r@) == config_dirs_of(cwd@, cargo_home@),
{
    let mut r = cargo_dirs_from(cwd);
    let ghost before = views(r@);
    r.push(copy_str(cargo_home));
    assert(views(r@) =~= before + seq![cargo_home@]);
    r
}

/// The configuration read so far with the one of the next directory above
/// merged in: the nearer one's values win (see [`CargoToml::merge`]).
pub fn merge_found(result: Option<CargoToml>, found: Option<CargoToml>) -> (r: Result<Option<CargoToml>, MergeError>)
    ensures
        match (result, found) {
            (Some(a), Some(b)) => match r {
                Ok(Some(m)) => merge_table(a.spec_table(), b.spec_table()) == Some(m.spec_table()),
                Ok(None) => false,
                Err(_) => merge_table(a.spec_table(), b.spec_table()) is None,
            },
            (None, Some(b)) => r == Ok::<Option<CargoToml>, MergeError>(Some(b)),
            (_, None) => r == Ok::<Option<CargoToml>, MergeError>(result),
        },
{
    match (result, found) {
        (Some(mut a), Some(b)) => match a.merge(&b) {
            Ok(()) => Ok(Some(a)),
            Err(e) => Err(e),
        },
        (None, Some(b)) => Ok(Some(b)),
        (a, None) => Ok(a),
    }
}

} // verus!
