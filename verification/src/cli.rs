//! The command line of `cross`: cargo's arguments, with the flags that
//! `cross` itself reads picked out.

use vstd::prelude::*;
use crate::cargo::{Subcommand, subcommand_of};
use crate::file::{absolute_path, join_of};
use crate::rustc::TargetList;
use crate::target::Target;
use crate::text::{
    chars_of, char_views, views, str_eq, starts_with, has_prefix, copy_str, substring, lines,
    lines_of, first_word, first_word_of, string_of,
};

verus! {

broadcast use vstd::string::group_string_axioms;

/// A flag that takes a value, as the command line gave it.
#[derive(Debug, Clone, PartialEq, Eq)]
pub enum FlagOption<T> {
    /// The flag was given with a value.
    Provided(T),
    /// The flag was not given.
    Unset,
    /// The flag was given more than once.
    Double,
    /// The flag was given without a value.
    Missing,
}

/// The flag option that an option gives: a value or nothing.
pub open spec fn flag_of_option<T>(o: Option<T>) -> FlagOption<T> {
    match o {
        Option::Some(v) => FlagOption::Provided(v),
        Option::None => FlagOption::Unset,
    }
}

/// A flag given again: an unset flag takes the new value, any other becomes doubled.
pub open spec fn flag_set<T>(old: FlagOption<T>, other: FlagOption<T>) -> FlagOption<T> {
    match old {
        FlagOption::Unset => other,
        _ => FlagOption::Double,
    }
}

/// A flag that is doubled or missing a value, for the message about it.
#[derive(Debug, Clone, Copy, PartialEq, Eq, Structural)]
pub enum FlagError {
    Double,
    Missing,
}

impl<T> FlagOption<T> {
    pub fn is_some(&self) -> (r: bool)
        ensures
            r == (self is Provided),
    {
        matches!(self, FlagOption::Provided(_))
    }

    /// Whether a value was provided: despite its name, this answers the
    /// same question as [`FlagOption::is_some`].
    pub fn is_none(&self) -> (r: bool)
        ensures
            r == (self is Provided),
    {
        matches!(self, FlagOption::Provided(_))
    }

    /// Records the flag given again.
    pub fn set(&mut self, other: Self)
        ensures
            *final(self) == flag_set(*old(self), other),
    {
        let doubled = !matches!(self, FlagOption::Unset);
        if doubled {
            *self = FlagOption::Double;
        } else {
            *self = other;
        }
    }

    pub fn as_ref(&self) -> (r: FlagOption<&T>)
        ensures
            match *self {
                FlagOption::Provided(v) => r == FlagOption::Provided(&v),
                FlagOption::Unset => r == FlagOption::<&T>::Unset,
                FlagOption::Double => r == FlagOption::<&T>::Double,
                FlagOption::Missing => r == FlagOption::<&T>::Missing,
            },
    {
        match self {
            FlagOption::Provided(value) => FlagOption::Provided(value),
            FlagOption::Unset => FlagOption::Unset,
            FlagOption::Double => FlagOption::Double,
            FlagOption::Missing => FlagOption::Missing,
        }
    }

    /// Applies `f` to a provided value.
    pub fn map<U, F: FnOnce(T) -> U>(self, f: F) -> (r: FlagOption<U>)
        requires
            self is Provided ==> f.requires((self->Provided_0,)),
        ensures
            match self {
                FlagOption::Provided(x) => r is Provided && f.ensures((x,), r->Provided_0),
                FlagOption::Unset => r is Unset,
                FlagOption::Double => r is Double,
                FlagOption::Missing => r is Missing,
            },
    {
        match self {
            FlagOption::Provided(x) => FlagOption::Provided(f(x)),
            FlagOption::Unset => FlagOption::Unset,
            FlagOption::Double => FlagOption::Double,
            FlagOption::Missing => FlagOption::Missing,
        }
    }

    /// The value, if provided; a doubled or missing flag is an error.
    pub fn to_option(self) -> (r: Result<Option<T>, FlagError>)
        ensures
            match self {
                FlagOption::Provided(x) => r == Ok::<Option<T>, FlagError>(Some(x)),
                FlagOption::Unset => r == Ok::<Option<T>, FlagError>(None),
                FlagOption::Double => r == Err::<Option<T>, FlagError>(FlagError::Double),
                FlagOption::Missing => r == Err::<Option<T>, FlagError>(FlagError::Missing),
            },
    {
        match self {
            FlagOption::Provided(value) => Ok(Some(value)),
            FlagOption::Unset => Ok(None),
            FlagOption::Double => Err(FlagError::Double),
            FlagOption::Missing => Err(FlagError::Missing),
        }
    }

    /// The flag option of an option.
    pub fn from_option(option: Option<T>) -> (r: FlagOption<T>)
        ensures
            r == flag_of_option(option),
    {
        match option {
            Some(value) => FlagOption::Provided(value),
            None => FlagOption::Unset,
        }
    }
}

impl<T> FlagOption<Option<T>> {
    /// A provided option becomes its value, or an unset flag.
    pub fn flatten(self) -> (r: FlagOption<T>)
        ensures
            r == (match self {
                FlagOption::Provided(v) => flag_of_option(v),
                FlagOption::Unset => FlagOption::Unset,
                FlagOption::Double => FlagOption::Double,
                FlagOption::Missing => FlagOption::Missing,
            }),
    {
        match self {
            FlagOption::Provided(value) => FlagOption::from_option(value),
            FlagOption::Unset => FlagOption::Unset,
            FlagOption::Double => FlagOption::Double,
            FlagOption::Missing => FlagOption::Missing,
        }
    }
}

/// The parsed command line.
#[derive(Debug)]
pub struct Args {
    pub cargo_args: Vec<String>,
    pub rest_args: Vec<String>,
    pub features: Vec<String>,
    pub subcommand: Option<Subcommand>,
    pub channel: Option<String>,
    pub target: Option<Target>,
    pub target_dir: Option<String>,
    pub manifest_path: Option<String>,
    pub color: Option<String>,
    pub verbose: u8,
    pub quiet: bool,
}

/// The command line while it is parsed: flags that may be missing their
/// value or be given twice.
#[derive(Debug)]
pub struct ArgsImpl {
    pub cargo_args: Vec<String>,
    pub rest_args: Vec<String>,
    pub subcommand: Option<Subcommand>,
    pub channel: Option<String>,
    pub target: FlagOption<Target>,
    pub target_dir: FlagOption<String>,
    pub manifest_path: FlagOption<String>,
    pub color: FlagOption<String>,
    pub features: FlagOption<Vec<String>>,
    pub verbose: u8,
    pub quiet: bool,
}

/// The value of the parse state, with every string taken as its characters
/// and a target as its triple and whether it is built in.
pub struct ArgsModel {
    pub cargo_args: Seq<Seq<char>>,
    pub rest_args: Seq<Seq<char>>,
    pub subcommand: Option<Subcommand>,
    pub channel: Option<Seq<char>>,
    pub target: FlagOption<(Seq<char>, bool)>,
    pub target_dir: FlagOption<Seq<char>>,
    pub manifest_path: FlagOption<Seq<char>>,
    pub color: FlagOption<Seq<char>>,
    pub features: FlagOption<Seq<Seq<char>>>,
    pub verbose: u8,
    pub quiet: bool,
}

pub open spec fn flag_str_view(f: FlagOption<String>) -> FlagOption<Seq<char>> {
    match f {
        FlagOption::Provided(s) => FlagOption::Provided(s@),
        FlagOption::Unset => FlagOption::Unset,
        FlagOption::Double => FlagOption::Double,
        FlagOption::Missing => FlagOption::Missing,
    }
}

pub open spec fn flag_target_view(f: FlagOption<Target>) -> FlagOption<(Seq<char>, bool)> {
    match f {
        FlagOption::Provided(t) => FlagOption::Provided((t.spec_triple(), t is BuiltIn)),
        FlagOption::Unset => FlagOption::Unset,
        FlagOption::Double => FlagOption::Double,
        FlagOption::Missing => FlagOption::Missing,
    }
}

pub open spec fn flag_strings_view(f: FlagOption<Vec<String>>) -> FlagOption<Seq<Seq<char>>> {
    match f {
        FlagOption::Provided(v) => FlagOption::Provided(views(v@)),
        FlagOption::Unset => FlagOption::Unset,
        FlagOption::Double => FlagOption::Double,
        FlagOption::Missing => FlagOption::Missing,
    }
}

impl View for ArgsImpl {
    type V = ArgsModel;

    open spec fn view(&self) -> ArgsModel {
        ArgsModel {
            cargo_args: views(self.cargo_args@),
            rest_args: views(self.rest_args@),
            subcommand: self.subcommand,
            channel: match self.channel {
                Some(c) => Some(c@),
                None => None,
            },
            target: flag_target_view(self.target),
            target_dir: flag_str_view(self.target_dir),
            manifest_path: flag_str_view(self.manifest_path),
            color: flag_str_view(self.color),
            features: flag_strings_view(self.features),
            verbose: self.verbose,
            quiet: self.quiet,
        }
    }
}

/// The parse state before any argument.
pub open spec fn empty_model() -> ArgsModel {
    ArgsModel {
        cargo_args: Seq::empty(),
        rest_args: Seq::empty(),
        subcommand: None,
        channel: None,
        target: FlagOption::Unset,
        target_dir: FlagOption::Unset,
        manifest_path: FlagOption::Unset,
        color: FlagOption::Unset,
        features: FlagOption::Unset,
        verbose: 0,
        quiet: false,
    }
}

impl ArgsImpl {
    /// The parse state before any argument.
    pub fn new() -> (r: ArgsImpl)
        ensures
            r@ == empty_model(),
    {
        let cargo_args: Vec<String> = Vec::new();
        let rest_args: Vec<String> = Vec::new();
        assert(views(cargo_args@) =~= Seq::<Seq<char>>::empty());
        assert(views(rest_args@) =~= Seq::<Seq<char>>::empty());
        ArgsImpl {
            cargo_args,
            rest_args,
            subcommand: None,
            channel: None,
            target: FlagOption::Unset,
            target_dir: FlagOption::Unset,
            manifest_path: FlagOption::Unset,
            color: FlagOption::Unset,
            features: FlagOption::Unset,
            verbose: 0,
            quiet: false,
        }
    }
}

/// How a flag's value is written: as the next argument or after `=`.
#[derive(Debug, Clone, Copy, PartialEq, Eq, Structural)]
pub enum ArgKind {
    Next,
    Equal,
}

/// `-v`, `-vv`, ... of length `len` (256 and its multiples overflow the count).
pub open spec fn is_v_run(a: Seq<char>) -> bool {
    a.len() >= 2 && a[0] == '-' && forall|i: int| 1 <= i < a.len() ==> a[i] == 'v'
}

/// How much more verbose an argument asks for.
pub open spec fn verbosity_count(a: Seq<char>) -> int {
    if a == "--verbose"@ {
        1
    } else if is_v_run(a) {
        (a.len() % 256) - 1
    } else {
        0
    }
}

/// An argument whose verbose count fits in a `u8`.
pub open spec fn verbose_ok(a: Seq<char>) -> bool {
    !(is_v_run(a) && a.len() % 256 == 0)
}

/// How much more verbose an argument asks for: one for `--verbose`, one per
/// `v` for `-v`, `-vv`, ...
pub fn is_verbose(arg: &str) -> (r: u8)
    requires
        verbose_ok(arg@),
    ensures
        r == verbosity_count(arg@),
{
    if str_eq(arg, "--verbose") {
        return 1;
    }
    let v = chars_of(arg);
    if v.len() < 2 || v[0] != '-' {
        return 0;
    }
    let mut i: usize = 1;
    while i < v.len()
        invariant
            1 <= i <= v.len(),
            v@ == arg@,
            arg@ != "--verbose"@,
            verbose_ok(arg@),
            v@[0] == '-',
            forall|k: int| 1 <= k < i ==> v@[k] == 'v',
        decreases v.len() - i,
    {
        if v[i] != 'v' {
            assert(!is_v_run(arg@));
            return 0;
        }
        i = i + 1;
    }
    assert(is_v_run(arg@));
    ((v.len() % 256) as u8) - 1
}

/// Whether `a` sets the flag `field`, and how its value is written.
pub open spec fn value_arg_of(a: Seq<char>, field: Seq<char>) -> Option<ArgKind> {
    if a == field {
        Some(ArgKind::Next)
    } else if has_prefix(a, field) && a.len() > field.len() && a[field.len() as int] == '=' {
        Some(ArgKind::Equal)
    } else {
        None
    }
}

pub fn is_value_arg(arg: &str, field: &str) -> (r: Option<ArgKind>)
    ensures
        r == value_arg_of(arg@, field@),
{
    if str_eq(arg, field) {
        Some(ArgKind::Next)
    } else if starts_with(arg, field) {
        let a = chars_of(arg);
        let f = chars_of(field);
        if a.len() > f.len() && a[f.len()] == '=' {
            Some(ArgKind::Equal)
        } else {
            None
        }
    } else {
        None
    }
}

pub open spec fn is_flag_arg(a: Seq<char>) -> bool {
    a.len() > 0 && a[0] == '-'
}

fn is_flag(arg: &str) -> (r: bool)
    ensures
        r == is_flag_arg(arg@),
{
    let v = chars_of(arg);
    v.len() > 0 && v[0] == '-'
}

/// The toolchain channel of a `+channel` argument.
pub open spec fn channel_of(a: Seq<char>) -> Option<Seq<char>> {
    if a.len() > 0 && a[0] == '+' {
        Some(a.skip(1))
    } else {
        None
    }
}

/// An argument whose first character is a single byte.
pub open spec fn first_char_ascii(a: Seq<char>) -> bool {
    a.len() > 0 ==> (a[0] as u32) < 128
}

fn parse_channel(arg: &str) -> (r: Option<String>)
    requires
        arg@.len() > 0,
        first_char_ascii(arg@),
    ensures
        match r {
            Some(c) => channel_of(arg@) == Some(c@),
            None => channel_of(arg@) is None,
        },
{
    let v = chars_of(arg);
    if v[0] == '+' {
        Some(substring(v.as_slice(), 1, v.len()))
    } else {
        None
    }
}

/// The value written after the first `=` of an argument.
pub open spec fn after_equal(a: Seq<char>, field: Seq<char>) -> Seq<char> {
    a.skip(field.len() as int + 1)
}

/// Every argument is one the parser can take: its verbose count fits and
/// its first character is a single byte.
pub open spec fn args_ok(inp: Seq<Seq<char>>) -> bool {
    forall|i: int| 0 <= i < inp.len() ==> verbose_ok(#[trigger] inp[i]) && first_char_ascii(inp[i])
}

/// Whether an argument can be read: its first character is a single byte
/// and a run of `v` does not overflow the count.
fn arg_is_ok(a: &str) -> (r: bool)
    ensures
        r == (verbose_ok(a@) && first_char_ascii(a@)),
{
    let v = chars_of(a);
    if v.len() > 0 && (v[0] as u32) >= 128 {
        return false;
    }
    if v.len() < 2 || v[0] != '-' {
        return true;
    }
    let mut i: usize = 1;
    while i < v.len()
        invariant
            1 <= i <= v@.len(),
            v@ == a@,
            v@.len() >= 2 && v@[0] == '-',
            first_char_ascii(a@),
            forall|k: int| 1 <= k < i ==> v@[k] == 'v',
        decreases v@.len() - i,
    {
        if v[i] != 'v' {
            return true;
        }
        i += 1;
    }
    v.len() % 256 != 0
}

/// Whether every argument can be read (see [`args_ok`]).
pub fn args_are_ok(input: &Vec<String>) -> (r: bool)
    ensures
        r == args_ok(views(input@)),
{
    let mut i: usize = 0;
    while i < input.len()
        invariant
            i <= input@.len(),
            forall|k: int| 0 <= k < i ==> verbose_ok(#[trigger] views(input@)[k]) && first_char_ascii(views(input@)[k]),
        decreases input@.len() - i,
    {
        if !arg_is_ok(input[i].as_str()) {
            assert(!(verbose_ok(views(input@)[i as int]) && first_char_ascii(views(input@)[i as int])));
            return false;
        }
        i += 1;
    }
    true
}

/// The model with an argument appended to the cargo arguments.
pub open spec fn push_arg(m: ArgsModel, a: Seq<char>) -> ArgsModel {
    ArgsModel { cargo_args: m.cargo_args.push(a), ..m }
}

/// The first subcommand wins.
pub open spec fn first_subcommand(m: ArgsModel, s: Subcommand) -> ArgsModel {
    ArgsModel { subcommand: if m.subcommand is None { Some(s) } else { m.subcommand }, ..m }
}

/// The feature lists of a `--features` flag: one feature, or none for an
/// empty value.
pub open spec fn features_of(f: FlagOption<Seq<char>>) -> FlagOption<Seq<Seq<char>>> {
    match f {
        FlagOption::Provided(x) => FlagOption::Provided(if x.len() == 0 { Seq::empty() } else { seq![x] }),
        FlagOption::Unset => FlagOption::Unset,
        FlagOption::Double => FlagOption::Double,
        FlagOption::Missing => FlagOption::Missing,
    }
}

/// Features given again: provided lists are joined, a provided list stays
/// when the new flag has no value, otherwise the new flag wins.
pub open spec fn merge_features(
    cur: FlagOption<Seq<Seq<char>>>,
    new: FlagOption<Seq<Seq<char>>>,
) -> FlagOption<Seq<Seq<char>>> {
    match (cur, new) {
        (FlagOption::Provided(l), FlagOption::Provided(r)) => FlagOption::Provided(l + r),
        (FlagOption::Provided(l), _) => FlagOption::Provided(l),
        (_, r) => r,
    }
}

/// Reads the argument at `pos` as a flag's value: a flag there is parsed as
/// a flag of its own and leaves the value missing. Gives the state, the
/// next position and the value.
pub open spec fn sp_value(
    m: ArgsModel,
    inp: Seq<Seq<char>>,
    pos: int,
    tl: Seq<Seq<char>>,
    cwd: Seq<char>,
) -> (ArgsModel, int, Option<Seq<char>>)
    decreases inp.len() - pos, 0int,
{
    if pos < 0 || pos >= inp.len() {
        (m, pos, None)
    } else if is_flag_arg(inp[pos]) {
        let r = sp_flag(m, inp, pos + 1, inp[pos], tl, cwd);
        (r.0, r.1, None)
    } else {
        (m, pos + 1, Some(inp[pos]))
    }
}

/// Parses the flag `arg`, with the arguments from `pos` on still unread.
pub open spec fn sp_flag(
    m: ArgsModel,
    inp: Seq<Seq<char>>,
    pos: int,
    arg: Seq<char>,
    tl: Seq<Seq<char>>,
    cwd: Seq<char>,
) -> (ArgsModel, int)
    decreases inp.len() - pos, 1int,
{
    if pos < 0 || pos > inp.len() {
        (m, pos)
    } else if arg == "--"@ {
        (ArgsModel { rest_args: m.rest_args.push(arg) + inp.skip(pos), ..m }, inp.len() as int)
    } else if verbosity_count(arg) >= 1 {
        (push_arg(ArgsModel { verbose: ((m.verbose + verbosity_count(arg)) % 256) as u8, ..m }, arg), pos)
    } else if arg == "--quiet"@ || arg == "-q"@ {
        (push_arg(ArgsModel { quiet: true, ..m }, arg), pos)
    } else if value_arg_of(arg, "--color"@) is Some {
        if value_arg_of(arg, "--color"@) == Some(ArgKind::Next) {
            let r = sp_value(push_arg(m, arg), inp, pos, tl, cwd);
            match r.2 {
                Some(x) => (ArgsModel { color: flag_set(r.0.color, FlagOption::Provided(x)), ..push_arg(r.0, x) }, r.1),
                None => (ArgsModel { color: flag_set(r.0.color, FlagOption::Missing), ..r.0 }, r.1),
            }
        } else {
            let x = after_equal(arg, "--color"@);
            (ArgsModel { color: flag_set(m.color, FlagOption::Provided(x)), ..push_arg(m, arg) }, pos)
        }
    } else if value_arg_of(arg, "--manifest-path"@) is Some {
        if value_arg_of(arg, "--manifest-path"@) == Some(ArgKind::Next) {
            let r = sp_value(push_arg(m, arg), inp, pos, tl, cwd);
            match r.2 {
                Some(x) => (ArgsModel {
                    manifest_path: flag_set(r.0.manifest_path, FlagOption::Provided(join_of(cwd, x))),
                    ..push_arg(r.0, x)
                }, r.1),
                None => (ArgsModel { manifest_path: flag_set(r.0.manifest_path, FlagOption::Missing), ..r.0 }, r.1),
            }
        } else {
            let x = after_equal(arg, "--manifest-path"@);
            (ArgsModel {
                manifest_path: flag_set(m.manifest_path, FlagOption::Provided(join_of(cwd, x))),
                ..push_arg(m, arg)
            }, pos)
        }
    } else if value_arg_of(arg, "--target-dir"@) is Some {
        if value_arg_of(arg, "--target-dir"@) == Some(ArgKind::Next) {
            let r = sp_value(push_arg(m, arg), inp, pos, tl, cwd);
            match r.2 {
                Some(x) => (ArgsModel {
                    target_dir: flag_set(r.0.target_dir, FlagOption::Provided(join_of(cwd, x))),
                    ..push_arg(r.0, "/target"@)
                }, r.1),
                None => (ArgsModel { target_dir: flag_set(r.0.target_dir, FlagOption::Missing), ..r.0 }, r.1),
            }
        } else {
            let x = after_equal(arg, "--target-dir"@);
            (ArgsModel {
                target_dir: flag_set(m.target_dir, FlagOption::Provided(join_of(cwd, x))),
                ..push_arg(m, "--target-dir=/target"@)
            }, pos)
        }
    } else if value_arg_of(arg, "--explain"@) is Some || value_arg_of(arg, "--config"@) is Some
        || value_arg_of(arg, "-Z"@) is Some {
        let kind = if value_arg_of(arg, "--explain"@) is Some {
            value_arg_of(arg, "--explain"@)
        } else if value_arg_of(arg, "--config"@) is Some {
            value_arg_of(arg, "--config"@)
        } else {
            value_arg_of(arg, "-Z"@)
        };
        if kind == Some(ArgKind::Next) {
            let r = sp_value(push_arg(m, arg), inp, pos, tl, cwd);
            match r.2 {
                Some(x) => (push_arg(r.0, x), r.1),
                None => (r.0, r.1),
            }
        } else {
            (push_arg(m, arg), pos)
        }
    } else if value_arg_of(arg, "--target"@) is Some {
        if value_arg_of(arg, "--target"@) == Some(ArgKind::Next) {
            let r = sp_value(push_arg(m, arg), inp, pos, tl, cwd);
            match r.2 {
                Some(x) => (ArgsModel {
                    target: flag_set(r.0.target, FlagOption::Provided((x, tl.contains(x)))),
                    ..push_arg(r.0, x)
                }, r.1),
                None => (ArgsModel { target: flag_set(r.0.target, FlagOption::Missing), ..r.0 }, r.1),
            }
        } else {
            let x = after_equal(arg, "--target"@);
            (ArgsModel {
                target: flag_set(m.target, FlagOption::Provided((x, tl.contains(x)))),
                ..push_arg(m, arg)
            }, pos)
        }
    } else if value_arg_of(arg, "--features"@) is Some {
        if value_arg_of(arg, "--features"@) == Some(ArgKind::Next) {
            let r = sp_value(push_arg(m, arg), inp, pos, tl, cwd);
            match r.2 {
                Some(x) => (ArgsModel {
                    features: merge_features(r.0.features, features_of(FlagOption::Provided(x))),
                    ..push_arg(r.0, x)
                }, r.1),
                None => (ArgsModel {
                    features: merge_features(r.0.features, FlagOption::Missing),
                    ..r.0
                }, r.1),
            }
        } else {
            let x = after_equal(arg, "--features"@);
            (ArgsModel {
                features: merge_features(m.features, features_of(FlagOption::Provided(x))),
                ..push_arg(m, arg)
            }, pos)
        }
    } else if arg == "--help"@ || arg == "--list"@ || arg == "--version"@ || arg == "-V"@ {
        (push_arg(first_subcommand(m, subcommand_of(arg)), arg), pos)
    } else {
        (push_arg(m, arg), pos)
    }
}

/// Parses the argument `arg`, with the arguments from `pos` on still unread.
pub open spec fn sp_next(
    m: ArgsModel,
    inp: Seq<Seq<char>>,
    pos: int,
    arg: Seq<char>,
    tl: Seq<Seq<char>>,
    cwd: Seq<char>,
) -> (ArgsModel, int) {
    if arg.len() == 0 {
        (m, pos)
    } else if channel_of(arg) is Some {
        (ArgsModel { channel: channel_of(arg), ..m }, pos)
    } else if is_flag_arg(arg) {
        sp_flag(m, inp, pos, arg, tl, cwd)
    } else {
        (push_arg(first_subcommand(m, subcommand_of(arg)), arg), pos)
    }
}

/// Parses the arguments from `pos` on.
pub open spec fn sp_parse_from(
    m: ArgsModel,
    inp: Seq<Seq<char>>,
    pos: int,
    tl: Seq<Seq<char>>,
    cwd: Seq<char>,
) -> ArgsModel
    decreases inp.len() - pos,
{
    if pos < 0 || pos >= inp.len() {
        m
    } else {
        let r = sp_next(m, inp, pos + 1, inp[pos], tl, cwd);
        if r.1 <= pos || r.1 > inp.len() {
            r.0
        } else {
            sp_parse_from(r.0, inp, r.1, tl, cwd)
        }
    }
}

/// The parse state after all of `inp`, for the targets `tl` that `rustc`
/// knows and the current directory `cwd`.
pub open spec fn sp_parse(inp: Seq<Seq<char>>, tl: Seq<Seq<char>>, cwd: Seq<char>) -> ArgsModel {
    sp_parse_from(empty_model(), inp, 0, tl, cwd)
}

/// Everything from a `--` on is handed to the command as it is: the
/// arguments after it are not read as flags of `cross` or `cargo`.
pub proof fn double_dash_passes_rest(m: ArgsModel, inp: Seq<Seq<char>>, pos: int, tl: Seq<Seq<char>>, cwd: Seq<char>)
    requires
        0 <= pos < inp.len(),
        inp[pos] == "--"@,
    ensures
        sp_parse_from(m, inp, pos, tl, cwd) == (ArgsModel { rest_args: m.rest_args + inp.skip(pos), ..m }),
{
    reveal_strlit("--");
    assert("--"@.len() == 2 && "--"@[0] == '-');
    let r = sp_next(m, inp, pos + 1, inp[pos], tl, cwd);
    assert(r == sp_flag(m, inp, pos + 1, inp[pos], tl, cwd));
    assert(m.rest_args.push(inp[pos]) + inp.skip(pos + 1) =~= m.rest_args + inp.skip(pos));
    assert(r.0 == (ArgsModel { rest_args: m.rest_args + inp.skip(pos), ..m }));
    assert(sp_parse_from(r.0, inp, r.1, tl, cwd) == r.0);
}

proof fn lemma_pos_value(m: ArgsModel, inp: Seq<Seq<char>>, pos: int, tl: Seq<Seq<char>>, cwd: Seq<char>)
    requires
        0 <= pos <= inp.len(),
    ensures
        pos <= sp_value(m, inp, pos, tl, cwd).1 <= inp.len(),
    decreases inp.len() - pos, 0int,
{
    if pos < inp.len() && is_flag_arg(inp[pos]) {
        lemma_pos_flag(m, inp, pos + 1, inp[pos], tl, cwd);
    }
}

proof fn lemma_pos_flag(m: ArgsModel, inp: Seq<Seq<char>>, pos: int, arg: Seq<char>, tl: Seq<Seq<char>>, cwd: Seq<char>)
    requires
        0 <= pos <= inp.len(),
    ensures
        pos <= sp_flag(m, inp, pos, arg, tl, cwd).1 <= inp.len(),
    decreases inp.len() - pos, 1int,
{
    lemma_pos_value(push_arg(m, arg), inp, pos, tl, cwd);
}

fn push_str(v: &mut Vec<String>, s: String)
    ensures
        views(final(v)@) == views(old(v)@).push(s@),
{
    v.push(s);
    assert(views(v@) =~= views(old(v)@).push(s@));
}

fn merge_features_exec(cur: FlagOption<Vec<String>>, new: FlagOption<Vec<String>>) -> (r: FlagOption<Vec<String>>)
    ensures
        flag_strings_view(r) == merge_features(flag_strings_view(cur), flag_strings_view(new)),
{
    match cur {
        FlagOption::Provided(mut l) => match new {
            FlagOption::Provided(mut rv) => {
                let ghost l0 = l@;
                let ghost r0 = rv@;
                l.append(&mut rv);
                assert(views(l@) =~= views(l0) + views(r0));
                FlagOption::Provided(l)
            },
            _ => FlagOption::Provided(l),
        },
        _ => new,
    }
}

fn features_exec(x: String) -> (r: FlagOption<Vec<String>>)
    ensures
        flag_strings_view(r) == features_of(FlagOption::Provided(x@)),
{
    let empty = chars_of(x.as_str()).len() == 0;
    if empty {
        let v: Vec<String> = Vec::new();
        assert(views(v@) =~= Seq::<Seq<char>>::empty());
        FlagOption::Provided(v)
    } else {
        let mut v: Vec<String> = Vec::new();
        let ghost xv = x@;
        v.push(x);
        assert(views(v@) =~= seq![xv]);
        FlagOption::Provided(v)
    }
}

/// The value after the `=` of `--field=value`.
fn value_after_equal(arg: &str, field: &str) -> (r: String)
    requires
        value_arg_of(arg@, field@) == Some(ArgKind::Equal),
    ensures
        r@ == after_equal(arg@, field@),
{
    let a = chars_of(arg);
    let f = chars_of(field);
    let flen = f.len();
    let alen = a.len();
    assert(flen < alen) by {
        assert(f@ == field@ && a@ == arg@);
    }
    let r = substring(a.as_slice(), flen + 1, alen);
    assert(r@ =~= after_equal(arg@, field@));
    r
}

/// Reads the argument at `pos` as a flag's value (see [`sp_value`]).
fn next_value(st: &mut ArgsImpl, input: &Vec<String>, pos: usize, tl: &TargetList, cwd: &str) -> (r: (usize, Option<String>))
    requires
        pos <= input.len(),
        args_ok(views(input@)),
    ensures
        (final(st)@, r.0 as int, match r.1 { Some(x) => Some(x@), None => None })
            == sp_value(old(st)@, views(input@), pos as int, views(tl.triples@), cwd@),
    decreases input.len() - pos, 0int,
{
    if pos >= input.len() {
        return (pos, None);
    }
    let next = input[pos].clone();
    assert(next@ == views(input@)[pos as int]);
    if is_flag(next.as_str()) {
        let p = parse_flag(st, input, pos + 1, next, tl, cwd);
        (p, None)
    } else {
        (pos + 1, Some(next))
    }
}

/// Parses the flag `arg` (see [`sp_flag`]).
fn parse_flag(st: &mut ArgsImpl, input: &Vec<String>, pos: usize, arg: String, tl: &TargetList, cwd: &str) -> (r: usize)
    requires
        pos <= input.len(),
        args_ok(views(input@)),
        verbose_ok(arg@),
    ensures
        (final(st)@, r as int) == sp_flag(old(st)@, views(input@), pos as int, arg@, views(tl.triples@), cwd@),
    decreases input.len() - pos, 1int,
{
    let ghost m = st@;
    let ghost inp = views(input@);
    let ghost tlv = views(tl.triples@);
    if str_eq(arg.as_str(), "--") {
        push_str(&mut st.rest_args, arg);
        let mut i = pos;
        while i < input.len()
            invariant
                pos <= i <= input.len(),
                inp == views(input@),
                views(st.rest_args@) == views(old(st).rest_args@).push("--"@) + inp.subrange(pos as int, i as int),
                st@ == (ArgsModel { rest_args: views(st.rest_args@), ..m }),
            decreases input.len() - i,
        {
            let a = input[i].clone();
            push_str(&mut st.rest_args, a);
            assert(inp.subrange(pos as int, i + 1) =~= inp.subrange(pos as int, i as int).push(inp[i as int]));
            i = i + 1;
        }
        assert(inp.subrange(pos as int, input.len() as int) =~= inp.skip(pos as int));
        return input.len();
    }
    let v = is_verbose(arg.as_str());
    if v >= 1 {
        let sum: u16 = st.verbose as u16 + v as u16;
        st.verbose = if sum >= 256 { (sum - 256) as u8 } else { sum as u8 };
        push_str(&mut st.cargo_args, arg);
        return pos;
    }
    if str_eq(arg.as_str(), "--quiet") || str_eq(arg.as_str(), "-q") {
        st.quiet = true;
        push_str(&mut st.cargo_args, arg);
        return pos;
    }
    match is_value_arg(arg.as_str(), "--color") {
        Some(ArgKind::Next) => {
            push_str(&mut st.cargo_args, arg);
            let (p, value) = next_value(st, input, pos, tl, cwd);
            match value {
                Some(x) => {
                    push_str(&mut st.cargo_args, x.clone());
                    st.color.set(FlagOption::Provided(x));
                },
                None => st.color.set(FlagOption::Missing),
            }
            return p;
        },
        Some(ArgKind::Equal) => {
            let x = value_after_equal(arg.as_str(), "--color");
            push_str(&mut st.cargo_args, arg);
            st.color.set(FlagOption::Provided(x));
            return pos;
        },
        None => {},
    }
    match is_value_arg(arg.as_str(), "--manifest-path") {
        Some(ArgKind::Next) => {
            push_str(&mut st.cargo_args, arg);
            let (p, value) = next_value(st, input, pos, tl, cwd);
            match value {
                Some(x) => {
                    let abs = absolute_path(cwd, x.as_str());
                    push_str(&mut st.cargo_args, x);
                    st.manifest_path.set(FlagOption::Provided(abs));
                },
                None => st.manifest_path.set(FlagOption::Missing),
            }
            return p;
        },
        Some(ArgKind::Equal) => {
            let x = value_after_equal(arg.as_str(), "--manifest-path");
            let abs = absolute_path(cwd, x.as_str());
            push_str(&mut st.cargo_args, arg);
            st.manifest_path.set(FlagOption::Provided(abs));
            return pos;
        },
        None => {},
    }
    match is_value_arg(arg.as_str(), "--target-dir") {
        Some(ArgKind::Next) => {
            push_str(&mut st.cargo_args, arg);
            let (p, value) = next_value(st, input, pos, tl, cwd);
            match value {
                Some(x) => {
                    let abs = absolute_path(cwd, x.as_str());
                    push_str(&mut st.cargo_args, copy_str("/target"));
                    st.target_dir.set(FlagOption::Provided(abs));
                },
                None => st.target_dir.set(FlagOption::Missing),
            }
            return p;
        },
        Some(ArgKind::Equal) => {
            let x = value_after_equal(arg.as_str(), "--target-dir");
            let abs = absolute_path(cwd, x.as_str());
            push_str(&mut st.cargo_args, copy_str("--target-dir=/target"));
            st.target_dir.set(FlagOption::Provided(abs));
            return pos;
        },
        None => {},
    }
    let kind = match is_value_arg(arg.as_str(), "--explain") {
        Some(k) => Some(k),
        None => match is_value_arg(arg.as_str(), "--config") {
            Some(k) => Some(k),
            None => is_value_arg(arg.as_str(), "-Z"),
        },
    };
    match kind {
        Some(ArgKind::Next) => {
            push_str(&mut st.cargo_args, arg);
            let (p, value) = next_value(st, input, pos, tl, cwd);
            match value {
                Some(x) => push_str(&mut st.cargo_args, x),
                None => {},
            }
            return p;
        },
        Some(ArgKind::Equal) => {
            push_str(&mut st.cargo_args, arg);
            return pos;
        },
        None => {},
    }
    match is_value_arg(arg.as_str(), "--target") {
        Some(ArgKind::Next) => {
            push_str(&mut st.cargo_args, arg);
            let (p, value) = next_value(st, input, pos, tl, cwd);
            match value {
                Some(x) => {
                    let t = Target::from(x.as_str(), tl);
                    push_str(&mut st.cargo_args, x);
                    st.target.set(FlagOption::Provided(t));
                },
                None => st.target.set(FlagOption::Missing),
            }
            return p;
        },
        Some(ArgKind::Equal) => {
            let x = value_after_equal(arg.as_str(), "--target");
            let t = Target::from(x.as_str(), tl);
            push_str(&mut st.cargo_args, arg);
            st.target.set(FlagOption::Provided(t));
            return pos;
        },
        None => {},
    }
    match is_value_arg(arg.as_str(), "--features") {
        Some(ArgKind::Next) => {
            push_str(&mut st.cargo_args, arg);
            let (p, value) = next_value(st, input, pos, tl, cwd);
            let mut cur: FlagOption<Vec<String>> = FlagOption::Unset;
            std::mem::swap(&mut cur, &mut st.features);
            match value {
                Some(x) => {
                    push_str(&mut st.cargo_args, x.clone());
                    st.features = merge_features_exec(cur, features_exec(x));
                },
                None => {
                    st.features = merge_features_exec(cur, FlagOption::Missing);
                },
            }
            return p;
        },
        Some(ArgKind::Equal) => {
            let x = value_after_equal(arg.as_str(), "--features");
            push_str(&mut st.cargo_args, arg);
            let mut cur: FlagOption<Vec<String>> = FlagOption::Unset;
            std::mem::swap(&mut cur, &mut st.features);
            st.features = merge_features_exec(cur, features_exec(x));
            return pos;
        },
        None => {},
    }
    if str_eq(arg.as_str(), "--help") || str_eq(arg.as_str(), "--list") || str_eq(arg.as_str(), "--version")
        || str_eq(arg.as_str(), "-V") {
        if st.subcommand.is_none() {
            st.subcommand = Some(Subcommand::from(arg.as_str()));
        }
        push_str(&mut st.cargo_args, arg);
        return pos;
    }
    push_str(&mut st.cargo_args, arg);
    pos
}

/// Parses the argument `arg` (see [`sp_next`]).
fn parse_next(st: &mut ArgsImpl, input: &Vec<String>, pos: usize, arg: String, tl: &TargetList, cwd: &str) -> (r: usize)
    requires
        pos <= input.len(),
        args_ok(views(input@)),
        verbose_ok(arg@),
        first_char_ascii(arg@),
    ensures
        (final(st)@, r as int) == sp_next(old(st)@, views(input@), pos as int, arg@, views(tl.triples@), cwd@),
{
    if chars_of(arg.as_str()).len() == 0 {
        return pos;
    }
    match parse_channel(arg.as_str()) {
        Some(c) => {
            st.channel = Some(c);
            return pos;
        },
        None => {},
    }
    if is_flag(arg.as_str()) {
        parse_flag(st, input, pos, arg, tl, cwd)
    } else {
        if st.subcommand.is_none() {
            st.subcommand = Some(Subcommand::from(arg.as_str()));
        }
        push_str(&mut st.cargo_args, arg);
        pos
    }
}

/// Parses the command line `input` (the arguments after the program name)
/// into its parse state, for the targets `target_list` that `rustc` knows
/// and the current directory `cwd`.
pub fn parse_args(input: &Vec<String>, target_list: &TargetList, cwd: &str) -> (r: ArgsImpl)
    requires
        args_ok(views(input@)),
    ensures
        r@ == sp_parse(views(input@), views(target_list.triples@), cwd@),
{
    let mut st = ArgsImpl::new();
    let mut pos: usize = 0;
    let ghost inp = views(input@);
    let ghost tlv = views(target_list.triples@);
    while pos < input.len()
        invariant
            pos <= input.len(),
            inp == views(input@),
            tlv == views(target_list.triples@),
            args_ok(inp),
            sp_parse(inp, tlv, cwd@) == sp_parse_from(st@, inp, pos as int, tlv, cwd@),
        decreases input.len() - pos,
    {
        let arg = input[pos].clone();
        assert(arg@ == inp[pos as int]);
        let ghost m = st@;
        proof {
            if arg@.len() > 0 && channel_of(arg@) is None && is_flag_arg(arg@) {
                lemma_pos_flag(m, inp, pos + 1, arg@, tlv, cwd@);
            }
        }
        let p = parse_next(&mut st, input, pos + 1, arg, target_list, cwd);
        pos = p;
    }
    st
}

/// The flags whose value is doubled or missing.
#[derive(Debug, Clone, Copy, PartialEq, Eq, Structural)]
pub enum ArgsError {
    Target(FlagError),
    TargetDir(FlagError),
    ManifestPath(FlagError),
    Color(FlagError),
    Features(FlagError),
}

/// Whether a flag is doubled or missing its value.
pub open spec fn flag_error<T>(f: FlagOption<T>) -> Option<FlagError> {
    match f {
        FlagOption::Double => Some(FlagError::Double),
        FlagOption::Missing => Some(FlagError::Missing),
        _ => None,
    }
}

/// The first flag of the parse state that is doubled or missing its value,
/// in the order target, target directory, manifest path, color, features.
pub open spec fn model_error(m: ArgsModel) -> Option<ArgsError> {
    if flag_error(m.target) is Some {
        Some(ArgsError::Target(flag_error(m.target)->0))
    } else if flag_error(m.target_dir) is Some {
        Some(ArgsError::TargetDir(flag_error(m.target_dir)->0))
    } else if flag_error(m.manifest_path) is Some {
        Some(ArgsError::ManifestPath(flag_error(m.manifest_path)->0))
    } else if flag_error(m.color) is Some {
        Some(ArgsError::Color(flag_error(m.color)->0))
    } else if flag_error(m.features) is Some {
        Some(ArgsError::Features(flag_error(m.features)->0))
    } else {
        None
    }
}

pub open spec fn provided_str(f: FlagOption<Seq<char>>, o: Option<String>) -> bool {
    match f {
        FlagOption::Provided(x) => o is Some && o->0@ == x,
        _ => o is None,
    }
}

/// The parsed command line `a` holds what the parse state `m` holds.
pub open spec fn args_match(a: Args, m: ArgsModel) -> bool {
    &&& views(a.cargo_args@) == m.cargo_args
    &&& views(a.rest_args@) == m.rest_args
    &&& a.subcommand == m.subcommand
    &&& (match a.channel { Some(c) => m.channel == Some(c@), None => m.channel is None })
    &&& a.verbose == m.verbose
    &&& a.quiet == m.quiet
    &&& (match m.target {
        FlagOption::Provided((t, b)) => a.target is Some && a.target->0.spec_triple() == t
            && (a.target->0 is BuiltIn) == b,
        _ => a.target is None,
    })
    &&& provided_str(m.target_dir, a.target_dir)
    &&& provided_str(m.manifest_path, a.manifest_path)
    &&& provided_str(m.color, a.color)
    &&& views(a.features@) == (match m.features { FlagOption::Provided(f) => f, _ => Seq::empty() })
}

impl ArgsImpl {
    /// The parsed command line; a doubled or missing flag value is an
    /// error (see [`model_error`]).
    pub fn into_args(self) -> (r: Result<Args, ArgsError>)
        ensures
            match r {
                Ok(a) => model_error(self@) is None && args_match(a, self@),
                Err(e) => model_error(self@) == Some(e),
            },
    {
        let target = match self.target.to_option() {
            Ok(t) => t,
            Err(e) => return Err(ArgsError::Target(e)),
        };
        let target_dir = match self.target_dir.to_option() {
            Ok(t) => t,
            Err(e) => return Err(ArgsError::TargetDir(e)),
        };
        let manifest_path = match self.manifest_path.to_option() {
            Ok(t) => t,
            Err(e) => return Err(ArgsError::ManifestPath(e)),
        };
        let color = match self.color.to_option() {
            Ok(t) => t,
            Err(e) => return Err(ArgsError::Color(e)),
        };
        let features = match self.features.to_option() {
            Ok(Some(f)) => f,
            Ok(None) => {
                let v: Vec<String> = Vec::new();
                assert(views(v@) =~= Seq::<Seq<char>>::empty());
                v
            },
            Err(e) => return Err(ArgsError::Features(e)),
        };
        Ok(Args {
            cargo_args: self.cargo_args,
            rest_args: self.rest_args,
            features,
            subcommand: self.subcommand,
            channel: self.channel,
            target,
            target_dir,
            manifest_path,
            color,
            verbose: self.verbose,
            quiet: self.quiet,
        })
    }
}

/// Parses the command line `input` into [`Args`] (see [`parse_args`] and
/// [`ArgsImpl::into_args`]).
pub fn parse(input: &Vec<String>, target_list: &TargetList, cwd: &str) -> (r: Result<Args, ArgsError>)
    requires
        args_ok(views(input@)),
    ensures
        match r {
            Ok(a) => model_error(sp_parse(views(input@), views(target_list.triples@), cwd@)) is None
                && args_match(a, sp_parse(views(input@), views(target_list.triples@), cwd@)),
            Err(e) => model_error(sp_parse(views(input@), views(target_list.triples@), cwd@)) == Some(e),
        },
{
    let st = parse_args(input, target_list, cwd);
    st.into_args()
}

/// Whether the output of `cargo --list` is a list of subcommands.
pub fn is_subcommand_list(stdout: &str) -> (r: bool)
    ensures
        r == has_prefix(stdout@, "Installed Commands:"@),
{
    starts_with(stdout, "Installed Commands:")
}

/// The lines of a list of subcommands after its heading whose first word
/// names a subcommand that `cross` handles (`cross` true) or not.
pub open spec fn grouped(ls: Seq<Seq<char>>, cross: bool) -> Seq<Seq<char>>
    decreases ls.len(),
{
    if ls.len() == 0 {
        Seq::empty()
    } else {
        let r = grouped(ls.drop_last(), cross);
        match first_word(ls.last()) {
            Some(w) => if (subcommand_of(w) != Subcommand::Other) == cross { r.push(ls.last()) } else { r },
            None => r,
        }
    }
}

/// The subcommands of `cargo --list`, split into those `cross` handles and
/// those it leaves to the host (see [`grouped`]).
pub fn group_subcommands(stdout: &str) -> (r: (Vec<String>, Vec<String>))
    ensures
        views(r.0@) == if lines_of(stdout@).len() == 0 { Seq::empty() } else { grouped(lines_of(stdout@).skip(1), true) },
        views(r.1@) == if lines_of(stdout@).len() == 0 { Seq::empty() } else { grouped(lines_of(stdout@).skip(1), false) },
{
    let ls = lines(stdout);
    let ghost all = crate::text::char_views(ls@);
    let ghost body = all.skip(1);
    let mut cross: Vec<String> = Vec::new();
    let mut host: Vec<String> = Vec::new();
    if ls.len() == 0 {
        assert(views(cross@) =~= Seq::<Seq<char>>::empty());
        assert(views(host@) =~= Seq::<Seq<char>>::empty());
        return (cross, host);
    }
    let mut i: usize = 1;
    assert(body.take(0) == Seq::<Seq<char>>::empty());
    while i < ls.len()
        invariant
            1 <= i <= ls.len(),
            all == crate::text::char_views(ls@),
            body == all.skip(1),
            views(cross@) == grouped(body.take(i - 1), true),
            views(host@) == grouped(body.take(i - 1), false),
        decreases ls.len() - i,
    {
        assert(body.take(i as int).drop_last() == body.take(i - 1));
        assert(body.take(i as int).last() == ls@[i as int]@);
        let line = string_of(&ls[i]);
        match first_word_of(ls[i].as_slice()) {
            Some(w) => {
                let ws = string_of(&w);
                let sc = Subcommand::from(ws.as_str());
                if sc == Subcommand::Other {
                    let ghost before = host@;
                    host.push(line);
                    assert(views(host@) =~= views(before).push(ls@[i as int]@));
                } else {
                    let ghost before = cross@;
                    cross.push(line);
                    assert(views(cross@) =~= views(before).push(ls@[i as int]@));
                }
            },
            None => {},
        }
        i = i + 1;
    }
    assert(body.take(ls.len() - 1) == body);
    (cross, host)
}

/// A flag that asks `cross` to be quiet.
pub open spec fn is_quiet_flag(a: Seq<char>) -> bool {
    a == "-q"@ || a == "--quiet"@
}

proof fn lemma_quiet_flag(m: ArgsModel, inp: Seq<Seq<char>>, pos: int, arg: Seq<char>, tl: Seq<Seq<char>>, cwd: Seq<char>)
    requires
        0 <= pos <= inp.len(),
        is_quiet_flag(arg),
    ensures
        sp_flag(m, inp, pos, arg, tl, cwd).0.quiet,
        is_flag_arg(arg),
        channel_of(arg) is None,
{
    reveal_strlit("-q");
    reveal_strlit("--quiet");
    reveal_strlit("--");
    reveal_strlit("--verbose");
    assert(arg != "--"@ && arg != "--verbose"@ && !is_v_run(arg)) by {
        if arg == "-q"@ {
            assert(arg[1] == 'q');
        } else {
            assert(arg[1] == '-' && arg.len() == 7);
        }
    }
}

proof fn lemma_keep_value(m: ArgsModel, inp: Seq<Seq<char>>, pos: int, tl: Seq<Seq<char>>, cwd: Seq<char>)
    requires
        m.quiet,
    ensures
        sp_value(m, inp, pos, tl, cwd).0.quiet,
    decreases inp.len() - pos, 0int,
{
    if 0 <= pos < inp.len() && is_flag_arg(inp[pos]) {
        lemma_keep_flag(m, inp, pos + 1, inp[pos], tl, cwd);
    }
}

proof fn lemma_keep_flag(m: ArgsModel, inp: Seq<Seq<char>>, pos: int, arg: Seq<char>, tl: Seq<Seq<char>>, cwd: Seq<char>)
    requires
        m.quiet,
    ensures
        sp_flag(m, inp, pos, arg, tl, cwd).0.quiet,
    decreases inp.len() - pos, 1int,
{
    if 0 <= pos <= inp.len() {
        lemma_keep_value(push_arg(m, arg), inp, pos, tl, cwd);
    }
}

proof fn lemma_keep_parse(m: ArgsModel, inp: Seq<Seq<char>>, pos: int, tl: Seq<Seq<char>>, cwd: Seq<char>)
    requires
        m.quiet,
    ensures
        sp_parse_from(m, inp, pos, tl, cwd).quiet,
    decreases inp.len() - pos,
{
    if 0 <= pos < inp.len() {
        let arg = inp[pos];
        if arg.len() > 0 && channel_of(arg) is None && is_flag_arg(arg) {
            lemma_keep_flag(m, inp, pos + 1, arg, tl, cwd);
        }
        let r = sp_next(m, inp, pos + 1, arg, tl, cwd);
        if r.1 > pos && r.1 <= inp.len() {
            lemma_keep_parse(r.0, inp, r.1, tl, cwd);
        }
    }
}

/// No `--` among the arguments from `pos` up to `i`.
pub open spec fn no_double_dash(inp: Seq<Seq<char>>, pos: int, i: int) -> bool {
    forall|j: int| pos <= j < i ==> inp[j] != "--"@
}

proof fn lemma_consume_value(m: ArgsModel, inp: Seq<Seq<char>>, pos: int, i: int, tl: Seq<Seq<char>>, cwd: Seq<char>)
    requires
        0 <= pos <= i < inp.len(),
        is_quiet_flag(inp[i]),
        no_double_dash(inp, pos, i),
    ensures
        sp_value(m, inp, pos, tl, cwd).1 > i ==> sp_value(m, inp, pos, tl, cwd).0.quiet,
    decreases inp.len() - pos, 0int,
{
    if is_flag_arg(inp[pos]) {
        if pos == i {
            lemma_quiet_flag(m, inp, pos + 1, inp[pos], tl, cwd);
        } else {
            lemma_consume_flag(m, inp, pos + 1, inp[pos], i, tl, cwd);
        }
    } else {
        if pos == i {
            lemma_quiet_flag(m, inp, pos + 1, inp[pos], tl, cwd);
        }
    }
}

proof fn lemma_consume_flag(
    m: ArgsModel,
    inp: Seq<Seq<char>>,
    pos: int,
    arg: Seq<char>,
    i: int,
    tl: Seq<Seq<char>>,
    cwd: Seq<char>,
)
    requires
        0 <= pos <= i < inp.len(),
        arg != "--"@,
        is_quiet_flag(inp[i]),
        no_double_dash(inp, pos, i),
    ensures
        sp_flag(m, inp, pos, arg, tl, cwd).1 > i ==> sp_flag(m, inp, pos, arg, tl, cwd).0.quiet,
    decreases inp.len() - pos, 1int,
{
    lemma_consume_value(push_arg(m, arg), inp, pos, i, tl, cwd);
}

proof fn lemma_reach_quiet(m: ArgsModel, inp: Seq<Seq<char>>, pos: int, i: int, tl: Seq<Seq<char>>, cwd: Seq<char>)
    requires
        0 <= pos <= i < inp.len(),
        is_quiet_flag(inp[i]),
        no_double_dash(inp, pos, i),
    ensures
        sp_parse_from(m, inp, pos, tl, cwd).quiet,
    decreases inp.len() - pos,
{
    let arg = inp[pos];
    let r = sp_next(m, inp, pos + 1, arg, tl, cwd);
    if arg.len() > 0 && channel_of(arg) is None && is_flag_arg(arg) {
        lemma_pos_flag(m, inp, pos + 1, arg, tl, cwd);
    }
    if pos == i {
        lemma_quiet_flag(m, inp, pos + 1, arg, tl, cwd);
        lemma_keep_parse(r.0, inp, r.1, tl, cwd);
    } else {
        if arg.len() > 0 && channel_of(arg) is None && is_flag_arg(arg) {
            lemma_consume_flag(m, inp, pos + 1, arg, i, tl, cwd);
        }
        if r.1 > i {
            lemma_keep_parse(r.0, inp, r.1, tl, cwd);
        } else {
            lemma_reach_quiet(r.0, inp, r.1, i, tl, cwd);
        }
    }
}

/// `-q` or `--quiet` anywhere before a `--` makes `cross` quiet, whatever
/// else the command line holds: as a flag of its own, or where a flag
/// waited for a value.
pub proof fn quiet_flag_makes_quiet(inp: Seq<Seq<char>>, i: int, tl: Seq<Seq<char>>, cwd: Seq<char>)
    requires
        0 <= i < inp.len(),
        is_quiet_flag(inp[i]),
        no_double_dash(inp, 0, i),
    ensures
        sp_parse(inp, tl, cwd).quiet,
{
    lemma_reach_quiet(empty_model(), inp, 0, i, tl, cwd);
}

/// `-v` and `--verbose` make `cross` one step more verbose, `-vv` two
/// (counted modulo 256); the flag is passed on to cargo and leaves
/// quietness as it was.
pub proof fn verbose_flags_count(m: ArgsModel, inp: Seq<Seq<char>>, pos: int, arg: Seq<char>, tl: Seq<Seq<char>>, cwd: Seq<char>)
    requires
        0 <= pos <= inp.len(),
        arg == "-v"@ || arg == "--verbose"@ || arg == "-vv"@,
    ensures
        sp_flag(m, inp, pos, arg, tl, cwd).0.verbose == (m.verbose + if arg == "-vv"@ { 2int } else { 1int }) % 256,
        sp_flag(m, inp, pos, arg, tl, cwd).0.quiet == m.quiet,
        sp_flag(m, inp, pos, arg, tl, cwd).0.cargo_args == m.cargo_args.push(arg),
        sp_flag(m, inp, pos, arg, tl, cwd).1 == pos,
{
    reveal_strlit("-v");
    reveal_strlit("-vv");
    reveal_strlit("--verbose");
    reveal_strlit("--");
    if arg == "-v"@ {
        assert(arg.len() == 2 && arg[1] == 'v');
        assert(is_v_run(arg));
    } else if arg == "-vv"@ {
        assert(arg.len() == 3 && arg[1] == 'v' && arg[2] == 'v');
        assert(is_v_run(arg));
        assert(arg != "-v"@);
    } else {
        assert(arg.len() == 9);
    }
}

} // verus!
