//! The configuration of `cross`: environment variables over `Cross.toml`.

use vstd::prelude::*;
use vstd::string::StringExecFns;
use crate::cross_toml::{
    BuildStd, CrossToml, CrossTargetConfig, CrossBuildConfig, field_of, opt_pairs_view, pairs_view, pair_lookup,
    build_args_of,
};
use crate::docker::custom::PreBuild;
use crate::docker::image::{
    ImagePlatform, PossibleImage, ImageReference, PlatformError, Architecture, Os, reference_kind, target_platform,
    triple_from, named_platform, general_platform, lemma_named_platform, same_opt_image,
};
use crate::cross_toml::{same_build_std, same_pre_build, duplicate_pre_build, opt_merge_of, same_target};
use crate::target::is_named_triple;
use crate::rustc::TargetList;
use crate::shell::{MessageInfo, opt_view};
use crate::target::{Target, TargetTriple};
use crate::text::{
    chars_of, str_eq, is_digit, views, split_on, split_str, split_whitespace, words_of, starts_with, has_prefix,
    trim, trim_chars, string_of, copy_str, copy_strings, lowercase_of, to_lowercase, push_char,
};

verus! {

broadcast use vstd::string::group_string_axioms;

/// A setting as given for all targets (`build`) and for one target
/// (`target`).
#[derive(Debug, PartialEq, Eq)]
pub struct ConfVal<T> {
    pub build: Option<T>,
    pub target: Option<T>,
}

impl<T> ConfVal<T> {
    pub fn new(build: Option<T>, target: Option<T>) -> (r: ConfVal<T>)
        ensures
            r.build == build,
            r.target == target,
    {
        ConfVal { build, target }
    }

    /// Applies `f` to both values.
    pub fn map<U, F: Fn(T) -> U>(self, f: F) -> (r: ConfVal<U>)
        requires
            self.build is Some ==> f.requires((self.build->0,)),
            self.target is Some ==> f.requires((self.target->0,)),
        ensures
            match self.build {
                Some(b) => r.build is Some && f.ensures((b,), r.build->0),
                None => r.build is None,
            },
            match self.target {
                Some(t) => r.target is Some && f.ensures((t,), r.target->0),
                None => r.target is None,
            },
    {
        let build = match self.build {
            Some(b) => Some(f(b)),
            None => None,
        };
        let target = match self.target {
            Some(t) => Some(f(t)),
            None => None,
        };
        ConfVal { build, target }
    }
}

/// The value of a string of decimal digits.
pub open spec fn digits_value(s: Seq<char>) -> int
    decreases s.len(),
{
    if s.len() == 0 {
        0
    } else {
        digits_value(s.drop_last()) * 10 + (s.last() as int - '0' as int)
    }
}

pub open spec fn all_digits(s: Seq<char>) -> bool {
    forall|i: int| 0 <= i < s.len() ==> is_digit(s[i])
}

/// The sign and the digits of a number.
pub open spec fn sign_of(s: Seq<char>) -> (bool, Seq<char>) {
    if s.len() > 0 && s[0] == '-' {
        (true, s.drop_first())
    } else if s.len() > 0 && s[0] == '+' {
        (false, s.drop_first())
    } else {
        (false, s)
    }
}

/// The `i32` that `str::parse::<i32>` reads from `s`, if any: an optional
/// sign and at least one decimal digit, in range.
pub open spec fn parse_i32(s: Seq<char>) -> Option<int> {
    let neg = sign_of(s).0;
    let digits = sign_of(s).1;
    let v = if neg { -digits_value(digits) } else { digits_value(digits) };
    if digits.len() > 0 && all_digits(digits) && i32::MIN <= v <= i32::MAX {
        Some(v)
    } else {
        None
    }
}

/// What an environment variable says as a boolean: `true`/`false`, or an
/// integer that is true when non-zero.
pub open spec fn try_bool_of(s: Seq<char>) -> Option<bool> {
    if s == "true"@ {
        Some(true)
    } else if s == "false"@ {
        Some(false)
    } else {
        match parse_i32(s) {
            Some(v) => Some(v != 0),
            None => None,
        }
    }
}

/// What an environment variable says as a boolean; a value that is neither
/// a boolean nor an integer is true when non-empty.
pub open spec fn bool_of(s: Seq<char>) -> bool {
    match try_bool_of(s) {
        Some(b) => b,
        None => s.len() != 0,
    }
}

pub(crate) proof fn lemma_digits_value_nonneg(s: Seq<char>)
    requires
        all_digits(s),
    ensures
        digits_value(s) >= 0,
    decreases s.len(),
{
    if s.len() > 0 {
        lemma_digits_value_nonneg(s.drop_last());
    }
}

pub(crate) proof fn lemma_digits_value_mono(s: Seq<char>, k: int)
    requires
        all_digits(s),
        0 <= k <= s.len(),
    ensures
        digits_value(s.take(k)) <= digits_value(s),
    decreases s.len() - k,
{
    if k < s.len() {
        lemma_digits_value_mono(s, k + 1);
        assert(s.take(k + 1).drop_last() == s.take(k));
        lemma_digits_value_nonneg(s.take(k));
        assert(all_digits(s.take(k)));
    } else {
        assert(s.take(k) == s);
    }
}

/// Reads the `i32` of `s` (see [`parse_i32`]).
pub fn parse_i32_exec(s: &str) -> (r: Option<i32>)
    ensures
        match r {
            Some(v) => parse_i32(s@) == Some(v as int),
            None => parse_i32(s@) is None,
        },
{
    let v = chars_of(s);
    let mut start: usize = 0;
    let mut neg = false;
    if v.len() > 0 && v[0] == '-' {
        start = 1;
        neg = true;
    } else if v.len() > 0 && v[0] == '+' {
        start = 1;
    }
    let ghost digits = sign_of(s@).1;
    assert(neg == sign_of(s@).0);
    assert(digits =~= s@.skip(start as int));
    if start >= v.len() {
        return None;
    }
    let mut acc: i64 = 0;
    let mut i: usize = start;
    assert(digits.take(0) =~= Seq::<char>::empty());
    while i < v.len()
        invariant
            start <= i <= v.len(),
            v@ == s@,
            digits == v@.skip(start as int),
            digits == sign_of(s@).1,
            all_digits(digits.take(i - start)),
            acc == digits_value(digits.take(i - start)),
            0 <= acc <= 2147483648,
        decreases v.len() - i,
    {
        let c = v[i];
        if !('0' <= c && c <= '9') {
            assert(!all_digits(digits)) by {
                assert(digits[i - start] == c);
            }
            assert(parse_i32(s@) is None);
            return None;
        }
        let d = (c as u32 - '0' as u32) as i64;
        let next = acc * 10 + d;
        assert(digits.take(i + 1 - start).drop_last() == digits.take(i - start));
        assert(all_digits(digits.take(i + 1 - start)));
        if next > 2147483648 {
            proof {
                assert(digits_value(digits.take(i + 1 - start)) == next);
                if all_digits(digits) {
                    lemma_digits_value_mono(digits, i + 1 - start);
                }
            }
            assert(parse_i32(s@) is None);
            return None;
        }
        acc = next;
        i = i + 1;
    }
    assert(digits.take(v.len() - start) == digits);
    if neg {
        Some((0 - acc) as i32)
    } else if acc <= 2147483647 {
        Some(acc as i32)
    } else {
        None
    }
}

/// What an environment variable says as a boolean, if anything.
pub fn try_bool_from_envvar(envvar: &str) -> (r: Option<bool>)
    ensures
        r == try_bool_of(envvar@),
{
    if str_eq(envvar, "true") {
        Some(true)
    } else if str_eq(envvar, "false") {
        Some(false)
    } else {
        match parse_i32_exec(envvar) {
            Some(v) => Some(v != 0),
            None => None,
        }
    }
}

/// What an environment variable says as a boolean.
pub fn bool_from_envvar(envvar: &str) -> (r: bool)
    ensures
        r == bool_of(envvar@),
{
    match try_bool_from_envvar(envvar) {
        Some(b) => b,
        None => chars_of(envvar).len() != 0,
    }
}

/// The character of a variable name for a character of a key: ASCII
/// letters uppercased, `-` made `_`.
pub open spec fn var_char(c: char) -> char {
    if 'a' <= c && c <= 'z' {
        ((c as u32) - 32) as char
    } else if c == '-' {
        '_'
    } else {
        c
    }
}

/// The environment variable of `cross` for a key: `CROSS_` and the key in
/// uppercase, with `_` for `-`.
pub open spec fn var_name_of(key: Seq<char>) -> Seq<char> {
    "CROSS_"@ + key.map_values(|c: char| var_char(c))
}

/// The key of a setting for all targets: prefixed by `BUILD_` unless it
/// already is.
pub open spec fn build_path_of(key: Seq<char>) -> Seq<char> {
    if has_prefix(key, "BUILD_"@) {
        key
    } else {
        "BUILD_"@ + key
    }
}

/// The key of a setting for one target.
pub open spec fn target_path_of(triple: Seq<char>, key: Seq<char>) -> Seq<char> {
    "TARGET_"@ + triple + "_"@ + key
}

/// The environment `cross` reads its settings from: pairs of a variable's
/// name and value, the first pair of a name giving its value.
#[derive(Debug, Clone)]
pub struct Environment {
    pub vars: Vec<(String, String)>,
}

/// The character of a variable name for a character of a key.
pub(crate) fn var_char_exec(c: char) -> (r: char)
    ensures
        r == var_char(c),
{
    if 'a' <= c && c <= 'z' {
        let b: u8 = (c as u8) - 32;
        b as char
    } else if c == '-' {
        '_'
    } else {
        c
    }
}

impl Environment {
    pub fn new(vars: Vec<(String, String)>) -> (r: Environment)
        ensures
            r.vars == vars,
    {
        Environment { vars }
    }

    /// The value of a variable.
    pub open spec fn spec_var(&self, name: Seq<char>) -> Option<Seq<char>> {
        pair_lookup(pairs_view(self.vars@), name)
    }

    /// The value of the variable of a setting for all targets.
    pub open spec fn spec_build_var(&self, key: Seq<char>) -> Option<Seq<char>> {
        self.spec_var(var_name_of(build_path_of(key)))
    }

    /// The value of the variable of a setting for the target `triple`.
    pub open spec fn spec_target_var(&self, triple: Seq<char>, key: Seq<char>) -> Option<Seq<char>> {
        self.spec_var(var_name_of(target_path_of(triple, key)))
    }

    /// The variable of `cross` for a key (see [`var_name_of`]).
    pub fn build_var_name(&self, name: &str) -> (r: String)
        ensures
            r@ == var_name_of(name@),
    {
        let v = chars_of(name);
        let mut r = String::from_str("CROSS_");
        let ghost start = r@;
        let mut i: usize = 0;
        while i < v.len()
            invariant
                i <= v.len(),
                start == "CROSS_"@,
                r@ == start + v@.take(i as int).map_values(|c: char| var_char(c)),
            decreases v.len() - i,
        {
            push_char(&mut r, var_char_exec(v[i]));
            assert(v@.take(i + 1).map_values(|c: char| var_char(c))
                =~= v@.take(i as int).map_values(|c: char| var_char(c)).push(var_char(v@[i as int])));
            i = i + 1;
        }
        assert(v@.take(v.len() as int) == v@);
        r
    }

    /// The value of a variable.
    pub fn get_var(&self, name: &str) -> (r: Option<String>)
        ensures
            opt_view(r) == self.spec_var(name@),
    {
        let ghost ps = pairs_view(self.vars@);
        let mut i: usize = 0;
        assert(ps.skip(0) == ps);
        while i < self.vars.len()
            invariant
                i <= self.vars.len(),
                ps == pairs_view(self.vars@),
                pair_lookup(ps, name@) == pair_lookup(ps.skip(i as int), name@),
            decreases self.vars.len() - i,
        {
            assert(ps.skip(i as int)[0] == ps[i as int]);
            assert(ps.skip(i as int).drop_first() == ps.skip(i + 1));
            if str_eq(self.vars[i].0.as_str(), name) {
                return Some(self.vars[i].1.clone());
            }
            i = i + 1;
        }
        None
    }

    /// The key of a setting for all targets (see [`build_path_of`]).
    pub fn build_path(key: &str) -> (r: String)
        ensures
            r@ == build_path_of(key@),
    {
        if starts_with(key, "BUILD_") {
            copy_str(key)
        } else {
            let mut r = String::from_str("BUILD_");
            r.append(key);
            r
        }
    }

    /// The key of a setting for one target (see [`target_path_of`]).
    pub fn target_path(target: &Target, key: &str) -> (r: String)
        ensures
            r@ == target_path_of(target.spec_triple(), key@),
    {
        let mut r = String::from_str("TARGET_");
        r.append(target.triple());
        r.append("_");
        r.append(key);
        r
    }

    /// The value of the variable of a setting for all targets.
    pub fn get_build_var(&self, key: &str) -> (r: Option<String>)
        ensures
            opt_view(r) == self.spec_build_var(key@),
    {
        let path = Environment::build_path(key);
        let name = self.build_var_name(path.as_str());
        self.get_var(name.as_str())
    }

    /// The value of the variable of a setting for one target.
    pub fn get_target_var(&self, target: &Target, key: &str) -> (r: Option<String>)
        ensures
            opt_view(r) == self.spec_target_var(target.spec_triple(), key@),
    {
        let path = Environment::target_path(target, key);
        let name = self.build_var_name(path.as_str());
        self.get_var(name.as_str())
    }

    /// The variables of a flag for all targets and for `target`.
    pub fn xargo(&self, target: &Target) -> (r: ConfVal<bool>)
        ensures
            r.build == opt_bool(self.spec_build_var("XARGO"@)),
            r.target == opt_bool(self.spec_target_var(target.spec_triple(), "XARGO"@)),
    {
        self.bool_values("XARGO", target)
    }

    pub fn zig(&self, target: &Target) -> (r: ConfVal<bool>)
        ensures
            r.build == opt_bool(self.spec_build_var("ZIG"@)),
            r.target == opt_bool(self.spec_target_var(target.spec_triple(), "ZIG"@)),
    {
        self.bool_values("ZIG", target)
    }

    fn bool_values(&self, key: &str, target: &Target) -> (r: ConfVal<bool>)
        ensures
            r.build == opt_bool(self.spec_build_var(key@)),
            r.target == opt_bool(self.spec_target_var(target.spec_triple(), key@)),
    {
        let build = match self.get_build_var(key) {
            Some(v) => Some(bool_from_envvar(v.as_str())),
            None => None,
        };
        let t = match self.get_target_var(target, key) {
            Some(v) => Some(bool_from_envvar(v.as_str())),
            None => None,
        };
        ConfVal::new(build, t)
    }

    fn string_values(&self, key: &str, target: &Target) -> (r: ConfVal<String>)
        ensures
            opt_view(r.build) == self.spec_build_var(key@),
            opt_view(r.target) == self.spec_target_var(target.spec_triple(), key@),
    {
        ConfVal::new(self.get_build_var(key), self.get_target_var(target, key))
    }

    pub fn zig_version(&self, target: &Target) -> (r: ConfVal<String>)
        ensures
            opt_view(r.build) == self.spec_build_var("ZIG_VERSION"@),
            opt_view(r.target) == self.spec_target_var(target.spec_triple(), "ZIG_VERSION"@),
    {
        self.string_values("ZIG_VERSION", target)
    }

    pub fn dockerfile(&self, target: &Target) -> (r: ConfVal<String>)
        ensures
            opt_view(r.build) == self.spec_build_var("DOCKERFILE"@),
            opt_view(r.target) == self.spec_target_var(target.spec_triple(), "DOCKERFILE"@),
    {
        self.string_values("DOCKERFILE", target)
    }

    pub fn dockerfile_context(&self, target: &Target) -> (r: ConfVal<String>)
        ensures
            opt_view(r.build) == self.spec_build_var("DOCKERFILE_CONTEXT"@),
            opt_view(r.target) == self.spec_target_var(target.spec_triple(), "DOCKERFILE_CONTEXT"@),
    {
        self.string_values("DOCKERFILE_CONTEXT", target)
    }

    /// How the standard library is built, for all targets and for `target`
    /// (see [`build_std_from_env`]).
    pub fn build_std(&self, target: &Target) -> (r: ConfVal<BuildStd>)
        ensures
            opt_rel(self.spec_build_var("BUILD_STD"@), r.build, |s: Seq<char>, b: BuildStd| build_std_from_env(s, b)),
            opt_rel(self.spec_target_var(target.spec_triple(), "BUILD_STD"@), r.target,
                |s: Seq<char>, b: BuildStd| build_std_from_env(s, b)),
    {
        let build = match self.get_build_var("BUILD_STD") {
            Some(v) => Some(build_std_of_var(v.as_str())),
            None => None,
        };
        let t = match self.get_target_var(target, "BUILD_STD") {
            Some(v) => Some(build_std_of_var(v.as_str())),
            None => None,
        };
        ConfVal::new(build, t)
    }

    /// The pre-build commands, for all targets and for `target` (see
    /// [`pre_build_from_env`]).
    pub fn pre_build(&self, target: &Target) -> (r: ConfVal<PreBuild>)
        ensures
            opt_rel(self.spec_build_var("PRE_BUILD"@), r.build, |s: Seq<char>, p: PreBuild| pre_build_from_env(s, p)),
            opt_rel(self.spec_target_var(target.spec_triple(), "PRE_BUILD"@), r.target,
                |s: Seq<char>, p: PreBuild| pre_build_from_env(s, p)),
    {
        let build = match self.get_build_var("PRE_BUILD") {
            Some(v) => Some(pre_build_of_var(v.as_str())),
            None => None,
        };
        let t = match self.get_target_var(target, "PRE_BUILD") {
            Some(v) => Some(pre_build_of_var(v.as_str())),
            None => None,
        };
        ConfVal::new(build, t)
    }

    /// The runner of `target`.
    pub fn runner(&self, target: &Target) -> (r: Option<String>)
        ensures
            opt_view(r) == self.spec_target_var(target.spec_triple(), "RUNNER"@),
    {
        self.get_target_var(target, "RUNNER")
    }

    fn words_values(&self, key: &str, target: &Target) -> (r: ConfVal<Vec<String>>)
        ensures
            opt_words(r.build) == opt_map_words(self.spec_build_var(key@)),
            opt_words(r.target) == opt_map_words(self.spec_target_var(target.spec_triple(), key@)),
    {
        let build = match self.get_build_var(key) {
            Some(v) => Some(split_whitespace(v.as_str())),
            None => None,
        };
        let t = match self.get_target_var(target, key) {
            Some(v) => Some(split_whitespace(v.as_str())),
            None => None,
        };
        ConfVal::new(build, t)
    }

    /// The variables to pass through, for all targets and for `target`:
    /// the whitespace-separated words of the variables' values.
    pub fn passthrough(&self, target: &Target) -> (r: ConfVal<Vec<String>>)
        ensures
            opt_words(r.build) == opt_map_words(self.spec_build_var("ENV_PASSTHROUGH"@)),
            opt_words(r.target) == opt_map_words(self.spec_target_var(target.spec_triple(), "ENV_PASSTHROUGH"@)),
    {
        self.words_values("ENV_PASSTHROUGH", target)
    }

    /// The volumes to mount, for all targets and for `target`.
    pub fn volumes(&self, target: &Target) -> (r: ConfVal<Vec<String>>)
        ensures
            opt_words(r.build) == opt_map_words(self.spec_build_var("ENV_VOLUMES"@)),
            opt_words(r.target) == opt_map_words(self.spec_target_var(target.spec_triple(), "ENV_VOLUMES"@)),
    {
        self.words_values("ENV_VOLUMES", target)
    }

    /// The target to build: `CROSS_BUILD_TARGET`, else `CARGO_BUILD_TARGET`.
    pub fn target(&self) -> (r: Option<String>)
        ensures
            opt_view(r) == match self.spec_build_var("TARGET"@) {
                Some(v) => Some(v),
                None => self.spec_var("CARGO_BUILD_TARGET"@),
            },
    {
        match self.get_build_var("TARGET") {
            Some(v) => Some(v),
            None => self.get_var("CARGO_BUILD_TARGET"),
        }
    }

    /// Whether doctests are run, where the environment says.
    pub fn doctests(&self) -> (r: Option<bool>)
        ensures
            r == opt_bool(self.spec_var("CROSS_UNSTABLE_ENABLE_DOCTESTS"@)),
    {
        match self.get_var("CROSS_UNSTABLE_ENABLE_DOCTESTS") {
            Some(v) => Some(bool_from_envvar(v.as_str())),
            None => None,
        }
    }

    /// Whether the toolchain is a custom one.
    pub fn custom_toolchain(&self) -> (r: bool)
        ensures
            r == match self.spec_var("CROSS_CUSTOM_TOOLCHAIN"@) {
                Some(v) => bool_of(v),
                None => false,
            },
    {
        match self.get_var("CROSS_CUSTOM_TOOLCHAIN") {
            Some(v) => bool_from_envvar(v.as_str()),
            None => false,
        }
    }

    /// The toolchain a custom toolchain is compatible with.
    pub fn custom_toolchain_compat(&self) -> (r: Option<String>)
        ensures
            opt_view(r) == self.spec_var("CUSTOM_TOOLCHAIN_COMPAT"@),
    {
        self.get_var("CUSTOM_TOOLCHAIN_COMPAT")
    }

    /// Extra options for building images.
    pub fn build_opts(&self) -> (r: Option<String>)
        ensures
            opt_view(r) == self.spec_var("CROSS_BUILD_OPTS"@),
    {
        self.get_var("CROSS_BUILD_OPTS")
    }
}

/// What an optional variable says as a flag.
pub open spec fn opt_bool(v: Option<Seq<char>>) -> Option<bool> {
    match v {
        Some(s) => Some(bool_of(s)),
        None => None,
    }
}

/// Both absent, or both given and related by `f`.
pub open spec fn opt_rel<A, B>(a: Option<A>, b: Option<B>, f: spec_fn(A, B) -> bool) -> bool {
    match (a, b) {
        (Some(x), Some(y)) => f(x, y),
        (None, None) => true,
        _ => false,
    }
}

/// The words of an optional value.
pub open spec fn opt_map_words(v: Option<Seq<char>>) -> Option<Seq<Seq<char>>> {
    match v {
        Some(s) => Some(words_of(s)),
        None => None,
    }
}

/// An optional list of strings, as character sequences.
pub open spec fn opt_words(v: Option<Vec<String>>) -> Option<Seq<Seq<char>>> {
    match v {
        Some(v) => Some(views(v@)),
        None => None,
    }
}

/// How the standard library is built by a variable's value: a boolean or
/// integer is a flag, anything else names the crates, separated by `,`.
pub open spec fn build_std_from_env(s: Seq<char>, b: BuildStd) -> bool {
    match try_bool_of(s) {
        Some(v) => b == BuildStd::Bool(v),
        None => b is Crates && views(b->Crates_0@) == split_on(s, ','),
    }
}

/// The pre-build commands of a variable's value: one line is a single
/// command from the environment, several lines are commands of their own.
pub open spec fn pre_build_from_env(s: Seq<char>, p: PreBuild) -> bool {
    let lines = split_on(s, '\n');
    if lines.len() == 1 {
        p matches PreBuild::Single { line, env } && line@ == s && env
    } else {
        p is Lines && views(p->Lines_0@) == lines
    }
}

fn build_std_of_var(v: &str) -> (r: BuildStd)
    ensures
        build_std_from_env(v@, r),
{
    match try_bool_from_envvar(v) {
        Some(b) => BuildStd::Bool(b),
        None => BuildStd::Crates(split_str(v, ',')),
    }
}

fn pre_build_of_var(v: &str) -> (r: PreBuild)
    ensures
        pre_build_from_env(v@, r),
{
    let lines = split_str(v, '\n');
    if lines.len() == 1 {
        PreBuild::Single { line: copy_str(v), env: true }
    } else {
        PreBuild::Lines(lines)
    }
}

/// The platform of a toolchain triple: fixed for a named host, else read
/// from the triple's parts.
pub open spec fn str_platform(s: Seq<char>) -> Result<(Architecture, Os, Option<Seq<char>>), PlatformError> {
    if is_named_triple(s) {
        let n = named_platform(s);
        Ok((n.0, n.1, None))
    } else {
        general_platform(s)
    }
}

/// The first error among the platforms of the (trimmed) toolchains.
pub open spec fn platforms_error(parts: Seq<Seq<char>>) -> Option<PlatformError>
    decreases parts.len(),
{
    if parts.len() == 0 {
        None
    } else {
        match str_platform(trim(parts[0])) {
            Err(e) => Some(e),
            Ok(_) => platforms_error(parts.drop_first()),
        }
    }
}

/// `ps` are the platforms of the (trimmed) toolchains `parts`.
pub open spec fn platforms_from(parts: Seq<Seq<char>>, ps: Seq<ImagePlatform>) -> bool {
    &&& ps.len() == parts.len()
    &&& forall|i: int| 0 <= i < parts.len() ==> triple_from((#[trigger] ps[i]).target, trim(parts[i]))
        && str_platform(trim(parts[i])) == Ok::<_, PlatformError>(ps[i].spec_parts())
}

/// The image that variables give: its reference read from `image`, and,
/// where `toolchain` is given, the platforms of its comma-separated
/// toolchains; the first toolchain without a platform is an error.
pub open spec fn image_from_env(image: Seq<char>, toolchain: Option<Seq<char>>, r: Result<PossibleImage, PlatformError>) -> bool {
    let named = r is Ok && r->Ok_0.reference.spec_get() == image && r->Ok_0.reference.spec_kind() == reference_kind(image);
    match toolchain {
        None => named && r->Ok_0.toolchain@.len() == 0,
        Some(t) => match platforms_error(split_on(t, ',')) {
            Some(e) => r == Err::<PossibleImage, PlatformError>(e),
            None => named && platforms_from(split_on(t, ','), r->Ok_0.toolchain@),
        },
    }
}

/// The platforms of a comma-separated list of toolchains.
fn platforms_of(t: &str) -> (r: Result<Vec<ImagePlatform>, PlatformError>)
    ensures
        match r {
            Ok(ps) => platforms_error(split_on(t@, ',')) is None && platforms_from(split_on(t@, ','), ps@),
            Err(e) => platforms_error(split_on(t@, ',')) == Some(e),
        },
{
    let parts = split_str(t, ',');
    let ghost pv = views(parts@);
    let mut ps: Vec<ImagePlatform> = Vec::new();
    let mut i: usize = 0;
    assert(pv.skip(0) == pv);
    while i < parts.len()
        invariant
            i <= parts.len(),
            pv == views(parts@),
            pv == split_on(t@, ','),
            platforms_error(pv) == platforms_error(pv.skip(i as int)),
            platforms_from(pv.take(i as int), ps@),
        decreases parts.len() - i,
    {
        assert(pv.skip(i as int)[0] == pv[i as int]);
        assert(pv.skip(i as int).drop_first() == pv.skip(i + 1));
        let pc = chars_of(parts[i].as_str());
        let trimmed = string_of(&trim_chars(pc.as_slice()));
        let tt = TargetTriple::from(trimmed.as_str());
        proof {
            if !(tt is Other) {
                lemma_named_platform(tt);
            }
        }
        match ImagePlatform::from_target(tt) {
            Ok(p) => {
                let ghost before = ps@;
                ps.push(p);
                assert(pv.take(i + 1).drop_last() == pv.take(i as int));
                assert forall|k: int| 0 <= k < i + 1 implies triple_from((#[trigger] ps@[k]).target, trim(pv.take(i + 1)[k]))
                    && str_platform(trim(pv.take(i + 1)[k])) == Ok::<_, PlatformError>(ps@[k].spec_parts()) by {
                    if k < i {
                        assert(ps@[k] == before[k]);
                        assert(pv.take(i + 1)[k] == pv.take(i as int)[k]);
                    }
                }
            },
            Err(e) => return Err(e),
        }
        i = i + 1;
    }
    assert(pv.take(parts.len() as int) == pv);
    Ok(ps)
}

/// The image that variables give (see [`image_from_env`]).
fn possible_image_of(image: String, toolchain: Option<String>) -> (r: Result<PossibleImage, PlatformError>)
    ensures
        image_from_env(image@, opt_view(toolchain), r),
{
    let reference = ImageReference::from_string(image);
    match toolchain {
        None => Ok(PossibleImage { reference, toolchain: Vec::new() }),
        Some(t) => match platforms_of(t.as_str()) {
            Ok(ps) => Ok(PossibleImage { reference, toolchain: ps }),
            Err(e) => Err(e),
        },
    }
}

/// An image given by variables for all targets or for one target.
pub open spec fn env_image_rel(
    image: Option<Seq<char>>,
    toolchain: Option<Seq<char>>,
    r: Result<Option<PossibleImage>, PlatformError>,
) -> bool {
    match image {
        None => r == Ok::<Option<PossibleImage>, PlatformError>(None),
        Some(i) => {
            let inner = match r {
                Ok(Some(p)) => Ok::<PossibleImage, PlatformError>(p),
                Err(e) => Err(e),
                Ok(None) => Err(PlatformError::InvalidPlatform),
            };
            !(r matches Ok(None)) && image_from_env(i, toolchain, inner)
        },
    }
}

impl Environment {
    /// The image of `target` that the variables give.
    pub fn image(&self, target: &Target) -> (r: Result<Option<PossibleImage>, PlatformError>)
        ensures
            env_image_rel(
                self.spec_target_var(target.spec_triple(), "IMAGE"@),
                self.spec_target_var(target.spec_triple(), "IMAGE_TOOLCHAIN"@),
                r,
            ),
    {
        match self.get_target_var(target, "IMAGE") {
            None => Ok(None),
            Some(i) => match possible_image_of(i, self.get_target_var(target, "IMAGE_TOOLCHAIN")) {
                Ok(p) => Ok(Some(p)),
                Err(e) => Err(e),
            },
        }
    }

    /// The zig images that the variables give, for all targets and for
    /// `target`; an error for all targets comes first.
    pub fn zig_image(&self, target: &Target) -> (r: Result<ConfVal<PossibleImage>, PlatformError>)
        ensures
            ({
                let bi = self.spec_build_var("ZIG_IMAGE"@);
                let bt = self.spec_build_var("ZIG_IMAGE_TOOLCHAIN"@);
                let ti = self.spec_target_var(target.spec_triple(), "ZIG_IMAGE"@);
                let tt = self.spec_target_var(target.spec_triple(), "ZIG_IMAGE_TOOLCHAIN"@);
                match r {
                    Ok(c) => env_image_rel(bi, bt, Ok(c.build)) && env_image_rel(ti, tt, Ok(c.target)),
                    Err(e) => env_image_err(bi, bt) == Some(e)
                        || (env_image_err(bi, bt) is None && env_image_err(ti, tt) == Some(e)),
                }
            }),
    {
        let build = match self.get_build_var("ZIG_IMAGE") {
            None => None,
            Some(i) => match possible_image_of(i, self.get_build_var("ZIG_IMAGE_TOOLCHAIN")) {
                Ok(p) => Some(p),
                Err(e) => return Err(e),
            },
        };
        let t = match self.get_target_var(target, "ZIG_IMAGE") {
            None => None,
            Some(i) => match possible_image_of(i, self.get_target_var(target, "ZIG_IMAGE_TOOLCHAIN")) {
                Ok(p) => Some(p),
                Err(e) => return Err(e),
            },
        };
        Ok(ConfVal::new(build, t))
    }
}

/// The error in an image that variables give, if any.
pub open spec fn env_image_err(image: Option<Seq<char>>, toolchain: Option<Seq<char>>) -> Option<PlatformError> {
    match (image, toolchain) {
        (Some(_), Some(t)) => platforms_error(split_on(t, ',')),
        _ => None,
    }
}

/// The first value given: how a setting for one target wins over one for
/// all targets, and the environment over `Cross.toml` at each level.
pub open spec fn first_some<T>(env_target: Option<T>, toml_target: Option<T>, env_build: Option<T>, toml_build: Option<T>) -> Option<T> {
    if env_target is Some {
        env_target
    } else if toml_target is Some {
        toml_target
    } else if env_build is Some {
        env_build
    } else {
        toml_build
    }
}

/// Which of the four sources a setting comes from: 0 for the environment's
/// value for the target, 1 for `Cross.toml`'s, 2 and 3 for their values for
/// all targets, 4 for none.
pub open spec fn source_of<A, B>(env_target: Option<A>, toml_target: Option<B>, env_build: Option<A>, toml_build: Option<B>) -> u8 {
    if env_target is Some {
        0
    } else if toml_target is Some {
        1
    } else if env_build is Some {
        2
    } else if toml_build is Some {
        3
    } else {
        4
    }
}

/// An optional string as characters.
pub open spec fn opt_str(v: Option<String>) -> Option<Seq<char>> {
    opt_view(v)
}

/// The configuration of `cross`: the environment, over `Cross.toml`.
#[derive(Debug)]
pub struct Config {
    pub toml: Option<CrossToml>,
    pub env: Environment,
}

impl Config {
    pub fn new(toml: Option<CrossToml>, env: Environment) -> (r: Config)
        ensures
            r.toml == toml,
            r.env.vars == env.vars,
    {
        Config { toml, env }
    }

    /// A field of the `[build]` table of `Cross.toml`.
    pub open spec fn toml_build<T>(&self, f: spec_fn(CrossBuildConfig) -> Option<T>) -> Option<T> {
        match self.toml {
            Some(t) => f(t.build),
            None => None,
        }
    }

    /// A field of the table of `target` in `Cross.toml`.
    pub open spec fn toml_target<T>(&self, target: Target, f: spec_fn(CrossTargetConfig) -> Option<T>) -> Option<T> {
        match self.toml {
            Some(t) => field_of(t.spec_target(target), f),
            None => None,
        }
    }

    /// Whether to use xargo (see [`first_some`]).
    pub open spec fn spec_xargo(self, target: Target) -> Option<bool> {
        first_some(
            opt_bool(self.env.spec_target_var(target.spec_triple(), "XARGO"@)),
            self.toml_target(target, |c: CrossTargetConfig| c.xargo),
            opt_bool(self.env.spec_build_var("XARGO"@)),
            self.toml_build(|b: CrossBuildConfig| b.xargo),
        )
    }

    /// Whether to use xargo.
    pub fn xargo(&self, target: &Target) -> (r: Option<bool>)
        ensures
            r == self.spec_xargo(*target),
    {
        let env = self.env.xargo(target);
        let toml = match &self.toml {
            Some(t) => t.xargo(target),
            None => ConfVal::new(None, None),
        };
        pick_first(env.target, toml.target, env.build, toml.build)
    }

    /// Whether to use zig (see [`first_some`]).
    pub open spec fn spec_zig(self, target: Target) -> Option<bool> {
        first_some(
            opt_bool(self.env.spec_target_var(target.spec_triple(), "ZIG"@)),
            self.toml_target(target, |c: CrossTargetConfig| match c.zig { Some(z) => z.enable, None => None }),
            opt_bool(self.env.spec_build_var("ZIG"@)),
            self.toml_build(|b: CrossBuildConfig| match b.zig { Some(z) => z.enable, None => None }),
        )
    }

    /// Whether to use zig.
    pub fn zig(&self, target: &Target) -> (r: Option<bool>)
        ensures
            r == self.spec_zig(*target),
    {
        let env = self.env.zig(target);
        let toml = match &self.toml {
            Some(t) => t.zig(target),
            None => ConfVal::new(None, None),
        };
        pick_first(env.target, toml.target, env.build, toml.build)
    }

    /// The version of zig (see [`first_some`]).
    pub open spec fn spec_zig_version(self, target: Target) -> Option<Seq<char>> {
        first_some(
            self.env.spec_target_var(target.spec_triple(), "ZIG_VERSION"@),
            opt_view(self.toml_target(target, |c: CrossTargetConfig| match c.zig { Some(z) => z.version, None => None })),
            self.env.spec_build_var("ZIG_VERSION"@),
            opt_view(self.toml_build(|b: CrossBuildConfig| match b.zig { Some(z) => z.version, None => None })),
        )
    }

    /// The version of zig.
    pub fn zig_version(&self, target: &Target) -> (r: Option<String>)
        ensures
            opt_view(r) == self.spec_zig_version(*target),
    {
        let env = self.env.zig_version(target);
        let toml = match &self.toml {
            Some(t) => t.zig_version(target),
            None => ConfVal::new(None, None),
        };
        pick_first(env.target, toml.target, env.build, toml.build)
    }

    /// The Dockerfile to build the image from (see [`first_some`]).
    pub open spec fn spec_dockerfile(self, target: Target) -> Option<Seq<char>> {
        first_some(
            self.env.spec_target_var(target.spec_triple(), "DOCKERFILE"@),
            opt_view(self.toml_target(target, |c: CrossTargetConfig| match c.dockerfile { Some(d) => Some(d.file), None => None })),
            self.env.spec_build_var("DOCKERFILE"@),
            opt_view(self.toml_build(|b: CrossBuildConfig| match b.dockerfile { Some(d) => Some(d.file), None => None })),
        )
    }

    /// The configuration gives pre-build commands for the target, in the
    /// environment or in `Cross.toml`.
    pub open spec fn spec_has_pre_build(self, target: Target) -> bool {
        source_of(
            self.env.spec_target_var(target.spec_triple(), "PRE_BUILD"@),
            self.toml_target(target, |c: CrossTargetConfig| c.pre_build),
            self.env.spec_build_var("PRE_BUILD"@),
            self.toml_build(|b: CrossBuildConfig| b.pre_build),
        ) < 4
    }

    /// The build context of the Dockerfile (see [`first_some`]).
    pub open spec fn spec_dockerfile_context(self, target: Target) -> Option<Seq<char>> {
        first_some(
            self.env.spec_target_var(target.spec_triple(), "DOCKERFILE_CONTEXT"@),
            opt_view(self.toml_target(target, |c: CrossTargetConfig| match c.dockerfile { Some(d) => d.context, None => None })),
            self.env.spec_build_var("DOCKERFILE_CONTEXT"@),
            opt_view(self.toml_build(|b: CrossBuildConfig| match b.dockerfile { Some(d) => d.context, None => None })),
        )
    }

    /// The build arguments of the Dockerfile: those of `[build]` and of the
    /// target joined, the target's winning.
    pub open spec fn spec_dockerfile_build_args(self, target: Target) -> Option<Seq<(Seq<char>, Seq<char>)>> {
        match self.toml {
            Some(t) => opt_merge_of(
                opt_pairs_view(build_args_of(field_of(t.spec_target(target), |c: CrossTargetConfig| c.dockerfile))),
                opt_pairs_view(build_args_of(t.build.dockerfile)),
            ),
            None => None,
        }
    }

    /// The Dockerfile to build the image from.
    pub fn dockerfile(&self, target: &Target) -> (r: Option<String>)
        ensures
            opt_view(r) == self.spec_dockerfile(*target),
    {
        let env = self.env.dockerfile(target);
        let (tt, tb) = match &self.toml {
            Some(t) => {
                let c = t.dockerfile(target);
                (clone_opt(c.target), clone_opt(c.build))
            },
            None => (None, None),
        };
        pick_first(env.target, tt, env.build, tb)
    }

    /// The build context of the Dockerfile.
    pub fn dockerfile_context(&self, target: &Target) -> (r: Option<String>)
        ensures
            opt_view(r) == first_some(
                self.env.spec_target_var(target.spec_triple(), "DOCKERFILE_CONTEXT"@),
                opt_view(self.toml_target(*target, |c: CrossTargetConfig| match c.dockerfile { Some(d) => d.context, None => None })),
                self.env.spec_build_var("DOCKERFILE_CONTEXT"@),
                opt_view(self.toml_build(|b: CrossBuildConfig| match b.dockerfile { Some(d) => d.context, None => None })),
            ),
    {
        let env = self.env.dockerfile_context(target);
        let (tt, tb) = match &self.toml {
            Some(t) => {
                let c = t.dockerfile_context(target);
                (clone_opt(c.target), clone_opt(c.build))
            },
            None => (None, None),
        };
        pick_first(env.target, tt, env.build, tb)
    }

    /// The runner of `target`: the environment's, else `Cross.toml`'s.
    pub fn runner(&self, target: &Target) -> (r: Option<String>)
        ensures
            opt_view(r) == first_some(
                self.env.spec_target_var(target.spec_triple(), "RUNNER"@),
                opt_view(self.toml_target(*target, |c: CrossTargetConfig| c.runner)),
                None,
                None,
            ),
    {
        let env = self.env.runner(target);
        let tt = match &self.toml {
            Some(t) => clone_opt(t.runner(target)),
            None => None,
        };
        pick_first(env, tt, None, None)
    }

    /// The volumes to mount (see [`first_some`]).
    pub fn env_volumes(&self, target: &Target) -> (r: Option<Vec<String>>)
        ensures
            opt_words(r) == first_some(
                opt_map_words(self.env.spec_target_var(target.spec_triple(), "ENV_VOLUMES"@)),
                opt_words(self.toml_target(*target, |c: CrossTargetConfig| c.env.volumes)),
                opt_map_words(self.env.spec_build_var("ENV_VOLUMES"@)),
                opt_words(self.toml_build(|b: CrossBuildConfig| b.env.volumes)),
            ),
    {
        let env = self.env.volumes(target);
        let (tt, tb) = match &self.toml {
            Some(t) => {
                let c = t.env_volumes(target);
                (copy_opt_strings(c.target), copy_opt_strings(c.build))
            },
            None => (None, None),
        };
        pick_first(env.target, tt, env.build, tb)
    }

    /// The variables to pass through: where the environment gives them for
    /// all targets, those (followed by the environment's for `target`, if
    /// given); else the ones `Cross.toml` gives for all targets followed by
    /// those it gives for `target`.
    pub fn env_passthrough(&self, target: &Target) -> (r: Option<Vec<String>>)
        ensures
            opt_words(r) == passthrough_of(
                opt_map_words(self.env.spec_build_var("ENV_PASSTHROUGH"@)),
                opt_map_words(self.env.spec_target_var(target.spec_triple(), "ENV_PASSTHROUGH"@)),
                self.toml is Some,
                opt_words(self.toml_build(|b: CrossBuildConfig| b.env.passthrough)),
                opt_words(self.toml_target(*target, |c: CrossTargetConfig| c.env.passthrough)),
            ),
    {
        let env = self.env.passthrough(target);
        let env_values = match (env.build, env.target) {
            (Some(mut b), Some(mut t)) => {
                let ghost bv = b@;
                let ghost tv = t@;
                b.append(&mut t);
                assert(views(b@) =~= views(bv) + views(tv));
                Some(b)
            },
            (b, _) => b,
        };
        if env_values.is_some() {
            return env_values;
        }
        match &self.toml {
            Some(toml) => {
                let c = toml.env_passthrough(target);
                let mut collect: Vec<String> = Vec::new();
                let mut defined = false;
                match c.build {
                    Some(b) => {
                        collect = copy_strings(b);
                        defined = true;
                    },
                    None => {},
                }
                match c.target {
                    Some(t) => {
                        let ghost cv = collect@;
                        let mut more = copy_strings(t);
                        collect.append(&mut more);
                        assert(views(collect@) =~= views(cv) + views(t@));
                        defined = true;
                    },
                    None => {},
                }
                if defined {
                    Some(collect)
                } else {
                    None
                }
            },
            None => None,
        }
    }

    /// How the standard library is built (see [`source_of`]).
    pub open spec fn build_std_rel(self, target: Target, r: Option<BuildStd>) -> bool {
        let et = self.env.spec_target_var(target.spec_triple(), "BUILD_STD"@);
        let tt = self.toml_target(target, |c: CrossTargetConfig| c.build_std);
        let eb = self.env.spec_build_var("BUILD_STD"@);
        let tb = self.toml_build(|b: CrossBuildConfig| b.build_std);
        match source_of(et, tt, eb, tb) {
            0 => r is Some && build_std_from_env(et->0, r->0),
            1 => r is Some && same_build_std(r->0, tt->0),
            2 => r is Some && build_std_from_env(eb->0, r->0),
            3 => r is Some && same_build_std(r->0, tb->0),
            _ => r is None,
        }
    }

    /// How the standard library is built (see [`source_of`]).
    pub fn build_std(&self, target: &Target) -> (r: Option<BuildStd>)
        ensures
            self.build_std_rel(*target, r),
    {
        let env = self.env.build_std(target);
        let (tt, tb) = match &self.toml {
            Some(t) => {
                let c = t.build_std(target);
                let tt = match c.target { Some(b) => Some(b.duplicate()), None => None };
                let tb = match c.build { Some(b) => Some(b.duplicate()), None => None };
                (tt, tb)
            },
            None => (None, None),
        };
        match env.target {
            Some(v) => return Some(v),
            None => {},
        }
        match tt {
            Some(v) => return Some(v),
            None => {},
        }
        match env.build {
            Some(v) => return Some(v),
            None => {},
        }
        tb
    }

    /// The commands to run before the image is used (see [`source_of`]).
    pub fn pre_build(&self, target: &Target) -> (r: Option<PreBuild>)
        ensures
            ({
                let et = self.env.spec_target_var(target.spec_triple(), "PRE_BUILD"@);
                let tt = self.toml_target(*target, |c: CrossTargetConfig| c.pre_build);
                let eb = self.env.spec_build_var("PRE_BUILD"@);
                let tb = self.toml_build(|b: CrossBuildConfig| b.pre_build);
                match source_of(et, tt, eb, tb) {
                    0 => r is Some && pre_build_from_env(et->0, r->0),
                    1 => r is Some && same_pre_build(r->0, tt->0),
                    2 => r is Some && pre_build_from_env(eb->0, r->0),
                    3 => r is Some && same_pre_build(r->0, tb->0),
                    _ => r is None,
                }
            }),
    {
        let env = self.env.pre_build(target);
        let (tt, tb) = match &self.toml {
            Some(t) => {
                let c = t.pre_build(target);
                let tt = match c.target { Some(p) => Some(duplicate_pre_build(p)), None => None };
                let tb = match c.build { Some(p) => Some(duplicate_pre_build(p)), None => None };
                (tt, tb)
            },
            None => (None, None),
        };
        match env.target {
            Some(v) => return Some(v),
            None => {},
        }
        match tt {
            Some(v) => return Some(v),
            None => {},
        }
        match env.build {
            Some(v) => return Some(v),
            None => {},
        }
        tb
    }

    /// The image for `target`: the one the environment gives for the
    /// target (or its error), else the one of `Cross.toml` for the target.
    pub open spec fn image_rel(self, target: Target, r: Result<Option<PossibleImage>, PlatformError>) -> bool {
        let ei = self.env.spec_target_var(target.spec_triple(), "IMAGE"@);
        let et = self.env.spec_target_var(target.spec_triple(), "IMAGE_TOOLCHAIN"@);
        let ti = self.toml_target(target, |c: CrossTargetConfig| c.image);
        match ei {
            Some(_) => env_image_rel(ei, et, r),
            None => r is Ok && same_opt_image(r->Ok_0, ti),
        }
    }

    /// The image for zig builds (see [`source_of`]); an error in the
    /// environment's images, for all targets first, is the result.
    pub open spec fn zig_image_rel(self, target: Target, r: Result<Option<PossibleImage>, PlatformError>) -> bool {
        let bi = self.env.spec_build_var("ZIG_IMAGE"@);
        let bt = self.env.spec_build_var("ZIG_IMAGE_TOOLCHAIN"@);
        let ti = self.env.spec_target_var(target.spec_triple(), "ZIG_IMAGE"@);
        let tc = self.env.spec_target_var(target.spec_triple(), "ZIG_IMAGE_TOOLCHAIN"@);
        let tt = self.toml_target(target, |c: CrossTargetConfig| match c.zig { Some(z) => z.image, None => None });
        let tb = self.toml_build(|b: CrossBuildConfig| match b.zig { Some(z) => z.image, None => None });
        match r {
            Ok(img) => env_image_err(bi, bt) is None && env_image_err(ti, tc) is None
                && match source_of(ti, tt, bi, tb) {
                    0 => img is Some && image_from_env(ti->0, tc, Ok(img->0)),
                    1 => same_opt_image(img, tt),
                    2 => img is Some && image_from_env(bi->0, bt, Ok(img->0)),
                    3 => same_opt_image(img, tb),
                    _ => img is None,
                },
            Err(e) => env_image_err(bi, bt) == Some(e)
                || (env_image_err(bi, bt) is None && env_image_err(ti, tc) == Some(e)),
        }
    }

    /// The image of `target`: the environment's, else `Cross.toml`'s; an
    /// error in the environment's is an error.
    pub fn image(&self, target: &Target) -> (r: Result<Option<PossibleImage>, PlatformError>)
        ensures
            self.image_rel(*target, r),
    {
        let env = self.env.image(target);
        match env {
            Err(e) => Err(e),
            Ok(Some(p)) => Ok(Some(p)),
            Ok(None) => match &self.toml {
                Some(t) => match t.image(target) {
                    Some(p) => Ok(Some(p.duplicate())),
                    None => Ok(None),
                },
                None => Ok(None),
            },
        }
    }

    /// The image for zig builds (see [`source_of`]); an error in the
    /// environment's images is an error (see [`Environment::zig_image`]).
    pub fn zig_image(&self, target: &Target) -> (r: Result<Option<PossibleImage>, PlatformError>)
        ensures
            self.zig_image_rel(*target, r),
    {
        let env = match self.env.zig_image(target) {
            Ok(c) => c,
            Err(e) => return Err(e),
        };
        let (tt, tb) = match &self.toml {
            Some(t) => {
                let c = t.zig_image(target);
                (c.target, c.build)
            },
            None => (None, None),
        };
        let r = match env.target {
            Some(v) => Some(v),
            None => match tt {
                Some(v) => Some(v),
                None => match env.build {
                    Some(v) => Some(v),
                    None => tb,
                },
            },
        };
        Ok(r)
    }

    /// The target to build: the one the environment names, else the
    /// default target of `Cross.toml`; built in where `target_list` holds it.
    pub open spec fn target_rel(self, target_list: TargetList, r: Option<Target>) -> bool {
        let ev = match self.env.spec_build_var("TARGET"@) {
            Some(v) => Some(v),
            None => self.env.spec_var("CARGO_BUILD_TARGET"@),
        };
        let dv = match self.toml {
            Some(t) => opt_view(t.build.default_target),
            None => None,
        };
        match r {
            Some(t) => {
                let name = if ev is Some { ev->0 } else { dv->0 };
                (ev is Some || dv is Some) && t.spec_triple() == name
                    && (t is BuiltIn <==> views(target_list.triples@).contains(name))
            },
            None => ev is None && dv is None,
        }
    }

    /// The target to build: the one the environment names, else the default
    /// target of `Cross.toml`.
    pub fn target(&self, target_list: &TargetList) -> (r: Option<Target>)
        ensures
            self.target_rel(*target_list, r),
    {
        match self.env.target() {
            Some(v) => Some(Target::from(v.as_str(), target_list)),
            None => match &self.toml {
                Some(t) => t.default_target(target_list),
                None => None,
            },
        }
    }

    /// The build arguments of the Dockerfile; the environment gives none.
    pub fn dockerfile_build_args(&self, target: &Target) -> (r: Option<Vec<(String, String)>>)
        ensures
            opt_pairs_view(r) == match self.toml {
                Some(t) => opt_merge_of(
                    opt_pairs_view(build_args_of(field_of(t.spec_target(*target), |c: CrossTargetConfig| c.dockerfile))),
                    opt_pairs_view(build_args_of(t.build.dockerfile)),
                ),
                None => None,
            },
    {
        match &self.toml {
            Some(t) => t.dockerfile_build_args(target),
            None => None,
        }
    }

    pub fn doctests(&self) -> (r: Option<bool>)
        ensures
            r == opt_bool(self.env.spec_var("CROSS_UNSTABLE_ENABLE_DOCTESTS"@)),
    {
        self.env.doctests()
    }

    pub fn custom_toolchain(&self) -> (r: bool)
        ensures
            r == match self.env.spec_var("CROSS_CUSTOM_TOOLCHAIN"@) {
                Some(v) => bool_of(v),
                None => false,
            },
    {
        self.env.custom_toolchain()
    }

    pub fn custom_toolchain_compat(&self) -> (r: Option<String>)
        ensures
            opt_view(r) == self.env.spec_var("CUSTOM_TOOLCHAIN_COMPAT"@),
    {
        self.env.custom_toolchain_compat()
    }

    pub fn build_opts(&self) -> (r: Option<String>)
        ensures
            opt_view(r) == self.env.spec_var("CROSS_BUILD_OPTS"@),
    {
        self.env.build_opts()
    }
}

/// A triple without its `-` and `_`.
pub open spec fn strip_separators(s: Seq<char>) -> Seq<char>
    decreases s.len(),
{
    if s.len() == 0 {
        s
    } else if s.last() == '-' || s.last() == '_' {
        strip_separators(s.drop_last())
    } else {
        strip_separators(s.drop_last()).push(s.last())
    }
}

/// A triple as it is compared for misspellings: without `-` and `_`, in
/// lowercase.
pub open spec fn normalized_triple(s: Seq<char>) -> Seq<char> {
    lowercase_of(strip_separators(s))
}

/// The targets of a configuration that look like `t` but are not it.
pub open spec fn confusables(ts: Seq<(Target, CrossTargetConfig)>, t: Target) -> Seq<Seq<char>>
    decreases ts.len(),
{
    if ts.len() == 0 {
        Seq::empty()
    } else {
        let r = confusables(ts.drop_last(), t);
        let m = ts.last().0;
        if !same_target(m, t) && normalized_triple(m.spec_triple()) == normalized_triple(t.spec_triple()) {
            r.push(m.spec_triple())
        } else {
            r
        }
    }
}

/// A triple as it is compared for misspellings (see [`normalized_triple`]).
fn normalize_triple(s: &str) -> (r: String)
    ensures
        r@ == normalized_triple(s@),
{
    let v = chars_of(s);
    let mut out = String::new();
    let mut i: usize = 0;
    assert(v@.take(0) == Seq::<char>::empty());
    while i < v.len()
        invariant
            i <= v.len(),
            out@ == strip_separators(v@.take(i as int)),
        decreases v.len() - i,
    {
        assert(v@.take(i + 1).drop_last() == v@.take(i as int));
        assert(v@.take(i + 1).last() == v@[i as int]);
        if v[i] != '-' && v[i] != '_' {
            push_char(&mut out, v[i]);
        }
        i = i + 1;
    }
    assert(v@.take(v.len() as int) == v@);
    to_lowercase(out.as_str())
}

impl Config {
    /// The targets named in `Cross.toml` that look like `target` (the same
    /// triple but for case, `-` and `_`) without being it: most likely a
    /// misspelling. A warning is recorded in `msg_info` for each.
    pub fn confusable_target(&self, target: &Target, msg_info: &mut MessageInfo) -> (r: Vec<String>)
        ensures
            views(r@) == match self.toml {
                Some(t) => confusables(t.targets@, *target),
                None => Seq::empty(),
            },
            *final(msg_info) == if r@.len() > 0 {
                MessageInfo { has_warned: true, ..*old(msg_info) }
            } else {
                *old(msg_info)
            },
    {
        let mut found: Vec<String> = Vec::new();
        match &self.toml {
            Some(toml) => {
                let ts = &toml.targets;
                let target_norm = normalize_triple(target.triple());
                let mut i: usize = 0;
                assert(ts@.take(0) == Seq::<(Target, CrossTargetConfig)>::empty());
                while i < ts.len()
                    invariant
                        i <= ts.len(),
                        target_norm@ == normalized_triple(target.spec_triple()),
                        views(found@) == confusables(ts@.take(i as int), *target),
                        *msg_info == if found@.len() > 0 {
                            MessageInfo { has_warned: true, ..*old(msg_info) }
                        } else {
                            *old(msg_info)
                        },
                    decreases ts.len() - i,
                {
                    assert(ts@.take(i + 1).drop_last() == ts@.take(i as int));
                    assert(ts@.take(i + 1).last() == ts@[i as int]);
                    let m = &ts[i].0;
                    let norm = normalize_triple(m.triple());
                    if !m.same(target) && str_eq(norm.as_str(), target_norm.as_str()) {
                        let ghost before = found@;
                        found.push(copy_str(m.triple()));
                        assert(views(found@) =~= views(before).push(m.spec_triple()));
                        let _ = msg_info.warn();
                    }
                    i = i + 1;
                }
                assert(ts@.take(ts.len() as int) == ts@);
            },
            None => {
                assert(views(found@) =~= Seq::<Seq<char>>::empty());
            },
        }
        found
    }
}

/// A setting for the target beats one for all targets, and at each level
/// the environment beats `Cross.toml`: the first of the four that is given
/// is the value.
pub proof fn setting_precedence<T>(env_target: Option<T>, toml_target: Option<T>, env_build: Option<T>, toml_build: Option<T>)
    ensures
        env_target is Some ==> first_some(env_target, toml_target, env_build, toml_build) == env_target,
        env_target is None && toml_target is Some ==> first_some(env_target, toml_target, env_build, toml_build) == toml_target,
        env_target is None && toml_target is None ==> first_some(env_target, toml_target, env_build, toml_build) == (
            if env_build is Some { env_build } else { toml_build }),
{
}

/// The variables passed through for all targets are always passed, first:
/// those of the environment where it gives them, else those of `Cross.toml`.
pub proof fn passthrough_keeps_build_vars(
    env_build: Option<Seq<Seq<char>>>,
    env_target: Option<Seq<Seq<char>>>,
    has_toml: bool,
    toml_build: Option<Seq<Seq<char>>>,
    toml_target: Option<Seq<Seq<char>>>,
)
    ensures
        env_build is Some ==> ({
            let r = passthrough_of(env_build, env_target, has_toml, toml_build, toml_target);
            r is Some && r->0.take(env_build->0.len() as int) == env_build->0
        }),
        env_build is None && has_toml && toml_build is Some ==> ({
            let r = passthrough_of(env_build, env_target, has_toml, toml_build, toml_target);
            r is Some && r->0.take(toml_build->0.len() as int) == toml_build->0
        }),
{
    match env_build {
        Some(b) => {
            match env_target {
                Some(t) => assert((b + t).take(b.len() as int) =~= b),
                None => assert(b.take(b.len() as int) =~= b),
            }
        },
        None => {
            if has_toml && toml_build is Some {
                let b = toml_build->0;
                let t = match toml_target { Some(t) => t, None => Seq::<Seq<char>>::empty() };
                assert((b + t).take(b.len() as int) =~= b);
            }
        },
    }
}

/// The variables to pass through (see [`Config::env_passthrough`]).
pub open spec fn passthrough_of(
    env_build: Option<Seq<Seq<char>>>,
    env_target: Option<Seq<Seq<char>>>,
    has_toml: bool,
    toml_build: Option<Seq<Seq<char>>>,
    toml_target: Option<Seq<Seq<char>>>,
) -> Option<Seq<Seq<char>>> {
    match env_build {
        Some(b) => match env_target {
            Some(t) => Some(b + t),
            None => Some(b),
        },
        None => if has_toml && (toml_build is Some || toml_target is Some) {
            Some(
                (match toml_build { Some(b) => b, None => Seq::empty() })
                + (match toml_target { Some(t) => t, None => Seq::empty() }),
            )
        } else {
            None
        },
    }
}

/// The first value given, in the order of the arguments.
fn pick_first<T>(a: Option<T>, b: Option<T>, c: Option<T>, d: Option<T>) -> (r: Option<T>)
    ensures
        r == first_some(a, b, c, d),
{
    match a {
        Some(v) => Some(v),
        None => match b {
            Some(v) => Some(v),
            None => match c {
                Some(v) => Some(v),
                None => d,
            },
        },
    }
}

/// A copy of an optional string.
fn clone_opt(v: Option<&String>) -> (r: Option<String>)
    ensures
        match v {
            Some(s) => r == Some(*s),
            None => r is None,
        },
{
    match v {
        Some(s) => Some(s.clone()),
        None => None,
    }
}

/// A copy of an optional list of strings.
fn copy_opt_strings(v: Option<&Vec<String>>) -> (r: Option<Vec<String>>)
    ensures
        match v {
            Some(s) => r is Some && r->0@ == s@,
            None => r is None,
        },
{
    match v {
        Some(s) => Some(copy_strings(s)),
        None => None,
    }
}

} // verus!
