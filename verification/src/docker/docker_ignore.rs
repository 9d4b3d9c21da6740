//! Reading a `.dockerignore` (or `.containerignore`) file into its rules:
//! each line a pattern, possibly an exception, possibly for directories
//! only, written as a path relative to the build context.

use vstd::prelude::*;
use crate::text::{
    chars_of, string_of, trim_chars, trim, lines, lines_of, char_views, has_prefix, is_ws, split_on, nonempty,
};

verus! {

broadcast use vstd::string::group_string_axioms;

/// A rule of an ignore file.
#[derive(Debug, Clone, PartialEq, Eq)]
pub struct DockerIgnoreRule {
    /// The pattern, with `/` separators, relative to the context.
    pub pattern: String,
    /// The rule starts with `!`: it takes paths back in.
    pub is_exception: bool,
    /// The pattern ended with `/`: it names directories only.
    pub only_dir: bool,
}

/// The rules of an ignore file, in order.
#[derive(Debug, Clone, PartialEq, Eq)]
pub struct DockerIgnore {
    pub rules: Vec<DockerIgnoreRule>,
}

/// Backslashes read as `/`.
pub open spec fn slashed(s: Seq<char>) -> Seq<char> {
    s.map_values(|c: char| if c == '\\' { '/' } else { c })
}

/// Without leading `./`, however many.
pub open spec fn strip_dot_slash(s: Seq<char>) -> Seq<char>
    decreases s.len(),
{
    if s.len() >= 2 && s[0] == '.' && s[1] == '/' {
        strip_dot_slash(s.skip(2))
    } else {
        s
    }
}

/// Without leading `/`, however many.
pub open spec fn strip_slashes(s: Seq<char>) -> Seq<char>
    decreases s.len(),
{
    if s.len() >= 1 && s[0] == '/' {
        strip_slashes(s.skip(1))
    } else {
        s
    }
}

/// Each run of `/` made one `/`.
pub open spec fn collapse_slashes(s: Seq<char>) -> Seq<char>
    decreases s.len(),
{
    if s.len() == 0 {
        s
    } else if s.len() >= 2 && s.last() == '/' && s[s.len() - 2] == '/' {
        collapse_slashes(s.drop_last())
    } else {
        collapse_slashes(s.drop_last()).push(s.last())
    }
}

/// Without trailing `/`, but for a lone one.
pub open spec fn strip_trailing(s: Seq<char>) -> Seq<char>
    decreases s.len(),
{
    if s.len() > 1 && s.last() == '/' {
        strip_trailing(s.drop_last())
    } else {
        s
    }
}

/// The rule a line gives, if any: blank lines and `#` comments give none;
/// a leading `!` makes an exception; the pattern is read with `/`
/// separators, without leading `./` and `/`, with runs of `/` made one;
/// a trailing `/` (then removed) makes it name directories only; an empty
/// pattern gives no rule.
pub open spec fn rule_of(line: Seq<char>) -> Option<(Seq<char>, bool, bool)> {
    let t = trim(line);
    if t.len() == 0 || t[0] == '#' {
        None
    } else {
        let is_exception = t[0] == '!';
        let p = if is_exception { trim(t.drop_first()) } else { t };
        let pat = collapse_slashes(strip_slashes(strip_dot_slash(slashed(p))));
        if p.len() == 0 || pat.len() == 0 {
            None
        } else {
            let only_dir = pat.last() == '/';
            let fin = strip_trailing(pat);
            if fin == seq!['/'] || fin.len() == 0 {
                None
            } else {
                Some((fin, is_exception, only_dir))
            }
        }
    }
}

/// The rules of a list of lines, in order.
pub open spec fn rules_of(ls: Seq<Seq<char>>) -> Seq<(Seq<char>, bool, bool)>
    decreases ls.len(),
{
    if ls.len() == 0 {
        Seq::empty()
    } else {
        match rule_of(ls.last()) {
            Some(r) => rules_of(ls.drop_last()).push(r),
            None => rules_of(ls.drop_last()),
        }
    }
}

/// The text of an ignore file without the byte-order mark it may start
/// with.
pub open spec fn without_bom(s: Seq<char>) -> Seq<char> {
    if s.len() > 0 && s[0] == '\u{feff}' { s.drop_first() } else { s }
}

/// A rule by its view: pattern, exception, directories only.
pub open spec fn rule_view(r: DockerIgnoreRule) -> (Seq<char>, bool, bool) {
    (r.pattern@, r.is_exception, r.only_dir)
}

fn slashed_exec(s: &Vec<char>) -> (r: Vec<char>)
    ensures
        r@ == slashed(s@),
{
    let mut r: Vec<char> = Vec::new();
    let mut i: usize = 0;
    while i < s.len()
        invariant
            i <= s.len(),
            r@ == slashed(s@.take(i as int)),
        decreases s.len() - i,
    {
        let c = s[i];
        r.push(if c == '\\' { '/' } else { c });
        assert(s@.take(i + 1) =~= s@.take(i as int).push(c));
        assert(r@ =~= slashed(s@.take(i + 1)));
        i += 1;
    }
    assert(s@.take(i as int) =~= s@);
    r
}

fn strip_leading(s: &Vec<char>) -> (r: Vec<char>)
    ensures
        r@ == strip_slashes(strip_dot_slash(s@)),
{
    let mut i: usize = 0;
    assert(s@.skip(0) =~= s@);
    while i < s.len() && s.len() - i >= 2 && s[i] == '.' && s[i + 1] == '/'
        invariant
            i <= s.len(),
            strip_dot_slash(s@) == strip_dot_slash(s@.skip(i as int)),
        decreases s.len() - i,
    {
        assert(s@.skip(i as int).skip(2) =~= s@.skip(i + 2));
        i += 2;
    }
    let ghost a = s@.skip(i as int);
    assert(strip_dot_slash(s@) == a);
    let mut j: usize = i;
    assert(a.skip(0) =~= a);
    while j < s.len() && s[j] == '/'
        invariant
            i <= j <= s.len(),
            a == s@.skip(i as int),
            strip_slashes(a) == strip_slashes(s@.skip(j as int)),
        decreases s.len() - j,
    {
        assert(s@.skip(j as int).skip(1) =~= s@.skip(j + 1));
        j += 1;
    }
    let r = crate::text::chars_slice(s.as_slice(), j, s.len());
    assert(r@ =~= s@.skip(j as int));
    r
}

proof fn lemma_collapse_push(s: Seq<char>, c: char)
    ensures
        collapse_slashes(s.push(c)) == if s.len() >= 1 && c == '/' && s.last() == '/' {
            collapse_slashes(s)
        } else {
            collapse_slashes(s).push(c)
        },
{
    assert(s.push(c).drop_last() =~= s);
}

fn collapse_exec(s: &Vec<char>) -> (r: Vec<char>)
    ensures
        r@ == collapse_slashes(s@),
{
    let mut r: Vec<char> = Vec::new();
    let mut i: usize = 0;
    while i < s.len()
        invariant
            i <= s.len(),
            r@ == collapse_slashes(s@.take(i as int)),
        decreases s.len() - i,
    {
        let c = s[i];
        proof {
            assert(s@.take(i + 1) =~= s@.take(i as int).push(c));
            lemma_collapse_push(s@.take(i as int), c);
        }
        if !(i >= 1 && c == '/' && s[i - 1] == '/') {
            r.push(c);
        }
        i += 1;
    }
    assert(s@.take(i as int) =~= s@);
    r
}

fn strip_trailing_exec(s: &Vec<char>) -> (r: Vec<char>)
    ensures
        r@ == strip_trailing(s@),
{
    let mut n: usize = s.len();
    assert(s@.take(n as int) =~= s@);
    while n > 1 && s[n - 1] == '/'
        invariant
            n <= s.len(),
            strip_trailing(s@) == strip_trailing(s@.take(n as int)),
        decreases n,
    {
        assert(s@.take(n as int).drop_last() =~= s@.take(n - 1));
        n -= 1;
    }
    crate::text::chars_slice(s.as_slice(), 0, n)
}

/// The rule a line gives (see [`rule_of`]).
pub fn parse_rule(line: &Vec<char>) -> (r: Option<DockerIgnoreRule>)
    ensures
        match r {
            Some(x) => rule_of(line@) == Some(rule_view(x)),
            None => rule_of(line@) is None,
        },
{
    let t = trim_chars(line.as_slice());
    if t.len() == 0 || t[0] == '#' {
        return None;
    }
    let is_exception = t[0] == '!';
    let p = if is_exception {
        let rest = crate::text::chars_slice(t.as_slice(), 1, t.len());
        assert(rest@ =~= t@.drop_first());
        trim_chars(rest.as_slice())
    } else {
        t
    };
    if p.len() == 0 {
        return None;
    }
    let a = slashed_exec(&p);
    let b = strip_leading(&a);
    let pat = collapse_exec(&b);
    if pat.len() == 0 {
        return None;
    }
    let only_dir = pat[pat.len() - 1] == '/';
    let fin = strip_trailing_exec(&pat);
    if fin.len() == 0 || (fin.len() == 1 && fin[0] == '/') {
        assert(fin@.len() == 0 || fin@ =~= seq!['/']);
        return None;
    }
    assert(fin@ != seq!['/']) by {
        if fin@ == seq!['/'] {
            assert(fin@.len() == 1 && fin@[0] == '/');
        }
    }
    Some(DockerIgnoreRule { pattern: string_of(&fin), is_exception, only_dir })
}

/// Whether `glob::Pattern::new` accepts a pattern.
pub uninterp spec fn glob_valid(p: Seq<char>) -> bool;

/// Whether a pattern matches a text, by `glob::Pattern::matches_with` with
/// case-sensitive matching and a leading `.` matched by wildcards, and
/// `/` matched only by a literal `/` where `literal_separator` holds.
pub uninterp spec fn glob_match(p: Seq<char>, s: Seq<char>, literal_separator: bool) -> bool;

/// Compiles a pattern with `glob::Pattern::new`: whether it is accepted,
/// as [`glob_valid`] names it.
#[verifier::external_body]
fn glob_pattern_ok(p: &str) -> (r: bool)
    ensures
        r == glob_valid(p@),
{
    glob::Pattern::new(p).is_ok()
}

/// Matches a text against a pattern with `glob::Pattern::matches_with`
/// (see [`glob_match`]); false where the pattern is not accepted.
#[verifier::external_body]
fn glob_matches(p: &str, s: &str, literal_separator: bool) -> (r: bool)
    ensures
        r == (glob_valid(p@) && glob_match(p@, s@, literal_separator)),
{
    match glob::Pattern::new(p) {
        Ok(pat) => pat.matches_with(
            s,
            glob::MatchOptions {
                case_sensitive: true,
                require_literal_separator: literal_separator,
                require_literal_leading_dot: false,
            },
        ),
        Err(_) => false,
    }
}

/// A line whose pattern `glob` does not accept, by its number.
#[derive(Debug, Clone, Copy, PartialEq, Eq, Structural)]
pub struct InvalidPattern {
    /// The line, counted from 1.
    pub line: usize,
}

/// Every rule that a line gives has a pattern that `glob` accepts.
pub open spec fn patterns_valid(ls: Seq<Seq<char>>) -> bool {
    forall|i: int| 0 <= i < ls.len() ==> (#[trigger] rule_of(ls[i]) matches Some(x) ==> glob_valid(x.0))
}

/// The rules of an ignore file, in the order of its lines (see
/// [`rules_of`]), after the byte-order mark it may start with; an error
/// for the first line whose pattern `glob` does not accept.
pub fn parse_ignore(content: &str) -> (r: Result<DockerIgnore, InvalidPattern>)
    ensures
        r is Ok <==> patterns_valid(lines_of(without_bom(content@))),
        r matches Ok(d) ==> d.rules@.map_values(|x: DockerIgnoreRule| rule_view(x)) == rules_of(lines_of(without_bom(content@))),
        r matches Err(e) ==> ({
            let ls = lines_of(without_bom(content@));
            &&& 1 <= e.line <= ls.len()
            &&& rule_of(ls[e.line - 1]) matches Some(x) && !glob_valid(x.0)
            &&& patterns_valid(ls.take(e.line - 1))
        }),
{
    let v = chars_of(content);
    let body = if v.len() > 0 && v[0] == '\u{feff}' {
        crate::text::chars_slice(v.as_slice(), 1, v.len())
    } else {
        crate::text::chars_slice(v.as_slice(), 0, v.len())
    };
    assert(body@ =~= without_bom(content@));
    let text = string_of(&body);
    let ls = lines(text.as_str());
    let ghost lv = char_views(ls@);
    let mut rules: Vec<DockerIgnoreRule> = Vec::new();
    let mut i: usize = 0;
    while i < ls.len()
        invariant
            i <= ls@.len(),
            lv == char_views(ls@),
            lv == lines_of(without_bom(content@)),
            lv.len() == ls@.len(),
            patterns_valid(lv.take(i as int)),
            rules@.map_values(|x: DockerIgnoreRule| rule_view(x)) == rules_of(lv.take(i as int)),
        decreases ls@.len() - i,
    {
        assert(lv.take(i + 1).drop_last() =~= lv.take(i as int));
        assert(lv.take(i + 1).last() == ls@[i as int]@);
        assert(lv[i as int] == ls@[i as int]@);
        let ghost before = rules@;
        match parse_rule(&ls[i]) {
            Some(x) => {
                if !glob_pattern_ok(x.pattern.as_str()) {
                    proof {
                        assert(!patterns_valid(lv)) by {
                            assert(rule_of(lv[i as int]) matches Some(y) && !glob_valid(y.0));
                        }
                    }
                    return Err(InvalidPattern { line: i + 1 });
                }
                rules.push(x);
                assert(rules@.map_values(|x: DockerIgnoreRule| rule_view(x))
                    =~= before.map_values(|x: DockerIgnoreRule| rule_view(x)).push(rule_view(x)));
            },
            None => {},
        }
        assert(patterns_valid(lv.take(i + 1))) by {
            assert forall|j: int| 0 <= j < i + 1 implies (#[trigger] rule_of(lv.take(i + 1)[j]) matches Some(x) ==> glob_valid(x.0)) by {
                if j < i {
                    assert(lv.take(i + 1)[j] == lv.take(i as int)[j]);
                }
            }
        }
        i += 1;
    }
    assert(lv.take(i as int) =~= lv);
    Ok(DockerIgnore { rules })
}

/// Without trailing `/`, however many.
pub open spec fn strip_all_trailing(s: Seq<char>) -> Seq<char>
    decreases s.len(),
{
    if s.len() > 0 && s.last() == '/' {
        strip_all_trailing(s.drop_last())
    } else {
        s
    }
}

/// A path as the rules see it: with `/` separators, without leading or
/// trailing `/`.
pub open spec fn rule_path(path: Seq<char>) -> Seq<char> {
    strip_all_trailing(strip_slashes(slashed(path)))
}

/// A pattern matches a text, where `glob` accepts it, `/` matched only by
/// `/`.
pub open spec fn pattern_matches(pattern: Seq<char>, text: Seq<char>) -> bool {
    glob_valid(pattern) && glob_match(pattern, text, true)
}

/// A rule matches a path: the path itself (a directory, for a rule of
/// directories only), or one of its parent directories.
pub open spec fn rule_matches(r: (Seq<char>, bool, bool), p: Seq<char>, is_dir: bool) -> bool {
    ||| (!r.2 || is_dir) && pattern_matches(r.0, p)
    ||| exists|i: int| 0 < i < p.len() && p[i] == '/' && #[trigger] pattern_matches(r.0, p.take(i))
}

/// Whether the rules, read in order, leave a path ignored: a rule that is
/// not an exception ignores a path it matches, an exception takes back an
/// ignored path it matches.
pub open spec fn ignored_by(rs: Seq<(Seq<char>, bool, bool)>, p: Seq<char>, is_dir: bool) -> bool
    decreases rs.len(),
{
    if rs.len() == 0 {
        false
    } else {
        let m = ignored_by(rs.drop_last(), p, is_dir);
        let r = rs.last();
        if r.1 != m {
            m
        } else if rule_matches(r, p, is_dir) {
            !r.1
        } else {
            m
        }
    }
}

/// Whether a path of the context is ignored (see [`ignored_by`]); the
/// context itself never is.
pub open spec fn is_ignored_of(rs: Seq<(Seq<char>, bool, bool)>, path: Seq<char>, is_dir: bool) -> bool {
    let p = rule_path(path);
    if p.len() == 0 || p == seq!['.'] {
        false
    } else {
        ignored_by(rs, p, is_dir)
    }
}

fn rule_path_exec(path: &str) -> (r: Vec<char>)
    ensures
        r@ == rule_path(path@),
{
    let a = slashed_exec(&chars_of(path));
    let mut j: usize = 0;
    assert(a@.skip(0) =~= a@);
    while j < a.len() && a[j] == '/'
        invariant
            j <= a.len(),
            strip_slashes(a@) == strip_slashes(a@.skip(j as int)),
        decreases a.len() - j,
    {
        assert(a@.skip(j as int).skip(1) =~= a@.skip(j + 1));
        j += 1;
    }
    let b = crate::text::chars_slice(a.as_slice(), j, a.len());
    assert(b@ =~= a@.skip(j as int));
    let mut n: usize = b.len();
    assert(b@.take(n as int) =~= b@);
    while n > 0 && b[n - 1] == '/'
        invariant
            n <= b.len(),
            strip_all_trailing(b@) == strip_all_trailing(b@.take(n as int)),
        decreases n,
    {
        assert(b@.take(n as int).drop_last() =~= b@.take(n - 1));
        n -= 1;
    }
    crate::text::chars_slice(b.as_slice(), 0, n)
}

fn rule_matches_exec(rule: &DockerIgnoreRule, p: &Vec<char>, is_dir: bool) -> (r: bool)
    ensures
        r == rule_matches(rule_view(*rule), p@, is_dir),
{
    let ps = string_of(p);
    if (!rule.only_dir || is_dir) && glob_matches(rule.pattern.as_str(), ps.as_str(), true) {
        return true;
    }
    let mut i: usize = 1;
    while i < p.len()
        invariant
            1 <= i,
            forall|j: int| 0 < j < i && j < p@.len() && p@[j] == '/' ==> !#[trigger] pattern_matches(rule.pattern@, p@.take(j)),
        decreases p.len() - i,
    {
        if p[i] == '/' {
            let sub = string_of(&crate::text::chars_slice(p.as_slice(), 0, i));
            assert(sub@ =~= p@.take(i as int));
            if glob_matches(rule.pattern.as_str(), sub.as_str(), true) {
                assert(0 < i < p@.len() && p@[i as int] == '/' && pattern_matches(rule_view(*rule).0, p@.take(i as int)));
                return true;
            }
        }
        i += 1;
    }
    false
}

impl DockerIgnore {
    /// The rules by their views.
    pub open spec fn rule_views(&self) -> Seq<(Seq<char>, bool, bool)> {
        self.rules@.map_values(|x: DockerIgnoreRule| rule_view(x))
    }

    /// Whether a path of the context, a directory or not, is ignored (see
    /// [`is_ignored_of`]).
    pub fn is_ignored(&self, path: &str, is_dir: bool) -> (r: bool)
        ensures
            r == is_ignored_of(self.rule_views(), path@, is_dir),
    {
        let p = rule_path_exec(path);
        if p.len() == 0 || (p.len() == 1 && p[0] == '.') {
            assert(p@.len() == 0 || p@ =~= seq!['.']);
            return false;
        }
        assert(p@ != seq!['.']) by {
            if p@ == seq!['.'] {
                assert(p@.len() == 1 && p@[0] == '.');
            }
        }
        let ghost rv = self.rule_views();
        let mut matched = false;
        let mut k: usize = 0;
        while k < self.rules.len()
            invariant
                k <= self.rules@.len(),
                rv == self.rule_views(),
                rv.len() == self.rules@.len(),
                matched == ignored_by(rv.take(k as int), p@, is_dir),
            decreases self.rules@.len() - k,
        {
            let rule = &self.rules[k];
            assert(rv[k as int] == rule_view(*rule));
            assert(rv.take(k + 1).drop_last() =~= rv.take(k as int));
            assert(rv.take(k + 1).last() == rv[k as int]);
            if rule.is_exception == matched {
                if rule_matches_exec(rule, &p, is_dir) {
                    matched = !rule.is_exception;
                }
            }
            k += 1;
        }
        assert(rv.take(k as int) =~= rv);
        matched
    }
}

/// The non-empty `/`-separated parts of a text.
pub open spec fn parts_of(s: Seq<char>) -> Seq<Seq<char>> {
    nonempty(split_on(s, '/'))
}

/// The parts of an exception's pattern could match a path below the
/// directory of parts `dp`, from part `k` on: each part of the directory
/// matches the pattern's part (`/` matched by wildcards), until a `**`.
pub open spec fn could_match_child(pp: Seq<Seq<char>>, dp: Seq<Seq<char>>, k: nat) -> bool
    decreases dp.len() - k,
{
    if k >= dp.len() {
        true
    } else if k >= pp.len() {
        false
    } else if pp[k as int] == "**"@ {
        true
    } else if !(glob_valid(pp[k as int]) && glob_match(pp[k as int], dp[k as int], false)) {
        false
    } else {
        could_match_child(pp, dp, k + 1)
    }
}

/// An exception whose pattern may take back a path below a directory.
pub open spec fn child_exception(r: (Seq<char>, bool, bool), dp: Seq<Seq<char>>) -> bool {
    let pp = parts_of(r.0);
    r.1 && could_match_child(pp, dp, 0) && (pp.len() > dp.len() || pp.contains("**"@))
}

/// A directory is ignored with all it holds: it is ignored, and no
/// exception may take back a path below it.
pub open spec fn is_dir_ignored_of(rs: Seq<(Seq<char>, bool, bool)>, dir: Seq<char>) -> bool {
    let dp = parts_of(rule_path(dir));
    &&& is_ignored_of(rs, dir, true)
    &&& dp.len() > 0
    &&& !exists|i: int| 0 <= i < rs.len() && #[trigger] child_exception(rs[i], dp)
}

fn parts_exec(s: &Vec<char>) -> (r: Vec<Vec<char>>)
    ensures
        char_views(r@) == parts_of(s@),
{
    let all = crate::text::chars_split(s.as_slice(), '/');
    let ghost av = char_views(all@);
    let mut r: Vec<Vec<char>> = Vec::new();
    let mut i: usize = 0;
    while i < all.len()
        invariant
            i <= all@.len(),
            av == char_views(all@),
            av == split_on(s@, '/'),
            char_views(r@) == nonempty(av.take(i as int)),
        decreases all@.len() - i,
    {
        assert(av.take(i + 1).drop_last() =~= av.take(i as int));
        assert(av.take(i + 1).last() == all@[i as int]@);
        if all[i].len() > 0 {
            let ghost before = r@;
            r.push(all[i].clone());
            assert(char_views(r@) =~= char_views(before).push(all@[i as int]@));
        }
        i += 1;
    }
    assert(av.take(i as int) =~= av);
    r
}

fn is_double_star(p: &Vec<char>) -> (r: bool)
    ensures
        r == (p@ == "**"@),
{
    proof { reveal_strlit("**"); }
    let r = p.len() == 2 && p[0] == '*' && p[1] == '*';
    assert(r ==> p@ =~= "**"@);
    r
}

fn could_match_child_exec(pp: &Vec<Vec<char>>, dp: &Vec<Vec<char>>) -> (r: bool)
    ensures
        r == could_match_child(char_views(pp@), char_views(dp@), 0),
{
    let ghost ppv = char_views(pp@);
    let ghost dpv = char_views(dp@);
    let mut k: usize = 0;
    while k < dp.len()
        invariant
            k <= dp@.len(),
            ppv == char_views(pp@),
            dpv == char_views(dp@),
            could_match_child(ppv, dpv, 0) == could_match_child(ppv, dpv, k as nat),
        decreases dp@.len() - k,
    {
        if k >= pp.len() {
            return false;
        }
        assert(ppv[k as int] == pp@[k as int]@);
        assert(dpv[k as int] == dp@[k as int]@);
        if is_double_star(&pp[k]) {
            return true;
        }
        let pat = string_of(&pp[k]);
        let part = string_of(&dp[k]);
        if !glob_matches(pat.as_str(), part.as_str(), false) {
            return false;
        }
        k += 1;
    }
    true
}

impl DockerIgnore {
    /// Whether a directory is ignored with all it holds (see
    /// [`is_dir_ignored_of`]).
    pub fn is_dir_ignored(&self, dir_path: &str) -> (r: bool)
        ensures
            r == is_dir_ignored_of(self.rule_views(), dir_path@),
    {
        if !self.is_ignored(dir_path, true) {
            return false;
        }
        let dp = parts_exec(&rule_path_exec(dir_path));
        let ghost dpv = char_views(dp@);
        if dp.len() == 0 {
            return false;
        }
        let ghost rv = self.rule_views();
        let mut i: usize = 0;
        while i < self.rules.len()
            invariant
                i <= self.rules@.len(),
                rv == self.rule_views(),
                rv.len() == self.rules@.len(),
                dpv == char_views(dp@),
                dpv == parts_of(rule_path(dir_path@)),
                forall|j: int| 0 <= j < i ==> !#[trigger] child_exception(rv[j], dpv),
            decreases self.rules@.len() - i,
        {
            let rule = &self.rules[i];
            assert(rv[i as int] == rule_view(*rule));
            if rule.is_exception {
                let pp = parts_exec(&chars_of(rule.pattern.as_str()));
                let ghost ppv = char_views(pp@);
                if could_match_child_exec(&pp, &dp) {
                    let longer = pp.len() > dp.len();
                    let mut has_star = false;
                    let mut m: usize = 0;
                    while m < pp.len()
                        invariant
                            m <= pp@.len(),
                            ppv == char_views(pp@),
                            has_star == exists|q: int| 0 <= q < m && #[trigger] ppv[q] == "**"@,
                        decreases pp@.len() - m,
                    {
                        assert(ppv[m as int] == pp@[m as int]@);
                        if is_double_star(&pp[m]) {
                            has_star = true;
                        }
                        m += 1;
                    }
                    assert(has_star == ppv.contains("**"@));
                    if longer || has_star {
                        assert(child_exception(rv[i as int], dpv));
                        return false;
                    }
                }
            }
            i += 1;
        }
        true
    }
}

} // verus!
