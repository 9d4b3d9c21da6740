//! What `rustup` reports: installed toolchains, targets and components,
//! and what `cross` asks it to install.

use vstd::prelude::*;
use crate::cargo::Subcommand;
use crate::rustc::{QualifiedToolchain, remove_all, first_piece};
use crate::target::Target;
use crate::text::{
    views, char_views, lines, lines_of, str_eq, string_of, chars_of, chars_find, chars_slice, trim, trim_chars,
    has_infix, has_prefix, chars_contain, chars_starts_with, occurs_at,
};

verus! {

broadcast use vstd::string::group_string_axioms;

/// The targets of a toolchain: the default one, the installed ones and the
/// ones that can be installed.
#[derive(Debug)]
pub struct AvailableTargets {
    pub default: String,
    pub installed: Vec<String>,
    pub not_installed: Vec<String>,
}

impl AvailableTargets {
    /// Whether the target's standard library is installed: it is the
    /// default target or an installed one.
    pub fn is_installed(&self, target: &Target) -> (r: bool)
        ensures
            r == (target.spec_triple() == self.default@ || views(self.installed@).contains(target.spec_triple())),
    {
        let t = target.triple();
        str_eq(t, self.default.as_str()) || contains_str(&self.installed, t)
    }

    /// Whether the target is known: installed or installable.
    pub fn contains(&self, target: &Target) -> (r: bool)
        ensures
            r == (target.spec_triple() == self.default@ || views(self.installed@).contains(target.spec_triple())
                || views(self.not_installed@).contains(target.spec_triple())),
    {
        self.is_installed(target) || contains_str(&self.not_installed, target.triple())
    }
}

/// Whether a list of strings holds `s`.
fn contains_str(v: &Vec<String>, s: &str) -> (r: bool)
    ensures
        r == views(v@).contains(s@),
{
    let mut i: usize = 0;
    while i < v.len()
        invariant
            i <= v.len(),
            forall|k: int| 0 <= k < i ==> v@[k]@ != s@,
        decreases v.len() - i,
    {
        if str_eq(v[i].as_str(), s) {
            assert(views(v@)[i as int] == s@);
            return true;
        }
        i = i + 1;
    }
    assert forall|k: int| 0 <= k < views(v@).len() implies views(v@)[k] != s@ by {}
    false
}

/// The index of the first occurrence of `p` in `s` from `i` on.
pub open spec fn find_from(s: Seq<char>, p: Seq<char>, i: int) -> Option<int>
    decreases s.len() + 1 - i,
{
    if i < 0 || i + p.len() > s.len() {
        None
    } else if occurs_at(s, p, i) {
        Some(i)
    } else {
        find_from(s, p, i + 1)
    }
}

/// A line of `rustup toolchain list` without what follows its first ` (`,
/// trimmed.
pub open spec fn without_suffix(l: Seq<char>) -> Seq<char> {
    match find_from(l, " ("@, 0) {
        Some(i) => trim(l.take(i)),
        None => trim(l),
    }
}

/// The index of the first occurrence of `p` in `s`.
fn find_str(s: &[char], p: &[char]) -> (r: Option<usize>)
    ensures
        match r {
            Some(i) => find_from(s@, p@, 0) == Some(i as int) && i <= s.len(),
            None => find_from(s@, p@, 0) is None,
        },
{
    let mut i: usize = 0;
    while p.len() <= s.len() - i
        invariant
            i <= s.len(),
            find_from(s@, p@, 0) == find_from(s@, p@, i as int),
        decreases s.len() + 1 - i,
    {
        if crate::text::chars_occur_at(s, p, i) {
            return Some(i);
        }
        assert(p@.len() > 0) by {
            if p@.len() == 0 {
                assert(s@.subrange(i as int, i as int) =~= p@);
            }
        }
        i = i + 1;
    }
    None
}

/// The installed toolchains that `rustup toolchain list` reports, each
/// without the status marks that follow its name (see [`without_suffix`]).
pub fn installed_toolchains(stdout: &str) -> (r: Vec<String>)
    ensures
        views(r@) == lines_of(stdout@).map_values(|l: Seq<char>| without_suffix(l)),
{
    remove_toolchain_suffixes(stdout)
}

/// The toolchains that `rustup toolchain list` reports, without the marks
/// that follow them.
pub fn remove_toolchain_suffixes(stdout: &str) -> (r: Vec<String>)
    ensures
        views(r@) == lines_of(stdout@).map_values(|l: Seq<char>| without_suffix(l)),
{
    let ls = lines(stdout);
    let ghost lv = char_views(ls@);
    let pat = chars_of(" (");
    let mut r: Vec<String> = Vec::new();
    let mut i: usize = 0;
    while i < ls.len()
        invariant
            i <= ls.len(),
            lv == char_views(ls@),
            lv == lines_of(stdout@),
            pat@ == " ("@,
            views(r@) == lv.take(i as int).map_values(|l: Seq<char>| without_suffix(l)),
        decreases ls.len() - i,
    {
        let l = &ls[i];
        let head = match find_str(l.as_slice(), pat.as_slice()) {
            Some(k) => chars_slice(l.as_slice(), 0, k),
            None => chars_slice(l.as_slice(), 0, l.len()),
        };
        assert(l@.take(l@.len() as int) == l@);
        let t = string_of(&trim_chars(head.as_slice()));
        assert(l@ == lv[i as int]);
        assert(t@ == without_suffix(lv[i as int]));
        let ghost before = r@;
        r.push(t);
        assert(views(r@) =~= views(before).push(t@));
        assert(lv.take(i + 1) == lv.take(i as int).push(lv[i as int]));
        assert(lv.take(i + 1).map_values(|l: Seq<char>| without_suffix(l))
            =~= lv.take(i as int).map_values(|l: Seq<char>| without_suffix(l)).push(without_suffix(lv[i as int])));
        i = i + 1;
    }
    assert(lv.take(ls.len() as int) == lv);
    r
}

/// How a line of `rustup target list` is sorted: 0 for the default
/// target, 1 for an installed one, 2 for one that can be installed.
pub open spec fn target_line_kind(l: Seq<char>) -> u8 {
    if has_infix(l, "(default)"@) {
        0
    } else if has_infix(l, "(installed)"@) {
        1
    } else {
        2
    }
}

/// The targets of the lines of a kind, in order.
pub open spec fn targets_of_kind(ls: Seq<Seq<char>>, kind: u8) -> Seq<Seq<char>>
    decreases ls.len(),
{
    if ls.len() == 0 {
        Seq::empty()
    } else {
        let r = targets_of_kind(ls.drop_last(), kind);
        if target_line_kind(ls.last()) == kind {
            r.push(first_piece(ls.last(), ' '))
        } else {
            r
        }
    }
}

/// Every default line but the last names an empty target: `rustup` names
/// one default target.
pub open spec fn one_default(ls: Seq<Seq<char>>) -> bool {
    forall|i: int, j: int| 0 <= i < j < ls.len() && target_line_kind(ls[i]) == 0 && target_line_kind(ls[j]) == 0
        ==> first_piece(ls[i], ' ').len() == 0
}

/// Whether `rustup target list` named one default target (see
/// [`one_default`]).
pub fn has_one_default(stdout: &str) -> (r: bool)
    ensures
        r == one_default(lines_of(stdout@)),
{
    let ls = lines(stdout);
    let ghost lv = char_views(ls@);
    let default_mark = chars_of("(default)");
    proof { reveal_strlit("(default)"); }
    let mut pending = false;
    let mut i: usize = 0;
    while i < ls.len()
        invariant
            i <= ls.len(),
            lv == char_views(ls@),
            lv == lines_of(stdout@),
            default_mark@ == "(default)"@,
            one_default(lv.take(i as int)),
            pending == exists|k: int| 0 <= k < i && target_line_kind(#[trigger] lv[k]) == 0
                && first_piece(lv[k], ' ').len() > 0,
        decreases ls.len() - i,
    {
        let l = &ls[i];
        assert(lv[i as int] == l@);
        if chars_contain(l.as_slice(), default_mark.as_slice()) {
            assert(target_line_kind(lv[i as int]) == 0);
            if pending {
                let ghost k = choose|k: int| 0 <= k < i && target_line_kind(#[trigger] lv[k]) == 0
                    && first_piece(lv[k], ' ').len() > 0;
                assert(!one_default(lv)) by {
                    assert(0 <= k < i < lv.len() && target_line_kind(lv[k]) == 0
                        && target_line_kind(lv[i as int]) == 0);
                }
                return false;
            }
            let target = crate::rustc::first_piece_chars(l.as_slice(), ' ');
            if target.len() > 0 {
                pending = true;
            }
        }
        assert forall|a: int, b: int| 0 <= a < b < lv.take(i + 1).len()
            && target_line_kind(#[trigger] lv.take(i + 1)[a]) == 0 && target_line_kind(#[trigger] lv.take(i + 1)[b]) == 0
            implies first_piece(lv.take(i + 1)[a], ' ').len() == 0 by {
            if b < i {
                assert(lv.take(i + 1)[a] == lv.take(i as int)[a]);
                assert(lv.take(i + 1)[b] == lv.take(i as int)[b]);
            }
        }
        i += 1;
    }
    assert(lv.take(i as int) =~= lv);
    true
}

/// The target of the last default line, empty without one.
pub open spec fn default_of(ls: Seq<Seq<char>>) -> Seq<char>
    decreases ls.len(),
{
    if ls.len() == 0 {
        Seq::empty()
    } else if target_line_kind(ls.last()) == 0 {
        first_piece(ls.last(), ' ')
    } else {
        default_of(ls.drop_last())
    }
}

proof fn lemma_default_empty(ls: Seq<Seq<char>>)
    requires
        forall|i: int| 0 <= i < ls.len() ==> target_line_kind(#[trigger] ls[i]) != 0 || first_piece(ls[i], ' ').len() == 0,
    ensures
        default_of(ls).len() == 0,
    decreases ls.len(),
{
    if ls.len() > 0 {
        lemma_default_empty(ls.drop_last());
    }
}

/// The targets that `rustup target list` reports, sorted by their marks.
pub fn available_targets(stdout: &str) -> (r: AvailableTargets)
    requires
        one_default(lines_of(stdout@)),
    ensures
        r.default@ == default_of(lines_of(stdout@)),
        views(r.installed@) == targets_of_kind(lines_of(stdout@), 1),
        views(r.not_installed@) == targets_of_kind(lines_of(stdout@), 2),
{
    let ls = lines(stdout);
    let ghost lv = char_views(ls@);
    let mut default = String::new();
    let mut installed: Vec<String> = Vec::new();
    let mut not_installed: Vec<String> = Vec::new();
    let mut i: usize = 0;
    let default_mark = chars_of("(default)");
    let installed_mark = chars_of("(installed)");
    while i < ls.len()
        invariant
            i <= ls.len(),
            lv == char_views(ls@),
            lv == lines_of(stdout@),
            one_default(lv),
            default_mark@ == "(default)"@,
            installed_mark@ == "(installed)"@,
            default@ == default_of(lv.take(i as int)),
            views(installed@) == targets_of_kind(lv.take(i as int), 1),
            views(not_installed@) == targets_of_kind(lv.take(i as int), 2),
        decreases ls.len() - i,
    {
        assert(lv.take(i + 1).drop_last() == lv.take(i as int));
        assert(lv.take(i + 1).last() == lv[i as int]);
        let l = &ls[i];
        let target = string_of(&crate::rustc::first_piece_chars(l.as_slice(), ' '));
        if chars_contain(l.as_slice(), default_mark.as_slice()) {
            default = target;
        } else if chars_contain(l.as_slice(), installed_mark.as_slice()) {
            let ghost before = installed@;
            installed.push(target);
            assert(views(installed@) =~= views(before).push(target@));
        } else {
            let ghost before = not_installed@;
            not_installed.push(target);
            assert(views(not_installed@) =~= views(before).push(target@));
        }
        i = i + 1;
    }
    assert(lv.take(ls.len() as int) == lv);
    AvailableTargets { default, installed, not_installed }
}

/// A component of a toolchain: installed, available to install, or not
/// available.
#[derive(Debug, Clone, Copy, PartialEq, Eq)]
pub enum Component<'a> {
    Installed(&'a str),
    Available(&'a str),
    NotAvailable(&'a str),
}

impl<'a> Component<'a> {
    pub fn is_installed(&'a self) -> (r: bool)
        ensures
            r == (*self is Installed),
    {
        matches!(self, Component::Installed(_))
    }

    pub fn is_not_available(&'a self) -> (r: bool)
        ensures
            r == (*self is NotAvailable),
    {
        matches!(self, Component::NotAvailable(_))
    }
}

/// The first line that starts with the component's name.
pub open spec fn component_line(ls: Seq<Seq<char>>, component: Seq<char>) -> Option<Seq<char>>
    decreases ls.len(),
{
    if ls.len() == 0 {
        None
    } else if has_prefix(ls[0], component) {
        Some(ls[0])
    } else {
        component_line(ls.drop_first(), component)
    }
}

/// How `rustup component list` reports a component: by the first line that
/// starts with its name, installed if that line says so.
pub open spec fn component_state(stdout: Seq<char>, component: Seq<char>) -> u8 {
    match component_line(lines_of(stdout), component) {
        Some(l) => if has_infix(l, "installed"@) { 0 } else { 1 },
        None => 2,
    }
}

/// The state of a component in the output of `rustup component list`.
pub fn check_component<'a>(component: &'a str, stdout: &str) -> (r: Component<'a>)
    ensures
        match r {
            Component::Installed(c) => c == component && component_state(stdout@, component@) == 0,
            Component::Available(c) => c == component && component_state(stdout@, component@) == 1,
            Component::NotAvailable(c) => c == component && component_state(stdout@, component@) == 2,
        },
{
    let ls = lines(stdout);
    let ghost lv = char_views(ls@);
    let cv = chars_of(component);
    let mark = chars_of("installed");
    let mut i: usize = 0;
    assert(lv.skip(0) == lv);
    while i < ls.len()
        invariant
            i <= ls.len(),
            lv == char_views(ls@),
            lv == lines_of(stdout@),
            cv@ == component@,
            mark@ == "installed"@,
            component_line(lv, component@) == component_line(lv.skip(i as int), component@),
        decreases ls.len() - i,
    {
        assert(lv.skip(i as int)[0] == lv[i as int]);
        assert(lv.skip(i as int).drop_first() == lv.skip(i + 1));
        if chars_starts_with(ls[i].as_slice(), cv.as_slice()) {
            if chars_contain(ls[i].as_slice(), mark.as_slice()) {
                return Component::Installed(component);
            } else {
                return Component::Available(component);
            }
        }
        i = i + 1;
    }
    Component::NotAvailable(component)
}

/// Whether a component is installed, by the output of `rustup component
/// list`.
pub fn component_is_installed(component: &str, stdout: &str) -> (r: bool)
    ensures
        r == (component_state(stdout@, component@) == 0),
{
    check_component(component, stdout).is_installed()
}

/// What `rustup` is asked to install for a build.
#[derive(Debug, Clone, Copy, PartialEq, Eq, Structural)]
pub enum RustupAction {
    /// The standard library of the target.
    InstallTarget,
    /// The `rust-src` component.
    InstallRustSrc,
    /// The `clippy` component.
    InstallClippy,
}

/// A build of the standard library on a toolchain that is not nightly.
#[derive(Debug, Clone, Copy, PartialEq, Eq, Structural)]
pub struct NeedsNightly;

/// What to install for a build, for a toolchain that is not custom: the
/// target's standard library where it can be installed and nothing builds
/// it, else `rust-src` if it is missing; and `clippy` for `cargo clippy` if
/// it is missing. Building the standard library needs a nightly toolchain.
pub open spec fn components_plan(
    is_custom: bool,
    uses_xargo: bool,
    uses_build_std: bool,
    is_nightly: bool,
    target_installed: bool,
    target_available: bool,
    is_clippy: bool,
    rust_src_installed: bool,
    clippy_installed: bool,
) -> Result<Seq<RustupAction>, NeedsNightly> {
    if is_custom {
        Ok(Seq::empty())
    } else if !is_nightly && uses_build_std {
        Err(NeedsNightly)
    } else {
        let first = if !uses_xargo && !uses_build_std && !target_installed && target_available {
            seq![RustupAction::InstallTarget]
        } else if !rust_src_installed {
            seq![RustupAction::InstallRustSrc]
        } else {
            Seq::empty()
        };
        let second = if is_clippy && !clippy_installed { seq![RustupAction::InstallClippy] } else { Seq::empty() };
        Ok(first + second)
    }
}

/// What to install for a build (see [`components_plan`]); whether
/// `rust-src` and `clippy` are installed is as `rustup component list`
/// reports it.
pub fn setup_components(
    target: &Target,
    uses_xargo: bool,
    uses_build_std: bool,
    toolchain: &QualifiedToolchain,
    is_nightly: bool,
    available_targets: &AvailableTargets,
    subcommand: Option<Subcommand>,
    rust_src_installed: bool,
    clippy_installed: bool,
) -> (r: Result<Vec<RustupAction>, NeedsNightly>)
    ensures
        match r {
            Ok(v) => components_plan(
                toolchain.is_custom, uses_xargo, uses_build_std, is_nightly,
                target.spec_triple() == available_targets.default@ || views(available_targets.installed@).contains(target.spec_triple()),
                target.spec_triple() == available_targets.default@ || views(available_targets.installed@).contains(target.spec_triple())
                    || views(available_targets.not_installed@).contains(target.spec_triple()),
                subcommand == Some(Subcommand::Clippy), rust_src_installed, clippy_installed,
            ) == Ok::<Seq<RustupAction>, NeedsNightly>(v@),
            Err(e) => components_plan(
                toolchain.is_custom, uses_xargo, uses_build_std, is_nightly,
                target.spec_triple() == available_targets.default@ || views(available_targets.installed@).contains(target.spec_triple()),
                target.spec_triple() == available_targets.default@ || views(available_targets.installed@).contains(target.spec_triple())
                    || views(available_targets.not_installed@).contains(target.spec_triple()),
                subcommand == Some(Subcommand::Clippy), rust_src_installed, clippy_installed,
            ) == Err::<Seq<RustupAction>, NeedsNightly>(e),
        },
{
    let mut actions: Vec<RustupAction> = Vec::new();
    if toolchain.is_custom {
        return Ok(actions);
    }
    if !is_nightly && uses_build_std {
        return Err(NeedsNightly);
    }
    if !uses_xargo && !uses_build_std && !available_targets.is_installed(target) && available_targets.contains(target) {
        actions.push(RustupAction::InstallTarget);
    } else if !rust_src_installed {
        actions.push(RustupAction::InstallRustSrc);
    }
    let ghost first = actions@;
    let is_clippy = match subcommand {
        Some(Subcommand::Clippy) => true,
        _ => false,
    };
    if is_clippy && !clippy_installed {
        actions.push(RustupAction::InstallClippy);
        assert(actions@ =~= first + seq![RustupAction::InstallClippy]);
    } else {
        assert(actions@ =~= first + Seq::<RustupAction>::empty());
    }
    Ok(actions)
}

} // verus!
