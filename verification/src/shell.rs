//! Verbosity, color and the decisions behind the messages of `cross`.

use vstd::prelude::*;
use crate::text::{str_eq, lines, char_views, lines_of, push_char};
use crate::config::{bool_from_envvar, bool_of};

verus! {

broadcast use vstd::string::group_string_axioms;

/// The requested verbosity of output.
#[derive(Debug, Clone, Copy, PartialEq, Eq, Structural)]
pub enum Verbosity {
    Quiet,
    Normal,
    Verbose(u8),
}

impl Default for Verbosity {
    fn default() -> (r: Verbosity)
        ensures
            r == Verbosity::Normal,
    {
        Verbosity::Normal
    }
}

/// Setting both `--verbose` and `--quiet`.
#[derive(Debug, Clone, Copy, PartialEq, Eq, Structural)]
pub struct VerboseAndQuiet;

/// The verbosity that a verbose count and a quiet flag ask for.
pub open spec fn verbosity_of(verbose: u8, quiet: bool) -> Result<Option<Verbosity>, VerboseAndQuiet> {
    if verbose >= 1 && quiet {
        Err(VerboseAndQuiet)
    } else if verbose >= 1 {
        Ok(Some(Verbosity::Verbose(verbose)))
    } else if quiet {
        Ok(Some(Verbosity::Quiet))
    } else {
        Ok(None)
    }
}

impl Verbosity {
    pub fn verbose(self) -> (r: bool)
        ensures
            r == (self is Verbose),
    {
        match self {
            Self::Verbose(..) => true,
            Self::Normal | Self::Quiet => false,
        }
    }

    pub fn level(&self) -> (r: u8)
        ensures
            r == (match self {
                Verbosity::Verbose(v) => *v,
                _ => 0,
            }),
    {
        match self {
            Verbosity::Verbose(v) => *v,
            _ => 0,
        }
    }

    /// The verbosity asked for, `None` when neither flag is set; both at
    /// once is an error.
    pub fn create(verbose: u8, quiet: bool) -> (r: Result<Option<Verbosity>, VerboseAndQuiet>)
        ensures
            r == verbosity_of(verbose, quiet),
    {
        if verbose >= 1 && quiet {
            Err(VerboseAndQuiet)
        } else if verbose >= 1 {
            Ok(Some(Verbosity::Verbose(verbose)))
        } else if quiet {
            Ok(Some(Verbosity::Quiet))
        } else {
            Ok(None)
        }
    }
}

/// Whether messages use color.
#[derive(Debug, Clone, Copy, PartialEq, Eq, Structural)]
pub enum ColorChoice {
    Always,
    Never,
    Auto,
}

/// The color choice a `--color` value names.
pub open spec fn color_choice_of(s: Seq<char>) -> Option<ColorChoice> {
    if s == "always"@ {
        Some(ColorChoice::Always)
    } else if s == "never"@ {
        Some(ColorChoice::Never)
    } else if s == "auto"@ {
        Some(ColorChoice::Auto)
    } else {
        None
    }
}

impl ColorChoice {
    /// Reads `always`, `never` or `auto`.
    pub fn from_str(s: &str) -> (r: Option<ColorChoice>)
        ensures
            r == color_choice_of(s@),
    {
        if str_eq(s, "always") {
            Some(ColorChoice::Always)
        } else if str_eq(s, "never") {
            Some(ColorChoice::Never)
        } else if str_eq(s, "auto") {
            Some(ColorChoice::Auto)
        } else {
            None
        }
    }
}

/// The settings of the messages `cross` prints.
#[derive(Debug, Clone, PartialEq, Eq, Structural)]
pub struct MessageInfo {
    pub color_choice: ColorChoice,
    pub verbosity: Verbosity,
    pub stdout_needs_erase: bool,
    pub stderr_needs_erase: bool,
    pub cross_debug: bool,
    pub has_warned: bool,
}

/// The environment variables that shape the messages.
#[derive(Debug, Clone)]
pub struct ShellEnv {
    /// `CARGO_TERM_COLOR`
    pub cargo_term_color: Option<String>,
    /// `CARGO_TERM_VERBOSE`
    pub cargo_term_verbose: Option<String>,
    /// `CARGO_TERM_QUIET`
    pub cargo_term_quiet: Option<String>,
    /// `CROSS_DEBUG`
    pub cross_debug: Option<String>,
}

/// Why the message settings could not be made.
#[derive(Debug, Clone, PartialEq, Eq)]
pub enum ShellError {
    /// A `--color` value (or `CARGO_TERM_COLOR`) that is not a color choice;
    /// holds the `--color` argument given, if any.
    InvalidColor(Option<String>),
    /// `CARGO_TERM_VERBOSE` was set to something other than `true`/`false`.
    InvalidVerbose,
    /// `CARGO_TERM_QUIET` was set to something other than `true`/`false`.
    InvalidQuiet,
    /// Both verbose and quiet output were asked for.
    VerboseAndQuiet,
}

/// What cargo reads from a boolean environment variable: unset is false,
/// otherwise only `true` and `false` are accepted.
pub open spec fn cargo_bool_of(v: Option<Seq<char>>) -> Option<bool> {
    match v {
        None => Some(false),
        Some(s) => if s == "true"@ { Some(true) } else if s == "false"@ { Some(false) } else { None },
    }
}

pub open spec fn opt_view(v: Option<String>) -> Option<Seq<char>> {
    match v {
        Some(s) => Some(s@),
        None => None,
    }
}

pub open spec fn opt_str_view(v: Option<&str>) -> Option<Seq<char>> {
    match v {
        Some(s) => Some(s@),
        None => None,
    }
}

/// The color choice from `--color`, else from `CARGO_TERM_COLOR`, else auto.
pub open spec fn chosen_color(color: Option<Seq<char>>, env: Option<Seq<char>>) -> Option<ColorChoice> {
    match color {
        Some(c) => color_choice_of(c),
        None => match env {
            Some(e) => color_choice_of(e),
            None => Some(ColorChoice::Auto),
        },
    }
}

/// The verbosity from the flags, else from `CARGO_TERM_VERBOSE` and
/// `CARGO_TERM_QUIET`, else normal.
pub open spec fn chosen_verbosity(verbose: u8, quiet: bool, env_verbose: bool, env_quiet: bool) -> Option<Verbosity> {
    match verbosity_of(verbose, quiet) {
        Err(_) => None,
        Ok(Some(v)) => Some(v),
        Ok(None) => match verbosity_of(if env_verbose { 1u8 } else { 0u8 }, env_quiet) {
            Err(_) => None,
            Ok(Some(v)) => Some(v),
            Ok(None) => Some(Verbosity::Normal),
        },
    }
}

fn cargo_envvar_bool(v: &Option<String>) -> (r: Option<bool>)
    ensures
        r == cargo_bool_of(opt_view(*v)),
{
    match v {
        None => Some(false),
        Some(s) => {
            if str_eq(s.as_str(), "true") {
                Some(true)
            } else if str_eq(s.as_str(), "false") {
                Some(false)
            } else {
                None
            }
        },
    }
}

impl MessageInfo {
    /// Message settings; `cross_debug_var` is the value of `CROSS_DEBUG`.
    pub fn new(color_choice: ColorChoice, verbosity: Verbosity, cross_debug_var: Option<&str>) -> (r: MessageInfo)
        ensures
            r.color_choice == color_choice,
            r.verbosity == verbosity,
            !r.stdout_needs_erase,
            !r.stderr_needs_erase,
            !r.has_warned,
            r.cross_debug == (match cross_debug_var {
                Some(v) => bool_of(v@),
                None => false,
            }),
    {
        MessageInfo {
            color_choice,
            verbosity,
            stdout_needs_erase: false,
            stderr_needs_erase: false,
            cross_debug: match cross_debug_var {
                Some(v) => bool_from_envvar(v),
                None => false,
            },
            has_warned: false,
        }
    }

    /// The message settings for the `--verbose` count, `--quiet` and
    /// `--color` flags and the environment.
    pub fn create(verbose: u8, quiet: bool, color: Option<&str>, env: &ShellEnv) -> (r: Result<MessageInfo, ShellError>)
        ensures
            match r {
                Ok(m) => {
                    &&& chosen_color(opt_str_view(color), opt_view(env.cargo_term_color)) == Some(m.color_choice)
                    &&& cargo_bool_of(opt_view(env.cargo_term_verbose)) is Some
                    &&& cargo_bool_of(opt_view(env.cargo_term_quiet)) is Some
                    &&& chosen_verbosity(verbose, quiet,
                        cargo_bool_of(opt_view(env.cargo_term_verbose))->0,
                        cargo_bool_of(opt_view(env.cargo_term_quiet))->0) == Some(m.verbosity)
                    &&& !m.has_warned && !m.stdout_needs_erase && !m.stderr_needs_erase
                    &&& m.cross_debug == (match env.cross_debug {
                        Some(v) => bool_of(v@),
                        None => false,
                    })
                },
                Err(ShellError::InvalidColor(c)) => chosen_color(opt_str_view(color), opt_view(env.cargo_term_color)) is None
                    && opt_view(c) == opt_str_view(color),
                Err(ShellError::InvalidVerbose) => chosen_color(opt_str_view(color), opt_view(env.cargo_term_color)) is Some
                    && cargo_bool_of(opt_view(env.cargo_term_verbose)) is None,
                Err(ShellError::InvalidQuiet) => chosen_color(opt_str_view(color), opt_view(env.cargo_term_color)) is Some
                    && cargo_bool_of(opt_view(env.cargo_term_verbose)) is Some
                    && cargo_bool_of(opt_view(env.cargo_term_quiet)) is None,
                Err(ShellError::VerboseAndQuiet) => {
                    &&& chosen_color(opt_str_view(color), opt_view(env.cargo_term_color)) is Some
                    &&& cargo_bool_of(opt_view(env.cargo_term_verbose)) is Some
                    &&& cargo_bool_of(opt_view(env.cargo_term_quiet)) is Some
                    &&& chosen_verbosity(verbose, quiet,
                        cargo_bool_of(opt_view(env.cargo_term_verbose))->0,
                        cargo_bool_of(opt_view(env.cargo_term_quiet))->0) is None
                },
            },
    {
        let color_choice = match color {
            Some(arg) => match ColorChoice::from_str(arg) {
                Some(c) => c,
                None => return Err(ShellError::InvalidColor(Some(arg.to_owned()))),
            },
            None => match &env.cargo_term_color {
                Some(arg) => match ColorChoice::from_str(arg.as_str()) {
                    Some(c) => c,
                    None => return Err(ShellError::InvalidColor(None)),
                },
                None => ColorChoice::Auto,
            },
        };
        let env_verbose = match cargo_envvar_bool(&env.cargo_term_verbose) {
            Some(b) => b,
            None => return Err(ShellError::InvalidVerbose),
        };
        let env_quiet = match cargo_envvar_bool(&env.cargo_term_quiet) {
            Some(b) => b,
            None => return Err(ShellError::InvalidQuiet),
        };
        let verbosity = match Verbosity::create(verbose, quiet) {
            Err(_) => return Err(ShellError::VerboseAndQuiet),
            Ok(Some(v)) => v,
            Ok(None) => match Verbosity::create(if env_verbose { 1u8 } else { 0u8 }, env_quiet) {
                Err(_) => return Err(ShellError::VerboseAndQuiet),
                Ok(Some(v)) => v,
                Ok(None) => Verbosity::Normal,
            },
        };
        let debug = match &env.cross_debug {
            Some(v) => Some(v.as_str()),
            None => None,
        };
        Ok(MessageInfo::new(color_choice, verbosity, debug))
    }

    pub fn is_verbose(&self) -> (r: bool)
        ensures
            r == (self.verbosity is Verbose),
    {
        self.verbosity.verbose()
    }

    /// Records an error; an error is always shown.
    pub fn error(&mut self) -> (show: bool)
        ensures
            show,
            *final(self) == (MessageInfo { has_warned: true, ..*old(self) }),
    {
        self.has_warned = true;
        true
    }

    /// Records a warning; whether it is shown.
    pub fn warn(&mut self) -> (show: bool)
        ensures
            show == (old(self).verbosity != Verbosity::Quiet),
            *final(self) == (MessageInfo { has_warned: true, ..*old(self) }),
    {
        self.has_warned = true;
        self.verbosity != Verbosity::Quiet
    }

    /// Whether a note is shown.
    pub fn note(&self) -> (show: bool)
        ensures
            show == (self.verbosity != Verbosity::Quiet),
    {
        self.verbosity != Verbosity::Quiet
    }

    /// Whether a status line is shown.
    pub fn status(&self) -> (show: bool)
        ensures
            show == (self.verbosity != Verbosity::Quiet),
    {
        self.verbosity != Verbosity::Quiet
    }

    /// Whether an informational message is shown.
    pub fn info(&self) -> (show: bool)
        ensures
            show == (self.verbosity != Verbosity::Quiet),
    {
        self.verbosity != Verbosity::Quiet
    }

    /// Whether a debugging message is shown.
    pub fn debug(&self) -> (show: bool)
        ensures
            show == (self.verbosity is Verbose),
    {
        self.verbosity.verbose()
    }

    /// Whether a run must fail because of earlier warnings: when
    /// `CROSS_NO_WARNINGS` (`no_warnings_var`) says so, or, where it is
    /// unset, when running in CI.
    pub fn should_fail(&self, no_warnings_var: Option<&str>, is_ci: bool) -> (r: bool)
        ensures
            r == ((match no_warnings_var {
                Some(v) => bool_of(v@),
                None => is_ci,
            }) && self.has_warned),
    {
        let fail = match no_warnings_var {
            Some(v) => bool_from_envvar(v),
            None => is_ci,
        };
        fail && self.has_warned
    }
}

impl Default for MessageInfo {
    fn default() -> (r: MessageInfo)
        ensures
            r == (MessageInfo {
                color_choice: ColorChoice::Auto,
                verbosity: Verbosity::Normal,
                stdout_needs_erase: false,
                stderr_needs_erase: false,
                cross_debug: false,
                has_warned: false,
            }),
    {
        MessageInfo::new(ColorChoice::Auto, Verbosity::Normal, None)
    }
}

/// The width of the `[cross] ` prefix of messages.
pub fn default_ident() -> (r: usize)
    ensures
        r == 8,
{
    8
}

/// The lines of `message`, each after `spaces` spaces, joined together.
pub open spec fn indent_of(ls: Seq<Seq<char>>, spaces: nat) -> Seq<char>
    decreases ls.len(),
{
    if ls.len() == 0 {
        Seq::empty()
    } else {
        indent_of(ls.drop_last(), spaces) + Seq::new(spaces, |i: int| ' ') + ls.last()
    }
}

/// Every line of `message` after `spaces` spaces, joined without separators.
pub fn indent(message: &str, spaces: usize) -> (r: String)
    ensures
        r@ == indent_of(lines_of(message@), spaces as nat),
{
    let ls = lines(message);
    let mut r = String::new();
    let mut i: usize = 0;
    while i < ls.len()
        invariant
            i <= ls.len(),
            char_views(ls@) == lines_of(message@),
            r@ == indent_of(lines_of(message@).take(i as int), spaces as nat),
        decreases ls.len() - i,
    {
        let ghost before = r@;
        let mut k: usize = 0;
        while k < spaces
            invariant
                k <= spaces,
                r@ == before + Seq::new(k as nat, |j: int| ' '),
            decreases spaces - k,
        {
            push_char(&mut r, ' ');
            assert(before + Seq::new((k + 1) as nat, |j: int| ' ') =~= (before + Seq::new(k as nat, |j: int| ' ')).push(' '));
            k = k + 1;
        }
        let line = &ls[i];
        let ghost mid = r@;
        let mut j: usize = 0;
        while j < line.len()
            invariant
                j <= line.len(),
                r@ == mid + line@.take(j as int),
            decreases line.len() - j,
        {
            push_char(&mut r, line[j]);
            assert(mid + line@.take(j + 1) =~= (mid + line@.take(j as int)).push(line@[j as int]));
            j = j + 1;
        }
        assert(line@.take(line.len() as int) == line@);
        assert(line@ == lines_of(message@)[i as int]);
        assert(lines_of(message@).take(i + 1).drop_last() == lines_of(message@).take(i as int));
        i = i + 1;
    }
    assert(lines_of(message@).take(ls.len() as int) == lines_of(message@));
    r
}

} // verus!
