//! Cargo subcommands and the metadata of a workspace.

use vstd::prelude::*;
use crate::text::{str_eq, views};

verus! {

broadcast use vstd::string::group_string_axioms;

/// A cargo subcommand, as far as `cross` tells them apart.
#[derive(Debug, Clone, Copy, PartialEq, Eq, Structural)]
pub enum Subcommand {
    Build,
    Check,
    Doc,
    Other,
    Run,
    Rustc,
    Test,
    Bench,
    Clippy,
    Metadata,
    List,
    Clean,
}

/// The subcommand that a command-line word names.
pub open spec fn subcommand_of(s: Seq<char>) -> Subcommand {
    if s == "b"@ || s == "build"@ { Subcommand::Build }
    else if s == "c"@ || s == "check"@ { Subcommand::Check }
    else if s == "clean"@ { Subcommand::Clean }
    else if s == "doc"@ { Subcommand::Doc }
    else if s == "r"@ || s == "run"@ { Subcommand::Run }
    else if s == "rustc"@ { Subcommand::Rustc }
    else if s == "t"@ || s == "test"@ { Subcommand::Test }
    else if s == "bench"@ { Subcommand::Bench }
    else if s == "clippy"@ { Subcommand::Clippy }
    else if s == "metadata"@ { Subcommand::Metadata }
    else if s == "--list"@ { Subcommand::List }
    else { Subcommand::Other }
}

impl Subcommand {
    /// Whether the subcommand runs inside a container.
    pub fn needs_docker(self, is_remote: bool) -> (r: bool)
        ensures
            r == !(self == Subcommand::Other || self == Subcommand::List
                || (self == Subcommand::Clean && !is_remote)),
    {
        match self {
            Subcommand::Other | Subcommand::List => false,
            Subcommand::Clean if !is_remote => false,
            _ => true,
        }
    }

    /// Whether the subcommand must also run on the host.
    pub fn needs_host(self, is_remote: bool) -> (r: bool)
        ensures
            r == (self == Subcommand::Clean && is_remote),
    {
        self == Subcommand::Clean && is_remote
    }

    /// Whether the subcommand runs the compiled binaries.
    pub fn needs_interpreter(self) -> (r: bool)
        ensures
            r == (self == Subcommand::Run || self == Subcommand::Test || self == Subcommand::Bench),
    {
        matches!(self, Subcommand::Run | Subcommand::Test | Subcommand::Bench)
    }

    /// Whether the subcommand takes a `--target`.
    pub fn needs_target_in_command(self) -> (r: bool)
        ensures
            r == (self != Subcommand::Metadata),
    {
        !matches!(self, Subcommand::Metadata)
    }

    /// The subcommand that a command-line word names.
    pub fn from(s: &str) -> (r: Subcommand)
        ensures
            r == subcommand_of(s@),
    {
        if str_eq(s, "b") || str_eq(s, "build") { Subcommand::Build }
        else if str_eq(s, "c") || str_eq(s, "check") { Subcommand::Check }
        else if str_eq(s, "clean") { Subcommand::Clean }
        else if str_eq(s, "doc") { Subcommand::Doc }
        else if str_eq(s, "r") || str_eq(s, "run") { Subcommand::Run }
        else if str_eq(s, "rustc") { Subcommand::Rustc }
        else if str_eq(s, "t") || str_eq(s, "test") { Subcommand::Test }
        else if str_eq(s, "bench") { Subcommand::Bench }
        else if str_eq(s, "clippy") { Subcommand::Clippy }
        else if str_eq(s, "metadata") { Subcommand::Metadata }
        else if str_eq(s, "--list") { Subcommand::List }
        else { Subcommand::Other }
    }
}

/// A package of `cargo metadata`.
#[derive(Debug)]
pub struct Package {
    pub id: String,
    pub name: String,
    pub manifest_path: String,
    pub source: Option<String>,
    pub version: String,
    pub license: Option<String>,
}

/// The parent directory of a `/`-separated path: everything before its last
/// separator (`/` itself for a path right under the root), `None` for a path
/// without a separator or for the root.
pub open spec fn parent_of(p: Seq<char>) -> Option<Seq<char>> {
    match crate::text::last_index(p, '/') {
        None => if p.len() == 0 { None } else { Some(Seq::empty()) },
        Some(i) => if p.len() == 1 { None } else if i == 0 { Some(seq!['/']) } else { Some(p.take(i)) },
    }
}

impl Package {
    /// The directory of the package's manifest, for a package without a
    /// registry source (a path dependency or a workspace member).
    pub fn crate_path(&self) -> (r: Option<String>)
        ensures
            match r {
                Some(p) => self.source is None && parent_of(self.manifest_path@) == Some(p@),
                None => self.source is Some || parent_of(self.manifest_path@) is None,
            },
    {
        if self.source.is_none() {
            crate::file::parent(self.manifest_path.as_str())
        } else {
            None
        }
    }
}

/// The output of `cargo metadata`.
#[derive(Debug)]
pub struct CargoMetadata {
    pub workspace_root: String,
    pub target_directory: String,
    pub packages: Vec<Package>,
    pub workspace_members: Vec<String>,
}

impl CargoMetadata {
    /// Whether a package id belongs to a workspace member.
    pub fn is_member(&self, id: &str) -> (r: bool)
        ensures
            r == views(self.workspace_members@).contains(id@),
    {
        let mut i: usize = 0;
        while i < self.workspace_members.len()
            invariant
                i <= self.workspace_members.len(),
                forall|k: int| 0 <= k < i ==> self.workspace_members@[k]@ != id@,
            decreases self.workspace_members.len() - i,
        {
            if str_eq(self.workspace_members[i].as_str(), id) {
                assert(views(self.workspace_members@)[i as int] == id@);
                return true;
            }
            i = i + 1;
        }
        assert forall|k: int| 0 <= k < views(self.workspace_members@).len()
            implies views(self.workspace_members@)[k] != id@ by {}
        false
    }

    /// The directories of the path dependencies that are not workspace
    /// members, in the order of `packages`.
    pub fn path_dependencies(&self) -> (r: Vec<String>)
        ensures
            views(r@) == path_dependencies_of(
                self.packages@,
                views(self.workspace_members@),
            ),
    {
        let mut r: Vec<String> = Vec::new();
        let mut i: usize = 0;
        while i < self.packages.len()
            invariant
                i <= self.packages.len(),
                views(r@) == path_dependencies_of(
                    self.packages@.take(i as int),
                    views(self.workspace_members@),
                ),
            decreases self.packages.len() - i,
        {
            let p = &self.packages[i];
            let ghost prev = views(r@);
            assert(self.packages@.take(i + 1).drop_last() == self.packages@.take(i as int));
            if !self.is_member(p.id.as_str()) {
                match p.crate_path() {
                    Some(d) => {
                        r.push(d);
                        assert(views(r@) =~= prev.push(d@));
                    },
                    None => {},
                }
            }
            i = i + 1;
        }
        assert(self.packages@.take(self.packages.len() as int) == self.packages@);
        r
    }

    /// The package with the given name, if any.
    pub fn get_package(&self, package: &str) -> (r: Option<&Package>)
        ensures
            match r {
                Some(p) => p.name@ == package@ && exists|i: int|
                    0 <= i < self.packages@.len() && self.packages@[i] == *p
                        && forall|j: int| 0 <= j < i ==> self.packages@[j].name@ != package@,
                None => forall|i: int| 0 <= i < self.packages@.len() ==> self.packages@[i].name@ != package@,
            },
    {
        let mut i: usize = 0;
        while i < self.packages.len()
            invariant
                i <= self.packages.len(),
                forall|j: int| 0 <= j < i ==> self.packages@[j].name@ != package@,
            decreases self.packages.len() - i,
        {
            if str_eq(self.packages[i].name.as_str(), package) {
                return Some(&self.packages[i]);
            }
            i = i + 1;
        }
        None
    }
}

/// The directories of the path dependencies among `packages` that are not
/// among `members`.
pub open spec fn path_dependencies_of(packages: Seq<Package>, members: Seq<Seq<char>>) -> Seq<Seq<char>>
    decreases packages.len(),
{
    if packages.len() == 0 {
        Seq::empty()
    } else {
        let rest = path_dependencies_of(packages.drop_last(), members);
        let p = packages.last();
        if !members.contains(p.id@) && p.source is None && parent_of(p.manifest_path@) is Some {
            rest.push(parent_of(p.manifest_path@)->0)
        } else {
            rest
        }
    }
}

} // verus!
