//! Installing a crate with `cross`: the cargo command it runs.

use vstd::prelude::*;
use vstd::string::StringExecFns;
use crate::text::{copy_str, views};

verus! {

broadcast use vstd::string::group_string_axioms;

/// The arguments of the cargo command that installs a crate into `root`,
/// for `target` where one is given: `install <crate> [--target=<target>]
/// --root=<root>`.
pub open spec fn install_command_of(krate: Seq<char>, target: Option<Seq<char>>, root: Seq<char>) -> Seq<Seq<char>> {
    seq!["install"@, krate]
        + match target { Some(t) => seq!["--target="@ + t], None => Seq::empty() }
        + seq!["--root="@ + root]
}

/// The arguments of the cargo command that installs a crate (see
/// [`install_command_of`]).
pub fn install_command(krate: &str, target: Option<&str>, root: &str) -> (r: Vec<String>)
    ensures
        views(r@) == install_command_of(krate@, match target { Some(t) => Some(t@), None => None }, root@),
{
    let mut r: Vec<String> = Vec::new();
    r.push(String::from_str("install"));
    r.push(copy_str(krate));
    match target {
        Some(t) => {
            let mut a = String::from_str("--target=");
            a.append(t);
            r.push(a);
        },
        None => {},
    }
    let mut a = String::from_str("--root=");
    a.append(root);
    r.push(a);
    assert(views(r@) =~= install_command_of(krate@, match target { Some(t) => Some(t@), None => None }, root@));
    r
}

} // verus!
