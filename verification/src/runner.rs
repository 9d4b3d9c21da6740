//! The runner a target's binaries are run with.

use vstd::prelude::*;
use crate::text::str_eq;

verus! {

broadcast use vstd::string::group_string_axioms;

/// How the binaries of a target are run.
#[derive(Debug, Clone, Copy, PartialEq, Eq, Structural)]
pub enum Runner {
    Native,
    Node,
    Nothing,
    QemuSystem,
    QemuUser,
    Wine,
}

/// The name of a runner.
pub open spec fn runner_name(r: Runner) -> Seq<char> {
    match r {
        Runner::Native => "native"@,
        Runner::Node => "node"@,
        Runner::Nothing => "none"@,
        Runner::QemuSystem => "qemu-system"@,
        Runner::QemuUser => "qemu-user"@,
        Runner::Wine => "wine"@,
    }
}

/// The runner a name stands for.
pub open spec fn runner_of(s: Seq<char>) -> Option<Runner> {
    if s == "native"@ { Some(Runner::Native) }
    else if s == "node"@ { Some(Runner::Node) }
    else if s == "none"@ { Some(Runner::Nothing) }
    else if s == "qemu-system"@ { Some(Runner::QemuSystem) }
    else if s == "qemu-user"@ { Some(Runner::QemuUser) }
    else if s == "wine"@ { Some(Runner::Wine) }
    else { None }
}

/// A name that is no runner's.
#[derive(Debug, Clone, Copy, PartialEq, Eq, Structural)]
pub struct InvalidRunner;

impl Runner {
    pub fn is_none(&self) -> (r: bool)
        ensures
            r == (*self == Runner::Nothing),
    {
        *self == Runner::Nothing
    }

    /// The runner named `s` (see [`runner_of`]).
    pub fn parse(s: &str) -> (r: Result<Runner, InvalidRunner>)
        ensures
            match r {
                Ok(x) => runner_of(s@) == Some(x),
                Err(_) => runner_of(s@) is None,
            },
    {
        if str_eq(s, "native") { Ok(Runner::Native) }
        else if str_eq(s, "node") { Ok(Runner::Node) }
        else if str_eq(s, "none") { Ok(Runner::Nothing) }
        else if str_eq(s, "qemu-system") { Ok(Runner::QemuSystem) }
        else if str_eq(s, "qemu-user") { Ok(Runner::QemuUser) }
        else if str_eq(s, "wine") { Ok(Runner::Wine) }
        else { Err(InvalidRunner) }
    }

    /// The name of the runner.
    pub fn name(&self) -> (r: &'static str)
        ensures
            r@ == runner_name(*self),
    {
        match self {
            Runner::Native => "native",
            Runner::Node => "node",
            Runner::Nothing => "none",
            Runner::QemuSystem => "qemu-system",
            Runner::QemuUser => "qemu-user",
            Runner::Wine => "wine",
        }
    }
}

impl core::str::FromStr for Runner {
    type Err = InvalidRunner;

    fn from_str(s: &str) -> Result<Runner, InvalidRunner> {
        Runner::parse(s)
    }
}

} // verus!
