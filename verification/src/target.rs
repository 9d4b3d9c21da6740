//! Target triples and the properties of a compilation target.

use vstd::prelude::*;
use crate::text::{views, str_eq, copy_str, contains, ends_with, starts_with, has_infix, has_suffix, has_prefix};
use crate::rustc::TargetList;

verus! {

broadcast use vstd::string::group_string_axioms;

/// A target triple; the common hosts have a variant of their own.
#[allow(non_camel_case_types)]
#[derive(Debug, Clone, PartialEq, Eq, Hash)]
pub enum TargetTriple {
    Other(String),
    X86_64AppleDarwin,
    Aarch64AppleDarwin,
    X86_64UnknownLinuxGnu,
    Aarch64UnknownLinuxGnu,
    X86_64UnknownLinuxMusl,
    Aarch64UnknownLinuxMusl,
    X86_64PcWindowsMsvc,
}

/// The triple string that each named host stands for; `None` for others.
pub open spec fn known_triple(t: TargetTriple) -> Option<Seq<char>> {
    match t {
        TargetTriple::X86_64AppleDarwin => Some("x86_64-apple-darwin"@),
        TargetTriple::Aarch64AppleDarwin => Some("aarch64-apple-darwin"@),
        TargetTriple::X86_64UnknownLinuxGnu => Some("x86_64-unknown-linux-gnu"@),
        TargetTriple::Aarch64UnknownLinuxGnu => Some("aarch64-unknown-linux-gnu"@),
        TargetTriple::X86_64UnknownLinuxMusl => Some("x86_64-unknown-linux-musl"@),
        TargetTriple::Aarch64UnknownLinuxMusl => Some("aarch64-unknown-linux-musl"@),
        TargetTriple::X86_64PcWindowsMsvc => Some("x86_64-pc-windows-msvc"@),
        TargetTriple::Other(_) => None,
    }
}

/// One of the triple strings that has a variant of its own.
pub open spec fn is_named_triple(s: Seq<char>) -> bool {
    ||| s == "x86_64-apple-darwin"@
    ||| s == "aarch64-apple-darwin"@
    ||| s == "x86_64-unknown-linux-gnu"@
    ||| s == "aarch64-unknown-linux-gnu"@
    ||| s == "x86_64-unknown-linux-musl"@
    ||| s == "aarch64-unknown-linux-musl"@
    ||| s == "x86_64-pc-windows-msvc"@
}

/// The `dpkg` architecture of a target triple.
pub open spec fn deb_arch_of(t: Seq<char>) -> Option<Seq<char>> {
    if t == "aarch64-unknown-linux-gnu"@ { Some("arm64"@) }
    else if t == "aarch64-unknown-linux-musl"@ { Some("musl-linux-arm64"@) }
    else if t == "x86_64-unknown-linux-gnu"@ { Some("amd64"@) }
    else if t == "x86_64-apple-darwin"@ { Some("darwin-amd64"@) }
    else if t == "x86_64-unknown-linux-musl"@ { Some("musl-linux-amd64"@) }
    else if t == "arm-unknown-linux-gnueabi"@ { Some("armel"@) }
    else if t == "arm-unknown-linux-gnueabihf"@ { Some("armhf"@) }
    else if t == "armv7-unknown-linux-gnueabi"@ { Some("armel"@) }
    else if t == "armv7-unknown-linux-gnueabihf"@ { Some("armhf"@) }
    else if t == "thumbv7neon-unknown-linux-gnueabihf"@ { Some("armhf"@) }
    else if t == "i586-unknown-linux-gnu"@ { Some("i386"@) }
    else if t == "i686-unknown-linux-gnu"@ { Some("i386"@) }
    else if t == "mips-unknown-linux-gnu"@ { Some("mips"@) }
    else if t == "mipsel-unknown-linux-gnu"@ { Some("mipsel"@) }
    else if t == "mips64-unknown-linux-gnuabi64"@ { Some("mips64"@) }
    else if t == "mips64el-unknown-linux-gnuabi64"@ { Some("mips64el"@) }
    else if t == "mips64-unknown-linux-muslabi64"@ { Some("musl-linux-mips64"@) }
    else if t == "mips64el-unknown-linux-muslabi64"@ { Some("musl-linux-mips64el"@) }
    else if t == "powerpc-unknown-linux-gnu"@ { Some("powerpc"@) }
    else if t == "powerpc64-unknown-linux-gnu"@ { Some("ppc64"@) }
    else if t == "powerpc64le-unknown-linux-gnu"@ { Some("ppc64el"@) }
    else if t == "riscv64gc-unknown-linux-gnu"@ { Some("riscv64"@) }
    else if t == "s390x-unknown-linux-gnu"@ { Some("s390x"@) }
    else if t == "sparc64-unknown-linux-gnu"@ { Some("sparc64"@) }
    else if t == "arm-unknown-linux-musleabihf"@ { Some("musl-linux-armhf"@) }
    else if t == "arm-unknown-linux-musleabi"@ { Some("musl-linux-arm"@) }
    else if t == "armv7-unknown-linux-musleabi"@ { Some("musl-linux-arm"@) }
    else if t == "armv7-unknown-linux-musleabihf"@ { Some("musl-linux-armhf"@) }
    else if t == "i586-unknown-linux-musl"@ { Some("musl-linux-i386"@) }
    else if t == "i686-unknown-linux-musl"@ { Some("musl-linux-i386"@) }
    else if t == "mips-unknown-linux-musl"@ { Some("musl-linux-mips"@) }
    else if t == "mipsel-unknown-linux-musl"@ { Some("musl-linux-mipsel"@) }
    else if t == "x86_64-unknown-dragonfly"@ { Some("dragonflybsd-amd64"@) }
    else if t == "i686-unknown-freebsd"@ { Some("freebsd-i386"@) }
    else if t == "x86_64-unknown-freebsd"@ { Some("freebsd-amd64"@) }
    else if t == "aarch64-unknown-freebsd"@ { Some("freebsd-arm64"@) }
    else if t == "x86_64-unknown-netbsd"@ { Some("netbsd-amd64"@) }
    else if t == "sparcv9-sun-solaris"@ { Some("solaris-sparc"@) }
    else if t == "x86_64-pc-solaris"@ { Some("solaris-amd64"@) }
    else if t == "thumbv6m-none-eabi"@ { Some("arm"@) }
    else if t == "thumbv7em-none-eabi"@ { Some("arm"@) }
    else if t == "thumbv7em-none-eabihf"@ { Some("armhf"@) }
    else if t == "thumbv7m-none-eabi"@ { Some("arm"@) }
    else { None }
}

impl TargetTriple {
    /// The triple string.
    pub open spec fn spec_triple(&self) -> Seq<char> {
        match self {
            TargetTriple::Other(s) => s@,
            _ => known_triple(*self)->0,
        }
    }

    /// The default host, `x86_64-unknown-linux-gnu`.
    pub fn default_triple() -> (r: TargetTriple)
        ensures
            r == TargetTriple::X86_64UnknownLinuxGnu,
    {
        TargetTriple::X86_64UnknownLinuxGnu
    }

    /// Reads a triple: the named hosts get their own variant, every other
    /// string is kept as it is.
    pub fn from(s: &str) -> (r: TargetTriple)
        ensures
            r.spec_triple() == s@,
            r is Other <==> !is_named_triple(s@),
    {
        if str_eq(s, "x86_64-apple-darwin") {
            TargetTriple::X86_64AppleDarwin
        } else if str_eq(s, "x86_64-unknown-linux-gnu") {
            TargetTriple::X86_64UnknownLinuxGnu
        } else if str_eq(s, "x86_64-unknown-linux-musl") {
            TargetTriple::X86_64UnknownLinuxMusl
        } else if str_eq(s, "x86_64-pc-windows-msvc") {
            TargetTriple::X86_64PcWindowsMsvc
        } else if str_eq(s, "aarch64-apple-darwin") {
            TargetTriple::Aarch64AppleDarwin
        } else if str_eq(s, "aarch64-unknown-linux-gnu") {
            TargetTriple::Aarch64UnknownLinuxGnu
        } else if str_eq(s, "aarch64-unknown-linux-musl") {
            TargetTriple::Aarch64UnknownLinuxMusl
        } else {
            TargetTriple::Other(copy_str(s))
        }
    }

    /// The triple string.
    pub fn triple(&self) -> (r: &str)
        ensures
            r@ == self.spec_triple(),
    {
        match self {
            TargetTriple::X86_64AppleDarwin => "x86_64-apple-darwin",
            TargetTriple::Aarch64AppleDarwin => "aarch64-apple-darwin",
            TargetTriple::X86_64UnknownLinuxGnu => "x86_64-unknown-linux-gnu",
            TargetTriple::Aarch64UnknownLinuxGnu => "aarch64-unknown-linux-gnu",
            TargetTriple::X86_64UnknownLinuxMusl => "x86_64-unknown-linux-musl",
            TargetTriple::Aarch64UnknownLinuxMusl => "aarch64-unknown-linux-musl",
            TargetTriple::X86_64PcWindowsMsvc => "x86_64-pc-windows-msvc",
            TargetTriple::Other(s) => s.as_str(),
        }
    }

    /// A copy of this triple.
    pub fn duplicate(&self) -> (r: TargetTriple)
        ensures
            r == *self,
    {
        match self {
            TargetTriple::Other(s) => TargetTriple::Other(s.clone()),
            TargetTriple::X86_64AppleDarwin => TargetTriple::X86_64AppleDarwin,
            TargetTriple::Aarch64AppleDarwin => TargetTriple::Aarch64AppleDarwin,
            TargetTriple::X86_64UnknownLinuxGnu => TargetTriple::X86_64UnknownLinuxGnu,
            TargetTriple::Aarch64UnknownLinuxGnu => TargetTriple::Aarch64UnknownLinuxGnu,
            TargetTriple::X86_64UnknownLinuxMusl => TargetTriple::X86_64UnknownLinuxMusl,
            TargetTriple::Aarch64UnknownLinuxMusl => TargetTriple::Aarch64UnknownLinuxMusl,
            TargetTriple::X86_64PcWindowsMsvc => TargetTriple::X86_64PcWindowsMsvc,
        }
    }

    /// Both triples name the same target string.
    pub fn same_triple(&self, other: &TargetTriple) -> (r: bool)
        ensures
            r == (self.spec_triple() == other.spec_triple()),
    {
        str_eq(self.triple(), other.triple())
    }

    /// The architecture name in the `dpkg` naming convention, where there is one.
    pub fn deb_arch(&self) -> (r: Option<&'static str>)
        ensures
            match r {
                Some(a) => deb_arch_of(self.spec_triple()) == Some(a@),
                None => deb_arch_of(self.spec_triple()) is None,
            },
    {
        let t = self.triple();
        if str_eq(t, "aarch64-unknown-linux-gnu") { Some("arm64") }
        else if str_eq(t, "aarch64-unknown-linux-musl") { Some("musl-linux-arm64") }
        else if str_eq(t, "x86_64-unknown-linux-gnu") { Some("amd64") }
        else if str_eq(t, "x86_64-apple-darwin") { Some("darwin-amd64") }
        else if str_eq(t, "x86_64-unknown-linux-musl") { Some("musl-linux-amd64") }
        else if str_eq(t, "arm-unknown-linux-gnueabi") { Some("armel") }
        else if str_eq(t, "arm-unknown-linux-gnueabihf") { Some("armhf") }
        else if str_eq(t, "armv7-unknown-linux-gnueabi") { Some("armel") }
        else if str_eq(t, "armv7-unknown-linux-gnueabihf") { Some("armhf") }
        else if str_eq(t, "thumbv7neon-unknown-linux-gnueabihf") { Some("armhf") }
        else if str_eq(t, "i586-unknown-linux-gnu") { Some("i386") }
        else if str_eq(t, "i686-unknown-linux-gnu") { Some("i386") }
        else if str_eq(t, "mips-unknown-linux-gnu") { Some("mips") }
        else if str_eq(t, "mipsel-unknown-linux-gnu") { Some("mipsel") }
        else if str_eq(t, "mips64-unknown-linux-gnuabi64") { Some("mips64") }
        else if str_eq(t, "mips64el-unknown-linux-gnuabi64") { Some("mips64el") }
        else if str_eq(t, "mips64-unknown-linux-muslabi64") { Some("musl-linux-mips64") }
        else if str_eq(t, "mips64el-unknown-linux-muslabi64") { Some("musl-linux-mips64el") }
        else if str_eq(t, "powerpc-unknown-linux-gnu") { Some("powerpc") }
        else if str_eq(t, "powerpc64-unknown-linux-gnu") { Some("ppc64") }
        else if str_eq(t, "powerpc64le-unknown-linux-gnu") { Some("ppc64el") }
        else if str_eq(t, "riscv64gc-unknown-linux-gnu") { Some("riscv64") }
        else if str_eq(t, "s390x-unknown-linux-gnu") { Some("s390x") }
        else if str_eq(t, "sparc64-unknown-linux-gnu") { Some("sparc64") }
        else if str_eq(t, "arm-unknown-linux-musleabihf") { Some("musl-linux-armhf") }
        else if str_eq(t, "arm-unknown-linux-musleabi") { Some("musl-linux-arm") }
        else if str_eq(t, "armv7-unknown-linux-musleabi") { Some("musl-linux-arm") }
        else if str_eq(t, "armv7-unknown-linux-musleabihf") { Some("musl-linux-armhf") }
        else if str_eq(t, "i586-unknown-linux-musl") { Some("musl-linux-i386") }
        else if str_eq(t, "i686-unknown-linux-musl") { Some("musl-linux-i386") }
        else if str_eq(t, "mips-unknown-linux-musl") { Some("musl-linux-mips") }
        else if str_eq(t, "mipsel-unknown-linux-musl") { Some("musl-linux-mipsel") }
        else if str_eq(t, "x86_64-unknown-dragonfly") { Some("dragonflybsd-amd64") }
        else if str_eq(t, "i686-unknown-freebsd") { Some("freebsd-i386") }
        else if str_eq(t, "x86_64-unknown-freebsd") { Some("freebsd-amd64") }
        else if str_eq(t, "aarch64-unknown-freebsd") { Some("freebsd-arm64") }
        else if str_eq(t, "x86_64-unknown-netbsd") { Some("netbsd-amd64") }
        else if str_eq(t, "sparcv9-sun-solaris") { Some("solaris-sparc") }
        else if str_eq(t, "x86_64-pc-solaris") { Some("solaris-amd64") }
        else if str_eq(t, "thumbv6m-none-eabi") { Some("arm") }
        else if str_eq(t, "thumbv7em-none-eabi") { Some("arm") }
        else if str_eq(t, "thumbv7em-none-eabihf") { Some("armhf") }
        else if str_eq(t, "thumbv7m-none-eabi") { Some("arm") }
        else { None }
    }

    /// Whether `cross` supports building for `target` on this host.
    /// `target == None` means the target is the host itself. The behaviour of
    /// `cross` up to version 0.2.1 is chosen when `compatibility_version`
    /// (the value of `CROSS_COMPATIBILITY_VERSION`) is `0.2.1`.
    pub fn is_supported(&self, target: Option<&Target>, compatibility_version: Option<&str>) -> (r: bool)
        ensures
            r == supported(*self, match target { Some(t) => Some(*t), None => None }, match compatibility_version {
                Some(v) => v@ == "0.2.1"@,
                None => false,
            }),
    {
        let old = match compatibility_version {
            Some(v) => str_eq(v, "0.2.1"),
            None => false,
        };
        if old {
            match self {
                TargetTriple::X86_64AppleDarwin | TargetTriple::Aarch64AppleDarwin => match target {
                    Some(t) => t.needs_docker(),
                    None => false,
                },
                TargetTriple::X86_64UnknownLinuxGnu
                | TargetTriple::Aarch64UnknownLinuxGnu
                | TargetTriple::X86_64UnknownLinuxMusl
                | TargetTriple::Aarch64UnknownLinuxMusl => match target {
                    Some(t) => t.needs_docker(),
                    None => true,
                },
                TargetTriple::X86_64PcWindowsMsvc => match target {
                    Some(t) => !str_eq(t.triple(), "x86_64-pc-windows-msvc") && t.needs_docker(),
                    None => false,
                },
                TargetTriple::Other(_) => false,
            }
        } else {
            match target {
                Some(t) => t.needs_docker(),
                None => false,
            }
        }
    }
}

/// Whether a host supports a target (see [`TargetTriple::is_supported`]).
pub open spec fn supported(host: TargetTriple, target: Option<Target>, old_behaviour: bool) -> bool {
    if old_behaviour {
        match host {
            TargetTriple::X86_64AppleDarwin | TargetTriple::Aarch64AppleDarwin => match target {
                Some(t) => t.spec_needs_docker(),
                None => false,
            },
            TargetTriple::X86_64UnknownLinuxGnu
            | TargetTriple::Aarch64UnknownLinuxGnu
            | TargetTriple::X86_64UnknownLinuxMusl
            | TargetTriple::Aarch64UnknownLinuxMusl => match target {
                Some(t) => t.spec_needs_docker(),
                None => true,
            },
            TargetTriple::X86_64PcWindowsMsvc => match target {
                Some(t) => t.spec_triple() != "x86_64-pc-windows-msvc"@ && t.spec_needs_docker(),
                None => false,
            },
            TargetTriple::Other(_) => false,
        }
    } else {
        match target {
            Some(t) => t.spec_needs_docker(),
            None => false,
        }
    }
}

/// A compilation target: one that `rustc` knows, or a custom one.
#[derive(Debug, Clone, PartialEq, Eq, Hash)]
pub enum Target {
    BuiltIn { triple: TargetTriple },
    Custom { triple: TargetTriple },
}

/// Predicates on a triple string.
pub open spec fn triple_has(t: Seq<char>, p: Seq<char>) -> bool {
    has_infix(t, p)
}

pub open spec fn spec_is_android(t: Seq<char>) -> bool {
    has_infix(t, "android"@)
}

pub open spec fn spec_is_linux(t: Seq<char>) -> bool {
    has_infix(t, "linux"@) && !spec_is_android(t)
}

pub open spec fn spec_is_windows(t: Seq<char>) -> bool {
    has_infix(t, "windows"@)
}

pub open spec fn spec_is_apple(t: Seq<char>) -> bool {
    has_infix(t, "apple"@)
}

pub open spec fn spec_is_bare_metal(t: Seq<char>) -> bool {
    ||| has_suffix(t, "-none"@)
    ||| has_suffix(t, "-none-elf"@)
    ||| has_suffix(t, "-none-eabi"@)
    ||| has_suffix(t, "-none-eabihf"@)
}

pub open spec fn spec_is_bsd(t: Seq<char>) -> bool {
    has_infix(t, "bsd"@) || has_infix(t, "dragonfly"@)
}

pub open spec fn spec_is_solaris(t: Seq<char>) -> bool {
    has_infix(t, "solaris"@)
}

pub open spec fn spec_is_illumos(t: Seq<char>) -> bool {
    has_infix(t, "illumos"@)
}

pub open spec fn spec_is_emscripten(t: Seq<char>) -> bool {
    has_infix(t, "emscripten"@)
}

impl Target {
    /// The triple string.
    pub open spec fn spec_triple(&self) -> Seq<char> {
        match self {
            Target::BuiltIn { triple } => triple.spec_triple(),
            Target::Custom { triple } => triple.spec_triple(),
        }
    }

    /// The target triple.
    pub open spec fn spec_target(&self) -> TargetTriple {
        match self {
            Target::BuiltIn { triple } => *triple,
            Target::Custom { triple } => *triple,
        }
    }

    pub open spec fn spec_needs_docker(&self) -> bool {
        let t = self.spec_triple();
        ||| spec_is_linux(t)
        ||| spec_is_android(t)
        ||| spec_is_bare_metal(t)
        ||| spec_is_bsd(t)
        ||| spec_is_solaris(t)
        ||| spec_is_illumos(t)
        ||| self is Custom
        ||| spec_is_windows(t)
        ||| spec_is_emscripten(t)
        ||| spec_is_apple(t)
    }

    pub open spec fn spec_needs_interpreter(&self) -> bool {
        let t = self.spec_triple();
        let native = has_prefix(t, "x86_64"@) || has_prefix(t, "i586"@) || has_prefix(t, "i686"@);
        !native && (spec_is_linux(t) || spec_is_windows(t) || spec_is_bare_metal(t))
    }

    pub open spec fn spec_needs_docker_seccomp(&self) -> bool {
        let t = self.spec_triple();
        let arch_32bit = has_prefix(t, "arm"@) || has_prefix(t, "thumb"@) || has_prefix(t, "i586"@)
            || has_prefix(t, "i686"@);
        arch_32bit && spec_is_android(t)
    }

    /// The default target, `x86_64-unknown-linux-gnu` built into `rustc`.
    pub fn default_target() -> (r: Target)
        ensures
            r == (Target::BuiltIn { triple: TargetTriple::X86_64UnknownLinuxGnu }),
    {
        Target::BuiltIn { triple: TargetTriple::X86_64UnknownLinuxGnu }
    }

    pub fn new_built_in(triple: &str) -> (r: Target)
        ensures
            r is BuiltIn,
            r.spec_triple() == triple@,
            r.spec_target() is Other <==> !is_named_triple(triple@),
    {
        Target::BuiltIn { triple: TargetTriple::from(triple) }
    }

    pub fn new_custom(triple: &str) -> (r: Target)
        ensures
            r is Custom,
            r.spec_triple() == triple@,
            r.spec_target() is Other <==> !is_named_triple(triple@),
    {
        Target::Custom { triple: TargetTriple::from(triple) }
    }

    /// A target named by `triple`: built in if `target_list` holds it,
    /// custom otherwise.
    pub fn from(triple: &str, target_list: &TargetList) -> (r: Target)
        ensures
            r is BuiltIn <==> views(target_list.triples@).contains(triple@),
            r.spec_triple() == triple@,
            r.spec_target() is Other <==> !is_named_triple(triple@),
    {
        if target_list.contains(triple) {
            Target::BuiltIn { triple: TargetTriple::from(triple) }
        } else {
            Target::Custom { triple: TargetTriple::from(triple) }
        }
    }

    /// The triple string.
    pub fn triple(&self) -> (r: &str)
        ensures
            r@ == self.spec_triple(),
    {
        match self {
            Target::BuiltIn { triple } => triple.triple(),
            Target::Custom { triple } => triple.triple(),
        }
    }

    /// The target triple.
    pub fn target(&self) -> (r: &TargetTriple)
        ensures
            *r == self.spec_target(),
    {
        match self {
            Target::BuiltIn { triple } => triple,
            Target::Custom { triple } => triple,
        }
    }

    /// A copy of this target.
    pub fn duplicate(&self) -> (r: Target)
        ensures
            r == *self,
    {
        match self {
            Target::BuiltIn { triple } => Target::BuiltIn { triple: triple.duplicate() },
            Target::Custom { triple } => Target::Custom { triple: triple.duplicate() },
        }
    }

    /// Both targets are of the same kind and name the same triple.
    pub fn same(&self, other: &Target) -> (r: bool)
        ensures
            r == ((self is BuiltIn == other is BuiltIn) && self.spec_triple() == other.spec_triple()),
    {
        self.is_builtin() == other.is_builtin() && str_eq(self.triple(), other.triple())
    }

    pub fn is_apple(&self) -> (r: bool)
        ensures
            r == spec_is_apple(self.spec_triple()),
    {
        contains(self.triple(), "apple")
    }

    pub fn is_bare_metal(&self) -> (r: bool)
        ensures
            r == spec_is_bare_metal(self.spec_triple()),
    {
        let t = self.triple();
        ends_with(t, "-none") || ends_with(t, "-none-elf") || ends_with(t, "-none-eabi")
            || ends_with(t, "-none-eabihf")
    }

    pub fn is_builtin(&self) -> (r: bool)
        ensures
            r == (self is BuiltIn),
    {
        match self {
            Target::BuiltIn { .. } => true,
            Target::Custom { .. } => false,
        }
    }

    pub fn is_bsd(&self) -> (r: bool)
        ensures
            r == spec_is_bsd(self.spec_triple()),
    {
        contains(self.triple(), "bsd") || contains(self.triple(), "dragonfly")
    }

    pub fn is_solaris(&self) -> (r: bool)
        ensures
            r == spec_is_solaris(self.spec_triple()),
    {
        contains(self.triple(), "solaris")
    }

    pub fn is_illumos(&self) -> (r: bool)
        ensures
            r == spec_is_illumos(self.spec_triple()),
    {
        contains(self.triple(), "illumos")
    }

    pub fn is_android(&self) -> (r: bool)
        ensures
            r == spec_is_android(self.spec_triple()),
    {
        contains(self.triple(), "android")
    }

    pub fn is_emscripten(&self) -> (r: bool)
        ensures
            r == spec_is_emscripten(self.spec_triple()),
    {
        contains(self.triple(), "emscripten")
    }

    pub fn is_linux(&self) -> (r: bool)
        ensures
            r == spec_is_linux(self.spec_triple()),
    {
        contains(self.triple(), "linux") && !self.is_android()
    }

    pub fn is_windows(&self) -> (r: bool)
        ensures
            r == spec_is_windows(self.spec_triple()),
    {
        contains(self.triple(), "windows")
    }

    /// Whether building for this target runs in a container.
    pub fn needs_docker(&self) -> (r: bool)
        ensures
            r == self.spec_needs_docker(),
    {
        self.is_linux() || self.is_android() || self.is_bare_metal() || self.is_bsd()
            || self.is_solaris() || self.is_illumos() || !self.is_builtin() || self.is_windows()
            || self.is_emscripten() || self.is_apple()
    }

    /// Whether running binaries of this target needs an interpreter.
    pub fn needs_interpreter(&self) -> (r: bool)
        ensures
            r == self.spec_needs_interpreter(),
    {
        let t = self.triple();
        let native = starts_with(t, "x86_64") || starts_with(t, "i586") || starts_with(t, "i686");
        !native && (self.is_linux() || self.is_windows() || self.is_bare_metal())
    }

    /// Whether the container needs the custom seccomp profile.
    pub fn needs_docker_seccomp(&self) -> (r: bool)
        ensures
            r == self.spec_needs_docker_seccomp(),
    {
        let t = self.triple();
        let arch_32bit = starts_with(t, "arm") || starts_with(t, "thumb") || starts_with(t, "i586")
            || starts_with(t, "i686");
        arch_32bit && self.is_android()
    }
}

/// How the build inside the container is driven.
#[derive(Debug, Clone, Copy, PartialEq, Eq, Structural)]
pub enum CommandVariant {
    Cargo,
    Xargo,
    Zig,
    Shell,
}

/// Asking for both zig and xargo.
#[derive(Debug, Clone, Copy, PartialEq, Eq, Structural)]
pub enum CommandVariantError {
    BothZigAndXargo,
}

impl CommandVariant {
    /// The variant for the tools asked for; zig and xargo together are refused.
    pub fn create(uses_zig: bool, uses_xargo: bool) -> (r: Result<CommandVariant, CommandVariantError>)
        ensures
            r == (match (uses_zig, uses_xargo) {
                (true, true) => Err(CommandVariantError::BothZigAndXargo),
                (true, false) => Ok(CommandVariant::Zig),
                (false, true) => Ok(CommandVariant::Xargo),
                (false, false) => Ok(CommandVariant::Cargo),
            }),
    {
        match (uses_zig, uses_xargo) {
            (true, true) => Err(CommandVariantError::BothZigAndXargo),
            (true, false) => Ok(CommandVariant::Zig),
            (false, true) => Ok(CommandVariant::Xargo),
            (false, false) => Ok(CommandVariant::Cargo),
        }
    }

    /// The program that runs the build.
    pub fn to_str(self) -> (r: &'static str)
        ensures
            r@ == (match self {
                CommandVariant::Cargo => "cargo"@,
                CommandVariant::Xargo => "xargo"@,
                CommandVariant::Zig => "cargo-zigbuild"@,
                CommandVariant::Shell => "sh"@,
            }),
    {
        match self {
            CommandVariant::Cargo => "cargo",
            CommandVariant::Xargo => "xargo",
            CommandVariant::Zig => "cargo-zigbuild",
            CommandVariant::Shell => "sh",
        }
    }

    pub fn uses_xargo(self) -> (r: bool)
        ensures
            r == (self == CommandVariant::Xargo),
    {
        self == CommandVariant::Xargo
    }

    pub fn uses_zig(self) -> (r: bool)
        ensures
            r == (self == CommandVariant::Zig),
    {
        self == CommandVariant::Zig
    }

    pub fn is_shell(self) -> (r: bool)
        ensures
            r == (self == CommandVariant::Shell),
    {
        self == CommandVariant::Shell
    }
}

/// The `dpkg` architecture of each triple that has one, as Debian names
/// it: hard-float ARM triples are `armhf`, soft-float ones `armel`, and so
/// on.
#[verifier::rlimit(100)]
pub proof fn deb_arch_table()
    ensures
        deb_arch_of("aarch64-unknown-linux-gnu"@) == Some("arm64"@),
        deb_arch_of("aarch64-unknown-linux-musl"@) == Some("musl-linux-arm64"@),
        deb_arch_of("x86_64-unknown-linux-gnu"@) == Some("amd64"@),
        deb_arch_of("x86_64-apple-darwin"@) == Some("darwin-amd64"@),
        deb_arch_of("x86_64-unknown-linux-musl"@) == Some("musl-linux-amd64"@),
        deb_arch_of("arm-unknown-linux-gnueabi"@) == Some("armel"@),
        deb_arch_of("arm-unknown-linux-gnueabihf"@) == Some("armhf"@),
        deb_arch_of("armv7-unknown-linux-gnueabi"@) == Some("armel"@),
        deb_arch_of("armv7-unknown-linux-gnueabihf"@) == Some("armhf"@),
        deb_arch_of("thumbv7neon-unknown-linux-gnueabihf"@) == Some("armhf"@),
        deb_arch_of("i586-unknown-linux-gnu"@) == Some("i386"@),
        deb_arch_of("i686-unknown-linux-gnu"@) == Some("i386"@),
        deb_arch_of("mips-unknown-linux-gnu"@) == Some("mips"@),
        deb_arch_of("mipsel-unknown-linux-gnu"@) == Some("mipsel"@),
        deb_arch_of("mips64-unknown-linux-gnuabi64"@) == Some("mips64"@),
        deb_arch_of("mips64el-unknown-linux-gnuabi64"@) == Some("mips64el"@),
        deb_arch_of("mips64-unknown-linux-muslabi64"@) == Some("musl-linux-mips64"@),
        deb_arch_of("mips64el-unknown-linux-muslabi64"@) == Some("musl-linux-mips64el"@),
        deb_arch_of("powerpc-unknown-linux-gnu"@) == Some("powerpc"@),
        deb_arch_of("powerpc64-unknown-linux-gnu"@) == Some("ppc64"@),
        deb_arch_of("powerpc64le-unknown-linux-gnu"@) == Some("ppc64el"@),
        deb_arch_of("riscv64gc-unknown-linux-gnu"@) == Some("riscv64"@),
        deb_arch_of("s390x-unknown-linux-gnu"@) == Some("s390x"@),
        deb_arch_of("sparc64-unknown-linux-gnu"@) == Some("sparc64"@),
        deb_arch_of("arm-unknown-linux-musleabihf"@) == Some("musl-linux-armhf"@),
        deb_arch_of("arm-unknown-linux-musleabi"@) == Some("musl-linux-arm"@),
        deb_arch_of("armv7-unknown-linux-musleabi"@) == Some("musl-linux-arm"@),
        deb_arch_of("armv7-unknown-linux-musleabihf"@) == Some("musl-linux-armhf"@),
        deb_arch_of("i586-unknown-linux-musl"@) == Some("musl-linux-i386"@),
        deb_arch_of("i686-unknown-linux-musl"@) == Some("musl-linux-i386"@),
        deb_arch_of("mips-unknown-linux-musl"@) == Some("musl-linux-mips"@),
        deb_arch_of("mipsel-unknown-linux-musl"@) == Some("musl-linux-mipsel"@),
        deb_arch_of("x86_64-unknown-dragonfly"@) == Some("dragonflybsd-amd64"@),
        deb_arch_of("i686-unknown-freebsd"@) == Some("freebsd-i386"@),
        deb_arch_of("x86_64-unknown-freebsd"@) == Some("freebsd-amd64"@),
        deb_arch_of("aarch64-unknown-freebsd"@) == Some("freebsd-arm64"@),
        deb_arch_of("x86_64-unknown-netbsd"@) == Some("netbsd-amd64"@),
        deb_arch_of("sparcv9-sun-solaris"@) == Some("solaris-sparc"@),
        deb_arch_of("x86_64-pc-solaris"@) == Some("solaris-amd64"@),
        deb_arch_of("thumbv6m-none-eabi"@) == Some("arm"@),
        deb_arch_of("thumbv7em-none-eabi"@) == Some("arm"@),
        deb_arch_of("thumbv7em-none-eabihf"@) == Some("armhf"@),
        deb_arch_of("thumbv7m-none-eabi"@) == Some("arm"@),
{
    reveal_strlit("aarch64-unknown-freebsd");
    reveal_strlit("aarch64-unknown-linux-gnu");
    reveal_strlit("aarch64-unknown-linux-musl");
    reveal_strlit("amd64");
    reveal_strlit("arm");
    reveal_strlit("arm-unknown-linux-gnueabi");
    reveal_strlit("arm-unknown-linux-gnueabihf");
    reveal_strlit("arm-unknown-linux-musleabi");
    reveal_strlit("arm-unknown-linux-musleabihf");
    reveal_strlit("arm64");
    reveal_strlit("armel");
    reveal_strlit("armhf");
    reveal_strlit("armv7-unknown-linux-gnueabi");
    reveal_strlit("armv7-unknown-linux-gnueabihf");
    reveal_strlit("armv7-unknown-linux-musleabi");
    reveal_strlit("armv7-unknown-linux-musleabihf");
    reveal_strlit("darwin-amd64");
    reveal_strlit("dragonflybsd-amd64");
    reveal_strlit("freebsd-amd64");
    reveal_strlit("freebsd-arm64");
    reveal_strlit("freebsd-i386");
    reveal_strlit("i386");
    reveal_strlit("i586-unknown-linux-gnu");
    reveal_strlit("i586-unknown-linux-musl");
    reveal_strlit("i686-unknown-freebsd");
    reveal_strlit("i686-unknown-linux-gnu");
    reveal_strlit("i686-unknown-linux-musl");
    reveal_strlit("mips");
    reveal_strlit("mips-unknown-linux-gnu");
    reveal_strlit("mips-unknown-linux-musl");
    reveal_strlit("mips64");
    reveal_strlit("mips64-unknown-linux-gnuabi64");
    reveal_strlit("mips64-unknown-linux-muslabi64");
    reveal_strlit("mips64el");
    reveal_strlit("mips64el-unknown-linux-gnuabi64");
    reveal_strlit("mips64el-unknown-linux-muslabi64");
    reveal_strlit("mipsel");
    reveal_strlit("mipsel-unknown-linux-gnu");
    reveal_strlit("mipsel-unknown-linux-musl");
    reveal_strlit("musl-linux-amd64");
    reveal_strlit("musl-linux-arm");
    reveal_strlit("musl-linux-arm64");
    reveal_strlit("musl-linux-armhf");
    reveal_strlit("musl-linux-i386");
    reveal_strlit("musl-linux-mips");
    reveal_strlit("musl-linux-mips64");
    reveal_strlit("musl-linux-mips64el");
    reveal_strlit("musl-linux-mipsel");
    reveal_strlit("netbsd-amd64");
    reveal_strlit("powerpc");
    reveal_strlit("powerpc-unknown-linux-gnu");
    reveal_strlit("powerpc64-unknown-linux-gnu");
    reveal_strlit("powerpc64le-unknown-linux-gnu");
    reveal_strlit("ppc64");
    reveal_strlit("ppc64el");
    reveal_strlit("riscv64");
    reveal_strlit("riscv64gc-unknown-linux-gnu");
    reveal_strlit("s390x");
    reveal_strlit("s390x-unknown-linux-gnu");
    reveal_strlit("solaris-amd64");
    reveal_strlit("solaris-sparc");
    reveal_strlit("sparc64");
    reveal_strlit("sparc64-unknown-linux-gnu");
    reveal_strlit("sparcv9-sun-solaris");
    reveal_strlit("thumbv6m-none-eabi");
    reveal_strlit("thumbv7em-none-eabi");
    reveal_strlit("thumbv7em-none-eabihf");
    reveal_strlit("thumbv7m-none-eabi");
    reveal_strlit("thumbv7neon-unknown-linux-gnueabihf");
    reveal_strlit("x86_64-apple-darwin");
    reveal_strlit("x86_64-pc-solaris");
    reveal_strlit("x86_64-unknown-dragonfly");
    reveal_strlit("x86_64-unknown-freebsd");
    reveal_strlit("x86_64-unknown-linux-gnu");
    reveal_strlit("x86_64-unknown-linux-musl");
    reveal_strlit("x86_64-unknown-netbsd");
    assert("aarch64-unknown-linux-gnu"@.len() == 25);
    assert("aarch64-unknown-linux-musl"@.len() == 26);
    assert("x86_64-unknown-linux-gnu"@.len() == 24);
    assert("x86_64-apple-darwin"@.len() == 19);
    assert("x86_64-unknown-linux-musl"@.len() == 25);
    assert("arm-unknown-linux-gnueabi"@.len() == 25);
    assert("arm-unknown-linux-gnueabihf"@.len() == 27);
    assert("armv7-unknown-linux-gnueabi"@.len() == 27);
    assert("armv7-unknown-linux-gnueabihf"@.len() == 29);
    assert("thumbv7neon-unknown-linux-gnueabihf"@.len() == 35);
    assert("i586-unknown-linux-gnu"@.len() == 22);
    assert("i686-unknown-linux-gnu"@.len() == 22);
    assert("mips-unknown-linux-gnu"@.len() == 22);
    assert("mipsel-unknown-linux-gnu"@.len() == 24);
    assert("mips64-unknown-linux-gnuabi64"@.len() == 29);
    assert("mips64el-unknown-linux-gnuabi64"@.len() == 31);
    assert("mips64-unknown-linux-muslabi64"@.len() == 30);
    assert("mips64el-unknown-linux-muslabi64"@.len() == 32);
    assert("powerpc-unknown-linux-gnu"@.len() == 25);
    assert("powerpc64-unknown-linux-gnu"@.len() == 27);
    assert("powerpc64le-unknown-linux-gnu"@.len() == 29);
    assert("riscv64gc-unknown-linux-gnu"@.len() == 27);
    assert("s390x-unknown-linux-gnu"@.len() == 23);
    assert("sparc64-unknown-linux-gnu"@.len() == 25);
    assert("arm-unknown-linux-musleabihf"@.len() == 28);
    assert("arm-unknown-linux-musleabi"@.len() == 26);
    assert("armv7-unknown-linux-musleabi"@.len() == 28);
    assert("armv7-unknown-linux-musleabihf"@.len() == 30);
    assert("i586-unknown-linux-musl"@.len() == 23);
    assert("i686-unknown-linux-musl"@.len() == 23);
    assert("mips-unknown-linux-musl"@.len() == 23);
    assert("mipsel-unknown-linux-musl"@.len() == 25);
    assert("x86_64-unknown-dragonfly"@.len() == 24);
    assert("i686-unknown-freebsd"@.len() == 20);
    assert("x86_64-unknown-freebsd"@.len() == 22);
    assert("aarch64-unknown-freebsd"@.len() == 23);
    assert("x86_64-unknown-netbsd"@.len() == 21);
    assert("sparcv9-sun-solaris"@.len() == 19);
    assert("x86_64-pc-solaris"@.len() == 17);
    assert("thumbv6m-none-eabi"@.len() == 18);
    assert("thumbv7em-none-eabi"@.len() == 19);
    assert("thumbv7em-none-eabihf"@.len() == 21);
    assert("thumbv7m-none-eabi"@.len() == 18);
    assert("aarch64-unknown-linux-gnu"@[0] == 'a');
    assert("aarch64-unknown-linux-gnu"@[1] == 'a');
    assert("aarch64-unknown-linux-musl"@[1] == 'a');
    assert("x86_64-unknown-linux-gnu"@[0] == 'x');
    assert("x86_64-unknown-linux-gnu"@[15] == 'l');
    assert("x86_64-apple-darwin"@[0] == 'x');
    assert("x86_64-unknown-linux-musl"@[0] == 'x');
    assert("arm-unknown-linux-gnueabi"@[0] == 'a');
    assert("arm-unknown-linux-gnueabi"@[1] == 'r');
    assert("arm-unknown-linux-gnueabihf"@[0] == 'a');
    assert("arm-unknown-linux-gnueabihf"@[3] == '-');
    assert("armv7-unknown-linux-gnueabi"@[0] == 'a');
    assert("armv7-unknown-linux-gnueabi"@[3] == 'v');
    assert("armv7-unknown-linux-gnueabihf"@[0] == 'a');
    assert("i586-unknown-linux-gnu"@[0] == 'i');
    assert("i586-unknown-linux-gnu"@[1] == '5');
    assert("i686-unknown-linux-gnu"@[0] == 'i');
    assert("i686-unknown-linux-gnu"@[1] == '6');
    assert("mips-unknown-linux-gnu"@[0] == 'm');
    assert("mipsel-unknown-linux-gnu"@[0] == 'm');
    assert("mips64-unknown-linux-gnuabi64"@[0] == 'm');
    assert("mips64-unknown-linux-muslabi64"@[0] == 'm');
    assert("powerpc-unknown-linux-gnu"@[0] == 'p');
    assert("powerpc64-unknown-linux-gnu"@[0] == 'p');
    assert("powerpc64le-unknown-linux-gnu"@[0] == 'p');
    assert("riscv64gc-unknown-linux-gnu"@[0] == 'r');
    assert("s390x-unknown-linux-gnu"@[0] == 's');
    assert("sparc64-unknown-linux-gnu"@[0] == 's');
    assert("arm-unknown-linux-musleabihf"@[3] == '-');
    assert("arm-unknown-linux-musleabi"@[1] == 'r');
    assert("armv7-unknown-linux-musleabi"@[3] == 'v');
    assert("armv7-unknown-linux-musleabihf"@[0] == 'a');
    assert("i586-unknown-linux-musl"@[0] == 'i');
    assert("i586-unknown-linux-musl"@[1] == '5');
    assert("i686-unknown-linux-musl"@[0] == 'i');
    assert("i686-unknown-linux-musl"@[1] == '6');
    assert("mips-unknown-linux-musl"@[0] == 'm');
    assert("mipsel-unknown-linux-musl"@[0] == 'm');
    assert("x86_64-unknown-dragonfly"@[0] == 'x');
    assert("x86_64-unknown-dragonfly"@[15] == 'd');
    assert("x86_64-unknown-freebsd"@[0] == 'x');
    assert("aarch64-unknown-freebsd"@[0] == 'a');
    assert("x86_64-unknown-netbsd"@[0] == 'x');
    assert("sparcv9-sun-solaris"@[0] == 's');
    assert("thumbv6m-none-eabi"@[6] == '6');
    assert("thumbv7em-none-eabi"@[0] == 't');
    assert("thumbv7em-none-eabihf"@[0] == 't');
    assert("thumbv7m-none-eabi"@[6] == '7');
    assert(deb_arch_of("thumbv7m-none-eabi"@) == Some("arm"@));
}


/// The float ABI of an ARM triple decides its `dpkg` architecture: a
/// hard-float triple (`...eabihf`) gets a hard-float architecture
/// (`armhf`, `musl-linux-armhf`), a soft-float GNU one (`...-gnueabi`)
/// gets `armel`.
#[verifier::rlimit(100)]
pub proof fn deb_arch_follows_float_abi(t: Seq<char>)
    ensures
        has_suffix(t, "eabihf"@) && deb_arch_of(t) is Some ==> has_suffix(deb_arch_of(t)->0, "armhf"@),
        has_suffix(t, "-gnueabi"@) && deb_arch_of(t) is Some ==> deb_arch_of(t)->0 == "armel"@,
{
    reveal_strlit("aarch64-unknown-freebsd");
    reveal_strlit("aarch64-unknown-linux-gnu");
    reveal_strlit("aarch64-unknown-linux-musl");
    reveal_strlit("arm-unknown-linux-gnueabi");
    reveal_strlit("arm-unknown-linux-gnueabihf");
    reveal_strlit("arm-unknown-linux-musleabi");
    reveal_strlit("arm-unknown-linux-musleabihf");
    reveal_strlit("armv7-unknown-linux-gnueabi");
    reveal_strlit("armv7-unknown-linux-gnueabihf");
    reveal_strlit("armv7-unknown-linux-musleabi");
    reveal_strlit("armv7-unknown-linux-musleabihf");
    reveal_strlit("i586-unknown-linux-gnu");
    reveal_strlit("i586-unknown-linux-musl");
    reveal_strlit("i686-unknown-freebsd");
    reveal_strlit("i686-unknown-linux-gnu");
    reveal_strlit("i686-unknown-linux-musl");
    reveal_strlit("mips-unknown-linux-gnu");
    reveal_strlit("mips-unknown-linux-musl");
    reveal_strlit("mips64-unknown-linux-gnuabi64");
    reveal_strlit("mips64-unknown-linux-muslabi64");
    reveal_strlit("mips64el-unknown-linux-gnuabi64");
    reveal_strlit("mips64el-unknown-linux-muslabi64");
    reveal_strlit("mipsel-unknown-linux-gnu");
    reveal_strlit("mipsel-unknown-linux-musl");
    reveal_strlit("powerpc-unknown-linux-gnu");
    reveal_strlit("powerpc64-unknown-linux-gnu");
    reveal_strlit("powerpc64le-unknown-linux-gnu");
    reveal_strlit("riscv64gc-unknown-linux-gnu");
    reveal_strlit("s390x-unknown-linux-gnu");
    reveal_strlit("sparc64-unknown-linux-gnu");
    reveal_strlit("sparcv9-sun-solaris");
    reveal_strlit("thumbv6m-none-eabi");
    reveal_strlit("thumbv7em-none-eabi");
    reveal_strlit("thumbv7em-none-eabihf");
    reveal_strlit("thumbv7m-none-eabi");
    reveal_strlit("thumbv7neon-unknown-linux-gnueabihf");
    reveal_strlit("x86_64-apple-darwin");
    reveal_strlit("x86_64-pc-solaris");
    reveal_strlit("x86_64-unknown-dragonfly");
    reveal_strlit("x86_64-unknown-freebsd");
    reveal_strlit("x86_64-unknown-linux-gnu");
    reveal_strlit("x86_64-unknown-linux-musl");
    reveal_strlit("x86_64-unknown-netbsd");
    reveal_strlit("eabihf");
    reveal_strlit("-gnueabi");
    reveal_strlit("armhf");
    reveal_strlit("musl-linux-armhf");
    assert("armhf"@.subrange(0, 5) =~= "armhf"@);
    assert("musl-linux-armhf"@.subrange(11, 16) =~= "armhf"@);
    if has_suffix(t, "eabihf"@) {
        let n = t.len() as int;
        assert(t[n - 1] == t.subrange(n - 6, n)[5]);
        assert(t[n - 2] == t.subrange(n - 6, n)[4]);
        assert(t[n - 3] == t.subrange(n - 6, n)[3]);
    }
    if has_suffix(t, "-gnueabi"@) {
        let n = t.len() as int;
        assert(t[n - 1] == t.subrange(n - 8, n)[7]);
        assert(t[n - 7] == t.subrange(n - 8, n)[1]);
        assert(t[n - 8] == t.subrange(n - 8, n)[0]);
    }
}

/// The systems that `cross` builds for in a container: a target whose
/// triple names Linux, Android, Windows, Apple, a BSD, Solaris, illumos or
/// emscripten, a bare-metal target, and every custom target, needs one.
pub proof fn container_systems_need_docker(t: Target)
    ensures
        has_infix(t.spec_triple(), "linux"@) ==> t.spec_needs_docker(),
        has_infix(t.spec_triple(), "android"@) ==> t.spec_needs_docker(),
        has_infix(t.spec_triple(), "windows"@) ==> t.spec_needs_docker(),
        has_infix(t.spec_triple(), "apple"@) ==> t.spec_needs_docker(),
        has_infix(t.spec_triple(), "bsd"@) ==> t.spec_needs_docker(),
        has_infix(t.spec_triple(), "dragonfly"@) ==> t.spec_needs_docker(),
        has_infix(t.spec_triple(), "solaris"@) ==> t.spec_needs_docker(),
        has_infix(t.spec_triple(), "illumos"@) ==> t.spec_needs_docker(),
        has_infix(t.spec_triple(), "emscripten"@) ==> t.spec_needs_docker(),
        has_suffix(t.spec_triple(), "-none"@) ==> t.spec_needs_docker(),
        has_suffix(t.spec_triple(), "-none-elf"@) ==> t.spec_needs_docker(),
        has_suffix(t.spec_triple(), "-none-eabi"@) ==> t.spec_needs_docker(),
        has_suffix(t.spec_triple(), "-none-eabihf"@) ==> t.spec_needs_docker(),
        t is Custom ==> t.spec_needs_docker(),
{
}

/// Without the old behaviour of version 0.2.1, every host supports the
/// targets that need a container (see [`container_systems_need_docker`]),
/// and the build of such a target runs in the container.
pub proof fn container_targets_supported(host: TargetTriple, t: Target)
    ensures
        t.spec_needs_docker() ==> supported(host, Some(t), false),
        has_infix(t.spec_triple(), "windows"@) ==> supported(host, Some(t), false),
        has_infix(t.spec_triple(), "linux"@) ==> supported(host, Some(t), false),
{
    container_systems_need_docker(t);
}

/// A target that `rustc` knows whose triple names none of the systems of
/// [`container_systems_need_docker`] (such as `wasm32-unknown-unknown`)
/// builds on the host.
pub proof fn other_targets_build_on_host(t: Target)
    requires
        t is BuiltIn,
        !has_infix(t.spec_triple(), "linux"@),
        !has_infix(t.spec_triple(), "android"@),
        !has_infix(t.spec_triple(), "windows"@),
        !has_infix(t.spec_triple(), "apple"@),
        !has_infix(t.spec_triple(), "bsd"@),
        !has_infix(t.spec_triple(), "dragonfly"@),
        !has_infix(t.spec_triple(), "solaris"@),
        !has_infix(t.spec_triple(), "illumos"@),
        !has_infix(t.spec_triple(), "emscripten"@),
        !has_suffix(t.spec_triple(), "-none"@),
        !has_suffix(t.spec_triple(), "-none-elf"@),
        !has_suffix(t.spec_triple(), "-none-eabi"@),
        !has_suffix(t.spec_triple(), "-none-eabihf"@),
    ensures
        !t.spec_needs_docker(),
{
}

} // verus!
