//! Container images: their references, and the platform (operating system,
//! architecture and toolchain) an image is built for.

use vstd::prelude::*;
use vstd::string::StringExecFns;
use crate::target::{TargetTriple, is_named_triple};
use crate::shell::{MessageInfo, opt_view};
use crate::docker::engine::Engine;
use crate::text::{str_eq, starts_with, chars_of, chars_find, chars_rfind, substring, first_index, last_index, has_prefix};

verus! {

broadcast use vstd::string::group_string_axioms;

/// The registry that holds the images of `cross`.
pub const CROSS_IMAGE: &'static str = "ghcr.io/cross-rs";

/// The tag of the images that this version of `cross` uses.
pub const DEFAULT_IMAGE_VERSION: &'static str = "0.2.5";

/// Why a platform could not be read.
#[derive(Debug, Clone, Copy, PartialEq, Eq, Structural)]
pub enum PlatformError {
    /// The target triple has too few `-`-separated parts.
    MalformedTarget,
    /// The architecture is not one that images are built for.
    UnsupportedArchitecture,
    /// The operating system is not one that images are built for.
    UnsupportedOs,
    /// A `os/arch=toolchain` platform without the `/`.
    InvalidPlatform,
}

/// The CPU architecture of an image.
#[derive(Debug, Clone, Copy, PartialEq, Eq, Structural)]
pub enum Architecture {
    I386,
    Amd64,
    Arm,
    Arm64,
    Mips,
    Mips64,
    Mips64Le,
    MipsLe,
    Ppc64,
    Ppc64Le,
    Riscv64,
    S390x,
    Wasm,
    LoongArch64,
}

/// The architecture a name stands for: its lowercase name, or one of the
/// names `rustc` uses for it.
pub open spec fn arch_of_name(s: Seq<char>) -> Option<Architecture> {
    if s == "i386"@ { Some(Architecture::I386) }
    else if s == "amd64"@ || s == "x86_64"@ { Some(Architecture::Amd64) }
    else if s == "arm"@ || s == "armv7"@ { Some(Architecture::Arm) }
    else if s == "arm64"@ || s == "aarch64"@ { Some(Architecture::Arm64) }
    else if s == "mips"@ { Some(Architecture::Mips) }
    else if s == "mips64"@ { Some(Architecture::Mips64) }
    else if s == "mips64le"@ { Some(Architecture::Mips64Le) }
    else if s == "mipsle"@ { Some(Architecture::MipsLe) }
    else if s == "ppc64"@ || s == "powerpc64"@ { Some(Architecture::Ppc64) }
    else if s == "ppc64le"@ { Some(Architecture::Ppc64Le) }
    else if s == "riscv64"@ || s == "riscv64gc"@ { Some(Architecture::Riscv64) }
    else if s == "s390x"@ { Some(Architecture::S390x) }
    else if s == "wasm"@ { Some(Architecture::Wasm) }
    else if s == "loongarch64"@ { Some(Architecture::LoongArch64) }
    else { None }
}

/// The lowercase name of an architecture.
pub open spec fn arch_name(a: Architecture) -> Seq<char> {
    match a {
        Architecture::I386 => "i386"@,
        Architecture::Amd64 => "amd64"@,
        Architecture::Arm => "arm"@,
        Architecture::Arm64 => "arm64"@,
        Architecture::Mips => "mips"@,
        Architecture::Mips64 => "mips64"@,
        Architecture::Mips64Le => "mips64le"@,
        Architecture::MipsLe => "mipsle"@,
        Architecture::Ppc64 => "ppc64"@,
        Architecture::Ppc64Le => "ppc64le"@,
        Architecture::Riscv64 => "riscv64"@,
        Architecture::S390x => "s390x"@,
        Architecture::Wasm => "wasm"@,
        Architecture::LoongArch64 => "loongarch64"@,
    }
}

/// Reading the name of an architecture gives the architecture back.
pub proof fn arch_name_round_trip(a: Architecture)
    ensures
        arch_of_name(arch_name(a)) == Some(a),
{
    reveal_strlit("i386");
    assert("i386"@.len() == 4);
    reveal_strlit("amd64");
    assert("amd64"@.len() == 5);
    reveal_strlit("x86_64");
    assert("x86_64"@.len() == 6);
    reveal_strlit("arm");
    assert("arm"@.len() == 3);
    reveal_strlit("armv7");
    assert("armv7"@.len() == 5);
    reveal_strlit("arm64");
    assert("arm64"@.len() == 5);
    reveal_strlit("aarch64");
    assert("aarch64"@.len() == 7);
    reveal_strlit("mips");
    assert("mips"@.len() == 4);
    reveal_strlit("mips64");
    assert("mips64"@.len() == 6);
    reveal_strlit("mips64le");
    assert("mips64le"@.len() == 8);
    reveal_strlit("mipsle");
    assert("mipsle"@.len() == 6);
    reveal_strlit("ppc64");
    assert("ppc64"@.len() == 5);
    reveal_strlit("powerpc64");
    assert("powerpc64"@.len() == 9);
    reveal_strlit("ppc64le");
    assert("ppc64le"@.len() == 7);
    reveal_strlit("riscv64");
    assert("riscv64"@.len() == 7);
    reveal_strlit("riscv64gc");
    assert("riscv64gc"@.len() == 9);
    reveal_strlit("s390x");
    assert("s390x"@.len() == 5);
    reveal_strlit("wasm");
    assert("wasm"@.len() == 4);
    reveal_strlit("loongarch64");
    assert("loongarch64"@.len() == 11);
    assert("i386"@[0] == 'i' && "mips"@[0] == 'm');
    assert("i386"@[0] == 'i' && "wasm"@[0] == 'w');
    assert("amd64"@[1] == 'm' && "armv7"@[1] == 'r');
    assert("amd64"@[1] == 'm' && "arm64"@[1] == 'r');
    assert("amd64"@[0] == 'a' && "ppc64"@[0] == 'p');
    assert("amd64"@[0] == 'a' && "s390x"@[0] == 's');
    assert("x86_64"@[0] == 'x' && "mips64"@[0] == 'm');
    assert("x86_64"@[0] == 'x' && "mipsle"@[0] == 'm');
    assert("armv7"@[3] == 'v' && "arm64"@[3] == '6');
    assert("armv7"@[0] == 'a' && "ppc64"@[0] == 'p');
    assert("armv7"@[0] == 'a' && "s390x"@[0] == 's');
    assert("arm64"@[0] == 'a' && "ppc64"@[0] == 'p');
    assert("arm64"@[0] == 'a' && "s390x"@[0] == 's');
    assert("aarch64"@[0] == 'a' && "ppc64le"@[0] == 'p');
    assert("aarch64"@[0] == 'a' && "riscv64"@[0] == 'r');
    assert("mips"@[0] == 'm' && "wasm"@[0] == 'w');
    assert("mips64"@[4] == '6' && "mipsle"@[4] == 'l');
    assert("ppc64"@[0] == 'p' && "s390x"@[0] == 's');
    assert("powerpc64"@[0] == 'p' && "riscv64gc"@[0] == 'r');
    assert("ppc64le"@[0] == 'p' && "riscv64"@[0] == 'r');
}

/// The architecture of a target triple: the name before its first `-`.
pub open spec fn arch_of_triple(t: Seq<char>) -> Result<Architecture, PlatformError> {
    match first_index(t, '-') {
        None => Err(PlatformError::MalformedTarget),
        Some(i) => match arch_of_name(t.take(i)) {
            Some(a) => Ok(a),
            None => Err(PlatformError::UnsupportedArchitecture),
        },
    }
}

impl Architecture {
    /// The architecture named `s` (see [`arch_of_name`]).
    pub fn new(s: &str) -> (r: Result<Architecture, PlatformError>)
        ensures
            match r {
                Ok(a) => arch_of_name(s@) == Some(a),
                Err(e) => arch_of_name(s@) is None && e == PlatformError::UnsupportedArchitecture,
            },
    {
        if str_eq(s, "i386") { Ok(Architecture::I386) }
        else if str_eq(s, "amd64") || str_eq(s, "x86_64") { Ok(Architecture::Amd64) }
        else if str_eq(s, "arm") || str_eq(s, "armv7") { Ok(Architecture::Arm) }
        else if str_eq(s, "arm64") || str_eq(s, "aarch64") { Ok(Architecture::Arm64) }
        else if str_eq(s, "mips") { Ok(Architecture::Mips) }
        else if str_eq(s, "mips64") { Ok(Architecture::Mips64) }
        else if str_eq(s, "mips64le") { Ok(Architecture::Mips64Le) }
        else if str_eq(s, "mipsle") { Ok(Architecture::MipsLe) }
        else if str_eq(s, "ppc64") || str_eq(s, "powerpc64") { Ok(Architecture::Ppc64) }
        else if str_eq(s, "ppc64le") { Ok(Architecture::Ppc64Le) }
        else if str_eq(s, "riscv64") || str_eq(s, "riscv64gc") { Ok(Architecture::Riscv64) }
        else if str_eq(s, "s390x") { Ok(Architecture::S390x) }
        else if str_eq(s, "wasm") { Ok(Architecture::Wasm) }
        else if str_eq(s, "loongarch64") { Ok(Architecture::LoongArch64) }
        else { Err(PlatformError::UnsupportedArchitecture) }
    }

    /// The architecture of a target triple (see [`arch_of_triple`]).
    pub fn from_target(target: &TargetTriple) -> (r: Result<Architecture, PlatformError>)
        ensures
            r == arch_of_triple(target.spec_triple()),
    {
        let t = chars_of(target.triple());
        match chars_find(t.as_slice(), '-') {
            None => Err(PlatformError::MalformedTarget),
            Some(i) => {
                let name = substring(t.as_slice(), 0, i);
                assert(name@ == t@.take(i as int));
                Architecture::new(name.as_str())
            },
        }
    }

    /// The lowercase name of the architecture.
    pub fn name(&self) -> (r: &'static str)
        ensures
            r@ == arch_name(*self),
    {
        match self {
            Architecture::I386 => "i386",
            Architecture::Amd64 => "amd64",
            Architecture::Arm => "arm",
            Architecture::Arm64 => "arm64",
            Architecture::Mips => "mips",
            Architecture::Mips64 => "mips64",
            Architecture::Mips64Le => "mips64le",
            Architecture::MipsLe => "mipsle",
            Architecture::Ppc64 => "ppc64",
            Architecture::Ppc64Le => "ppc64le",
            Architecture::Riscv64 => "riscv64",
            Architecture::S390x => "s390x",
            Architecture::Wasm => "wasm",
            Architecture::LoongArch64 => "loongarch64",
        }
    }
}

/// The operating system of an image.
#[derive(Debug, Clone, Copy, PartialEq, Eq, Structural)]
pub enum Os {
    Android,
    Darwin,
    Freebsd,
    Illumos,
    Linux,
    Netbsd,
    Solaris,
    Windows,
}

/// The operating system a name stands for: its lowercase name, or `macos`.
pub open spec fn os_of_name(s: Seq<char>) -> Option<Os> {
    if s == "android"@ { Some(Os::Android) }
    else if s == "darwin"@ || s == "macos"@ { Some(Os::Darwin) }
    else if s == "freebsd"@ { Some(Os::Freebsd) }
    else if s == "illumos"@ { Some(Os::Illumos) }
    else if s == "linux"@ { Some(Os::Linux) }
    else if s == "netbsd"@ { Some(Os::Netbsd) }
    else if s == "solaris"@ { Some(Os::Solaris) }
    else if s == "windows"@ { Some(Os::Windows) }
    else { None }
}

/// The lowercase name of an operating system.
pub open spec fn os_name(o: Os) -> Seq<char> {
    match o {
        Os::Android => "android"@,
        Os::Darwin => "darwin"@,
        Os::Freebsd => "freebsd"@,
        Os::Illumos => "illumos"@,
        Os::Linux => "linux"@,
        Os::Netbsd => "netbsd"@,
        Os::Solaris => "solaris"@,
        Os::Windows => "windows"@,
    }
}

/// Reading the name of an operating system gives the system back.
pub proof fn os_name_round_trip(o: Os)
    ensures
        os_of_name(os_name(o)) == Some(o),
{
    reveal_strlit("android");
    assert("android"@.len() == 7);
    reveal_strlit("darwin");
    assert("darwin"@.len() == 6);
    reveal_strlit("macos");
    assert("macos"@.len() == 5);
    reveal_strlit("freebsd");
    assert("freebsd"@.len() == 7);
    reveal_strlit("illumos");
    assert("illumos"@.len() == 7);
    reveal_strlit("linux");
    assert("linux"@.len() == 5);
    reveal_strlit("netbsd");
    assert("netbsd"@.len() == 6);
    reveal_strlit("solaris");
    assert("solaris"@.len() == 7);
    reveal_strlit("windows");
    assert("windows"@.len() == 7);
    assert("android"@[0] == 'a' && "freebsd"@[0] == 'f');
    assert("android"@[0] == 'a' && "illumos"@[0] == 'i');
    assert("android"@[0] == 'a' && "solaris"@[0] == 's');
    assert("android"@[0] == 'a' && "windows"@[0] == 'w');
    assert("darwin"@[0] == 'd' && "netbsd"@[0] == 'n');
    assert("macos"@[0] == 'm' && "linux"@[0] == 'l');
    assert("freebsd"@[0] == 'f' && "illumos"@[0] == 'i');
    assert("freebsd"@[0] == 'f' && "solaris"@[0] == 's');
    assert("freebsd"@[0] == 'f' && "windows"@[0] == 'w');
    assert("illumos"@[0] == 'i' && "solaris"@[0] == 's');
    assert("illumos"@[0] == 'i' && "windows"@[0] == 'w');
    assert("solaris"@[0] == 's' && "windows"@[0] == 'w');
}

/// The last `-`-separated part of `t` (all of `t` without a `-`).
pub open spec fn last_part(t: Seq<char>) -> Seq<char> {
    match last_index(t, '-') {
        Some(i) => t.skip(i + 1),
        None => t,
    }
}

/// The operating system of a target triple, read from its last part (the
/// abi) and the part before it (the system).
pub open spec fn os_of_triple(t: Seq<char>) -> Result<Os, PlatformError> {
    match last_index(t, '-') {
        None => Err(PlatformError::MalformedTarget),
        Some(i) => {
            let abi = t.skip(i + 1);
            let system = last_part(t.take(i));
            if abi == "darwin"@ { Ok(Os::Darwin) }
            else if abi == "freebsd"@ { Ok(Os::Freebsd) }
            else if abi == "netbsd"@ { Ok(Os::Netbsd) }
            else if abi == "illumos"@ { Ok(Os::Illumos) }
            else if abi == "solaris"@ { Ok(Os::Solaris) }
            else if abi == "android"@ { Ok(Os::Android) }
            else if system == "linux"@ { Ok(Os::Linux) }
            else if system == "windows"@ { Ok(Os::Windows) }
            else { Err(PlatformError::UnsupportedOs) }
        },
    }
}

/// The part of `t` after its last `-`, or all of it.
fn last_part_of(t: &[char]) -> (r: String)
    ensures
        r@ == last_part(t@),
{
    match chars_rfind(t, '-') {
        Some(i) => {
            let r = substring(t, i + 1, t.len());
            assert(r@ == t@.skip(i + 1));
            r
        },
        None => substring(t, 0, t.len()),
    }
}

impl Os {
    /// The operating system named `s` (see [`os_of_name`]).
    pub fn new(s: &str) -> (r: Result<Os, PlatformError>)
        ensures
            match r {
                Ok(o) => os_of_name(s@) == Some(o),
                Err(e) => os_of_name(s@) is None && e == PlatformError::UnsupportedOs,
            },
    {
        if str_eq(s, "android") { Ok(Os::Android) }
        else if str_eq(s, "darwin") || str_eq(s, "macos") { Ok(Os::Darwin) }
        else if str_eq(s, "freebsd") { Ok(Os::Freebsd) }
        else if str_eq(s, "illumos") { Ok(Os::Illumos) }
        else if str_eq(s, "linux") { Ok(Os::Linux) }
        else if str_eq(s, "netbsd") { Ok(Os::Netbsd) }
        else if str_eq(s, "solaris") { Ok(Os::Solaris) }
        else if str_eq(s, "windows") { Ok(Os::Windows) }
        else { Err(PlatformError::UnsupportedOs) }
    }

    /// The operating system of a target triple (see [`os_of_triple`]).
    pub fn from_target(target: &TargetTriple) -> (r: Result<Os, PlatformError>)
        ensures
            r == os_of_triple(target.spec_triple()),
    {
        let t = chars_of(target.triple());
        match chars_rfind(t.as_slice(), '-') {
            None => Err(PlatformError::MalformedTarget),
            Some(i) => {
                let abi = substring(t.as_slice(), i + 1, t.len());
                let head = substring(t.as_slice(), 0, i);
                let hv = chars_of(head.as_str());
                let system = last_part_of(hv.as_slice());
                assert(abi@ == t@.skip(i + 1));
                assert(hv@ == t@.take(i as int));
                let a = abi.as_str();
                let sy = system.as_str();
                if str_eq(a, "darwin") { Ok(Os::Darwin) }
                else if str_eq(a, "freebsd") { Ok(Os::Freebsd) }
                else if str_eq(a, "netbsd") { Ok(Os::Netbsd) }
                else if str_eq(a, "illumos") { Ok(Os::Illumos) }
                else if str_eq(a, "solaris") { Ok(Os::Solaris) }
                else if str_eq(a, "android") { Ok(Os::Android) }
                else if str_eq(sy, "linux") { Ok(Os::Linux) }
                else if str_eq(sy, "windows") { Ok(Os::Windows) }
                else { Err(PlatformError::UnsupportedOs) }
            },
        }
    }

    /// The lowercase name of the operating system.
    pub fn name(&self) -> (r: &'static str)
        ensures
            r@ == os_name(*self),
    {
        match self {
            Os::Android => "android",
            Os::Darwin => "darwin",
            Os::Freebsd => "freebsd",
            Os::Illumos => "illumos",
            Os::Linux => "linux",
            Os::Netbsd => "netbsd",
            Os::Solaris => "solaris",
            Os::Windows => "windows",
        }
    }
}

/// The variant of an `arm` platform: `v7` for `armv7-`, `v6` for `arm-`.
pub open spec fn variant_of(t: Seq<char>) -> Option<Seq<char>> {
    if has_prefix(t, "armv7-"@) {
        Some("v7"@)
    } else if has_prefix(t, "arm-"@) {
        Some("v6"@)
    } else {
        None
    }
}

/// The architecture and operating system of each host that has a triple
/// variant of its own.
pub open spec fn named_platform(t: Seq<char>) -> (Architecture, Os) {
    if t == "x86_64-apple-darwin"@ { (Architecture::Amd64, Os::Darwin) }
    else if t == "aarch64-apple-darwin"@ { (Architecture::Arm64, Os::Linux) }
    else if t == "x86_64-pc-windows-msvc"@ { (Architecture::Amd64, Os::Windows) }
    else if t == "aarch64-unknown-linux-gnu"@ || t == "aarch64-unknown-linux-musl"@ { (Architecture::Arm64, Os::Linux) }
    else { (Architecture::Amd64, Os::Linux) }
}

/// The platform of each named host, by its variant.
pub open spec fn const_platform(t: TargetTriple) -> (Architecture, Os) {
    match t {
        TargetTriple::X86_64AppleDarwin => (Architecture::Amd64, Os::Darwin),
        TargetTriple::Aarch64AppleDarwin => (Architecture::Arm64, Os::Linux),
        TargetTriple::X86_64PcWindowsMsvc => (Architecture::Amd64, Os::Windows),
        TargetTriple::Aarch64UnknownLinuxGnu => (Architecture::Arm64, Os::Linux),
        TargetTriple::Aarch64UnknownLinuxMusl => (Architecture::Arm64, Os::Linux),
        _ => (Architecture::Amd64, Os::Linux),
    }
}

/// The platform of a named host read from its triple string is the one of
/// its variant.
pub proof fn lemma_named_platform(t: TargetTriple)
    requires
        !(t is Other),
    ensures
        named_platform(t.spec_triple()) == const_platform(t),
{
    reveal_strlit("x86_64-apple-darwin");
    reveal_strlit("aarch64-apple-darwin");
    reveal_strlit("x86_64-pc-windows-msvc");
    reveal_strlit("aarch64-unknown-linux-gnu");
    reveal_strlit("aarch64-unknown-linux-musl");
    reveal_strlit("x86_64-unknown-linux-gnu");
    reveal_strlit("x86_64-unknown-linux-musl");
    let x = "x86_64-apple-darwin"@;
    let y = "aarch64-apple-darwin"@;
    let w = "x86_64-pc-windows-msvc"@;
    let g = "aarch64-unknown-linux-gnu"@;
    assert(y.len() != x.len());
    assert(w[7] != x[7]);
    assert(w.len() != y.len());
    assert(g.len() != x.len());
    assert(g[8] != y[8]);
    assert(g.len() != w.len());
    assert("aarch64-unknown-linux-musl"@.len() != x.len());
    assert("aarch64-unknown-linux-musl"@[8] != y[8]);
    assert("aarch64-unknown-linux-musl"@.len() != w.len());
    assert("aarch64-unknown-linux-musl"@[22] != g[22]);
    assert("x86_64-unknown-linux-gnu"@[7] != x[7]);
    assert("x86_64-unknown-linux-gnu"@.len() != y.len());
    assert("x86_64-unknown-linux-gnu"@[7] != w[7]);
    assert("x86_64-unknown-linux-gnu"@.len() != g.len());
    assert("x86_64-unknown-linux-musl"@[7] != x[7]);
    assert("x86_64-unknown-linux-musl"@.len() != y.len());
    assert("x86_64-unknown-linux-musl"@[7] != w[7]);
    assert("x86_64-unknown-linux-musl"@[0] != g[0]);
    assert("x86_64-unknown-linux-musl"@[0] != "aarch64-unknown-linux-musl"@[0]);
    assert("x86_64-unknown-linux-gnu"@[0] != "aarch64-unknown-linux-musl"@[0]);
}

/// The platform of a triple read from its parts: the operating system is
/// read first, then the architecture.
pub open spec fn general_platform(t: Seq<char>) -> Result<(Architecture, Os, Option<Seq<char>>), PlatformError> {
    match os_of_triple(t) {
        Err(e) => Err(e),
        Ok(o) => match arch_of_triple(t) {
            Err(e) => Err(e),
            Ok(a) => Ok((a, o, variant_of(t))),
        },
    }
}

/// The architecture, operating system and variant of a target: a named host
/// has a fixed platform, any other triple is read from its parts.
pub open spec fn target_platform(t: TargetTriple) -> Result<(Architecture, Os, Option<Seq<char>>), PlatformError> {
    if t is Other {
        general_platform(t.spec_triple())
    } else {
        let p = const_platform(t);
        Ok((p.0, p.1, None))
    }
}

/// `tt` is the triple that `TargetTriple::from` makes of `t`.
pub open spec fn triple_from(tt: TargetTriple, t: Seq<char>) -> bool {
    tt.spec_triple() == t && (tt is Other <==> !is_named_triple(t))
}

/// The platform an image is built for.
#[derive(Debug, Clone, PartialEq, Eq)]
pub struct ImagePlatform {
    /// CPU architecture, x86_64, aarch64 etc
    pub architecture: Architecture,
    /// The OS, i.e linux, windows, darwin
    pub os: Os,
    /// The platform variant, i.e v8, v7, v6 etc
    pub variant: Option<String>,
    pub target: TargetTriple,
}

/// The `--platform` string of an architecture, operating system and variant.
pub open spec fn docker_platform_of(a: Architecture, o: Os, v: Option<Seq<char>>) -> Seq<char> {
    match v {
        Some(v) => os_name(o) + "/"@ + arch_name(a) + "/"@ + v,
        None => os_name(o) + "/"@ + arch_name(a),
    }
}

/// How a platform string reads: `linux/amd64`, `linux/arm64` and
/// `linux/arm64/v8` name the two common hosts; `os/arch[/variant]=toolchain`
/// names all parts; anything else is a toolchain triple. Gives the
/// architecture, operating system, variant and toolchain triple.
pub open spec fn platform_of_str(s: Seq<char>) -> Result<(Architecture, Os, Option<Seq<char>>, Seq<char>), PlatformError> {
    if s == "linux/amd64"@ {
        Ok((Architecture::Amd64, Os::Linux, None, "x86_64-unknown-linux-gnu"@))
    } else if s == "linux/arm64"@ || s == "linux/arm64/v8"@ {
        Ok((Architecture::Arm64, Os::Linux, None, "aarch64-unknown-linux-gnu"@))
    } else {
        match first_index(s, '=') {
            Some(i) => {
                let platform = s.take(i);
                let toolchain = s.skip(i + 1);
                match first_index(platform, '/') {
                    None => Err(PlatformError::InvalidPlatform),
                    Some(j) => {
                        let os = platform.take(j);
                        let rest = platform.skip(j + 1);
                        let arch = match first_index(rest, '/') {
                            Some(k) => rest.take(k),
                            None => rest,
                        };
                        let variant = match first_index(rest, '/') {
                            Some(k) => Some(rest.skip(k + 1)),
                            None => None,
                        };
                        match arch_of_name(arch) {
                            None => Err(PlatformError::UnsupportedArchitecture),
                            Some(a) => match os_of_name(os) {
                                None => Err(PlatformError::UnsupportedOs),
                                Some(o) => Ok((a, o, variant, toolchain)),
                            },
                        }
                    },
                }
            },
            None => {
                let p = if is_named_triple(s) {
                    let n = named_platform(s);
                    Ok((n.0, n.1, None))
                } else {
                    general_platform(s)
                };
                match p {
                    Ok(p) => Ok((p.0, p.1, p.2, s)),
                    Err(e) => Err(e),
                }
            },
        }
    }
}

impl ImagePlatform {
    /// The architecture, operating system and variant.
    pub open spec fn spec_parts(&self) -> (Architecture, Os, Option<Seq<char>>) {
        (self.architecture, self.os, opt_view(self.variant))
    }

    /// The platform of a host that has a triple variant of its own.
    pub fn from_const_target(target: TargetTriple) -> (r: ImagePlatform)
        requires
            !(target is Other),
        ensures
            r.target == target,
            r.variant is None,
            (r.architecture, r.os) == const_platform(target),
            (r.architecture, r.os) == named_platform(target.spec_triple()),
    {
        proof { lemma_named_platform(target); }
        match target {
            TargetTriple::X86_64AppleDarwin => ImagePlatform {
                architecture: Architecture::Amd64, os: Os::Darwin, variant: None, target },
            TargetTriple::Aarch64AppleDarwin => ImagePlatform {
                architecture: Architecture::Arm64, os: Os::Linux, variant: None, target },
            TargetTriple::X86_64UnknownLinuxGnu => ImagePlatform {
                architecture: Architecture::Amd64, os: Os::Linux, variant: None, target },
            TargetTriple::Aarch64UnknownLinuxGnu => ImagePlatform {
                architecture: Architecture::Arm64, os: Os::Linux, variant: None, target },
            TargetTriple::X86_64UnknownLinuxMusl => ImagePlatform {
                architecture: Architecture::Amd64, os: Os::Linux, variant: None, target },
            TargetTriple::Aarch64UnknownLinuxMusl => ImagePlatform {
                architecture: Architecture::Arm64, os: Os::Linux, variant: None, target },
            _ => ImagePlatform {
                architecture: Architecture::Amd64, os: Os::Windows, variant: None, target },
        }
    }

    /// A copy of this platform.
    pub fn duplicate(&self) -> (r: ImagePlatform)
        ensures
            r == *self,
    {
        let variant = match &self.variant {
            Some(v) => Some(v.clone()),
            None => None,
        };
        ImagePlatform { architecture: self.architecture, os: self.os, variant, target: self.target.duplicate() }
    }

    /// The default platform, `x86_64-unknown-linux-gnu`.
    pub fn default_platform() -> (r: ImagePlatform)
        ensures
            r.target == TargetTriple::X86_64UnknownLinuxGnu,
            r.spec_parts() == (Architecture::Amd64, Os::Linux, None::<Seq<char>>),
    {
        ImagePlatform::from_const_target(TargetTriple::X86_64UnknownLinuxGnu)
    }

    /// The platform of `aarch64-unknown-linux-gnu`.
    pub fn aarch64_unknown_linux_gnu() -> (r: ImagePlatform)
        ensures
            r.target == TargetTriple::Aarch64UnknownLinuxGnu,
            r.spec_parts() == (Architecture::Arm64, Os::Linux, None::<Seq<char>>),
    {
        ImagePlatform::from_const_target(TargetTriple::Aarch64UnknownLinuxGnu)
    }

    /// The platform of a target (see [`target_platform`]).
    pub fn from_target(target: TargetTriple) -> (r: Result<ImagePlatform, PlatformError>)
        ensures
            match r {
                Ok(p) => target_platform(target) == Ok::<_, PlatformError>(p.spec_parts()) && p.target == target,
                Err(e) => target_platform(target) == Err::<(Architecture, Os, Option<Seq<char>>), _>(e),
            },
    {
        match target {
            TargetTriple::Other(_) => {
                let os = match Os::from_target(&target) {
                    Ok(o) => o,
                    Err(e) => return Err(e),
                };
                let architecture = match Architecture::from_target(&target) {
                    Ok(a) => a,
                    Err(e) => return Err(e),
                };
                let variant = if starts_with(target.triple(), "armv7-") {
                    Some(String::from_str("v7"))
                } else if starts_with(target.triple(), "arm-") {
                    Some(String::from_str("v6"))
                } else {
                    None
                };
                Ok(ImagePlatform { architecture, os, variant, target })
            },
            _ => Ok(ImagePlatform::from_const_target(target)),
        }
    }

    /// The platform named by a string (see [`platform_of_str`]).
    pub fn parse(s: &str) -> (r: Result<ImagePlatform, PlatformError>)
        ensures
            match r {
                Ok(p) => match platform_of_str(s@) {
                    Ok(q) => (q.0, q.1, q.2) == p.spec_parts() && triple_from(p.target, q.3),
                    Err(_) => false,
                },
                Err(e) => platform_of_str(s@) == Err::<(Architecture, Os, Option<Seq<char>>, Seq<char>), _>(e),
            },
    {
        if str_eq(s, "linux/amd64") {
            return Ok(ImagePlatform::default_platform());
        }
        if str_eq(s, "linux/arm64") || str_eq(s, "linux/arm64/v8") {
            return Ok(ImagePlatform::aarch64_unknown_linux_gnu());
        }
        let v = chars_of(s);
        match chars_find(v.as_slice(), '=') {
            Some(i) => {
                let platform = chars_of(substring(v.as_slice(), 0, i).as_str());
                let toolchain = substring(v.as_slice(), i + 1, v.len());
                assert(platform@ == s@.take(i as int));
                assert(toolchain@ == s@.skip(i + 1));
                match chars_find(platform.as_slice(), '/') {
                    None => Err(PlatformError::InvalidPlatform),
                    Some(j) => {
                        let os = substring(platform.as_slice(), 0, j);
                        let rest = chars_of(substring(platform.as_slice(), j + 1, platform.len()).as_str());
                        assert(os@ == platform@.take(j as int));
                        assert(rest@ == platform@.skip(j + 1));
                        let (arch, variant) = match chars_find(rest.as_slice(), '/') {
                            Some(k) => {
                                let a = substring(rest.as_slice(), 0, k);
                                let w = substring(rest.as_slice(), k + 1, rest.len());
                                assert(a@ == rest@.take(k as int));
                                assert(w@ == rest@.skip(k + 1));
                                (a, Some(w))
                            },
                            None => (substring(rest.as_slice(), 0, rest.len()), None),
                        };
                        assert(rest@.take(rest@.len() as int) == rest@);
                        let architecture = match Architecture::new(arch.as_str()) {
                            Ok(a) => a,
                            Err(e) => return Err(e),
                        };
                        let os = match Os::new(os.as_str()) {
                            Ok(o) => o,
                            Err(e) => return Err(e),
                        };
                        Ok(ImagePlatform { architecture, os, variant, target: TargetTriple::from(toolchain.as_str()) })
                    },
                }
            },
            None => {
                let tt = TargetTriple::from(s);
                proof {
                    if !(tt is Other) {
                        lemma_named_platform(tt);
                    }
                }
                ImagePlatform::from_target(tt)
            },
        }
    }

    /// The `--platform` string: `os/arch`, or `os/arch/variant`.
    pub fn docker_platform(&self) -> (r: String)
        ensures
            r@ == docker_platform_of(self.architecture, self.os, opt_view(self.variant)),
    {
        let mut r = String::from_str(self.os.name());
        r.append("/");
        r.append(self.architecture.name());
        match &self.variant {
            Some(v) => {
                r.append("/");
                r.append(v.as_str());
            },
            None => {},
        }
        r
    }

    /// The `--platform` to give the engine for an image of this platform:
    /// none where the engine runs this platform already (same architecture
    /// and operating system, and no variant).
    pub fn specify_platform(&self, engine: &Engine) -> (r: Option<String>)
        ensures
            (self.variant is None && engine.arch == Some(self.architecture) && engine.os == Some(self.os))
                ==> r is None,
            !(self.variant is None && engine.arch == Some(self.architecture) && engine.os == Some(self.os))
                ==> r is Some && r->0@ == docker_platform_of(self.architecture, self.os, opt_view(self.variant)),
    {
        let same_arch = match engine.arch {
            Some(a) => a == self.architecture,
            None => false,
        };
        let same_os = match engine.os {
            Some(o) => o == self.os,
            None => false,
        };
        if self.variant.is_none() && same_arch && same_os {
            None
        } else {
            Some(self.docker_platform())
        }
    }

    /// The name of the constant that stands for this platform in generated
    /// code, for the two common hosts.
    pub fn to_codegen_string(&self) -> (r: Option<&'static str>)
        ensures
            match self.target {
                TargetTriple::X86_64UnknownLinuxGnu => r is Some && r->0@ == "ImagePlatform::X86_64_UNKNOWN_LINUX_GNU"@,
                TargetTriple::Aarch64UnknownLinuxGnu => r is Some && r->0@ == "ImagePlatform::AARCH64_UNKNOWN_LINUX_GNU"@,
                _ => r is None,
            },
    {
        match self.target {
            TargetTriple::X86_64UnknownLinuxGnu => Some("ImagePlatform::X86_64_UNKNOWN_LINUX_GNU"),
            TargetTriple::Aarch64UnknownLinuxGnu => Some("ImagePlatform::AARCH64_UNKNOWN_LINUX_GNU"),
            _ => None,
        }
    }
}

impl core::str::FromStr for ImagePlatform {
    type Err = PlatformError;

    fn from_str(s: &str) -> Result<ImagePlatform, PlatformError> {
        ImagePlatform::parse(s)
    }
}

/// A reference to an image, as a configuration names it.
#[derive(Debug, Clone, PartialEq, Eq)]
pub enum ImageReference {
    /// Partially qualified reference, with or without tag/digest
    Name(String),
    /// Unqualified reference, only a tag or digest
    Identifier(String),
    /// Unqualified reference, only a subtarget
    Subtarget(String),
}

/// The kind of reference a string is: a subtarget starts with `-`, a tag or
/// digest with `:` or `@`, anything else is a name.
pub open spec fn reference_kind(s: Seq<char>) -> u8 {
    if s.len() > 0 && s[0] == '-' {
        2
    } else if s.len() > 0 && (s[0] == ':' || s[0] == '@') {
        1
    } else {
        0
    }
}

impl ImageReference {
    /// The string of the reference.
    pub open spec fn spec_get(&self) -> Seq<char> {
        match self {
            ImageReference::Name(s) => s@,
            ImageReference::Identifier(s) => s@,
            ImageReference::Subtarget(s) => s@,
        }
    }

    /// The kind of the reference: 0 for a name, 1 for a tag or digest, 2 for
    /// a subtarget.
    pub open spec fn spec_kind(&self) -> u8 {
        match self {
            ImageReference::Name(_) => 0,
            ImageReference::Identifier(_) => 1,
            ImageReference::Subtarget(_) => 2,
        }
    }

    /// Reads a reference (see [`reference_kind`]).
    pub fn from_string(s: String) -> (r: ImageReference)
        ensures
            r == reference_of(s),
            r.spec_get() == s@,
            r.spec_kind() == reference_kind(s@),
    {
        let v = chars_of(s.as_str());
        if v.len() > 0 && v[0] == '-' {
            ImageReference::Subtarget(s)
        } else if v.len() > 0 && (v[0] == ':' || v[0] == '@') {
            ImageReference::Identifier(s)
        } else {
            ImageReference::Name(s)
        }
    }

    /// A copy of this reference.
    pub fn duplicate(&self) -> (r: ImageReference)
        ensures
            r == *self,
    {
        match self {
            ImageReference::Name(s) => ImageReference::Name(s.clone()),
            ImageReference::Identifier(s) => ImageReference::Identifier(s.clone()),
            ImageReference::Subtarget(s) => ImageReference::Subtarget(s.clone()),
        }
    }

    /// The string of the reference.
    pub fn get(&self) -> (r: &str)
        ensures
            r@ == self.spec_get(),
    {
        match self {
            ImageReference::Name(s) => s.as_str(),
            ImageReference::Identifier(s) => s.as_str(),
            ImageReference::Subtarget(s) => s.as_str(),
        }
    }

    /// Makes the reference a name: a tag or digest follows the image of
    /// `target_name`, a subtarget follows that image at the default version.
    pub fn ensure_qualified(&mut self, target_name: &str)
        ensures
            *final(self) is Name,
            *old(self) is Name ==> *final(self) == *old(self),
            *old(self) is Identifier ==> final(self).spec_get()
                == CROSS_IMAGE@ + "/"@ + target_name@ + old(self).spec_get(),
            *old(self) is Subtarget ==> final(self).spec_get()
                == CROSS_IMAGE@ + "/"@ + target_name@ + ":"@ + DEFAULT_IMAGE_VERSION@ + old(self).spec_get(),
    {
        let name = match self {
            ImageReference::Name(_) => return,
            ImageReference::Identifier(id) => {
                let mut n = String::from_str(CROSS_IMAGE);
                n.append("/");
                n.append(target_name);
                n.append(id.as_str());
                n
            },
            ImageReference::Subtarget(sub) => {
                let mut n = String::from_str(CROSS_IMAGE);
                n.append("/");
                n.append(target_name);
                n.append(":");
                n.append(DEFAULT_IMAGE_VERSION);
                n.append(sub.as_str());
                n
            },
        };
        *self = ImageReference::Name(name);
    }
}

/// The reference a string reads as (see [`reference_kind`]).
pub open spec fn reference_of(s: String) -> ImageReference {
    if reference_kind(s@) == 2 {
        ImageReference::Subtarget(s)
    } else if reference_kind(s@) == 1 {
        ImageReference::Identifier(s)
    } else {
        ImageReference::Name(s)
    }
}

impl From<String> for ImageReference {
    fn from(s: String) -> (r: ImageReference) {
        ImageReference::from_string(s)
    }
}

impl vstd::std_specs::convert::FromSpecImpl<String> for ImageReference {
    open spec fn obeys_from_spec() -> bool {
        true
    }

    open spec fn from_spec(s: String) -> ImageReference {
        reference_of(s)
    }
}

/// An image of a known name and platform.
#[derive(Debug, Clone, PartialEq, Eq)]
pub struct Image {
    pub name: String,
    /// The toolchain triple the image is built for
    pub platform: ImagePlatform,
}

/// An image as a configuration names it, with the platforms it may be built
/// for.
#[derive(Debug, Clone, PartialEq, Eq)]
pub struct PossibleImage {
    pub reference: ImageReference,
    /// The toolchain triple the image is built for
    pub toolchain: Vec<ImagePlatform>,
}

/// Two images with the same reference and the same platforms.
pub open spec fn same_possible_image(a: PossibleImage, b: PossibleImage) -> bool {
    a.reference == b.reference && a.toolchain@ == b.toolchain@
}

/// Two optional images that are both absent, or the same.
pub open spec fn same_opt_image(a: Option<PossibleImage>, b: Option<PossibleImage>) -> bool {
    match (a, b) {
        (Some(x), Some(y)) => same_possible_image(x, y),
        (None, None) => true,
        _ => false,
    }
}

/// Why an image could not be made definite.
#[derive(Debug, Clone, Copy, PartialEq, Eq, Structural)]
pub enum ImageError {
    /// The reference is a tag, digest or subtarget, not a name.
    Unqualified,
}

/// The index of the first platform of `ps` whose architecture is `a` and
/// whose operating system is `o`.
pub open spec fn first_match(ps: Seq<ImagePlatform>, a: Architecture, o: Os) -> Option<int>
    decreases ps.len(),
{
    if ps.len() == 0 {
        None
    } else if ps[0].architecture == a && ps[0].os == o {
        Some(0)
    } else {
        match first_match(ps.drop_first(), a, o) {
            Some(i) => Some(i + 1),
            None => None,
        }
    }
}

/// How many platforms of `ps` have the architecture `a`.
pub open spec fn arch_count(ps: Seq<ImagePlatform>, a: Architecture) -> nat
    decreases ps.len(),
{
    if ps.len() == 0 {
        0
    } else {
        arch_count(ps.drop_last(), a) + if ps.last().architecture == a { 1nat } else { 0nat }
    }
}

/// The index of the first platform of `ps` whose architecture is `a`.
pub open spec fn first_arch(ps: Seq<ImagePlatform>, a: Architecture) -> Option<int>
    decreases ps.len(),
{
    if ps.len() == 0 {
        None
    } else if ps[0].architecture == a {
        Some(0)
    } else {
        match first_arch(ps.drop_first(), a) {
            Some(i) => Some(i + 1),
            None => None,
        }
    }
}

/// Which of several platforms an engine of architecture `a` and operating
/// system `o` uses: the only one of its architecture; else the first of its
/// architecture and operating system; else the first of its architecture

/// The platform an image runs on for an engine of architecture `a`
/// (amd64 where unknown) and operating system `o` (linux where unknown):
/// the default platform for an image given for none, the only one given,
/// else the one [`chosen_platform`] picks.
pub open spec fn definite_platform(ps: Seq<ImagePlatform>, engine: Engine) -> ImagePlatform {
    let a = match engine.arch { Some(a) => a, None => Architecture::Amd64 };
    let o = match engine.os { Some(o) => o, None => Os::Linux };
    if ps.len() == 0 {
        ImagePlatform { architecture: Architecture::Amd64, os: Os::Linux, variant: None, target: TargetTriple::X86_64UnknownLinuxGnu }
    } else if ps.len() == 1 {
        ps[0]
    } else {
        ps[chosen_platform(ps, a, o).0]
    }
}

/// on Linux; else the first one (`true`: a guess).
pub open spec fn chosen_platform(ps: Seq<ImagePlatform>, a: Architecture, o: Os) -> (int, bool) {
    if arch_count(ps, a) == 1 {
        (first_arch(ps, a)->0, false)
    } else if first_match(ps, a, o) is Some {
        (first_match(ps, a, o)->0, false)
    } else if first_match(ps, a, Os::Linux) is Some {
        (first_match(ps, a, Os::Linux)->0, false)
    } else {
        (0, true)
    }
}

proof fn lemma_first_match_bound(ps: Seq<ImagePlatform>, a: Architecture, o: Os)
    ensures
        match first_match(ps, a, o) {
            Some(i) => 0 <= i < ps.len() && ps[i].architecture == a && ps[i].os == o,
            None => true,
        },
    decreases ps.len(),
{
    if ps.len() > 0 {
        lemma_first_match_bound(ps.drop_first(), a, o);
    }
}

proof fn lemma_first_arch(ps: Seq<ImagePlatform>, a: Architecture)
    ensures
        arch_count(ps, a) > 0 <==> first_arch(ps, a) is Some,
        match first_arch(ps, a) {
            Some(i) => 0 <= i < ps.len() && ps[i].architecture == a,
            None => true,
        },
    decreases ps.len(),
{
    if ps.len() > 0 {
        lemma_first_arch(ps.drop_first(), a);
        lemma_first_arch(ps.drop_last(), a);
        lemma_arch_count_first(ps, a);
    }
}

proof fn lemma_arch_count_first(ps: Seq<ImagePlatform>, a: Architecture)
    requires
        ps.len() > 0,
    ensures
        arch_count(ps, a) == arch_count(ps.drop_first(), a) + if ps[0].architecture == a { 1nat } else { 0nat },
    decreases ps.len(),
{
    let t = ps.drop_first();
    if ps.len() > 1 {
        lemma_arch_count_first(ps.drop_last(), a);
        assert(ps.drop_last().drop_first() == t.drop_last());
        assert(t.last() == ps.last());
        assert(ps.drop_last()[0] == ps[0]);
        assert(arch_count(t, a) == arch_count(t.drop_last(), a) + if t.last().architecture == a { 1nat } else { 0nat });
    } else {
        assert(t.len() == 0);
        assert(ps.drop_last().len() == 0);
        assert(arch_count(ps.drop_last(), a) == 0);
        assert(ps.last() == ps[0]);
    }
}

/// The index of the first platform of `ps` from `from` on whose
/// architecture is `a` and whose operating system is `o`.
fn find_match(ps: &Vec<ImagePlatform>, a: Architecture, o: Os) -> (r: Option<usize>)
    ensures
        match r {
            Some(i) => first_match(ps@, a, o) == Some(i as int),
            None => first_match(ps@, a, o) is None,
        },
{
    let mut i: usize = 0;
    assert(ps@.skip(0) == ps@);
    while i < ps.len()
        invariant
            i <= ps.len(),
            first_match(ps@, a, o) == match first_match(ps@.skip(i as int), a, o) {
                Some(k) => Some(k + i),
                None => None,
            },
        decreases ps.len() - i,
    {
        assert(ps@.skip(i as int).drop_first() == ps@.skip(i + 1));
        if ps[i].architecture == a && ps[i].os == o {
            return Some(i);
        }
        i = i + 1;
    }
    None
}

impl PossibleImage {
    /// A copy of this image.
    pub fn duplicate(&self) -> (r: PossibleImage)
        ensures
            same_possible_image(r, *self),
    {
        let mut toolchain: Vec<ImagePlatform> = Vec::new();
        let mut i: usize = 0;
        while i < self.toolchain.len()
            invariant
                i <= self.toolchain.len(),
                toolchain@ == self.toolchain@.take(i as int),
            decreases self.toolchain.len() - i,
        {
            toolchain.push(self.toolchain[i].duplicate());
            assert(toolchain@ =~= self.toolchain@.take(i + 1));
            i = i + 1;
        }
        assert(self.toolchain@.take(self.toolchain.len() as int) =~= self.toolchain@);
        PossibleImage { reference: self.reference.duplicate(), toolchain }
    }

    /// An image named by a string, for no platform in particular.
    pub fn from_name(s: &str) -> (r: PossibleImage)
        ensures
            r.reference.spec_get() == s@,
            r.reference.spec_kind() == reference_kind(s@),
            r.toolchain@.len() == 0,
    {
        PossibleImage { reference: ImageReference::from_string(String::from_str(s)), toolchain: Vec::new() }
    }

    /// The image for `engine`: its platform is the only one given, the
    /// default one where none is, or the one chosen for the engine's
    /// architecture and operating system (amd64 and Linux where the engine
    /// does not say; see [`chosen_platform`]). A guess is recorded as a
    /// warning in `msg_info`.
    pub fn to_definite_with(&self, engine: &Engine, msg_info: &mut MessageInfo) -> (r: Result<Image, ImageError>)
        ensures
            match r {
                Ok(img) => self.reference is Name && img.name@ == self.reference.spec_get() && {
                    let ps = self.toolchain@;
                    let a = match engine.arch { Some(a) => a, None => Architecture::Amd64 };
                    let o = match engine.os { Some(o) => o, None => Os::Linux };
                    if ps.len() == 0 {
                        img.platform.target == TargetTriple::X86_64UnknownLinuxGnu
                            && img.platform.spec_parts() == (Architecture::Amd64, Os::Linux, None::<Seq<char>>)
                            && *final(msg_info) == *old(msg_info)
                    } else if ps.len() == 1 {
                        img.platform == ps[0] && *final(msg_info) == *old(msg_info)
                    } else {
                        img.platform == ps[chosen_platform(ps, a, o).0]
                            && *final(msg_info) == (if chosen_platform(ps, a, o).1 {
                                MessageInfo { has_warned: true, ..*old(msg_info) }
                            } else {
                                *old(msg_info)
                            })
                    }
                },
                Err(e) => !(self.reference is Name) && e == ImageError::Unqualified && *final(msg_info) == *old(msg_info),
            },
    {
        let name = match &self.reference {
            ImageReference::Name(n) => n.clone(),
            _ => return Err(ImageError::Unqualified),
        };
        let ps = &self.toolchain;
        if ps.len() == 0 {
            return Ok(Image { name, platform: ImagePlatform::default_platform() });
        }
        if ps.len() == 1 {
            return Ok(Image { name, platform: ps[0].duplicate() });
        }
        let a = match engine.arch { Some(a) => a, None => Architecture::Amd64 };
        let o = match engine.os { Some(o) => o, None => Os::Linux };
        proof {
            lemma_first_arch(ps@, a);
            lemma_first_match_bound(ps@, a, o);
            lemma_first_match_bound(ps@, a, Os::Linux);
        }
        let mut count: usize = 0;
        let mut first: usize = 0;
        let mut i: usize = 0;
        while i < ps.len()
            invariant
                i <= ps.len(),
                count == arch_count(ps@.take(i as int), a),
                count <= i,
                count > 0 ==> first_arch(ps@, a) == Some(first as int),
                count == 0 ==> forall|k: int| 0 <= k < i ==> ps@[k].architecture != a,
            decreases ps.len() - i,
        {
            assert(ps@.take(i + 1).drop_last() == ps@.take(i as int));
            if ps[i].architecture == a {
                if count == 0 {
                    first = i;
                    proof { lemma_first_arch_at(ps@, a, i as int); }
                }
                count = count + 1;
            }
            i = i + 1;
        }
        assert(ps@.take(ps.len() as int) == ps@);
        if count == 1 {
            return Ok(Image { name, platform: ps[first].duplicate() });
        }
        match find_match(ps, a, o) {
            Some(k) => return Ok(Image { name, platform: ps[k].duplicate() }),
            None => {},
        }
        match find_match(ps, a, Os::Linux) {
            Some(k) => return Ok(Image { name, platform: ps[k].duplicate() }),
            None => {},
        }
        let _ = msg_info.warn();
        Ok(Image { name, platform: ps[0].duplicate() })
    }
}

proof fn lemma_first_arch_at(ps: Seq<ImagePlatform>, a: Architecture, i: int)
    requires
        0 <= i < ps.len(),
        ps[i].architecture == a,
        forall|k: int| 0 <= k < i ==> ps[k].architecture != a,
    ensures
        first_arch(ps, a) == Some(i),
    decreases i,
{
    if i > 0 {
        lemma_first_arch_at(ps.drop_first(), a, i - 1);
    }
}

} // verus!
