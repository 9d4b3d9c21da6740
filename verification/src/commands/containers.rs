//! The toolchain that the commands on containers and volumes work with.

use vstd::prelude::*;
use crate::docker::image::{ImagePlatform, PlatformError, target_platform, triple_from};
use crate::rustc::{QualifiedToolchain, Toolchain, TargetList, toolchain_of, qualified_as};
use crate::shell::opt_view;
use crate::target::TargetTriple;
use crate::text::views;

verus! {

/// Why a name is neither a target nor a toolchain that can be used.
#[derive(Debug, Clone, Copy, PartialEq, Eq, Structural)]
pub enum ToolchainOrTargetError {
    /// The target has no image platform.
    Platform(PlatformError),
    /// The name is no toolchain name.
    InvalidToolchain,
}

/// The toolchain for `s`: `default` on the target `s` where the toolchain
/// knows that target, else the toolchain that `s` names, picked over
/// `default` (see [`QualifiedToolchain::with_picked`]).
pub fn toolchain_or_target(
    s: &str,
    default: QualifiedToolchain,
    target_list: &TargetList,
) -> (r: Result<QualifiedToolchain, ToolchainOrTargetError>)
    ensures
        views(target_list.triples@).contains(s@) ==> match r {
            Ok(t) => exists|p: ImagePlatform| #![trigger triple_from(p.target, s@)]
                triple_from(p.target, s@) && target_platform(p.target) == Ok::<_, PlatformError>(p.spec_parts())
                && (default.is_custom ==> t == default)
                && (!default.is_custom ==> qualified_as(t, default.channel@, opt_view(default.date), p,
                    default.sysroot@, false)),
            Err(e) => e is Platform,
        },
        !views(target_list.triples@).contains(s@) ==> match toolchain_of(s@) {
            None => r == Err::<QualifiedToolchain, ToolchainOrTargetError>(ToolchainOrTargetError::InvalidToolchain),
            Some(p) => match r {
                Ok(t) => qualified_as(t, p.0, match p.1 { Some(d) => Some(d), None => opt_view(default.date) },
                        t.host, default.sysroot@, false)
                    && match p.2 {
                        Some(h) => t.host.target.spec_triple() == h
                            && target_platform(t.host.target) == Ok::<_, PlatformError>(t.host.spec_parts()),
                        None => t.host == default.host,
                    },
                Err(e) => p.2 matches Some(h) && e is Platform,
            },
        },
{
    if target_list.contains(s) {
        let triple = TargetTriple::from(s);
        let platform = match ImagePlatform::from_target(triple) {
            Ok(p) => p,
            Err(e) => return Err(ToolchainOrTargetError::Platform(e)),
        };
        assert(triple_from(platform.target, s@));
        let ghost p = platform;
        let mut toolchain = default;
        toolchain.replace_host(&platform);
        assert(triple_from(p.target, s@) && target_platform(p.target) == Ok::<_, PlatformError>(p.spec_parts()));
        Ok(toolchain)
    } else {
        let picked = match Toolchain::parse(s) {
            Ok(t) => t,
            Err(_) => return Err(ToolchainOrTargetError::InvalidToolchain),
        };
        match default.with_picked(picked) {
            Ok(t) => Ok(t),
            Err(e) => Err(ToolchainOrTargetError::Platform(e)),
        }
    }
}

} // verus!
