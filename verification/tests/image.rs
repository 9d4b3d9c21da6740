use cross::docker::image::{Architecture, ImagePlatform, ImageReference, Os, PlatformError, PossibleImage};
use cross::TargetTriple;

fn arch(t: &str) -> Result<Architecture, PlatformError> {
    Architecture::from_target(&TargetTriple::from(t))
}

fn t(s: &str) -> TargetTriple {
    TargetTriple::from(s)
}

#[test]
fn architecture_from_target() {
    assert_eq!(arch("x86_64-apple-darwin").unwrap(), Architecture::Amd64);
    assert_eq!(arch("arm-unknown-linux-gnueabihf").unwrap(), Architecture::Arm);
    assert_eq!(arch("armv7-unknown-linux-gnueabihf").unwrap(), Architecture::Arm);
    assert_eq!(arch("aarch64-unknown-linux-gnu").unwrap(), Architecture::Arm64);
    assert_eq!(arch("aarch64-unknown-freebsd").unwrap(), Architecture::Arm64);
    assert_eq!(arch("loongarch64-unknown-linux-gnu").unwrap(), Architecture::LoongArch64);
    assert_eq!(arch("mips-unknown-linux-gnu").unwrap(), Architecture::Mips);
    assert_eq!(arch("mips64-unknown-linux-gnuabi64").unwrap(), Architecture::Mips64);
    assert_eq!(arch("mips64le-unknown-linux-gnuabi64").unwrap(), Architecture::Mips64Le);
    assert_eq!(arch("mipsle-unknown-linux-gnu").unwrap(), Architecture::MipsLe);
}

#[test]
fn os_from_target() {
    assert_eq!(Os::from_target(&t("x86_64-apple-darwin")).unwrap(), Os::Darwin);
    assert_eq!(Os::from_target(&t("x86_64-unknown-freebsd")).unwrap(), Os::Freebsd);
    assert_eq!(Os::from_target(&t("aarch64-unknown-freebsd")).unwrap(), Os::Freebsd);
    assert_eq!(Os::from_target(&t("loongarch64-unknown-linux-gnu")).unwrap(), Os::Linux);
    assert_eq!(Os::from_target(&t("x86_64-unknown-netbsd")).unwrap(), Os::Netbsd);
    assert_eq!(Os::from_target(&t("sparcv9-sun-solaris")).unwrap(), Os::Solaris);
    assert_eq!(Os::from_target(&t("sparcv9-sun-illumos")).unwrap(), Os::Illumos);
    assert_eq!(Os::from_target(&t("aarch64-linux-android")).unwrap(), Os::Android);
    assert_eq!(Os::from_target(&t("x86_64-unknown-linux-gnu")).unwrap(), Os::Linux);
    assert_eq!(Os::from_target(&t("x86_64-pc-windows-msvc")).unwrap(), Os::Windows);
}

#[test]
fn image_platform_from_docker_platform_str() {
    assert_eq!(
        "linux/amd64".parse::<ImagePlatform>().unwrap(),
        ImagePlatform::default_platform()
    );
    assert_eq!(
        "linux/arm64".parse::<ImagePlatform>().unwrap(),
        ImagePlatform::aarch64_unknown_linux_gnu()
    );
    assert_eq!(
        "linux/arm64/v8".parse::<ImagePlatform>().unwrap(),
        ImagePlatform::aarch64_unknown_linux_gnu()
    );
}

#[test]
fn os_from_target_errors() {
    assert_eq!(Os::from_target(&t("darwin")), Err(PlatformError::MalformedTarget));
    assert_eq!(Os::from_target(&t("x86_64-unknown-plan9")), Err(PlatformError::UnsupportedOs));
    assert_eq!(arch("nothing"), Err(PlatformError::MalformedTarget));
    assert_eq!(arch("z80-unknown-linux-gnu"), Err(PlatformError::UnsupportedArchitecture));
}

#[test]
fn image_platform_with_toolchain() {
    let p = "linux/arm/v7=armv7-unknown-linux-gnueabihf".parse::<ImagePlatform>().unwrap();
    assert_eq!(p.architecture, Architecture::Arm);
    assert_eq!(p.os, Os::Linux);
    assert_eq!(p.variant.as_deref(), Some("v7"));
    assert_eq!(p.target.triple(), "armv7-unknown-linux-gnueabihf");
    assert_eq!(p.docker_platform(), "linux/arm/v7");
    assert_eq!("amd64=x86_64-unknown-linux-gnu".parse::<ImagePlatform>(), Err(PlatformError::InvalidPlatform));
}

#[test]
fn image_platform_from_other_target() {
    let p = ImagePlatform::from_target(t("arm-unknown-linux-gnueabihf")).unwrap();
    assert_eq!(p.variant.as_deref(), Some("v6"));
    assert_eq!(p.docker_platform(), "linux/arm/v6");
    assert_eq!(p.to_codegen_string(), None);
    assert_eq!(
        ImagePlatform::default_platform().to_codegen_string(),
        Some("ImagePlatform::X86_64_UNKNOWN_LINUX_GNU")
    );
    let d = ImagePlatform::from_target(t("aarch64-apple-darwin")).unwrap();
    assert_eq!((d.architecture, d.os), (Architecture::Arm64, Os::Linux));
}

#[test]
fn image_reference_kinds_and_qualification() {
    let mut r = ImageReference::from_string(":edge".to_owned());
    assert!(matches!(r, ImageReference::Identifier(_)));
    r.ensure_qualified("x86_64-unknown-linux-gnu");
    assert_eq!(r.get(), "ghcr.io/cross-rs/x86_64-unknown-linux-gnu:edge");

    let mut s = ImageReference::from_string("-centos".to_owned());
    s.ensure_qualified("zig");
    assert_eq!(s.get(), "ghcr.io/cross-rs/zig:0.2.5-centos");

    let mut n = ImageReference::from_string("my/image".to_owned());
    n.ensure_qualified("zig");
    assert_eq!(n.get(), "my/image");
    assert_eq!(PossibleImage::from_name("@sha256:x").reference, ImageReference::Identifier("@sha256:x".to_owned()));
}
