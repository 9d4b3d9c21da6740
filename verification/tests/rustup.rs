use cross::rustup::{available_targets, installed_toolchains, check_component, Component};
use cross::rustc::{hash_from_version_string, Toolchain};

#[test]
fn remove_toolchain_suffixes() {
    assert_eq!(
        cross::rustup::remove_toolchain_suffixes(
            "stable-aarch64-apple-darwin (active, default)\n\
             stable-x86_64-unknown-linux-gnu"
        ),
        vec!["stable-aarch64-apple-darwin", "stable-x86_64-unknown-linux-gnu",]
    );
    assert_eq!(
        cross::rustup::remove_toolchain_suffixes(
            "stable-aarch64-apple-darwin (default)\n\
             stable-x86_64-unknown-linux-gnu\n\
             nightly-aarch64-apple-darwin (active)"
        ),
        vec![
            "stable-aarch64-apple-darwin",
            "stable-x86_64-unknown-linux-gnu",
            "nightly-aarch64-apple-darwin",
        ]
    );
}

#[test]
fn installed_toolchains_drop_marks() {
    assert_eq!(
        installed_toolchains("stable-x86_64-unknown-linux-gnu (default)\nnightly-x86_64-unknown-linux-gnu (override)\n"),
        vec!["stable-x86_64-unknown-linux-gnu", "nightly-x86_64-unknown-linux-gnu"]
    );
    assert_eq!(
        installed_toolchains("stable-aarch64-apple-darwin (active, default)\nstable-x86_64-unknown-linux-gnu"),
        vec!["stable-aarch64-apple-darwin", "stable-x86_64-unknown-linux-gnu"]
    );
}

#[test]
fn available_targets_sorted() {
    let t = available_targets("x86_64-unknown-linux-gnu (default)\naarch64-unknown-linux-gnu (installed)\nmips-unknown-linux-gnu\n");
    assert_eq!(t.default, "x86_64-unknown-linux-gnu");
    assert_eq!(t.installed, vec!["aarch64-unknown-linux-gnu"]);
    assert_eq!(t.not_installed, vec!["mips-unknown-linux-gnu"]);
}

#[test]
fn components() {
    let out = "cargo-x86_64-unknown-linux-gnu (installed)\nclippy-x86_64-unknown-linux-gnu\n";
    assert_eq!(check_component("cargo", out), Component::Installed("cargo"));
    assert_eq!(check_component("clippy", out), Component::Available("clippy"));
    assert_eq!(check_component("rust-src", out), Component::NotAvailable("rust-src"));
}

#[test]
fn hash_from_rustc() {
    assert_eq!(hash_from_version_string("1.61.0 (fe5b13d68 2022-05-18)", 1), "fe5b13d68");
    assert_eq!(hash_from_version_string("rustc 1.61.0 (fe5b13d68 2022-05-18)", 2), "fe5b13d68");
    assert_eq!(hash_from_version_string("The quick brown fox jumps over the lazy dog", 1), "2fd4e1c67");
}

#[test]
fn toolchain_names() {
    let t = Toolchain::parse("nightly-2022-04-26-x86_64-unknown-linux-gnu").unwrap();
    assert_eq!(t.channel, "nightly");
    assert_eq!(t.date.as_deref(), Some("2022-04-26"));
    assert_eq!(t.host.as_ref().unwrap().triple(), "x86_64-unknown-linux-gnu");
    assert_eq!(t.remove_host().full, "nightly-2022-04-26");
    let s = Toolchain::parse("stable").unwrap();
    assert!(s.host.is_none() && s.date.is_none());
    assert!(Toolchain::parse("nightly-2022-x4-26").is_err());
}
