use cross::commands::images::{
    format_row, is_cross_image, is_local_image, known_image_target, parse_image, rustembedded_target, LocalImage,
};
use cross::rustc::TargetList;

#[test]
fn parse_rustembedded_target() {
    let targets = [
        "x86_64-unknown-linux-gnu",
        "x86_64-apple-darwin",
        "thumbv8m.main-none-eabi",
    ];
    for target in targets {
        let versioned = format!("{target}-0.2.1");
        assert_eq!(rustembedded_target(target), target.to_string());
        assert_eq!(rustembedded_target(&versioned), target.to_string());
    }
}

#[test]
fn parse_image_line() {
    let image = parse_image("ghcr.io/cross-rs/aarch64-unknown-linux-gnu:0.2.5 0123abcd");
    assert_eq!(image.repository, "ghcr.io/cross-rs/aarch64-unknown-linux-gnu");
    assert_eq!(image.tag, "0.2.5");
    assert_eq!(image.id, "0123abcd");
    assert_eq!(image.name(), "ghcr.io/cross-rs/aarch64-unknown-linux-gnu:0.2.5");
    let none = parse_image("<none>:<none> 99ff");
    assert_eq!(none.display(), "99ff");
    assert_eq!(image.display(), image.name());
}

#[test]
fn cross_and_local_images() {
    assert!(is_cross_image("ghcr.io/cross-rs/x86_64-unknown-linux-gnu"));
    assert!(is_cross_image("docker.io/rustembedded/cross"));
    assert!(is_cross_image("rustembedded/cross"));
    assert!(!is_cross_image("ubuntu"));
    assert!(is_local_image("local"));
    assert!(is_local_image("local-dev"));
    assert!(!is_local_image("main"));
}

#[test]
fn targets_known_from_names() {
    let list = TargetList { triples: vec!["x86_64-unknown-linux-gnu".to_owned(), "aarch64-unknown-linux-gnu".to_owned()] };
    let image = |r: &str, t: &str| LocalImage { repository: r.to_owned(), tag: t.to_owned(), id: "1".to_owned() };
    assert_eq!(
        known_image_target(&image("ghcr.io/cross-rs/armv7-unknown-linux-gnueabihf", "main"), &list),
        Some("armv7-unknown-linux-gnueabihf".to_owned())
    );
    assert_eq!(
        known_image_target(&image("rustembedded/cross", "rustembedded/crossmips-unknown-linux-gnu-0.2.1"), &list),
        Some("mips-unknown-linux-gnu".to_owned())
    );
    assert_eq!(
        known_image_target(&image("localhost/cross-rs/cross-custom-app", "aarch64-unknown-linux-gnu-abcde"), &list),
        Some("aarch64-unknown-linux-gnu".to_owned())
    );
    assert_eq!(known_image_target(&image("localhost/cross-rs/cross-custom-app", "riscv"), &list), None);
    assert_eq!(known_image_target(&image("ubuntu", "20.04"), &list), None);
}

#[test]
fn table_rows_are_padded() {
    assert_eq!(format_row("Targets", "Images", ' ', 3, 10), "| Targets | Images     |");
    assert_eq!(format_row("-------", "------", '-', 3, 10), "|---------|------------|");
    assert_eq!(format_row("ab", "cd", ' ', 4, 2), "| ab   | cd |");
}
