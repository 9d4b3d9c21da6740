use cross::file::{join, pretty_path, shell_escape};

#[test]
fn as_posix_relative() {
    assert_eq!(cross::file::as_posix_relative(&join(".", "..")), "./..".to_owned());
    assert_eq!(cross::file::as_posix_relative(&join(".", "/")), "/".to_owned());
    assert_eq!(cross::file::as_posix_relative(&join("foo", "bar")), "foo/bar".to_owned());
    assert_eq!(cross::file::as_posix_relative(&join("/foo", "bar")), "/foo/bar".to_owned());
}

#[test]
fn pretty_path_linux() {
    assert_eq!(pretty_path("/usr/bin/cargo", |f| f.contains("cargo")), "cargo".to_owned());
    assert_eq!(
        pretty_path("/home/user/my rust/bin/cargo", |_| false),
        "\"/home/user/my rust/bin/cargo\"".to_owned(),
    );
    assert_eq!(pretty_path("/home/user/single'quote/cargo", |c| c.contains("cargo")), "cargo".to_owned());
    assert_eq!(
        pretty_path("/home/user/single'quote/cargo", |_| false),
        "\"/home/user/single'quote/cargo\"".to_owned()
    );
}

#[test]
fn shell_escape_plain_and_quoted() {
    assert_eq!(shell_escape("plain"), "plain");
    assert_eq!(shell_escape("a b"), "\"a b\"");
    assert_eq!(shell_escape("$HOME"), "\"$HOME\"");
}

#[test]
fn is_absolute_wslpath() {
    assert!(cross::file::is_wsl_absolute("/mnt/c/Users", true));
    assert!(cross::file::is_wsl_absolute("/mnt/c", true));
    assert!(cross::file::is_wsl_absolute("/mnt/z/Users", true));
    assert!(!cross::file::is_wsl_absolute("/mnt", true));
    assert!(!cross::file::is_wsl_absolute("/mnt/cc", true));
    assert!(!cross::file::is_wsl_absolute("/mnt/zc", true));
    assert!(!cross::file::is_wsl_absolute("/mnt/c", false));
}
