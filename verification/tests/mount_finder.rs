use cross::docker::shared::{MountDetail, MountFinder};

fn mount(source: &str, destination: &str) -> MountDetail {
    MountDetail { source: source.to_owned(), destination: destination.to_owned() }
}

#[test]
fn docker_test_default_finder_returns_original() {
    let finder = MountFinder::default();
    assert_eq!("/test/path".to_owned(), finder.find_mount_path("/test/path"));
}

#[test]
fn docker_test_longest_destination_path_wins() {
    let finder = MountFinder::new(vec![
        mount("/project/path", "/project"),
        mount("/target/path", "/project/target"),
    ]);
    assert_eq!("/target/path/test".to_owned(), finder.find_mount_path("/project/target/test"));
}

#[test]
fn docker_test_adjust_multiple_paths() {
    let finder = MountFinder::new(vec![
        mount("/var/lib/docker/overlay2/container-id/merged", "/"),
        mount("/home/project/path", "/project"),
    ]);
    assert_eq!(
        "/var/lib/docker/overlay2/container-id/merged/container/path".to_owned(),
        finder.find_mount_path("/container/path")
    );
    assert_eq!("/home/project/path".to_owned(), finder.find_mount_path("/project"));
    assert_eq!("/home/project/path/target".to_owned(), finder.find_mount_path("/project/target"));
}

#[test]
fn shared_test_default_finder_returns_original() {
    let finder = MountFinder::default();
    assert_eq!("/test/path".to_owned(), finder.find_mount_path("/test/path"));
}

#[test]
fn shared_test_longest_destination_path_wins() {
    let finder = MountFinder::new(vec![
        mount("/project/path", "/project"),
        mount("/target/path", "/project/target"),
    ]);
    assert_eq!("/target/path/test".to_owned(), finder.find_mount_path("/project/target/test"));
}

#[test]
fn shared_test_adjust_multiple_paths() {
    let finder = MountFinder::new(vec![
        mount("/var/lib/docker/overlay2/container-id/merged", "/"),
        mount("/home/project/path", "/project"),
    ]);
    assert_eq!(
        "/var/lib/docker/overlay2/container-id/merged/container/path".to_owned(),
        finder.find_mount_path("/container/path")
    );
    assert_eq!("/home/project/path".to_owned(), finder.find_mount_path("/project"));
    assert_eq!("/home/project/path/target".to_owned(), finder.find_mount_path("/project/target"));
}

#[test]
fn sort_keeps_order_of_equal_lengths() {
    let finder = MountFinder::new(vec![mount("/a", "/x"), mount("/b", "/yy"), mount("/c", "/z")]);
    let order: Vec<&str> = finder.mounts.iter().map(|m| m.source.as_str()).collect();
    assert_eq!(order, vec!["/b", "/a", "/c"]);
}
