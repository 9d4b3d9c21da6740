use cross::docker::custom::docker_tag_name;
use cross::docker::shared::{path_hash, ContainerState, VolumeId};

#[test]
fn docker_tag_name_test() {
    assert_eq!(docker_tag_name("package"), "package".to_owned());
    assert_eq!(docker_tag_name("pAcKaGe"), "package".to_owned());
    assert_eq!(docker_tag_name("package_안녕하세요_test"), "package__test".to_owned());
    assert_eq!(docker_tag_name("pAcKaGe___test_name"), "package__test_name".to_owned());
    assert_eq!(docker_tag_name("pAcKaGe---test.name"), "package---test.name".to_owned());
    assert_eq!(docker_tag_name("foo-123"), "foo-123".to_owned());
    assert_eq!(docker_tag_name("foo-123-"), "foo-123".to_owned());
}

#[test]
fn docker_tag_name_of_nothing_valid() {
    assert_eq!(docker_tag_name("안녕-."), "empty".to_owned());
    assert_eq!(docker_tag_name(""), "empty".to_owned());
}

#[test]
fn path_hash_is_a_sha1_prefix() {
    // sha1("The quick brown fox jumps over the lazy dog")
    assert_eq!(path_hash("The quick brown fox jumps over the lazy dog", 10), "2fd4e1c67a");
    assert_eq!(path_hash("/a", 5).len(), 5);
    assert_ne!(path_hash("/a", 5), path_hash("/b", 5));
}

#[test]
fn container_states() {
    assert_eq!(ContainerState::new("running"), Ok(ContainerState::Running));
    assert_eq!(ContainerState::new(""), Ok(ContainerState::DoesNotExist));
    assert!(ContainerState::new("weird").is_err());
    assert!(ContainerState::Exited.is_stopped());
    assert!(!ContainerState::DoesNotExist.is_existing());
}

#[test]
fn volume_mounts() {
    assert_eq!(VolumeId::Keep("vol".to_owned()).mount("/cross"), "vol:/cross");
    assert_eq!(VolumeId::Discard.mount("/cross"), "/cross");
}
