use cross::commands::cleanup::{
    prune_volumes, remove_all_containers, remove_all_volumes, remove_images, Clean, PruneVolumes, RemoveAllContainers,
    RemoveAllVolumes, RemoveImages,
};
use cross::docker::shared::UnknownContainerState;

fn owned(v: &[&str]) -> Vec<String> {
    v.iter().map(|s| s.to_string()).collect()
}

#[test]
fn containers_stopped_then_removed() {
    let opts = RemoveAllContainers { force: true, execute: false, engine: None };
    let listed = owned(&["cross-a: running", "cross-b: exited", "cross-c:  paused ", "cross-d: "]);
    let cmds = remove_all_containers(&opts, &listed).unwrap();
    assert_eq!(
        cmds,
        vec![
            owned(&["stop", "cross-a", "cross-c"]),
            owned(&["rm", "--force", "cross-a", "cross-c", "cross-b", "cross-d"]),
        ]
    );
}

#[test]
fn containers_all_stopped_need_no_stop() {
    let opts = RemoveAllContainers { force: false, execute: true, engine: None };
    let cmds = remove_all_containers(&opts, &owned(&["cross-b: exited"])).unwrap();
    assert_eq!(cmds, vec![owned(&["rm", "cross-b"])]);
    assert!(remove_all_containers(&opts, &vec![]).unwrap().is_empty());
}

#[test]
fn containers_in_unknown_state_are_an_error() {
    let opts = RemoveAllContainers { force: false, execute: true, engine: None };
    assert_eq!(remove_all_containers(&opts, &owned(&["cross-b: sleeping"])), Err(UnknownContainerState));
}

#[test]
fn volumes_removed_and_pruned() {
    let opts = RemoveAllVolumes { force: true, execute: true, engine: None };
    assert_eq!(remove_all_volumes(&opts, &owned(&["cross-x", "cross-y"])), Some(owned(&["volume", "rm", "--force", "cross-x", "cross-y"])));
    assert_eq!(remove_all_volumes(&opts, &vec![]), None);
    assert_eq!(prune_volumes(&PruneVolumes { execute: false, engine: None }), owned(&["volume", "prune", "--force"]));
}

#[test]
fn images_removed_by_id() {
    let opts = RemoveImages { targets: vec![], force: false, local: false, execute: true, engine: None };
    assert_eq!(remove_images(&opts, &owned(&["abc", "def"])), Some(owned(&["rmi", "abc", "def"])));
    assert_eq!(remove_images(&opts, &vec![]), None);
}

#[test]
fn clean_steps_carry_the_flags() {
    let clean = Clean { force: true, local: true, execute: false, engine: Some("podman".to_owned()) };
    assert_eq!(clean.engine(), Some("podman"));
    let (containers, volumes, prune) = clean.steps();
    assert!(containers.force && !containers.execute && containers.engine.is_none());
    assert!(volumes.force && !volumes.execute);
    assert!(!prune.execute);
    let images = clean.images_step();
    assert!(images.force && images.local && !images.execute && images.targets.is_empty());
}
