use cross::docker::remote_plan::{remote_next, remote_start, RemoteAction, RemoteEvent, RemoteStage};
use cross::docker::shared::ContainerState;

const ID: &str = "cross-stable-x86_64-unknown-linux-gnu-abc-123";
const PARTIAL: &str = "cross-stable-x86_64-unknown-linux-gnu";

fn next(stage: RemoteStage, event: RemoteEvent) -> (RemoteStage, RemoteAction) {
    remote_next(ID, PARTIAL, false, stage, &event)
}

#[test]
fn remote_run_with_a_kept_volume() {
    let (stage, action) = remote_start();
    assert_eq!(action, RemoteAction::ListVolumes);
    let (stage, action) = next(stage, RemoteEvent::Volumes(vec![ID.to_owned(), "other".to_owned()]));
    assert_eq!(action, RemoteAction::InspectContainer { warn_other_version: false });
    let (stage, action) = next(stage, RemoteEvent::State(ContainerState::Running));
    assert_eq!(action, RemoteAction::StopContainer);
    let (stage, action) = next(stage, RemoteEvent::Done);
    assert_eq!(action, RemoteAction::RemoveContainer);
    let (stage, action) = next(stage, RemoteEvent::Done);
    assert_eq!(action, RemoteAction::StartContainer { keep: true });
    let (stage, action) = next(stage, RemoteEvent::Done);
    assert_eq!(action, RemoteAction::CopyData { whole_toolchain: false });
    let (stage, action) = next(stage, RemoteEvent::Done);
    assert_eq!(action, RemoteAction::Build);
    let (stage, action) = next(stage, RemoteEvent::Done);
    assert_eq!(action, RemoteAction::CheckTargetDir);
    let (stage, action) = next(stage, RemoteEvent::TargetDirExists(true));
    assert_eq!((stage, action), (RemoteStage::Finished, RemoteAction::CopyBack));
}

#[test]
fn remote_run_with_a_discarded_volume() {
    let (stage, _) = remote_start();
    let (stage, action) = next(stage, RemoteEvent::Volumes(vec![format!("{PARTIAL}-old-1")]));
    assert_eq!(action, RemoteAction::InspectContainer { warn_other_version: true });
    let (stage, action) = next(stage, RemoteEvent::State(ContainerState::DoesNotExist));
    assert_eq!(action, RemoteAction::StartContainer { keep: false });
    let (stage, action) = next(stage, RemoteEvent::Done);
    assert_eq!(action, RemoteAction::CopyData { whole_toolchain: true });
    let (stage, _) = next(stage, RemoteEvent::Done);
    let (stage, action) = remote_next(ID, PARTIAL, true, stage, &RemoteEvent::Done);
    assert_eq!((stage, action), (RemoteStage::Finished, RemoteAction::Finish));
}

#[test]
fn remote_run_exited_container_is_removed() {
    let (stage, action) = next(RemoteStage::Inspecting { keep: false }, RemoteEvent::State(ContainerState::Exited));
    assert_eq!(action, RemoteAction::RemoveContainer);
    assert_eq!(stage, RemoteStage::Removing { keep: false });
}

#[test]
fn remote_run_out_of_order_event_aborts() {
    let (stage, action) = next(RemoteStage::Building, RemoteEvent::TargetDirExists(true));
    assert_eq!((stage, action), (RemoteStage::Finished, RemoteAction::Abort));
    let (_, action) = next(RemoteStage::Checking, RemoteEvent::TargetDirExists(false));
    assert_eq!(action, RemoteAction::Finish);
}
