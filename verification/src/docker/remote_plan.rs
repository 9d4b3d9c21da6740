//! The decisions of a run on a remote engine, where the project is copied
//! into a data volume instead of mounted: which volume to use, how the
//! mounts reach the volume, and where cargo puts its target directory.

use vstd::prelude::*;
use vstd::string::StringExecFns;
use crate::cargo::Subcommand;
use crate::docker::shared::{VolumeId, ContainerState};
use crate::file::{strip_prefix, strip_components};
use crate::text::{copy_str, views, str_eq, starts_with, has_prefix, chars_of, substring};

verus! {

broadcast use vstd::string::group_string_axioms;

/// Some of the listed volumes satisfies `f`.
pub open spec fn any_volume(vs: Seq<Seq<char>>, f: spec_fn(Seq<char>) -> bool) -> bool {
    exists|i: int| 0 <= i < vs.len() && f(#[trigger] vs[i])
}

/// The data volume of a remote run: the toolchain's persistent volume
/// where it exists (`toolchain_id`), else one discarded with the container;
/// and whether to warn that only a volume of another version of the
/// toolchain (one whose name starts with `partial`) exists.
pub fn choose_volume(existing: &Vec<String>, toolchain_id: &str, partial: &str) -> (r: (VolumeId, bool))
    ensures
        views(existing@).contains(toolchain_id@) ==> (r.0 matches VolumeId::Keep(id) && id@ == toolchain_id@ && !r.1),
        !views(existing@).contains(toolchain_id@) ==> r.0 is Discard
            && r.1 == any_volume(views(existing@), |v: Seq<char>| has_prefix(v, partial@)),
{
    let ghost vs = views(existing@);
    let mut i: usize = 0;
    while i < existing.len()
        invariant
            i <= existing@.len(),
            vs == views(existing@),
            forall|k: int| 0 <= k < i ==> vs[k] != toolchain_id@,
        decreases existing@.len() - i,
    {
        if str_eq(existing[i].as_str(), toolchain_id) {
            assert(vs[i as int] == toolchain_id@);
            return (VolumeId::Keep(copy_str(toolchain_id)), false);
        }
        i += 1;
    }
    assert(!vs.contains(toolchain_id@));
    let mut j: usize = 0;
    while j < existing.len()
        invariant
            j <= existing@.len(),
            vs == views(existing@),
            !vs.contains(toolchain_id@),
            forall|k: int| 0 <= k < j ==> !has_prefix(vs[k], partial@),
        decreases existing@.len() - j,
    {
        if starts_with(existing[j].as_str(), partial) {
            assert(has_prefix(vs[j as int], partial@));
            return (VolumeId::Discard, true);
        }
        j += 1;
    }
    (VolumeId::Discard, false)
}

/// The arguments for cargo with the target directory moved into the data
/// volume: `--target-dir` keeps its place with `target_dir` as its value
/// (a flag without a value stays alone), `--target-dir=...` becomes
/// `--target-dir=<target_dir>`; gives also whether one was given.
pub open spec fn rewrite_target_dir(args: Seq<Seq<char>>, target_dir: Seq<char>) -> (Seq<Seq<char>>, bool)
    decreases args.len(),
{
    if args.len() == 0 {
        (Seq::empty(), false)
    } else if args[0] == "--target-dir"@ {
        if args.len() >= 2 {
            let r = rewrite_target_dir(args.skip(2), target_dir);
            (seq!["--target-dir"@, target_dir] + r.0, true)
        } else {
            (seq!["--target-dir"@], true)
        }
    } else if has_prefix(args[0], "--target-dir="@) {
        let r = rewrite_target_dir(args.drop_first(), target_dir);
        (seq!["--target-dir="@ + target_dir] + r.0, true)
    } else {
        let r = rewrite_target_dir(args.drop_first(), target_dir);
        (seq![args[0]] + r.0, r.1)
    }
}

/// The arguments for cargo on a remote engine (see
/// [`rewrite_target_dir`]); where none names a target directory, one is
/// added for every subcommand but `metadata`.
pub open spec fn remote_args_of(args: Seq<Seq<char>>, target_dir: Seq<char>, subcommand: Option<Subcommand>) -> Seq<Seq<char>> {
    let r = rewrite_target_dir(args, target_dir);
    let add = !r.1 && match subcommand {
        Some(s) => s != Subcommand::Metadata,
        None => true,
    };
    if add { r.0 + seq!["--target-dir"@, target_dir] } else { r.0 }
}

proof fn lemma_skip_step(args: Seq<Seq<char>>, i: int, n: int)
    requires
        0 <= i,
        i + n <= args.len(),
        0 <= n,
    ensures
        args.skip(i).skip(n) == args.skip(i + n),
{
    assert(args.skip(i).skip(n) =~= args.skip(i + n));
}

/// The arguments for cargo on a remote engine (see [`remote_args_of`]).
pub fn remote_cargo_args(args: &Vec<String>, target_dir: &str, subcommand: Option<Subcommand>) -> (r: Vec<String>)
    ensures
        views(r@) == remote_args_of(views(args@), target_dir@, subcommand),
{
    proof {
        reveal_strlit("--target-dir");
        reveal_strlit("--target-dir=");
    }
    let ghost all = views(args@);
    let mut out: Vec<String> = Vec::new();
    let mut given = false;
    let mut i: usize = 0;
    assert(all.skip(0) =~= all);
    while i < args.len()
        invariant
            i <= args@.len(),
            all == views(args@),
            views(out@) + rewrite_target_dir(all.skip(i as int), target_dir@).0 == rewrite_target_dir(all, target_dir@).0,
            (given || rewrite_target_dir(all.skip(i as int), target_dir@).1) == rewrite_target_dir(all, target_dir@).1,
        decreases args@.len() - i,
    {
        let ghost rest = all.skip(i as int);
        let ghost before = views(out@);
        assert(rest[0] == args@[i as int]@);
        let arg = args[i].as_str();
        if str_eq(arg, "--target-dir") {
            given = true;
            out.push(String::from_str("--target-dir"));
            if i + 1 < args.len() {
                out.push(copy_str(target_dir));
                proof {
                    lemma_skip_step(all, i as int, 2);
                    assert(views(out@) =~= before + seq!["--target-dir"@, target_dir@]);
                }
                i += 2;
            } else {
                proof {
                    assert(views(out@) =~= before + seq!["--target-dir"@]);
                    assert(all.skip(i + 1).len() == 0);
                }
                i += 1;
            }
        } else if starts_with(arg, "--target-dir=") {
            given = true;
            let mut a = String::from_str("--target-dir=");
            a.append(target_dir);
            out.push(a);
            proof {
                lemma_skip_step(all, i as int, 1);
                assert(rest.drop_first() =~= rest.skip(1));
                assert(views(out@) =~= before + seq!["--target-dir="@ + target_dir@]);
            }
            i += 1;
        } else {
            out.push(copy_str(arg));
            proof {
                lemma_skip_step(all, i as int, 1);
                assert(rest.drop_first() =~= rest.skip(1));
                assert(views(out@) =~= before + seq![arg@]);
            }
            i += 1;
        }
    }
    assert(all.skip(i as int).len() == 0);
    assert(views(out@) =~= rewrite_target_dir(all, target_dir@).0);
    let add = !given && match subcommand {
        Some(s) => s.needs_target_in_command(),
        None => true,
    };
    if add {
        let ghost before = views(out@);
        out.push(String::from_str("--target-dir"));
        out.push(copy_str(target_dir));
        assert(views(out@) =~= before + seq!["--target-dir"@, target_dir@]);
    }
    out
}

/// How a mount reaches the data volume: a link to where a copied directory
/// holds it, or a copy of its own to its path without the leading `/`.
#[derive(Debug, Clone, PartialEq, Eq)]
pub enum MountStep {
    /// `ln -s <source> <destination>` in the container.
    Symlink(String, String),
    /// A copy of the host path to the path in the volume.
    Copy(String, String),
}

/// The first copied directory (host path, path in the volume) that a host
/// path lies under, with the rest of the path below it.
pub open spec fn copied_under(copied: Seq<(Seq<char>, Seq<char>)>, src: Seq<char>) -> Option<(Seq<char>, Seq<char>)>
    decreases copied.len(),
{
    if copied.len() == 0 {
        None
    } else {
        match strip_components(src, copied[0].0) {
            Some(rel) => Some((copied[0].1, rel)),
            None => copied_under(copied.drop_first(), src),
        }
    }
}

/// The step for a mount `(src, dst)`: a link from the copy of the
/// directory it lies under, else a copy to `dst` without its leading `/`.
pub open spec fn mount_step_of(copied: Seq<(Seq<char>, Seq<char>)>, src: Seq<char>, dst: Seq<char>) -> (Seq<char>, Seq<char>, bool) {
    match copied_under(copied, src) {
        Some((pdst, rel)) => (pdst + "/"@ + rel, dst, true),
        None => (src, dst.skip(1), false),
    }
}

/// The view of a step: its two paths, and whether it is a link.
pub open spec fn step_view(s: MountStep) -> (Seq<char>, Seq<char>, bool) {
    match s {
        MountStep::Symlink(a, b) => (a@, b@, true),
        MountStep::Copy(a, b) => (a@, b@, false),
    }
}

/// The pairs of a list of string pairs, by their views.
pub open spec fn string_pairs(v: Seq<(String, String)>) -> Seq<(Seq<char>, Seq<char>)> {
    v.map_values(|p: (String, String)| (p.0@, p.1@))
}

fn copied_under_exec(copied: &Vec<(String, String)>, src: &str) -> (r: Option<(String, String)>)
    ensures
        match r {
            Some((d, rel)) => copied_under(string_pairs(copied@), src@) == Some((d@, rel@)),
            None => copied_under(string_pairs(copied@), src@) is None,
        },
{
    let ghost cs = string_pairs(copied@);
    let mut i: usize = 0;
    assert(cs.skip(0) =~= cs);
    while i < copied.len()
        invariant
            i <= copied@.len(),
            cs == string_pairs(copied@),
            copied_under(cs, src@) == copied_under(cs.skip(i as int), src@),
        decreases copied@.len() - i,
    {
        assert(cs.skip(i as int)[0] == (copied@[i as int].0@, copied@[i as int].1@));
        assert(cs.skip(i as int).drop_first() =~= cs.skip(i + 1));
        match strip_prefix(src, copied[i].0.as_str()) {
            Some(rel) => return Some((copied[i].1.clone(), rel)),
            None => {},
        }
        i += 1;
    }
    None
}

/// How each mount reaches the data volume, in order (see
/// [`mount_step_of`]); `copied` are the directories copied already, with
/// their paths in the volume.
pub fn mount_steps(copied: &Vec<(String, String)>, mounts: &Vec<(String, String)>) -> (r: Vec<MountStep>)
    requires
        forall|i: int| 0 <= i < mounts@.len() ==> has_prefix((#[trigger] mounts@[i]).1@, "/"@),
    ensures
        r@.len() == mounts@.len(),
        forall|i: int| 0 <= i < mounts@.len() ==> step_view(#[trigger] r@[i])
            == mount_step_of(string_pairs(copied@), mounts@[i].0@, mounts@[i].1@),
{
    proof { reveal_strlit("/"); }
    let mut out: Vec<MountStep> = Vec::new();
    let mut i: usize = 0;
    while i < mounts.len()
        invariant
            i <= mounts@.len(),
            out@.len() == i,
            forall|i: int| 0 <= i < mounts@.len() ==> has_prefix((#[trigger] mounts@[i]).1@, "/"@),
            forall|k: int| 0 <= k < i ==> step_view(#[trigger] out@[k])
                == mount_step_of(string_pairs(copied@), mounts@[k].0@, mounts@[k].1@),
        decreases mounts@.len() - i,
    {
        let (src, dst) = (&mounts[i].0, &mounts[i].1);
        let step = match copied_under_exec(copied, src.as_str()) {
            Some((pdst, rel)) => {
                let mut link = pdst;
                link.append("/");
                link.append(rel.as_str());
                MountStep::Symlink(link, dst.clone())
            },
            None => {
                proof { reveal_strlit("/"); }
                assert(has_prefix(mounts@[i as int].1@, "/"@));
                let v = chars_of(dst.as_str());
                assert(v@.len() >= 1);
                MountStep::Copy(src.clone(), substring(v.as_slice(), 1, v.len()))
            },
        };
        out.push(step);
        i += 1;
    }
    out
}

/// Where a run on a remote engine stands, between two actions of the
/// engine.
#[derive(Debug, Clone, Copy, PartialEq, Eq, Structural)]
pub enum RemoteStage {
    /// The engine lists its volumes.
    ListingVolumes,
    /// The container of a former run is inspected; `keep` tells whether the
    /// toolchain's persistent volume is used.
    Inspecting { keep: bool },
    /// A former container is stopped; `exists` tells that it must be
    /// removed next.
    Stopping { keep: bool, exists: bool },
    /// A former container is removed.
    Removing { keep: bool },
    /// The container starts with the data volume mounted.
    Starting { keep: bool },
    /// The toolchain, the project and the mounts are copied into the volume.
    Copying,
    /// Cargo runs in the container.
    Building,
    /// The target directory in the volume is looked for.
    Checking,
    /// The run is over.
    Finished,
}

/// What the engine reports back.
#[derive(Debug, Clone)]
pub enum RemoteEvent {
    /// The names of its volumes.
    Volumes(Vec<String>),
    /// The state of the container of a former run.
    State(ContainerState),
    /// The action asked for is done.
    Done,
    /// Whether the target directory exists in the volume.
    TargetDirExists(bool),
}

/// What to ask of the engine next.
#[derive(Debug, Clone, Copy, PartialEq, Eq, Structural)]
pub enum RemoteAction {
    ListVolumes,
    /// Inspect the container of a former run, having warned first where
    /// only a volume of another version of the toolchain exists.
    InspectContainer { warn_other_version: bool },
    /// Stop the container, which was running (warned about).
    StopContainer,
    /// Remove the container, which had exited (warned about).
    RemoveContainer,
    /// Start the container with the toolchain's persistent volume (`keep`)
    /// or a volume discarded with it.
    StartContainer { keep: bool },
    /// Copy xargo, cargo and the whole toolchain into a discarded volume,
    /// or only the target's part of the toolchain into a kept one; then
    /// the project, the target directory and the mounts (see
    /// [`mount_steps`]).
    CopyData { whole_toolchain: bool },
    /// Run cargo in the container (see [`remote_cargo_args`]).
    Build,
    /// Look for the target directory in the volume.
    CheckTargetDir,
    /// Copy the target directory back to the host, then stop.
    CopyBack,
    /// Stop the container.
    Finish,
    /// Stop the container: the event does not belong to the stage.
    Abort,
}

/// The first stage and action of a remote run.
pub fn remote_start() -> (r: (RemoteStage, RemoteAction))
    ensures
        r == (RemoteStage::ListingVolumes, RemoteAction::ListVolumes),
{
    (RemoteStage::ListingVolumes, RemoteAction::ListVolumes)
}

/// The next stage and action of a remote run, after `event` in `stage`;
/// `toolchain_id` names the toolchain's persistent volume, and `partial`
/// the start of the name of a volume of any of its versions. A stopped
/// former container that still exists is removed, a running one is
/// stopped first; the build artifacts are copied back unless skipped
/// (`CROSS_REMOTE_SKIP_BUILD_ARTIFACTS`) and where the target directory
/// exists.
pub open spec fn remote_next_of(
    toolchain_id: Seq<char>,
    partial: Seq<char>,
    skip_artifacts: bool,
    stage: RemoteStage,
    event: RemoteEvent,
) -> (RemoteStage, RemoteAction) {
    match (stage, event) {
        (RemoteStage::ListingVolumes, RemoteEvent::Volumes(vs)) => {
            let keep = views(vs@).contains(toolchain_id);
            let warn = !keep && any_volume(views(vs@), |v: Seq<char>| has_prefix(v, partial));
            (RemoteStage::Inspecting { keep }, RemoteAction::InspectContainer { warn_other_version: warn })
        },
        (RemoteStage::Inspecting { keep }, RemoteEvent::State(s)) => {
            let stopped = s == ContainerState::Exited || s == ContainerState::DoesNotExist;
            let exists = s != ContainerState::DoesNotExist;
            if !stopped {
                (RemoteStage::Stopping { keep, exists }, RemoteAction::StopContainer)
            } else if exists {
                (RemoteStage::Removing { keep }, RemoteAction::RemoveContainer)
            } else {
                (RemoteStage::Starting { keep }, RemoteAction::StartContainer { keep })
            }
        },
        (RemoteStage::Stopping { keep, exists }, RemoteEvent::Done) => if exists {
            (RemoteStage::Removing { keep }, RemoteAction::RemoveContainer)
        } else {
            (RemoteStage::Starting { keep }, RemoteAction::StartContainer { keep })
        },
        (RemoteStage::Removing { keep }, RemoteEvent::Done) =>
            (RemoteStage::Starting { keep }, RemoteAction::StartContainer { keep }),
        (RemoteStage::Starting { keep }, RemoteEvent::Done) =>
            (RemoteStage::Copying, RemoteAction::CopyData { whole_toolchain: !keep }),
        (RemoteStage::Copying, RemoteEvent::Done) => (RemoteStage::Building, RemoteAction::Build),
        (RemoteStage::Building, RemoteEvent::Done) => if skip_artifacts {
            (RemoteStage::Finished, RemoteAction::Finish)
        } else {
            (RemoteStage::Checking, RemoteAction::CheckTargetDir)
        },
        (RemoteStage::Checking, RemoteEvent::TargetDirExists(b)) =>
            (RemoteStage::Finished, if b { RemoteAction::CopyBack } else { RemoteAction::Finish }),
        _ => (RemoteStage::Finished, RemoteAction::Abort),
    }
}

/// The next stage and action of a remote run (see [`remote_next_of`]).
pub fn remote_next(
    toolchain_id: &str,
    partial: &str,
    skip_artifacts: bool,
    stage: RemoteStage,
    event: &RemoteEvent,
) -> (r: (RemoteStage, RemoteAction))
    ensures
        r == remote_next_of(toolchain_id@, partial@, skip_artifacts, stage, *event),
{
    match (stage, event) {
        (RemoteStage::ListingVolumes, RemoteEvent::Volumes(vs)) => {
            let (volume, warn) = choose_volume(vs, toolchain_id, partial);
            let keep = match volume {
                VolumeId::Keep(_) => true,
                VolumeId::Discard => false,
            };
            (RemoteStage::Inspecting { keep }, RemoteAction::InspectContainer { warn_other_version: warn })
        },
        (RemoteStage::Inspecting { keep }, RemoteEvent::State(s)) => {
            let stopped = s.is_stopped();
            let exists = s.is_existing();
            if !stopped {
                (RemoteStage::Stopping { keep, exists }, RemoteAction::StopContainer)
            } else if exists {
                (RemoteStage::Removing { keep }, RemoteAction::RemoveContainer)
            } else {
                (RemoteStage::Starting { keep }, RemoteAction::StartContainer { keep })
            }
        },
        (RemoteStage::Stopping { keep, exists }, RemoteEvent::Done) => if exists {
            (RemoteStage::Removing { keep }, RemoteAction::RemoveContainer)
        } else {
            (RemoteStage::Starting { keep }, RemoteAction::StartContainer { keep })
        },
        (RemoteStage::Removing { keep }, RemoteEvent::Done) =>
            (RemoteStage::Starting { keep }, RemoteAction::StartContainer { keep }),
        (RemoteStage::Starting { keep }, RemoteEvent::Done) =>
            (RemoteStage::Copying, RemoteAction::CopyData { whole_toolchain: !keep }),
        (RemoteStage::Copying, RemoteEvent::Done) => (RemoteStage::Building, RemoteAction::Build),
        (RemoteStage::Building, RemoteEvent::Done) => if skip_artifacts {
            (RemoteStage::Finished, RemoteAction::Finish)
        } else {
            (RemoteStage::Checking, RemoteAction::CheckTargetDir)
        },
        (RemoteStage::Checking, RemoteEvent::TargetDirExists(b)) =>
            (RemoteStage::Finished, if *b { RemoteAction::CopyBack } else { RemoteAction::Finish }),
        _ => (RemoteStage::Finished, RemoteAction::Abort),
    }
}

/// How far a stage is along a remote run.
pub open spec fn stage_rank(s: RemoteStage) -> nat {
    match s {
        RemoteStage::ListingVolumes => 0,
        RemoteStage::Inspecting { .. } => 1,
        RemoteStage::Stopping { .. } => 2,
        RemoteStage::Removing { .. } => 3,
        RemoteStage::Starting { .. } => 4,
        RemoteStage::Copying => 5,
        RemoteStage::Building => 6,
        RemoteStage::Checking => 7,
        RemoteStage::Finished => 8,
    }
}

/// Every event moves a remote run forward, so it ends after at most eight
/// events; and the whole toolchain is copied exactly where no persistent
/// volume is kept.
pub proof fn remote_run_moves_forward(
    toolchain_id: Seq<char>,
    partial: Seq<char>,
    skip_artifacts: bool,
    stage: RemoteStage,
    event: RemoteEvent,
)
    requires
        stage != RemoteStage::Finished,
    ensures
        stage_rank(remote_next_of(toolchain_id, partial, skip_artifacts, stage, event).0) > stage_rank(stage),
        (stage matches RemoteStage::Starting { keep } && event is Done) ==>
            remote_next_of(toolchain_id, partial, skip_artifacts, stage, event).1
                == (RemoteAction::CopyData { whole_toolchain: !stage->Starting_keep }),
{
}

} // verus!
