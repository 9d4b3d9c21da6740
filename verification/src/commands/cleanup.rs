//! The commands that remove what `cross` leaves with the container engine:
//! its containers and volumes, and the plan of `cross-util clean`.

use vstd::prelude::*;
use crate::docker::shared::{ContainerState, UnknownContainerState, container_state_of};
use crate::text::{views, chars_of, chars_find, chars_slice, trim_chars, string_of, first_index, trim};

verus! {

broadcast use vstd::string::group_string_axioms;

/// `cross-util containers remove-all`.
#[derive(Debug, Clone)]
pub struct RemoveAllContainers {
    /// Force the removal of running containers.
    pub force: bool,
    /// Remove the containers; without it, the commands are only shown.
    pub execute: bool,
    /// The container engine (such as docker or podman).
    pub engine: Option<String>,
}

/// `cross-util volumes remove-all`.
#[derive(Debug, Clone)]
pub struct RemoveAllVolumes {
    /// Force the removal of volumes.
    pub force: bool,
    /// Remove the volumes; without it, the command is only shown.
    pub execute: bool,
    /// The container engine (such as docker or podman).
    pub engine: Option<String>,
}

/// `cross-util volumes prune`.
#[derive(Debug, Clone)]
pub struct PruneVolumes {
    /// Prune the volumes; without it, the command is only shown.
    pub execute: bool,
    /// The container engine (such as docker or podman).
    pub engine: Option<String>,
}

/// `cross-util clean`: the containers, images and volumes of `cross`.
#[derive(Debug, Clone)]
pub struct Clean {
    /// Force the removal of images.
    pub force: bool,
    /// Remove local (development) images.
    pub local: bool,
    /// Remove them; without it, this is a dry run.
    pub execute: bool,
    /// The container engine (such as docker or podman).
    pub engine: Option<String>,
}

impl Clean {
    /// The container engine asked for.
    pub fn engine(&self) -> (r: Option<&str>)
        ensures
            match r {
                Some(e) => self.engine is Some && e@ == self.engine->0@,
                None => self.engine is None,
            },
    {
        match &self.engine {
            Some(e) => Some(e.as_str()),
            None => None,
        }
    }

    /// What `clean` does first and last: remove every container, then
    /// (after the images) every volume, then prune the volumes, each with
    /// this command's flags and the engine already chosen.
    pub fn steps(&self) -> (r: (RemoveAllContainers, RemoveAllVolumes, PruneVolumes))
        ensures
            r.0.force == self.force && r.0.execute == self.execute && r.0.engine is None,
            r.1.force == self.force && r.1.execute == self.execute && r.1.engine is None,
            r.2.execute == self.execute && r.2.engine is None,
    {
        (
            RemoveAllContainers { force: self.force, execute: self.execute, engine: None },
            RemoveAllVolumes { force: self.force, execute: self.execute, engine: None },
            PruneVolumes { execute: self.execute, engine: None },
        )
    }
}

/// The name and state of a line `name: state` that the engine lists.
pub open spec fn listed_container(l: Seq<char>) -> (Seq<char>, Seq<char>) {
    match first_index(l, ':') {
        Some(i) => (trim(l.take(i)), trim(l.skip(i + 1))),
        None => (trim(l), Seq::empty()),
    }
}

/// Every listed container has a known state.
pub open spec fn states_known(ls: Seq<Seq<char>>) -> bool {
    forall|i: int| 0 <= i < ls.len() ==> (#[trigger] container_state_of(listed_container(ls[i]).1)) is Some
}

/// Stopped: exited, or gone.
pub open spec fn stopped_state(s: ContainerState) -> bool {
    s == ContainerState::Exited || s == ContainerState::DoesNotExist
}

/// The names of the listed containers that are stopped (or running), in
/// order.
pub open spec fn names_where(ls: Seq<Seq<char>>, stopped: bool) -> Seq<Seq<char>>
    decreases ls.len(),
{
    if ls.len() == 0 {
        Seq::empty()
    } else {
        let c = listed_container(ls.last());
        let rest = names_where(ls.drop_last(), stopped);
        if container_state_of(c.1) matches Some(s) && stopped_state(s) == stopped {
            rest.push(c.0)
        } else {
            rest
        }
    }
}

/// Lists of arguments by their characters.
pub open spec fn arg_lists(v: Seq<Vec<String>>) -> Seq<Seq<Seq<char>>> {
    v.map_values(|a: Vec<String>| views(a@))
}

/// The engine commands that remove the listed containers: `stop` for the
/// running ones, then `rm` (forced where asked) for all, running first;
/// none where there is no container.
pub open spec fn remove_containers_of(ls: Seq<Seq<char>>, force: bool) -> Seq<Seq<Seq<char>>> {
    let running = names_where(ls, false);
    let stopped = names_where(ls, true);
    (if running.len() > 0 { seq![seq!["stop"@] + running] } else { Seq::empty() })
        + (if running.len() + stopped.len() > 0 {
            seq![seq!["rm"@] + (if force { seq!["--force"@] } else { Seq::empty() }) + running + stopped]
        } else {
            Seq::empty()
        })
}

fn push_str_vec(out: &mut Vec<String>, items: &Vec<String>)
    ensures
        views(final(out)@) == views(old(out)@) + views(items@),
{
    let ghost start = views(out@);
    let mut i: usize = 0;
    while i < items.len()
        invariant
            i <= items@.len(),
            views(out@) == start + views(items@).take(i as int),
        decreases items@.len() - i,
    {
        let ghost before = out@;
        out.push(items[i].clone());
        assert(views(out@) =~= views(before).push(items@[i as int]@));
        assert(views(items@).take(i + 1) =~= views(items@).take(i as int).push(items@[i as int]@));
        i += 1;
    }
    assert(views(items@).take(items@.len() as int) =~= views(items@));
}

/// The engine commands of `containers remove-all` for the containers the
/// engine lists as `name: state` (see [`remove_containers_of`]); an error
/// where a state is unknown.
pub fn remove_all_containers(opts: &RemoveAllContainers, listed: &Vec<String>)
    -> (r: Result<Vec<Vec<String>>, UnknownContainerState>)
    ensures
        r is Ok <==> states_known(views(listed@)),
        r matches Ok(cmds) ==> arg_lists(cmds@) == remove_containers_of(views(listed@), opts.force),
{
    let ghost ls = views(listed@);
    let mut running: Vec<String> = Vec::new();
    let mut stopped: Vec<String> = Vec::new();
    let mut i: usize = 0;
    while i < listed.len()
        invariant
            i <= listed@.len(),
            ls == views(listed@),
            states_known(ls.take(i as int)),
            views(running@) == names_where(ls.take(i as int), false),
            views(stopped@) == names_where(ls.take(i as int), true),
        decreases listed@.len() - i,
    {
        let cs = chars_of(listed[i].as_str());
        let (name, state) = match chars_find(cs.as_slice(), ':') {
            Some(k) => {
                let n = trim_chars(chars_slice(cs.as_slice(), 0, k).as_slice());
                let s = trim_chars(chars_slice(cs.as_slice(), k + 1, cs.len()).as_slice());
                proof {
                    assert(cs@.subrange(0, k as int) =~= cs@.take(k as int));
                    assert(cs@.subrange(k + 1, cs@.len() as int) =~= cs@.skip(k + 1));
                }
                (n, s)
            },
            None => (trim_chars(cs.as_slice()), Vec::new()),
        };
        let ghost l = ls[i as int];
        assert(l == cs@);
        assert(name@ == listed_container(l).0);
        assert(state@ =~= listed_container(l).1);
        let state_str = string_of(&state);
        let st = match ContainerState::new(state_str.as_str()) {
            Ok(s) => s,
            Err(e) => {
                proof {
                    assert(ls.take(i as int + 1)[i as int] == l);
                }
                assert(!states_known(ls)) by {
                    assert(container_state_of(listed_container(ls[i as int]).1) is None);
                }
                return Err(e);
            },
        };
        let ghost t0 = ls.take(i as int);
        let ghost t1 = ls.take(i + 1);
        assert(t1.drop_last() =~= t0);
        assert(t1.last() == l);
        let n = string_of(&name);
        if st.is_stopped() {
            let ghost b = stopped@;
            stopped.push(n);
            assert(views(stopped@) =~= views(b).push(name@));
        } else {
            let ghost b = running@;
            running.push(n);
            assert(views(running@) =~= views(b).push(name@));
        }
        assert(states_known(t1)) by {
            assert forall|j: int| 0 <= j < t1.len() implies (#[trigger] container_state_of(listed_container(t1[j]).1)) is Some by {
                if j < i {
                    assert(t1[j] == t0[j]);
                }
            }
        }
        i += 1;
    }
    assert(ls.take(i as int) =~= ls);
    let mut cmds: Vec<Vec<String>> = Vec::new();
    let ghost rn = views(running@);
    let ghost sn = views(stopped@);
    if running.len() > 0 {
        let mut stop: Vec<String> = Vec::new();
        stop.push(String::from_str("stop"));
        assert(views(stop@) =~= seq!["stop"@]);
        push_str_vec(&mut stop, &running);
        let ghost sv = views(stop@);
        cmds.push(stop);
        assert(arg_lists(cmds@) =~= seq![sv]);
    }
    assert(arg_lists(cmds@) =~= if rn.len() > 0 { seq![seq!["stop"@] + rn] } else { Seq::empty() });
    let ghost c1 = arg_lists(cmds@);
    if running.len() > 0 || stopped.len() > 0 {
        let mut rm: Vec<String> = Vec::new();
        rm.push(String::from_str("rm"));
        if opts.force {
            rm.push(String::from_str("--force"));
        }
        assert(views(rm@) =~= seq!["rm"@] + (if opts.force { seq!["--force"@] } else { Seq::empty() }));
        push_str_vec(&mut rm, &running);
        push_str_vec(&mut rm, &stopped);
        let ghost b = cmds@;
        let ghost rv = views(rm@);
        cmds.push(rm);
        assert(arg_lists(cmds@) =~= arg_lists(b).push(rv));
    }
    assert(arg_lists(cmds@) =~= c1 + (if rn.len() + sn.len() > 0 {
        seq![seq!["rm"@] + (if opts.force { seq!["--force"@] } else { Seq::empty() }) + rn + sn]
    } else {
        Seq::empty()
    }));
    Ok(cmds)
}

/// The engine command of `volumes remove-all` for the volumes of `cross`:
/// `volume rm`, forced where asked, with every volume; none where there is
/// no volume.
pub fn remove_all_volumes(opts: &RemoveAllVolumes, volumes: &Vec<String>) -> (r: Option<Vec<String>>)
    ensures
        match r {
            None => volumes@.len() == 0,
            Some(args) => volumes@.len() > 0 && views(args@)
                == seq!["volume"@, "rm"@] + (if opts.force { seq!["--force"@] } else { Seq::empty() }) + views(volumes@),
        },
{
    if volumes.len() == 0 {
        return None;
    }
    let mut args: Vec<String> = Vec::new();
    args.push(String::from_str("volume"));
    args.push(String::from_str("rm"));
    if opts.force {
        args.push(String::from_str("--force"));
    }
    assert(views(args@) =~= seq!["volume"@, "rm"@] + (if opts.force { seq!["--force"@] } else { Seq::empty() }));
    push_str_vec(&mut args, volumes);
    Some(args)
}

/// The engine command of `volumes prune`: `volume prune --force`.
pub fn prune_volumes(opts: &PruneVolumes) -> (r: Vec<String>)
    ensures
        views(r@) == seq!["volume"@, "prune"@, "--force"@],
{
    let mut args: Vec<String> = Vec::new();
    args.push(String::from_str("volume"));
    args.push(String::from_str("prune"));
    args.push(String::from_str("--force"));
    assert(views(args@) =~= seq!["volume"@, "prune"@, "--force"@]);
    args
}

/// `cross-util images remove`: the images of `cross`, or those of some
/// targets.
#[derive(Debug, Clone)]
pub struct RemoveImages {
    /// The targets whose images to remove; all where there is none.
    pub targets: Vec<String>,
    /// Force the removal of images.
    pub force: bool,
    /// Remove local (development) images.
    pub local: bool,
    /// Remove the images; without it, the command is only shown.
    pub execute: bool,
    /// The container engine (such as docker or podman).
    pub engine: Option<String>,
}

/// The engine command that removes images by their ids: `rmi`, forced
/// where asked; none where there is no image.
pub fn remove_images(opts: &RemoveImages, ids: &Vec<String>) -> (r: Option<Vec<String>>)
    ensures
        match r {
            None => ids@.len() == 0,
            Some(args) => ids@.len() > 0 && views(args@)
                == seq!["rmi"@] + (if opts.force { seq!["--force"@] } else { Seq::empty() }) + views(ids@),
        },
{
    if ids.len() == 0 {
        return None;
    }
    let mut args: Vec<String> = Vec::new();
    args.push(String::from_str("rmi"));
    if opts.force {
        args.push(String::from_str("--force"));
    }
    assert(views(args@) =~= seq!["rmi"@] + (if opts.force { seq!["--force"@] } else { Seq::empty() }));
    push_str_vec(&mut args, ids);
    Some(args)
}

impl Clean {
    /// The removal of images that `clean` makes between containers and
    /// volumes: every image of `cross`, local ones where asked.
    pub fn images_step(&self) -> (r: RemoveImages)
        ensures
            r.targets@.len() == 0,
            r.force == self.force && r.local == self.local && r.execute == self.execute && r.engine is None,
    {
        RemoveImages { targets: Vec::new(), force: self.force, local: self.local, execute: self.execute, engine: None }
    }
}

} // verus!
