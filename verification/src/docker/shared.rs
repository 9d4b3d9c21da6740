//! What the ways of running a container share: the mounts seen from inside
//! a container, hashes of paths, container states and volume names.

use vstd::prelude::*;
use vstd::string::StringExecFns;
use vstd::utf8::encode_utf8;
use crate::docker::engine::Engine;
use crate::file::{strip_components, join_of, strip_prefix, join};
use crate::text::{str_eq, copy_str, has_infix, has_prefix, contains, starts_with, to_lowercase, lowercase_of, views, chars_of, substring, chars_find, first_index};
use crate::cargo::CargoMetadata;
use crate::docker::image::ImagePlatform;
use crate::file::file_name_of;
use crate::rustc::QualifiedToolchain;
use crate::target::{Target, TargetTriple};
use crate::config::Config;
use crate::shell::MessageInfo;
use crate::docker::image::{
    PossibleImage, ImageReference, PlatformError, CROSS_IMAGE, DEFAULT_IMAGE_VERSION, reference_kind,
    Architecture, Os,
};
use crate::docker::provided::{provided_images, provided_view, provided_table, on_default_platform, image_name_of, ProvidedImage};

verus! {

broadcast use vstd::string::group_string_axioms;

/// The most common base image of the images of `cross`.
pub const UBUNTU_BASE: &'static str = "ubuntu:20.04";

/// The mount directory for the data volume.
pub const MOUNT_PREFIX: &'static str = "/cross";

/// The prefix used when naming volumes.
pub const VOLUME_PREFIX: &'static str = "cross-";

/// The default timeout to stop a container (in seconds).
pub const DEFAULT_TIMEOUT: u32 = 2;

/// Instant kill in case of a non-graceful exit.
pub const NO_TIMEOUT: u32 = 0;

/// Short hash for identifiers with minimal risk of collision.
pub const PATH_HASH_SHORT: usize = 5;

/// Longer hash to minimize risk of random collisions.
pub const PATH_HASH_UNIQUE: usize = 10;

/// The SHA-1 digest of some bytes, as 40 lowercase hexadecimal digits.
pub uninterp spec fn sha1_hex_of(data: Seq<u8>) -> Seq<char>;

/// The SHA-1 digest of `data` (`const_sha1::sha1`), in the lowercase
/// hexadecimal form its `Display` writes: eight digits for each of its five
/// 32-bit words.
#[verifier::external_body]
pub(crate) fn sha1_hex(data: &[u8]) -> (r: String)
    ensures
        r@ == sha1_hex_of(data@),
        r@.len() == 40,
{
    const_sha1::sha1(data).to_string()
}

/// The first `count` digits of the SHA-1 digest of a path's UTF-8 bytes.
pub open spec fn path_hash_of(path: Seq<char>, count: nat) -> Seq<char> {
    sha1_hex_of(encode_utf8(path)).take(count as int)
}

/// The first `count` hexadecimal digits of the SHA-1 digest of a path.
pub fn path_hash(path: &str, count: usize) -> (r: String)
    requires
        count <= 40,
    ensures
        r@ == path_hash_of(path@, count as nat),
{
    let digest = sha1_hex(path.as_bytes());
    let v = crate::text::chars_of(digest.as_str());
    crate::text::substring(v.as_slice(), 0, count)
}

/// A mount of a container: the host directory `source` seen at
/// `destination` inside the container.
#[derive(Debug, Clone, PartialEq, Eq)]
pub struct MountDetail {
    pub source: String,
    pub destination: String,
}

impl MountDetail {
    /// A copy of this mount.
    pub fn duplicate(&self) -> (r: MountDetail)
        ensures
            r == *self,
    {
        MountDetail { source: self.source.clone(), destination: self.destination.clone() }
    }
}

/// The length in bytes of the destination of a mount.
pub open spec fn dest_len(m: MountDetail) -> int {
    encode_utf8(m.destination@).len() as usize as int
}

/// The index at which a stable sort by decreasing destination length puts
/// `m` into the sorted `s`: after every mount at least as long.
pub open spec fn insert_pos(s: Seq<MountDetail>, m: MountDetail) -> int
    decreases s.len(),
{
    if s.len() == 0 {
        0
    } else if dest_len(s[0]) < dest_len(m) {
        0
    } else {
        insert_pos(s.drop_first(), m) + 1
    }
}

/// The mounts sorted by decreasing destination length, mounts of equal
/// length in their given order.
pub open spec fn sort_mounts(s: Seq<MountDetail>) -> Seq<MountDetail>
    decreases s.len(),
{
    if s.len() == 0 {
        Seq::empty()
    } else {
        let r = sort_mounts(s.drop_last());
        let k = insert_pos(r, s.last());
        r.take(k).push(s.last()) + r.skip(k)
    }
}

/// Where a path inside the container is on the host: under the source of
/// the first mount whose destination is a leading run of the path's
/// components, else the path itself.
pub open spec fn mount_path_of(mounts: Seq<MountDetail>, path: Seq<char>) -> Seq<char>
    decreases mounts.len(),
{
    if mounts.len() == 0 {
        path
    } else {
        match strip_components(path, mounts[0].destination@) {
            Some(rest) => if rest.len() == 0 {
                mounts[0].source@
            } else {
                join_of(mounts[0].source@, rest)
            },
            None => mount_path_of(mounts.drop_first(), path),
        }
    }
}

/// The mounts of the container `cross` runs in, most specific first.
#[derive(Debug, Default)]
pub struct MountFinder {
    pub mounts: Vec<MountDetail>,
}

proof fn lemma_insert_pos(s: Seq<MountDetail>, m: MountDetail)
    ensures
        0 <= insert_pos(s, m) <= s.len(),
        forall|i: int| 0 <= i < insert_pos(s, m) ==> dest_len(#[trigger] s[i]) >= dest_len(m),
        insert_pos(s, m) < s.len() ==> dest_len(s[insert_pos(s, m)]) < dest_len(m),
    decreases s.len(),
{
    if s.len() > 0 && dest_len(s[0]) >= dest_len(m) {
        lemma_insert_pos(s.drop_first(), m);
        assert forall|i: int| 0 <= i < insert_pos(s, m) implies dest_len(#[trigger] s[i]) >= dest_len(m) by {
            if i > 0 {
                assert(s[i] == s.drop_first()[i - 1]);
            }
        }
    }
}

proof fn lemma_insert_pos_at(s: Seq<MountDetail>, m: MountDetail, k: int)
    requires
        0 <= k <= s.len(),
        forall|i: int| 0 <= i < k ==> dest_len(#[trigger] s[i]) >= dest_len(m),
        k < s.len() ==> dest_len(s[k]) < dest_len(m),
    ensures
        insert_pos(s, m) == k,
    decreases k,
{
    if k > 0 {
        assert forall|i: int| 0 <= i < k - 1 implies dest_len(#[trigger] s.drop_first()[i]) >= dest_len(m) by {
            assert(s.drop_first()[i] == s[i + 1]);
        }
        lemma_insert_pos_at(s.drop_first(), m, k - 1);
    }
}

/// The mounts of a finder are its given mounts, reordered so that a longer
/// destination always comes before a shorter one: the most specific mount
/// of a path is the one found first.
pub proof fn sorted_mounts_longest_first(s: Seq<MountDetail>)
    ensures
        sort_mounts(s).to_multiset() == s.to_multiset(),
        forall|i: int, j: int|
            0 <= i < j < sort_mounts(s).len() ==> dest_len(#[trigger] sort_mounts(s)[i]) >= dest_len(
                #[trigger] sort_mounts(s)[j],
            ),
    decreases s.len(),
{
    broadcast use vstd::seq_lib::group_to_multiset_ensures;
    if s.len() > 0 {
        let d = s.drop_last();
        let m = s.last();
        sorted_mounts_longest_first(d);
        let r = sort_mounts(d);
        let k = insert_pos(r, m);
        lemma_insert_pos(r, m);
        let out = r.take(k).push(m) + r.skip(k);
        assert(sort_mounts(s) == out);
        vstd::seq_lib::lemma_multiset_commutative(r.take(k).push(m), r.skip(k));
        vstd::seq_lib::lemma_multiset_commutative(r.take(k), r.skip(k));
        assert(r.take(k) + r.skip(k) =~= r);
        assert(s.drop_last().push(s.last()) =~= s);
        assert(out.to_multiset() =~= s.to_multiset());
        assert forall|i: int, j: int| 0 <= i < j < out.len() implies dest_len(#[trigger] out[i]) >= dest_len(
            #[trigger] out[j],
        ) by {
            if i < k {
                assert(out[i] == r[i]);
                if j < k {
                    assert(out[j] == r[j]);
                } else if j > k {
                    assert(out[j] == r[j - 1]);
                }
            } else if i == k {
                assert(out[j] == r[j - 1]);
                assert(dest_len(r[k]) < dest_len(m));
                if j - 1 > k {
                    assert(dest_len(r[k]) >= dest_len(r[j - 1]));
                }
            } else {
                assert(out[i] == r[i - 1]);
                assert(out[j] == r[j - 1]);
            }
        }
    }
}

/// The position at which `m` goes into the sorted `v`.
fn find_insert_pos(v: &Vec<MountDetail>, m: &MountDetail) -> (r: usize)
    ensures
        r == insert_pos(v@, *m),
{
    let len = m.destination.as_str().len();
    let mut k: usize = 0;
    while k < v.len() && v[k].destination.as_str().len() >= len
        invariant
            k <= v.len(),
            len == dest_len(*m),
            forall|i: int| 0 <= i < k ==> dest_len(#[trigger] v@[i]) >= dest_len(*m),
        decreases v.len() - k,
    {
        k = k + 1;
    }
    proof { lemma_insert_pos_at(v@, *m, k as int); }
    k
}

impl MountFinder {
    /// A finder for the given mounts, sorted by decreasing destination
    /// length so that mounts of more components come first.
    pub fn new(mounts: Vec<MountDetail>) -> (r: MountFinder)
        ensures
            r.mounts@ == sort_mounts(mounts@),
    {
        let mut sorted: Vec<MountDetail> = Vec::new();
        let mut i: usize = 0;
        while i < mounts.len()
            invariant
                i <= mounts.len(),
                sorted@ == sort_mounts(mounts@.take(i as int)),
            decreases mounts.len() - i,
        {
            let m = mounts[i].duplicate();
            assert(mounts@.take(i + 1).drop_last() == mounts@.take(i as int));
            assert(mounts@.take(i + 1).last() == mounts@[i as int]);
            let k = find_insert_pos(&sorted, &mounts[i]);
            proof { lemma_insert_pos(sorted@, mounts@[i as int]); }
            let ghost before = sorted@;
            sorted.insert(k, m);
            assert(sorted@ =~= before.take(k as int).push(mounts@[i as int]) + before.skip(k as int));
            i = i + 1;
        }
        assert(mounts@.take(mounts.len() as int) == mounts@);
        MountFinder { mounts: sorted }
    }

    /// A finder without mounts: every path is where it is.
    pub fn empty() -> (r: MountFinder)
        ensures
            r.mounts@.len() == 0,
    {
        MountFinder { mounts: Vec::new() }
    }

    /// The finder for an engine: the mounts read from the container that
    /// `cross` runs in, or none outside a container.
    pub fn create(engine: &Engine, mounts: Vec<MountDetail>) -> (r: MountFinder)
        ensures
            engine.in_docker ==> r.mounts@ == sort_mounts(mounts@),
            !engine.in_docker ==> r.mounts@.len() == 0,
    {
        if engine.in_docker {
            MountFinder::new(mounts)
        } else {
            MountFinder::empty()
        }
    }

    /// Where a path inside the container is on the host (see
    /// [`mount_path_of`]).
    pub fn find_mount_path(&self, path: &str) -> (r: String)
        ensures
            r@ == mount_path_of(self.mounts@, path@),
    {
        let mut i: usize = 0;
        assert(self.mounts@.skip(0) == self.mounts@);
        while i < self.mounts.len()
            invariant
                i <= self.mounts.len(),
                mount_path_of(self.mounts@, path@) == mount_path_of(self.mounts@.skip(i as int), path@),
            decreases self.mounts.len() - i,
        {
            let info = &self.mounts[i];
            assert(self.mounts@.skip(i as int)[0] == self.mounts@[i as int]);
            assert(self.mounts@.skip(i as int).drop_first() == self.mounts@.skip(i + 1));
            match strip_prefix(path, info.destination.as_str()) {
                Some(rest) => {
                    if rest.as_str().is_empty() {
                        return info.source.clone();
                    }
                    assert(rest@.len() != 0);
                    return join(info.source.as_str(), rest.as_str());
                },
                None => {},
            }
            i = i + 1;
        }
        copy_str(path)
    }
}

/// How the root mount of a container is found: an overlay driver's merged
/// directory seen at `/`.
#[derive(Debug, Clone, Copy, PartialEq, Eq, Structural)]
pub enum RootMountError {
    /// No storage driver is named.
    NoDriver,
    /// The overlay driver names no merged directory.
    NoMergedDir,
    /// The storage driver is not an overlay driver.
    NotOverlay,
}

/// `r` is the root mount of a container, from the name of its storage
/// driver and its merged directory: an overlay driver's merged directory
/// is the host directory of `/`.
pub open spec fn root_mount_rel(driver_name: Option<&str>, merged_dir: Option<&str>, r: Result<MountDetail, RootMountError>) -> bool {
    match r {
        Ok(m) => driver_name is Some && has_infix(lowercase_of(driver_name->0@), "overlay"@)
            && merged_dir is Some && m.source@ == merged_dir->0@ && m.destination@ == "/"@,
        Err(e) => match driver_name {
            None => e == RootMountError::NoDriver,
            Some(d) => if has_infix(lowercase_of(d@), "overlay"@) {
                merged_dir is None && e == RootMountError::NoMergedDir
            } else {
                e == RootMountError::NotOverlay
            },
        },
    }
}

/// The root mount of a container, from the name of its storage driver and
/// its merged directory as `docker inspect` reports them (see
/// [`root_mount_rel`]).
pub fn root_mount_path(driver_name: Option<&str>, merged_dir: Option<&str>) -> (r: Result<MountDetail, RootMountError>)
    ensures
        root_mount_rel(driver_name, merged_dir, r),
{
    let driver = match driver_name {
        Some(d) => d,
        None => return Err(RootMountError::NoDriver),
    };
    let lower = to_lowercase(driver);
    if contains(lower.as_str(), "overlay") {
        match merged_dir {
            Some(path) => Ok(MountDetail { source: copy_str(path), destination: String::from_str("/") }),
            None => Err(RootMountError::NoMergedDir),
        }
    } else {
        Err(RootMountError::NotOverlay)
    }
}

/// Mounts by their source and destination.
pub open spec fn mounts_view(ms: Seq<MountDetail>) -> Seq<(Seq<char>, Seq<char>)> {
    ms.map_values(|m: MountDetail| (m.source@, m.destination@))
}

/// Pairs of strings by their characters.
pub open spec fn pairs_of(ps: Seq<(String, String)>) -> Seq<(Seq<char>, Seq<char>)> {
    ps.map_values(|p: (String, String)| (p.0@, p.1@))
}

/// The mounts that `docker inspect` lists for a container, as (source,
/// destination) pairs; none where it lists no `Mounts`.
pub fn user_mounts(listed: Option<&Vec<(String, String)>>) -> (r: Vec<MountDetail>)
    ensures
        mounts_view(r@) == match listed {
            Some(ps) => pairs_of(ps@),
            None => Seq::empty(),
        },
{
    let mut r: Vec<MountDetail> = Vec::new();
    match listed {
        None => {},
        Some(ps) => {
            let mut i: usize = 0;
            while i < ps.len()
                invariant
                    i <= ps@.len(),
                    mounts_view(r@) == pairs_of(ps@.take(i as int)),
                decreases ps@.len() - i,
            {
                let ghost before = r@;
                r.push(MountDetail { source: ps[i].0.clone(), destination: ps[i].1.clone() });
                assert(mounts_view(r@) =~= mounts_view(before).push((ps@[i as int].0@, ps@[i as int].1@)));
                assert(pairs_of(ps@.take(i + 1)) =~= pairs_of(ps@.take(i as int)).push((ps@[i as int].0@, ps@[i as int].1@)));
                i += 1;
            }
            assert(ps@.take(i as int) =~= ps@);
        },
    }
    assert(mounts_view(r@) =~= match listed { Some(ps) => pairs_of(ps@), None => Seq::empty() });
    r
}

/// The mounts of the container `cross` runs in, as `docker inspect`
/// reports them: those it lists (see [`user_mounts`]), then the root mount
/// (see [`root_mount_path`]).
pub fn inspect_mounts(listed: Option<&Vec<(String, String)>>, driver_name: Option<&str>, merged_dir: Option<&str>)
    -> (r: Result<Vec<MountDetail>, RootMountError>)
    ensures
        match r {
            Ok(ms) => ms@.len() >= 1
                && mounts_view(ms@.drop_last()) == match listed { Some(ps) => pairs_of(ps@), None => Seq::empty() }
                && root_mount_rel(driver_name, merged_dir, Ok(ms@.last())),
            Err(e) => root_mount_rel(driver_name, merged_dir, Err(e)),
        },
{
    let mut ms = user_mounts(listed);
    match root_mount_path(driver_name, merged_dir) {
        Ok(m) => {
            let ghost before = ms@;
            ms.push(m);
            assert(ms@.drop_last() =~= before);
            Ok(ms)
        },
        Err(e) => Err(e),
    }
}

/// The state of a container, as `docker inspect` reports it.
#[derive(Debug, Clone, Copy, PartialEq, Eq, Structural)]
pub enum ContainerState {
    Created,
    Running,
    Paused,
    Restarting,
    Dead,
    Exited,
    DoesNotExist,
}

/// A container state that is not one of the known ones.
#[derive(Debug, Clone, Copy, PartialEq, Eq, Structural)]
pub struct UnknownContainerState;

/// The state a name stands for; the empty name stands for a container that
/// does not exist.
pub open spec fn container_state_of(s: Seq<char>) -> Option<ContainerState> {
    if s == "created"@ { Some(ContainerState::Created) }
    else if s == "running"@ { Some(ContainerState::Running) }
    else if s == "paused"@ { Some(ContainerState::Paused) }
    else if s == "restarting"@ { Some(ContainerState::Restarting) }
    else if s == "dead"@ { Some(ContainerState::Dead) }
    else if s == "exited"@ { Some(ContainerState::Exited) }
    else if s.len() == 0 { Some(ContainerState::DoesNotExist) }
    else { None }
}

impl ContainerState {
    /// The state named `state` (see [`container_state_of`]).
    pub fn new(state: &str) -> (r: Result<ContainerState, UnknownContainerState>)
        ensures
            match r {
                Ok(s) => container_state_of(state@) == Some(s),
                Err(_) => container_state_of(state@) is None,
            },
    {
        if str_eq(state, "created") { Ok(ContainerState::Created) }
        else if str_eq(state, "running") { Ok(ContainerState::Running) }
        else if str_eq(state, "paused") { Ok(ContainerState::Paused) }
        else if str_eq(state, "restarting") { Ok(ContainerState::Restarting) }
        else if str_eq(state, "dead") { Ok(ContainerState::Dead) }
        else if str_eq(state, "exited") { Ok(ContainerState::Exited) }
        else if state.is_empty() { Ok(ContainerState::DoesNotExist) }
        else { Err(UnknownContainerState) }
    }

    /// Whether the container has stopped: it exited or does not exist.
    pub fn is_stopped(&self) -> (r: bool)
        ensures
            r == (*self == ContainerState::Exited || *self == ContainerState::DoesNotExist),
    {
        matches!(self, ContainerState::Exited | ContainerState::DoesNotExist)
    }

    /// Whether the container exists.
    pub fn is_existing(&self) -> (r: bool)
        ensures
            r == (*self != ContainerState::DoesNotExist),
    {
        !matches!(self, ContainerState::DoesNotExist)
    }
}

/// The volume a container's data lives in: a named volume that is kept, or
/// one that is discarded with the container.
#[derive(Debug, Clone)]
pub enum VolumeId {
    Keep(String),
    Discard,
}

impl VolumeId {
    /// The `--volume` argument that mounts the volume at `mount_prefix`.
    pub fn mount(&self, mount_prefix: &str) -> (r: String)
        ensures
            match *self {
                VolumeId::Keep(id) => r@ == id@ + ":"@ + mount_prefix@,
                VolumeId::Discard => r@ == mount_prefix@,
            },
    {
        match self {
            VolumeId::Keep(id) => {
                let mut r = id.clone();
                r.append(":");
                r.append(mount_prefix);
                r
            },
            VolumeId::Discard => copy_str(mount_prefix),
        }
    }
}

/// The decimal digits of a number.
pub open spec fn decimal_of(n: nat) -> Seq<char>
    decreases n,
{
    if n < 10 {
        seq![(('0' as u32) + n) as char]
    } else {
        decimal_of(n / 10).push((('0' as u32) + (n % 10)) as char)
    }
}

/// The decimal digits of a number.
pub fn decimal(n: u128) -> (r: String)
    ensures
        r@ == decimal_of(n as nat),
    decreases n,
{
    let d: u8 = (n % 10) as u8;
    let c = ('0' as u8 + d) as char;
    if n < 10 {
        let mut r = String::new();
        crate::text::push_char(&mut r, c);
        assert(r@ == seq![c]);
        r
    } else {
        let mut r = decimal(n / 10);
        crate::text::push_char(&mut r, c);
        r
    }
}

/// A path as a path relative to the root: without its leading `/`.
pub open spec fn relative_to_root(p: Seq<char>) -> Option<Seq<char>> {
    if p.len() > 0 && p[0] == '/' {
        Some(p.skip(1))
    } else {
        None
    }
}

/// A directory that is not under the root.
#[derive(Debug, Clone, Copy, PartialEq, Eq, Structural)]
pub struct NotRelativeToRoot;

fn strip_root(p: &str) -> (r: Result<String, NotRelativeToRoot>)
    ensures
        match r {
            Ok(s) => relative_to_root(p@) == Some(s@),
            Err(_) => relative_to_root(p@) is None,
        },
{
    let v = chars_of(p);
    if v.len() > 0 && v[0] == '/' {
        Ok(substring(v.as_slice(), 1, v.len()))
    } else {
        Err(NotRelativeToRoot)
    }
}

/// The name of the volume of a toolchain: the volume prefix, the name of
/// the toolchain's directory, a short hash of that directory and the
/// toolchain's commit hash.
pub open spec fn toolchain_id_of(sysroot: Seq<char>, commit_hash: Seq<char>) -> Seq<char> {
    VOLUME_PREFIX@ + file_name_of(sysroot)->0 + "-"@ + path_hash_of(sysroot, 5) + "-"@ + commit_hash
}

impl QualifiedToolchain {
    /// The name of the volume of this toolchain (see [`toolchain_id_of`]),
    /// for the commit hash of its `rustc`.
    pub fn unique_toolchain_identifier(&self, commit_hash: &str) -> (r: String)
        requires
            file_name_of(self.sysroot@) is Some,
        ensures
            r@ == toolchain_id_of(self.sysroot@, commit_hash@),
    {
        let name = match crate::file::file_name(self.sysroot.as_str()) {
            Some(n) => n,
            None => String::new(),
        };
        let mut r = String::from_str(VOLUME_PREFIX);
        r.append(name.as_str());
        r.append("-");
        r.append(path_hash(self.sysroot.as_str(), PATH_HASH_SHORT).as_str());
        r.append("-");
        r.append(commit_hash);
        r
    }

    /// The name of a container of this toolchain: the toolchain's volume,
    /// the target, a short hash of the current directory and the time in
    /// milliseconds.
    pub fn unique_container_identifier(&self, triple: &TargetTriple, commit_hash: &str, cwd: &str, millis: u128) -> (r: String)
        requires
            file_name_of(self.sysroot@) is Some,
        ensures
            r@ == toolchain_id_of(self.sysroot@, commit_hash@) + "-"@ + triple.spec_triple() + "-"@
                + path_hash_of(cwd@, 5) + "-"@ + decimal_of(millis as nat),
    {
        let mut r = self.unique_toolchain_identifier(commit_hash);
        r.append("-");
        r.append(triple.triple());
        r.append("-");
        r.append(path_hash(cwd, PATH_HASH_SHORT).as_str());
        r.append("-");
        r.append(decimal(millis).as_str());
        r
    }

    /// The name of a mounted volume of this toolchain: the toolchain's
    /// volume and a longer hash of the mounted path.
    pub fn unique_mount_identifier(&self, path: &str, commit_hash: &str) -> (r: String)
        requires
            file_name_of(self.sysroot@) is Some,
        ensures
            r@ == toolchain_id_of(self.sysroot@, commit_hash@) + "-"@ + path_hash_of(path@, 10),
    {
        let mut r = self.unique_toolchain_identifier(commit_hash);
        r.append("-");
        r.append(path_hash(path, PATH_HASH_UNIQUE).as_str());
        r
    }
}

/// The directories of a toolchain, on the host and in the container.
#[derive(Debug)]
pub struct ToolchainDirectories {
    pub cargo: String,
    pub xargo: String,
    pub nix_store: Option<String>,
    pub toolchain: QualifiedToolchain,
    pub cargo_mount_path: String,
    pub xargo_mount_path: String,
    pub sysroot_mount_path: String,
}

impl ToolchainDirectories {
    /// The directories of a toolchain: the cargo and xargo homes (as they
    /// are named, and as they are found on the host through the mounts),
    /// the nix store, and the toolchain's directory.
    pub fn assemble(
        mount_finder: &MountFinder,
        toolchain: QualifiedToolchain,
        cargo: &str,
        xargo: &str,
        cargo_mount_path: String,
        xargo_mount_path: String,
        nix_store: Option<String>,
    ) -> (r: ToolchainDirectories)
        ensures
            r.cargo@ == mount_path_of(mount_finder.mounts@, cargo@),
            r.xargo@ == mount_path_of(mount_finder.mounts@, xargo@),
            r.nix_store == nix_store,
            r.toolchain == toolchain,
            r.cargo_mount_path == cargo_mount_path,
            r.xargo_mount_path == xargo_mount_path,
            r.sysroot_mount_path@ == toolchain.sysroot@,
    {
        let sysroot_mount_path = toolchain.sysroot.clone();
        ToolchainDirectories {
            cargo: mount_finder.find_mount_path(cargo),
            xargo: mount_finder.find_mount_path(xargo),
            nix_store,
            toolchain,
            cargo_mount_path,
            xargo_mount_path,
            sysroot_mount_path,
        }
    }

    pub fn unique_toolchain_identifier(&self, commit_hash: &str) -> (r: String)
        requires
            file_name_of(self.toolchain.sysroot@) is Some,
        ensures
            r@ == toolchain_id_of(self.toolchain.sysroot@, commit_hash@),
    {
        self.toolchain.unique_toolchain_identifier(commit_hash)
    }

    pub fn unique_container_identifier(&self, triple: &TargetTriple, commit_hash: &str, cwd: &str, millis: u128) -> (r: String)
        requires
            file_name_of(self.toolchain.sysroot@) is Some,
        ensures
            r@ == toolchain_id_of(self.toolchain.sysroot@, commit_hash@) + "-"@ + triple.spec_triple() + "-"@
                + path_hash_of(cwd@, 5) + "-"@ + decimal_of(millis as nat),
    {
        self.toolchain.unique_container_identifier(triple, commit_hash, cwd, millis)
    }

    pub fn toolchain(&self) -> (r: &QualifiedToolchain)
        ensures
            *r == self.toolchain,
    {
        &self.toolchain
    }

    pub fn get_sysroot(&self) -> (r: &str)
        ensures
            r@ == self.toolchain.sysroot@,
    {
        self.toolchain.get_sysroot()
    }

    pub fn host_target(&self) -> (r: &TargetTriple)
        ensures
            *r == self.toolchain.host.target,
    {
        &self.toolchain.host().target
    }

    pub fn cargo(&self) -> (r: &str)
        ensures
            r@ == self.cargo@,
    {
        self.cargo.as_str()
    }

    pub fn cargo_host_path(&self) -> (r: &str)
        ensures
            r@ == self.cargo@,
    {
        self.cargo.as_str()
    }

    pub fn cargo_mount_path(&self) -> (r: &str)
        ensures
            r@ == self.cargo_mount_path@,
    {
        self.cargo_mount_path.as_str()
    }

    pub fn xargo(&self) -> (r: &str)
        ensures
            r@ == self.xargo@,
    {
        self.xargo.as_str()
    }

    pub fn xargo_host_path(&self) -> (r: &str)
        ensures
            r@ == self.xargo@,
    {
        self.xargo.as_str()
    }

    pub fn xargo_mount_path(&self) -> (r: &str)
        ensures
            r@ == self.xargo_mount_path@,
    {
        self.xargo_mount_path.as_str()
    }

    pub fn sysroot_mount_path(&self) -> (r: &str)
        ensures
            r@ == self.sysroot_mount_path@,
    {
        self.sysroot_mount_path.as_str()
    }

    pub fn nix_store(&self) -> (r: Option<&String>)
        ensures
            match r {
                Some(s) => self.nix_store == Some(*s),
                None => self.nix_store is None,
            },
    {
        self.nix_store.as_ref()
    }

    /// The cargo home in the container, relative to the root.
    pub fn cargo_mount_path_relative(&self) -> (r: Result<String, NotRelativeToRoot>)
        ensures
            match r {
                Ok(s) => relative_to_root(self.cargo_mount_path@) == Some(s@),
                Err(_) => relative_to_root(self.cargo_mount_path@) is None,
            },
    {
        strip_root(self.cargo_mount_path.as_str())
    }

    /// The xargo home in the container, relative to the root.
    pub fn xargo_mount_path_relative(&self) -> (r: Result<String, NotRelativeToRoot>)
        ensures
            match r {
                Ok(s) => relative_to_root(self.xargo_mount_path@) == Some(s@),
                Err(_) => relative_to_root(self.xargo_mount_path@) is None,
            },
    {
        strip_root(self.xargo_mount_path.as_str())
    }

    /// The toolchain's directory in the container, relative to the root.
    pub fn sysroot_mount_path_relative(&self) -> (r: Result<String, NotRelativeToRoot>)
        ensures
            match r {
                Ok(s) => relative_to_root(self.sysroot_mount_path@) == Some(s@),
                Err(_) => relative_to_root(self.sysroot_mount_path@) is None,
            },
    {
        strip_root(self.sysroot_mount_path.as_str())
    }
}

/// The directories of a package, on the host and in the container.
#[derive(Debug)]
pub struct PackageDirectories {
    pub target: String,
    pub host_root: String,
    pub mount_root: String,
    pub mount_cwd: String,
}

/// The directory that is mounted for a package: the current directory if
/// the workspace lies under it, else the workspace root.
pub open spec fn host_root_of(workspace_root: Seq<char>, cwd: Seq<char>) -> Seq<char> {
    if strip_components(workspace_root, cwd) is Some {
        cwd
    } else {
        workspace_root
    }
}

impl PackageDirectories {
    /// The directories of a package: its target directory as it is found on
    /// the host through the mounts, and the directory that is mounted.
    pub fn assemble(mount_finder: &MountFinder, metadata: CargoMetadata, cwd: &str) -> (r: (PackageDirectories, CargoMetadata))
        ensures
            r.0.target@ == mount_path_of(mount_finder.mounts@, metadata.target_directory@),
            r.0.host_root@ == host_root_of(metadata.workspace_root@, cwd@),
            r.0.mount_root@ == host_root_of(metadata.workspace_root@, cwd@),
            r.0.mount_cwd@ == cwd@,
            r.1 == metadata,
    {
        let host_root = match strip_prefix(metadata.workspace_root.as_str(), cwd) {
            Some(_) => copy_str(cwd),
            None => metadata.workspace_root.clone(),
        };
        let mount_root = host_root.clone();
        let target = mount_finder.find_mount_path(metadata.target_directory.as_str());
        (PackageDirectories { target, host_root, mount_root, mount_cwd: copy_str(cwd) }, metadata)
    }

    pub fn target(&self) -> (r: &str)
        ensures
            r@ == self.target@,
    {
        self.target.as_str()
    }

    pub fn host_root(&self) -> (r: &str)
        ensures
            r@ == self.host_root@,
    {
        self.host_root.as_str()
    }

    pub fn mount_root(&self) -> (r: &str)
        ensures
            r@ == self.mount_root@,
    {
        self.mount_root.as_str()
    }

    pub fn mount_cwd(&self) -> (r: &str)
        ensures
            r@ == self.mount_cwd@,
    {
        self.mount_cwd.as_str()
    }
}

/// The directories of a toolchain and a package.
#[derive(Debug)]
pub struct Directories {
    pub toolchain: ToolchainDirectories,
    pub package: PackageDirectories,
}

impl Directories {
    /// The directories of a package and of the toolchain it is built with.
    pub fn assemble(mount_finder: &MountFinder, metadata: CargoMetadata, cwd: &str, toolchain: ToolchainDirectories) -> (r: (Directories, CargoMetadata))
        ensures
            r.0.toolchain == toolchain,
            r.0.package.target@ == mount_path_of(mount_finder.mounts@, metadata.target_directory@),
            r.0.package.host_root@ == host_root_of(metadata.workspace_root@, cwd@),
            r.0.package.mount_root@ == host_root_of(metadata.workspace_root@, cwd@),
            r.0.package.mount_cwd@ == cwd@,
            r.1 == metadata,
    {
        let (package, metadata) = PackageDirectories::assemble(mount_finder, metadata, cwd);
        (Directories { toolchain, package }, metadata)
    }

    pub fn toolchain_directories(&self) -> (r: &ToolchainDirectories)
        ensures
            *r == self.toolchain,
    {
        &self.toolchain
    }

    pub fn package_directories(&self) -> (r: &PackageDirectories)
        ensures
            *r == self.package,
    {
        &self.package
    }
}

/// The paths of a build in a container: the mounts, the project, the
/// current directory and the directories.
#[derive(Debug)]
pub struct DockerPaths {
    pub mount_finder: MountFinder,
    pub metadata: CargoMetadata,
    pub cwd: String,
    pub directories: Directories,
}

impl DockerPaths {
    /// The paths of a build in the current directory `cwd`.
    pub fn create(mount_finder: MountFinder, metadata: CargoMetadata, cwd: String, toolchain: ToolchainDirectories) -> (r: DockerPaths)
        ensures
            r.mount_finder == mount_finder,
            r.metadata == metadata,
            r.cwd == cwd,
            r.directories.toolchain == toolchain,
            r.directories.package.target@ == mount_path_of(mount_finder.mounts@, metadata.target_directory@),
            r.directories.package.host_root@ == host_root_of(metadata.workspace_root@, cwd@),
            r.directories.package.mount_cwd@ == cwd@,
    {
        let (directories, metadata) = Directories::assemble(&mount_finder, metadata, cwd.as_str(), toolchain);
        DockerPaths { mount_finder, metadata, cwd, directories }
    }

    pub fn get_sysroot(&self) -> (r: &str)
        ensures
            r@ == self.directories.toolchain.toolchain.sysroot@,
    {
        self.directories.toolchain_directories().get_sysroot()
    }

    pub fn workspace_root(&self) -> (r: &str)
        ensures
            r@ == self.metadata.workspace_root@,
    {
        self.metadata.workspace_root.as_str()
    }

    /// The directories of the path dependencies outside the workspace.
    pub fn workspace_dependencies(&self) -> (r: Vec<String>)
        ensures
            views(r@) == crate::cargo::path_dependencies_of(self.metadata.packages@, views(self.metadata.workspace_members@)),
    {
        self.metadata.path_dependencies()
    }

    /// The current directory relative to the workspace root, if it lies in
    /// the workspace.
    pub fn workspace_from_cwd(&self) -> (r: Option<String>)
        ensures
            match r {
                Some(s) => strip_components(self.cwd@, self.metadata.workspace_root@) == Some(s@),
                None => strip_components(self.cwd@, self.metadata.workspace_root@) is None,
            },
    {
        strip_prefix(self.cwd.as_str(), self.metadata.workspace_root.as_str())
    }

    /// Whether the current directory lies in the workspace.
    pub fn in_workspace(&self) -> (r: bool)
        ensures
            r == strip_components(self.cwd@, self.metadata.workspace_root@) is Some,
    {
        self.workspace_from_cwd().is_some()
    }

    pub fn mount_cwd(&self) -> (r: &str)
        ensures
            r@ == self.directories.package.mount_cwd@,
    {
        self.directories.package_directories().mount_cwd()
    }

    pub fn host_root(&self) -> (r: &str)
        ensures
            r@ == self.directories.package.host_root@,
    {
        self.directories.package_directories().host_root()
    }
}


/// Why no image could be chosen for a target.
#[derive(Debug)]
pub enum GetImageError {
    /// `cross` provides no image for the target (its name); an image has to
    /// be given in `Cross.toml`.
    NoCompatibleImages(String),
    /// The provided image (its name) lists no platform.
    SpecifiedImageNoPlatform(String),
    /// `cross` provides several images for the target (its name, then the
    /// names of the candidates) and none can be chosen; a toolchain has to
    /// be given in `Cross.toml`.
    MultipleImages(String, Vec<String>),
    /// The image that the configuration gives could not be read.
    Other(PlatformError),
}

/// The name under which images for `target` are found: `zig` for zig
/// builds, else the target's triple.
pub open spec fn target_name_of(target: Target, uses_zig: bool) -> Seq<char> {
    if uses_zig {
        "zig"@
    } else {
        target.spec_triple()
    }
}

fn get_target_name(target: &Target, uses_zig: bool) -> (r: &str)
    ensures
        r@ == target_name_of(*target, uses_zig),
{
    if uses_zig {
        let r = "zig";
        proof {
            reveal_strlit("zig");
        }
        r
    } else {
        target.triple()
    }
}

/// What the configuration says of the image: [`Config::zig_image`] for zig
/// builds, else [`Config::image`].
pub open spec fn user_image_rel(
    config: Config,
    target: Target,
    uses_zig: bool,
    r: Result<Option<PossibleImage>, PlatformError>,
) -> bool {
    if uses_zig {
        config.zig_image_rel(target, r)
    } else {
        config.image_rel(target, r)
    }
}

/// The full name of a reference, as [`ImageReference::ensure_qualified`]
/// makes it.
pub open spec fn qualified_name(r: ImageReference, target_name: Seq<char>) -> Seq<char> {
    match r {
        ImageReference::Name(s) => s@,
        ImageReference::Identifier(s) => CROSS_IMAGE@ + "/"@ + target_name + s@,
        ImageReference::Subtarget(s) => CROSS_IMAGE@ + "/"@ + target_name + ":"@ + DEFAULT_IMAGE_VERSION@ + s@,
    }
}

/// `p` is the image that the configuration gives, made fully qualified.
pub open spec fn is_user_image(config: Config, target: Target, uses_zig: bool, p: PossibleImage) -> bool {
    &&& p.reference is Name
    &&& exists|q: PossibleImage|
        #[trigger] user_image_rel(config, target, uses_zig, Ok(Some(q)))
            && p.reference.spec_get() == qualified_name(q.reference, target_name_of(target, uses_zig))
            && p.toolchain@ == q.toolchain@
}

fn get_user_image(config: &Config, target: &Target, uses_zig: bool) -> (r: Result<Option<PossibleImage>, GetImageError>)
    ensures
        match r {
            Ok(None) => user_image_rel(*config, *target, uses_zig, Ok(None)),
            Ok(Some(p)) => is_user_image(*config, *target, uses_zig, p),
            Err(GetImageError::Other(e)) => user_image_rel(*config, *target, uses_zig, Err(e)),
            Err(_) => false,
        },
{
    let found = if uses_zig {
        config.zig_image(target)
    } else {
        config.image(target)
    };
    match found {
        Err(e) => Err(GetImageError::Other(e)),
        Ok(None) => Ok(None),
        Ok(Some(image)) => {
            let ghost q = image;
            let mut image = image;
            let target_name = get_target_name(target, uses_zig);
            image.reference.ensure_qualified(target_name);
            assert(user_image_rel(*config, *target, uses_zig, Ok(Some(q))));
            Ok(Some(image))
        },
    }
}

/// An entry of the table of provided images: a name and a sub-target.
pub open spec fn named(name: Seq<char>) -> spec_fn((Seq<char>, Option<Seq<char>>)) -> bool {
    |p: (Seq<char>, Option<Seq<char>>)| p.0 == name
}

/// Whether an entry is no sub-target.
pub open spec fn is_main(p: (Seq<char>, Option<Seq<char>>)) -> bool {
    p.1 is None
}

/// The provided images for a target name, in the table's order.
pub open spec fn compatible_images(name: Seq<char>) -> Seq<(Seq<char>, Option<Seq<char>>)> {
    provided_table().filter(named(name))
}

/// Those of `c` that are no sub-target.
pub open spec fn main_images(c: Seq<(Seq<char>, Option<Seq<char>>)>) -> Seq<(Seq<char>, Option<Seq<char>>)> {
    c.filter(|p: (Seq<char>, Option<Seq<char>>)| is_main(p))
}

/// The provided image chosen for a target name: the only one, else the
/// only one that is no sub-target.
pub open spec fn provided_pick(name: Seq<char>) -> Option<(Seq<char>, Option<Seq<char>>)> {
    let c = compatible_images(name);
    if c.len() == 1 {
        Some(c[0])
    } else if main_images(c).len() == 1 {
        Some(main_images(c)[0])
    } else {
        None
    }
}

/// The name of a provided image in the repository of `cross`.
pub open spec fn default_name_of(p: (Seq<char>, Option<Seq<char>>)) -> Seq<char> {
    image_name_of(p.0, p.1, CROSS_IMAGE@, DEFAULT_IMAGE_VERSION@)
}

/// The positions in `images` of those named `target_name`, in order; an
/// error where there is none.
fn get_provided_images_for_target(images: &Vec<ProvidedImage>, target_name: &str) -> (r: Result<Vec<usize>, GetImageError>)
    ensures
        match r {
            Ok(ix) => {
                &&& ix@.len() > 0
                &&& forall|k: int| 0 <= k < ix@.len() ==> #[trigger] ix@[k] < images@.len()
                &&& ix@.map_values(|k: usize| provided_view(images@)[k as int]) == provided_view(images@).filter(named(target_name@))
            },
            Err(GetImageError::NoCompatibleImages(n)) => n@ == target_name@
                && provided_view(images@).filter(named(target_name@)).len() == 0,
            Err(_) => false,
        },
{
    let ghost all = provided_view(images@);
    let mut ix: Vec<usize> = Vec::new();
    let mut i: usize = 0;
    while i < images.len()
        invariant
            i <= images@.len(),
            all == provided_view(images@),
            forall|k: int| 0 <= k < ix@.len() ==> #[trigger] ix@[k] < i,
            ix@.map_values(|k: usize| all[k as int]) == all.take(i as int).filter(named(target_name@)),
        decreases images@.len() - i,
    {
        proof {
            assert(all.take(i + 1) =~= all.take(i as int).push(all[i as int]));
            all.take(i as int).lemma_filter_push(all[i as int], named(target_name@));
        }
        if str_eq(images[i].name, target_name) {
            ix.push(i);
            assert(ix@.map_values(|k: usize| all[k as int]) =~= all.take(i as int).filter(named(target_name@)).push(all[i as int]));
        } else {
            assert(!named(target_name@)(all[i as int]));
        }
        i += 1;
    }
    assert(all.take(i as int) =~= all);
    if ix.len() == 0 {
        return Err(GetImageError::NoCompatibleImages(copy_str(target_name)));
    }
    Ok(ix)
}

/// The images given for a target's name come out of
/// [`get_provided_images_for_target`]; `main` are those of them that are no
/// sub-target.
fn main_positions(images: &Vec<ProvidedImage>, compat: &Vec<usize>) -> (main: Vec<usize>)
    requires
        forall|k: int| 0 <= k < compat@.len() ==> #[trigger] compat@[k] < images@.len(),
    ensures
        forall|k: int| 0 <= k < main@.len() ==> #[trigger] main@[k] < images@.len(),
        main@.map_values(|k: usize| provided_view(images@)[k as int])
            == main_images(compat@.map_values(|k: usize| provided_view(images@)[k as int])),
{
    let ghost all = provided_view(images@);
    let ghost c = compat@.map_values(|k: usize| all[k as int]);
    let mut main: Vec<usize> = Vec::new();
    let mut j: usize = 0;
    while j < compat.len()
        invariant
            j <= compat@.len(),
            all == provided_view(images@),
            c == compat@.map_values(|k: usize| all[k as int]),
            forall|k: int| 0 <= k < compat@.len() ==> #[trigger] compat@[k] < images@.len(),
            forall|k: int| 0 <= k < main@.len() ==> #[trigger] main@[k] < images@.len(),
            main@.map_values(|k: usize| all[k as int]) == main_images(c.take(j as int)),
        decreases compat@.len() - j,
    {
        proof {
            assert(c.take(j + 1) =~= c.take(j as int).push(c[j as int]));
            c.take(j as int).lemma_filter_push(c[j as int], |p: (Seq<char>, Option<Seq<char>>)| is_main(p));
        }
        let k = compat[j];
        assert(c[j as int] == all[k as int]);
        if images[k].sub.is_none() {
            main.push(k);
            assert(main@.map_values(|k: usize| all[k as int]) =~= main_images(c.take(j as int)).push(all[k as int]));
        }
        j += 1;
    }
    assert(c.take(j as int) =~= c);
    main
}

/// The names of the images at `positions` in the repository of `cross`.
fn candidate_names(images: &Vec<ProvidedImage>, positions: &Vec<usize>) -> (r: Vec<String>)
    requires
        forall|k: int| 0 <= k < positions@.len() ==> #[trigger] positions@[k] < images@.len(),
    ensures
        r@.map_values(|s: String| s@)
            == positions@.map_values(|k: usize| provided_view(images@)[k as int]).map_values(
                |p: (Seq<char>, Option<Seq<char>>)| default_name_of(p)),
{
    let ghost all = provided_view(images@);
    let mut r: Vec<String> = Vec::new();
    let mut j: usize = 0;
    while j < positions.len()
        invariant
            j <= positions@.len(),
            all == provided_view(images@),
            forall|k: int| 0 <= k < positions@.len() ==> #[trigger] positions@[k] < images@.len(),
            r@.len() == j,
            forall|k: int| 0 <= k < j ==> (#[trigger] r@[k])@ == default_name_of(all[positions@[k] as int]),
        decreases positions@.len() - j,
    {
        let n = images[positions[j]].default_image_name();
        r.push(n);
        j += 1;
    }
    assert(r@.map_values(|s: String| s@) =~= positions@.map_values(|k: usize| all[k as int]).map_values(
        |p: (Seq<char>, Option<Seq<char>>)| default_name_of(p)));
    r
}

/// The position of the provided image chosen for `target_name` (see
/// [`provided_pick`]).
fn pick_provided(images: &Vec<ProvidedImage>, target_name: &str) -> (r: Result<usize, GetImageError>)
    requires
        provided_view(images@) == provided_table(),
    ensures
        match r {
            Ok(k) => k < images@.len() && provided_pick(target_name@) == Some(provided_view(images@)[k as int]),
            Err(GetImageError::NoCompatibleImages(n)) => n@ == target_name@
                && compatible_images(target_name@).len() == 0,
            Err(GetImageError::MultipleImages(n, cands)) => n@ == target_name@
                && provided_pick(target_name@) is None
                && compatible_images(target_name@).len() > 0
                && cands@.map_values(|s: String| s@) == compatible_images(target_name@).map_values(
                    |p: (Seq<char>, Option<Seq<char>>)| default_name_of(p)),
            Err(_) => false,
        },
{
    let compat = match get_provided_images_for_target(images, target_name) {
        Ok(c) => c,
        Err(e) => return Err(e),
    };
    let ghost c = compat@.map_values(|k: usize| provided_view(images@)[k as int]);
    assert(c == compatible_images(target_name@));
    if compat.len() == 1 {
        return Ok(compat[0]);
    }
    let main = main_positions(images, &compat);
    if main.len() == 1 {
        assert(main_images(c)[0] == provided_view(images@)[main@[0] as int]);
        return Ok(main[0]);
    }
    let cands = candidate_names(images, &compat);
    Err(GetImageError::MultipleImages(copy_str(target_name), cands))
}

/// The provided image for a pick: its name, and its one platform, the
/// default one.
pub open spec fn provided_image_rel(pick: (Seq<char>, Option<Seq<char>>), p: PossibleImage) -> bool {
    &&& p.reference.spec_get() == default_name_of(pick)
    &&& p.reference.spec_kind() == reference_kind(default_name_of(pick))
    &&& p.toolchain@.len() == 1
    &&& p.toolchain@[0].target == TargetTriple::X86_64UnknownLinuxGnu
    &&& p.toolchain@[0].spec_parts() == (Architecture::Amd64, Os::Linux, None::<Seq<char>>)
}

/// The name of the image for `target`: the configuration's (see
/// [`is_user_image`]), else that of the provided image for it.
pub fn get_image_name(config: &Config, target: &Target, uses_zig: bool) -> (r: Result<String, GetImageError>)
    ensures
        match r {
            Ok(n) => (exists|p: PossibleImage| is_user_image(*config, *target, uses_zig, p)
                    && n@ == #[trigger] p.reference.spec_get())
                || (user_image_rel(*config, *target, uses_zig, Ok(None))
                    && compatible_images(target_name_of(*target, uses_zig)).len() > 0
                    && n@ == default_name_of(compatible_images(target_name_of(*target, uses_zig))[0])),
            Err(GetImageError::Other(e)) => user_image_rel(*config, *target, uses_zig, Err(e)),
            Err(GetImageError::NoCompatibleImages(n)) => user_image_rel(*config, *target, uses_zig, Ok(None))
                && n@ == target_name_of(*target, uses_zig)
                && compatible_images(target_name_of(*target, uses_zig)).len() == 0,
            Err(_) => false,
        },
{
    match get_user_image(config, target, uses_zig) {
        Err(e) => return Err(e),
        Ok(Some(image)) => {
            let n = image.reference.get();
            let r = copy_str(n);
            assert(is_user_image(*config, *target, uses_zig, image) && r@ == image.reference.spec_get());
            return Ok(r);
        },
        Ok(None) => {},
    }
    let target_name = get_target_name(target, uses_zig);
    let images = provided_images();
    let compat = match get_provided_images_for_target(&images, target_name) {
        Ok(c) => c,
        Err(e) => return Err(e),
    };
    let ghost c = compat@.map_values(|k: usize| provided_view(images@)[k as int]);
    assert(c[0] == provided_view(images@)[compat@[0] as int]);
    Ok(images[compat[0]].default_image_name())
}

/// The image for `target`: the configuration's (see [`is_user_image`]),
/// else the provided one (see [`provided_pick`] and
/// [`provided_image_rel`]); the errors say which of those failed.
pub open spec fn image_choice_rel(
    config: Config,
    target: Target,
    uses_zig: bool,
    r: Result<PossibleImage, GetImageError>,
) -> bool {
    match r {
        Ok(p) => is_user_image(config, target, uses_zig, p)
            || (user_image_rel(config, target, uses_zig, Ok(None))
                && provided_pick(target_name_of(target, uses_zig)) is Some
                && provided_image_rel(provided_pick(target_name_of(target, uses_zig))->0, p)),
        Err(GetImageError::Other(e)) => user_image_rel(config, target, uses_zig, Err(e)),
        Err(GetImageError::NoCompatibleImages(n)) => user_image_rel(config, target, uses_zig, Ok(None))
            && n@ == target_name_of(target, uses_zig)
            && compatible_images(target_name_of(target, uses_zig)).len() == 0,
        Err(GetImageError::MultipleImages(n, cands)) => user_image_rel(config, target, uses_zig, Ok(None))
            && n@ == target_name_of(target, uses_zig)
            && provided_pick(target_name_of(target, uses_zig)) is None
            && compatible_images(target_name_of(target, uses_zig)).len() > 0
            && cands@.map_values(|s: String| s@) == compatible_images(target_name_of(target, uses_zig)).map_values(
                |p: (Seq<char>, Option<Seq<char>>)| default_name_of(p)),
        Err(GetImageError::SpecifiedImageNoPlatform(_)) => false,
    }
}

/// An image that the configuration gives for the target is always the one
/// chosen, qualified, whatever `cross` provides.
pub proof fn configured_image_wins(
    config: Config,
    target: Target,
    uses_zig: bool,
    q: PossibleImage,
    r: Result<PossibleImage, GetImageError>,
)
    requires
        user_image_rel(config, target, uses_zig, Ok(Some(q))),
        image_choice_rel(config, target, uses_zig, r),
    ensures
        r is Ok,
        is_user_image(config, target, uses_zig, r->Ok_0),
{
    assert(!user_image_rel(config, target, uses_zig, Ok(None)));
    match r {
        Err(GetImageError::Other(e)) => {
            assert(user_image_rel(config, target, uses_zig, Err(e)));
        },
        _ => {},
    }
}

/// The image for `target`: the configuration's (see [`is_user_image`]),
/// else the provided one (see [`provided_pick`] and
/// [`provided_image_rel`]).
pub fn get_image(config: &Config, target: &Target, uses_zig: bool) -> (r: Result<PossibleImage, GetImageError>)
    ensures
        image_choice_rel(*config, *target, uses_zig, r),
{
    match get_user_image(config, target, uses_zig) {
        Err(e) => return Err(e),
        Ok(Some(image)) => return Ok(image),
        Ok(None) => {},
    }
    let target_name = get_target_name(target, uses_zig);
    let images = provided_images();
    let k = match pick_provided(&images, target_name) {
        Ok(k) => k,
        Err(e) => return Err(e),
    };
    let pick = &images[k];
    let image_name = pick.default_image_name();
    if pick.platforms.len() == 0 {
        assert(on_default_platform(images@) && images@[k as int] == *pick);
        return Err(GetImageError::SpecifiedImageNoPlatform(image_name));
    }
    let mut toolchain: Vec<ImagePlatform> = Vec::new();
    let mut i: usize = 0;
    while i < pick.platforms.len()
        invariant
            i <= pick.platforms@.len(),
            toolchain@ == pick.platforms@.take(i as int),
        decreases pick.platforms@.len() - i,
    {
        toolchain.push(pick.platforms[i].duplicate());
        assert(toolchain@ =~= pick.platforms@.take(i + 1));
        i += 1;
    }
    assert(toolchain@ =~= pick.platforms@);
    assert(on_default_platform(images@) && images@[k as int] == *pick);
    let reference = ImageReference::from_string(image_name);
    Ok(PossibleImage { reference, toolchain })
}

/// A variable that may not be passed to the container.
#[derive(Debug, Clone, Copy, PartialEq, Eq, Structural)]
pub enum EnvVarError {
    /// `CROSS_RUNNER` is reserved for `cross`.
    Reserved,
}

/// A character of a valid variable name.
pub open spec fn is_var_name_char(c: char) -> bool {
    ('a' <= c && c <= 'z') || ('A' <= c && c <= 'Z') || c == '_' || ('0' <= c && c <= '9')
}

/// A valid variable name.
pub open spec fn is_var_name(s: Seq<char>) -> bool {
    forall|i: int| 0 <= i < s.len() ==> #[trigger] is_var_name_char(s[i])
}

/// A variable to pass to the container, `KEY` or `KEY=value`: its key and
/// its value. A bare key that is no valid variable name is warned about,
/// once (`warned` records that it was); `CROSS_RUNNER` cannot be passed.
pub fn validate_env_var(var: &str, warned: &mut bool, msg_info: &mut MessageInfo) -> (r: Result<(String, Option<String>), EnvVarError>)
    ensures
        ({
            let key = match first_index(var@, '=') { Some(i) => var@.take(i), None => var@ };
            let value = match first_index(var@, '=') { Some(i) => Some(var@.skip(i + 1)), None => None::<Seq<char>> };
            let warn = value is None && !*old(warned) && !is_var_name(var@);
            &&& *final(warned) == (*old(warned) || warn)
            &&& *final(msg_info) == (if warn { MessageInfo { has_warned: true, ..*old(msg_info) } } else { *old(msg_info) })
            &&& match r {
                Ok((k, v)) => key != "CROSS_RUNNER"@ && k@ == key && match v {
                    Some(x) => value == Some(x@),
                    None => value is None,
                },
                Err(e) => key == "CROSS_RUNNER"@ && e == EnvVarError::Reserved,
            }
        }),
{
    let v = chars_of(var);
    let (key, value) = match chars_find(v.as_slice(), '=') {
        Some(i) => (substring(v.as_slice(), 0, i), Some(substring(v.as_slice(), i + 1, v.len()))),
        None => (copy_str(var), None),
    };
    if value.is_none() && !*warned {
        let mut valid = true;
        let mut j: usize = 0;
        while j < v.len()
            invariant
                j <= v@.len(),
                v@ == var@,
                valid == (forall|k: int| 0 <= k < j ==> #[trigger] is_var_name_char(v@[k])),
            decreases v@.len() - j,
        {
            let c = v[j];
            let ok = ('a' <= c && c <= 'z') || ('A' <= c && c <= 'Z') || c == '_' || ('0' <= c && c <= '9');
            if !ok {
                assert(!is_var_name_char(v@[j as int]));
            }
            valid = valid && ok;
            j += 1;
        }
        if !valid {
            msg_info.warn();
            *warned = true;
        }
    }
    if str_eq(key.as_str(), "CROSS_RUNNER") {
        return Err(EnvVarError::Reserved);
    }
    Ok((key, value))
}

/// Variables of the host passed to the container as they are.
pub open spec fn is_passed_var(key: Seq<char>) -> bool {
    let other = key == "http_proxy"@ || key == "TERM"@ || key == "RUSTDOCFLAGS"@ || key == "RUSTFLAGS"@
        || key == "BROWSER"@ || key == "HTTPS_PROXY"@ || key == "HTTP_TIMEOUT"@ || key == "https_proxy"@
        || key == "QEMU_STRACE"@;
    let cargo_skip = key == "CARGO_HOME"@ || key == "CARGO_TARGET_DIR"@ || key == "CARGO_BUILD_TARGET_DIR"@
        || key == "CARGO_BUILD_RUSTC"@ || key == "CARGO_BUILD_RUSTC_WRAPPER"@
        || key == "CARGO_BUILD_RUSTC_WORKSPACE_WRAPPER"@ || key == "CARGO_BUILD_RUSTDOC"@;
    let cross_skip = key == "CROSS_RUNNER"@ || key == "CROSS_RUSTC_MAJOR_VERSION"@
        || key == "CROSS_RUSTC_MINOR_VERSION"@ || key == "CROSS_RUSTC_PATCH_VERSION"@;
    other || (has_prefix(key, "CARGO_"@) && !cargo_skip) || (has_prefix(key, "CROSS_"@) && !cross_skip)
}

/// Whether a variable of the host configures cargo or `cross` (or a proxy,
/// the terminal or the flags of rustc) and is passed to the container.
pub fn is_passthrough(key: &str) -> (r: bool)
    ensures
        r == is_passed_var(key@),
{
    let other = str_eq(key, "http_proxy") || str_eq(key, "TERM") || str_eq(key, "RUSTDOCFLAGS")
        || str_eq(key, "RUSTFLAGS") || str_eq(key, "BROWSER") || str_eq(key, "HTTPS_PROXY")
        || str_eq(key, "HTTP_TIMEOUT") || str_eq(key, "https_proxy") || str_eq(key, "QEMU_STRACE");
    let cargo_skip = str_eq(key, "CARGO_HOME") || str_eq(key, "CARGO_TARGET_DIR")
        || str_eq(key, "CARGO_BUILD_TARGET_DIR") || str_eq(key, "CARGO_BUILD_RUSTC")
        || str_eq(key, "CARGO_BUILD_RUSTC_WRAPPER") || str_eq(key, "CARGO_BUILD_RUSTC_WORKSPACE_WRAPPER")
        || str_eq(key, "CARGO_BUILD_RUSTDOC");
    let cross_skip = str_eq(key, "CROSS_RUNNER") || str_eq(key, "CROSS_RUSTC_MAJOR_VERSION")
        || str_eq(key, "CROSS_RUSTC_MINOR_VERSION") || str_eq(key, "CROSS_RUSTC_PATCH_VERSION");
    other || (starts_with(key, "CARGO_") && !cargo_skip) || (starts_with(key, "CROSS_") && !cross_skip)
}

/// The variables that configure the tools in the container are passed to
/// it: the proxies, the terminal, the flags of rustc and rustdoc, the
/// browser, the HTTP timeout and `QEMU_STRACE`; a `CROSS_` variable such
/// as `CROSS_DEBUG`, but not `CROSS_RUNNER`, which `cross` sets itself;
/// not `HOME` or `PATH`.
pub proof fn configuration_vars_passed(key: Seq<char>)
    ensures
        key == "http_proxy"@ ==> is_passed_var(key),
        key == "TERM"@ ==> is_passed_var(key),
        key == "RUSTDOCFLAGS"@ ==> is_passed_var(key),
        key == "RUSTFLAGS"@ ==> is_passed_var(key),
        key == "BROWSER"@ ==> is_passed_var(key),
        key == "HTTPS_PROXY"@ ==> is_passed_var(key),
        key == "HTTP_TIMEOUT"@ ==> is_passed_var(key),
        key == "https_proxy"@ ==> is_passed_var(key),
        key == "QEMU_STRACE"@ ==> is_passed_var(key),
        key == "CROSS_DEBUG"@ ==> is_passed_var(key),
        key == "CROSS_RUNNER"@ ==> !is_passed_var(key),
        key == "HOME"@ ==> !is_passed_var(key),
        key == "PATH"@ ==> !is_passed_var(key),
{
    reveal_strlit("http_proxy");
    reveal_strlit("TERM");
    reveal_strlit("RUSTDOCFLAGS");
    reveal_strlit("RUSTFLAGS");
    reveal_strlit("BROWSER");
    reveal_strlit("HTTPS_PROXY");
    reveal_strlit("HTTP_TIMEOUT");
    reveal_strlit("https_proxy");
    reveal_strlit("QEMU_STRACE");
    reveal_strlit("CROSS_DEBUG");
    reveal_strlit("CARGO_");
    reveal_strlit("CROSS_");
    reveal_strlit("CARGO_HOME");
    reveal_strlit("CARGO_TARGET_DIR");
    reveal_strlit("CARGO_BUILD_TARGET_DIR");
    reveal_strlit("CARGO_BUILD_RUSTC");
    reveal_strlit("CARGO_BUILD_RUSTC_WRAPPER");
    reveal_strlit("CARGO_BUILD_RUSTC_WORKSPACE_WRAPPER");
    reveal_strlit("CARGO_BUILD_RUSTDOC");
    reveal_strlit("CROSS_RUNNER");
    reveal_strlit("CROSS_RUSTC_MAJOR_VERSION");
    reveal_strlit("CROSS_RUSTC_MINOR_VERSION");
    reveal_strlit("CROSS_RUSTC_PATCH_VERSION");
    reveal_strlit("HOME");
    reveal_strlit("PATH");
    if key == "CROSS_DEBUG"@ {
        assert(key.subrange(0, 6) =~= "CROSS_"@);
    }
    if key == "HOME"@ || key == "PATH"@ {
        assert(key.len() == 4 && "TERM"@[0] == 'T' && key[0] != 'T');
    }
    if key == "CROSS_RUNNER"@ {
        assert(key[0] == 'C' && "RUSTDOCFLAGS"@[0] == 'R' && "HTTP_TIMEOUT"@[0] == 'H');
        assert(key.subrange(0, 6)[1] == 'R' && "CARGO_"@[1] == 'A');
    }
}

} // verus!
