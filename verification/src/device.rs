//! The interceptor's view of GPU device files: which paths it takes over,
//! the registry of file descriptors it tracks (including aliases made by
//! `dup`), and the decisions each intercepted syscall makes for a tracked
//! descriptor.

use vstd::prelude::*;

use crate::schema::{DeviceClass, FakeStat, Topology};
use crate::protocol::str_eq;
use crate::text::{copy_bytes, parse_i32, spec_parse_i32, spec_starts_with, starts_with, strip_prefix};

verus! {

/// Path of the KFD char device.
pub const KFD_PATH: &'static str = "/dev/kfd";
/// Prefix of DRM render node files.
pub const DRI_RENDER_PREFIX: &'static str = "/dev/dri/renderD";
/// Render node reported for descriptors registered without a path.
pub const DEFAULT_RENDER_PATH: &'static str = "/dev/dri/renderD128";
/// Sysfs topology prefix the interceptor recognises.
pub const SYSFS_TOPO_PREFIX: &'static str = "/sys/class/kfd/kfd/topology/";
/// Alternative sysfs topology prefix that hsakmt reads from.
pub const SYSFS_TOPO_PREFIX_ALT: &'static str = "/sys/devices/virtual/kfd/kfd/topology/";
/// Directory under which `/proc` lists a process's descriptors.
pub const PROC_SELF_FD_PREFIX: &'static str = "/proc/self/fd/";

/// Device class a tracked fd refers to.
#[derive(Debug, Clone, Copy, PartialEq, Eq, Structural)]
pub enum DeviceKind {
    Kfd,
    DrmRender,
}

/// The class of device, if any, that `path` names.
pub open spec fn spec_classify(path: Seq<char>) -> Option<DeviceKind> {
    if path == KFD_PATH@ {
        Some(DeviceKind::Kfd)
    } else if spec_starts_with(path, DRI_RENDER_PREFIX@) {
        Some(DeviceKind::DrmRender)
    } else {
        None
    }
}

/// Every path under `/dev/dri/renderD` (the render node of any GPU) is a
/// render node, `/dev/kfd` is the KFD device, and no other path is taken
/// over.
pub proof fn lemma_device_paths(path: Seq<char>)
    ensures
        spec_starts_with(path, "/dev/dri/renderD"@) ==> spec_classify(path) == Some(DeviceKind::DrmRender),
        path == "/dev/kfd"@ ==> spec_classify(path) == Some(DeviceKind::Kfd),
        !spec_starts_with(path, "/dev/dri/renderD"@) && path != "/dev/kfd"@ ==> spec_classify(path) is None,
{
    reveal_strlit("/dev/kfd");
    reveal_strlit("/dev/dri/renderD");
    assert(KFD_PATH@ == "/dev/kfd"@);
    assert(DRI_RENDER_PREFIX@ == "/dev/dri/renderD"@);
    if spec_starts_with(path, "/dev/dri/renderD"@) {
        assert(path != "/dev/kfd"@);
    }
}

impl DeviceKind {
    /// The device the interceptor takes over for `path`: `/dev/kfd` is the
    /// KFD device, any `/dev/dri/renderD*` node a render node, and every
    /// other path is left alone.
    pub fn classify(path: &str) -> (r: Option<DeviceKind>)
        ensures
            r == spec_classify(path@),
            spec_starts_with(path@, "/dev/dri/renderD"@) ==> r == Some(DeviceKind::DrmRender),
            path@ == "/dev/kfd"@ ==> r == Some(DeviceKind::Kfd),
            !spec_starts_with(path@, "/dev/dri/renderD"@) && path@ != "/dev/kfd"@ ==> r is None,
    {
        proof {
            lemma_device_paths(path@);
        }
        if str_eq(path, KFD_PATH) {
            return Some(DeviceKind::Kfd);
        }
        if starts_with(path, DRI_RENDER_PREFIX) {
            return Some(DeviceKind::DrmRender);
        }
        None
    }

    /// The syscall-level device class.
    pub fn device_class(self) -> (r: DeviceClass)
        ensures
            self == DeviceKind::Kfd ==> r == DeviceClass::Kfd,
            self == DeviceKind::DrmRender ==> r == DeviceClass::DrmRender,
    {
        match self {
            DeviceKind::Kfd => DeviceClass::Kfd,
            DeviceKind::DrmRender => DeviceClass::DrmRender,
        }
    }

    /// The path reported for a descriptor of this kind registered without
    /// one.
    pub fn default_path(self) -> (r: &'static str)
        ensures
            self == DeviceKind::Kfd ==> r@ == KFD_PATH@,
            self == DeviceKind::DrmRender ==> r@ == DEFAULT_RENDER_PATH@,
    {
        match self {
            DeviceKind::Kfd => KFD_PATH,
            DeviceKind::DrmRender => DEFAULT_RENDER_PATH,
        }
    }
}

/// Whether `path` lies in the KFD sysfs topology tree.
pub open spec fn spec_is_topology_path(path: Seq<char>) -> bool {
    spec_starts_with(path, SYSFS_TOPO_PREFIX@) || spec_starts_with(path, SYSFS_TOPO_PREFIX_ALT@)
}

/// Whether `path` lies in the KFD sysfs topology tree.
pub fn is_topology_path(path: &str) -> (r: bool)
    ensures
        r == spec_is_topology_path(path@),
{
    starts_with(path, SYSFS_TOPO_PREFIX) || starts_with(path, SYSFS_TOPO_PREFIX_ALT)
}

/// The topology-relative part of a sysfs topology path.
pub open spec fn spec_topology_relative(path: Seq<char>) -> Option<Seq<char>> {
    if spec_starts_with(path, SYSFS_TOPO_PREFIX@) {
        Some(path.subrange(SYSFS_TOPO_PREFIX@.len() as int, path.len() as int))
    } else if spec_starts_with(path, SYSFS_TOPO_PREFIX_ALT@) {
        Some(path.subrange(SYSFS_TOPO_PREFIX_ALT@.len() as int, path.len() as int))
    } else {
        None
    }
}

/// The first file of `files` stored under `key`.
pub open spec fn spec_file_lookup(files: Seq<(String, Vec<u8>)>, key: Seq<char>) -> Option<Seq<u8>>
    decreases files.len(),
{
    if files.len() == 0 {
        None
    } else if files[0].0@ == key {
        Some(files[0].1@)
    } else {
        spec_file_lookup(files.drop_first(), key)
    }
}

/// The contents the cached topology holds for the sysfs file at `path`.
pub fn topology_lookup(topology: &Topology, path: &str) -> (r: Option<Vec<u8>>)
    ensures
        match spec_topology_relative(path@) {
            Some(rel) => match spec_file_lookup(topology.files@, rel) {
                Some(data) => r matches Some(v) && v@ == data,
                None => r is None,
            },
            None => r is None,
        },
{
    let rel = match strip_prefix(path, SYSFS_TOPO_PREFIX) {
        Some(rel) => rel,
        None => match strip_prefix(path, SYSFS_TOPO_PREFIX_ALT) {
            Some(rel) => rel,
            None => return None,
        },
    };
    let mut i: usize = 0;
    assert(topology.files@.skip(0) =~= topology.files@);
    while i < topology.files.len()
        invariant
            0 <= i <= topology.files@.len(),
            spec_topology_relative(path@) == Some(rel@),
            spec_file_lookup(topology.files@, rel@) == spec_file_lookup(topology.files@.skip(i as int), rel@),
        decreases topology.files@.len() - i,
    {
        proof {
            assert(topology.files@.skip(i as int).drop_first() =~= topology.files@.skip(i + 1));
            assert(topology.files@.skip(i as int)[0] == topology.files@[i as int]);
        }
        if str_eq(topology.files[i].0.as_str(), rel) {
            return Some(copy_bytes(topology.files[i].1.as_slice()));
        }
        i += 1;
    }
    None
}

/// A descriptor the interceptor tracks.
#[derive(Debug, PartialEq, Eq)]
pub struct TrackedFd {
    /// The descriptor the intercepted program holds.
    pub cookie_fd: i32,
    /// The descriptor's counterpart in the daemon, or -1.
    pub remote_fd: i32,
    /// A host descriptor backing it, or -1.
    pub host_fd: i32,
    /// Whether `host_fd` is a placeholder rather than a real device.
    pub synthetic_host: bool,
    pub kind: DeviceKind,
    /// The device path the program opened.
    pub path: String,
    /// What `fstat` reports for it.
    pub fake_stat: FakeStat,
}

impl Clone for TrackedFd {
    fn clone(&self) -> (r: Self)
        ensures
            r == *self,
    {
        TrackedFd {
            cookie_fd: self.cookie_fd,
            remote_fd: self.remote_fd,
            host_fd: self.host_fd,
            synthetic_host: self.synthetic_host,
            kind: self.kind,
            path: self.path.clone(),
            fake_stat: self.fake_stat,
        }
    }
}

/// The most recent entry for `fd` among `entries`.
pub open spec fn spec_find(entries: Seq<TrackedFd>, fd: i32) -> Option<TrackedFd>
    decreases entries.len(),
{
    if entries.len() == 0 {
        None
    } else if entries.last().cookie_fd == fd {
        Some(entries.last())
    } else {
        spec_find(entries.drop_last(), fd)
    }
}

/// The registry of tracked descriptors.
#[derive(Debug)]
pub struct FdRegistry {
    entries: Vec<TrackedFd>,
}

impl View for FdRegistry {
    type V = Map<i32, TrackedFd>;

    /// Each tracked descriptor with its entry.
    closed spec fn view(&self) -> Map<i32, TrackedFd> {
        Map::new(|fd: i32| spec_find(self.entries@, fd) is Some, |fd: i32| spec_find(self.entries@, fd)->0)
    }
}

/// Every entry sits under its own descriptor.
pub open spec fn keyed_by_cookie(m: Map<i32, TrackedFd>) -> bool {
    forall|fd: i32| #[trigger] m.contains_key(fd) ==> m[fd].cookie_fd == fd
}

/// Whether another descriptor than `except` shares the daemon descriptor
/// `remote_fd`.
pub open spec fn spec_has_other_aliases(m: Map<i32, TrackedFd>, remote_fd: i32, except: i32) -> bool {
    exists|fd: i32| #[trigger] m.contains_key(fd) && fd != except && m[fd].remote_fd >= 0 && m[fd].remote_fd == remote_fd
}

/// Whether another descriptor than `except` shares the host descriptor
/// `host_fd`.
pub open spec fn spec_has_other_host_aliases(m: Map<i32, TrackedFd>, host_fd: i32, except: i32) -> bool {
    exists|fd: i32| #[trigger] m.contains_key(fd) && fd != except && m[fd].host_fd >= 0 && m[fd].host_fd == host_fd
}

proof fn lemma_find_push(entries: Seq<TrackedFd>, e: TrackedFd, fd: i32)
    ensures
        spec_find(entries.push(e), fd) == (if e.cookie_fd == fd { Some(e) } else { spec_find(entries, fd) }),
{
    assert(entries.push(e).drop_last() =~= entries);
}

proof fn lemma_find_keyed(entries: Seq<TrackedFd>, fd: i32)
    ensures
        spec_find(entries, fd) matches Some(e) ==> e.cookie_fd == fd,
    decreases entries.len(),
{
    if entries.len() > 0 {
        lemma_find_keyed(entries.drop_last(), fd);
    }
}

proof fn lemma_find_member(entries: Seq<TrackedFd>, fd: i32)
    ensures
        spec_find(entries, fd) matches Some(e) ==> entries.contains(e),
        spec_find(entries, fd) is None ==> forall|i: int| 0 <= i < entries.len() ==> #[trigger] entries[i].cookie_fd != fd,
    decreases entries.len(),
{
    if entries.len() > 0 {
        lemma_find_member(entries.drop_last(), fd);
        match spec_find(entries.drop_last(), fd) {
            Some(e) => {
                if entries.last().cookie_fd != fd {
                    let k = choose|k: int| 0 <= k < entries.drop_last().len() && entries.drop_last()[k] == e;
                    assert(entries[k] == e);
                }
            },
            None => {},
        }
        if entries.last().cookie_fd == fd {
            assert(entries[entries.len() - 1] == entries.last());
        }
        if spec_find(entries, fd) is None {
            assert forall|i: int| 0 <= i < entries.len() implies #[trigger] entries[i].cookie_fd != fd by {
                if i < entries.len() - 1 {
                    assert(entries[i] == entries.drop_last()[i]);
                }
            }
        }
    }
}

/// An entry is reachable through its own descriptor when it is the last
/// entry for it.
proof fn lemma_find_last_for(entries: Seq<TrackedFd>, i: int)
    requires
        0 <= i < entries.len(),
        forall|j: int| i < j < entries.len() ==> #[trigger] entries[j].cookie_fd != entries[i].cookie_fd,
    ensures
        spec_find(entries, entries[i].cookie_fd) == Some(entries[i]),
    decreases entries.len(),
{
    if i < entries.len() - 1 {
        assert(entries.last() == entries[entries.len() - 1]);
        lemma_find_last_for(entries.drop_last(), i);
        assert(entries.drop_last()[i] == entries[i]);
    }
}

impl FdRegistry {
    /// No descriptor appears twice.
    pub closed spec fn wf(&self) -> bool {
        forall|i: int, j: int| 0 <= i < j < self.entries@.len() ==>
            #[trigger] self.entries@[i].cookie_fd != #[trigger] self.entries@[j].cookie_fd
    }

    /// An empty registry.
    pub fn new() -> (r: Self)
        ensures
            r@ == Map::<i32, TrackedFd>::empty(),
            r.wf(),
    {
        let r = FdRegistry { entries: Vec::new() };
        assert(r@ =~= Map::<i32, TrackedFd>::empty());
        r
    }

    /// The registry only ever files an entry under its own descriptor.
    pub proof fn lemma_keyed(&self)
        ensures
            keyed_by_cookie(self@),
    {
        assert forall|fd: i32| #[trigger] self@.contains_key(fd) implies self@[fd].cookie_fd == fd by {
            lemma_find_keyed(self.entries@, fd);
        }
    }

    /// The entries without the one for `fd`.
    fn remove_key(&mut self, fd: i32)
        requires
            old(self).wf(),
        ensures
            final(self).wf(),
            final(self)@ == old(self)@.remove(fd),
    {
        let mut kept: Vec<TrackedFd> = Vec::new();
        let mut rest: Vec<TrackedFd> = Vec::new();
        std::mem::swap(&mut rest, &mut self.entries);
        let ghost all = rest@;
        let ghost mut taken: int = 0;
        while rest.len() > 0
            invariant
                0 <= taken <= all.len(),
                taken + rest@.len() == all.len(),
                rest@ == all.skip(taken),
                forall|i: int, j: int| 0 <= i < j < all.len() ==> #[trigger] all[i].cookie_fd != #[trigger] all[j].cookie_fd,
                forall|q: i32| #[trigger] spec_find(kept@, q) == (if q == fd { None } else { spec_find(all.take(taken), q) }),
                forall|i: int| 0 <= i < kept@.len() ==> #[trigger] kept@[i].cookie_fd != fd,
                forall|i: int| 0 <= i < kept@.len() ==> all.take(taken).contains(#[trigger] kept@[i]),
                forall|i: int, j: int| 0 <= i < j < kept@.len() ==> #[trigger] kept@[i].cookie_fd != #[trigger] kept@[j].cookie_fd,
            decreases rest@.len(),
        {
            let ghost before = kept@;
            let e = rest.remove(0);
            proof {
                assert(all[taken] == e);
                assert(all.take(taken + 1) =~= all.take(taken).push(e));
                assert(all.skip(taken + 1) =~= all.skip(taken).drop_first());
            }
            let ghost eg = e;
            if e.cookie_fd != fd {
                kept.push(e);
                proof {
                    assert forall|q: i32| #[trigger] spec_find(kept@, q) == (if q == fd { None } else { spec_find(all.take(taken + 1), q) }) by {
                        lemma_find_push(before, eg, q);
                        lemma_find_push(all.take(taken), eg, q);
                    }
                    assert forall|i: int| 0 <= i < kept@.len() implies all.take(taken + 1).contains(#[trigger] kept@[i]) by {
                        if i < before.len() {
                            let k = choose|k: int| 0 <= k < all.take(taken).len() && all.take(taken)[k] == before[i];
                            assert(all.take(taken + 1)[k] == before[i]);
                        } else {
                            assert(all.take(taken + 1)[taken] == eg);
                        }
                    }
                    assert forall|i: int, j: int| 0 <= i < j < kept@.len() implies #[trigger] kept@[i].cookie_fd != #[trigger] kept@[j].cookie_fd by {
                        if j == before.len() {
                            let k = choose|k: int| 0 <= k < all.take(taken).len() && all.take(taken)[k] == before[i];
                            assert(all[k] == before[i]);
                        }
                    }
                }
            } else {
                proof {
                    assert forall|q: i32| #[trigger] spec_find(kept@, q) == (if q == fd { None } else { spec_find(all.take(taken + 1), q) }) by {
                        lemma_find_push(all.take(taken), eg, q);
                    }
                    assert forall|i: int| 0 <= i < kept@.len() implies all.take(taken + 1).contains(#[trigger] kept@[i]) by {
                        let k = choose|k: int| 0 <= k < all.take(taken).len() && all.take(taken)[k] == kept@[i];
                        assert(all.take(taken + 1)[k] == kept@[i]);
                    }
                }
            }
            proof { taken = taken + 1; }
        }
        assert(all.take(taken) =~= all);
        self.entries = kept;
        assert(self@ =~= old(self)@.remove(fd)) by {
            assert forall|q: i32| #[trigger] spec_find(self.entries@, q) == (if q == fd { None } else { spec_find(all, q) }) by {}
        }
    }

    /// Track `entry` under its cookie descriptor, replacing any previous
    /// entry for that descriptor.
    pub fn register_entry(&mut self, entry: TrackedFd)
        requires
            old(self).wf(),
        ensures
            final(self).wf(),
            final(self)@ == old(self)@.insert(entry.cookie_fd, entry),
    {
        let ghost e = entry;
        self.remove_key(entry.cookie_fd);
        let ghost before = self.entries@;
        let ghost mid = self@;
        proof {
            assert forall|i: int| 0 <= i < before.len() implies #[trigger] before[i].cookie_fd != e.cookie_fd by {
                lemma_find_member(before, e.cookie_fd);
                assert(spec_find(before, e.cookie_fd) is None) by {
                    assert(!self@.contains_key(e.cookie_fd));
                }
            }
        }
        self.entries.push(entry);
        assert(self.entries@ == before.push(e));
        assert forall|q: i32| #[trigger] spec_find(self.entries@, q) == (if e.cookie_fd == q { Some(e) } else { spec_find(before, q) }) by {
            lemma_find_push(before, e, q);
        }
        assert forall|q: i32| #[trigger] self@.contains_key(q) == (q == e.cookie_fd || mid.contains_key(q)) && (self@.contains_key(q) ==> self@[q] == (if q == e.cookie_fd { e } else { mid[q] })) by {
            lemma_find_push(before, e, q);
        }
        assert(self@ =~= mid.insert(e.cookie_fd, e));
        assert(old(self)@.remove(e.cookie_fd).insert(e.cookie_fd, e) =~= old(self)@.insert(e.cookie_fd, e));
        assert forall|i: int, j: int| 0 <= i < j < self.entries@.len() implies
            #[trigger] self.entries@[i].cookie_fd != #[trigger] self.entries@[j].cookie_fd by {
            if j == before.len() {
                assert(before[i].cookie_fd != e.cookie_fd);
            } else {
                assert(self.entries@[i] == before[i] && self.entries@[j] == before[j]);
            }
        }
    }

    /// The entry tracked for `fd`.
    pub fn lookup_entry(&self, fd: i32) -> (r: Option<TrackedFd>)
        ensures
            self@.contains_key(fd) ==> r == Some(self@[fd]),
            !self@.contains_key(fd) ==> r is None,
    {
        let mut i = self.entries.len();
        assert(self.entries@.take(i as int) =~= self.entries@);
        while i > 0
            invariant
                0 <= i <= self.entries@.len(),
                spec_find(self.entries@, fd) == spec_find(self.entries@.take(i as int), fd),
            decreases i,
        {
            let ghost pre = self.entries@.take(i as int);
            assert(pre.drop_last() =~= self.entries@.take(i - 1));
            if self.entries[i - 1].cookie_fd == fd {
                return Some(self.entries[i - 1].clone());
            }
            i -= 1;
        }
        None
    }

    /// Stop tracking `fd`.
    pub fn forget(&mut self, fd: i32)
        requires
            old(self).wf(),
        ensures
            final(self).wf(),
            final(self)@ == old(self)@.remove(fd),
    {
        self.remove_key(fd)
    }

    /// Whether a descriptor other than `except` shares the daemon
    /// descriptor `remote_fd`.
    pub fn has_other_aliases(&self, remote_fd: i32, except: i32) -> (r: bool)
        requires
            self.wf(),
        ensures
            r == spec_has_other_aliases(self@, remote_fd, except),
    {
        let mut i: usize = 0;
        while i < self.entries.len()
            invariant
                self.wf(),
                0 <= i <= self.entries@.len(),
                forall|j: int| 0 <= j < i ==> !(#[trigger] self.entries@[j].cookie_fd != except && self.entries@[j].remote_fd >= 0
                    && self.entries@[j].remote_fd == remote_fd),
            decreases self.entries@.len() - i,
        {
            let e = &self.entries[i];
            if e.cookie_fd != except && e.remote_fd >= 0 && e.remote_fd == remote_fd {
                proof {
                    self.lemma_find_index(i as int);
                    assert(self@.contains_key(e.cookie_fd));
                }
                return true;
            }
            i += 1;
        }
        proof {
            if spec_has_other_aliases(self@, remote_fd, except) {
                let fd = choose|fd: i32| #[trigger] self@.contains_key(fd) && fd != except && self@[fd].remote_fd >= 0 && self@[fd].remote_fd == remote_fd;
                lemma_find_member(self.entries@, fd);
                lemma_find_keyed(self.entries@, fd);
                let k = choose|k: int| 0 <= k < self.entries@.len() && self.entries@[k] == self@[fd];
                assert(self.entries@[k].cookie_fd != except);
            }
        }
        false
    }

    /// Whether a descriptor other than `except` shares the host descriptor
    /// `host_fd`.
    pub fn has_other_host_aliases(&self, host_fd: i32, except: i32) -> (r: bool)
        requires
            self.wf(),
        ensures
            r == spec_has_other_host_aliases(self@, host_fd, except),
    {
        let mut i: usize = 0;
        while i < self.entries.len()
            invariant
                self.wf(),
                0 <= i <= self.entries@.len(),
                forall|j: int| 0 <= j < i ==> !(#[trigger] self.entries@[j].cookie_fd != except && self.entries@[j].host_fd >= 0
                    && self.entries@[j].host_fd == host_fd),
            decreases self.entries@.len() - i,
        {
            let e = &self.entries[i];
            if e.cookie_fd != except && e.host_fd >= 0 && e.host_fd == host_fd {
                proof {
                    self.lemma_find_index(i as int);
                    assert(self@.contains_key(e.cookie_fd));
                }
                return true;
            }
            i += 1;
        }
        proof {
            if spec_has_other_host_aliases(self@, host_fd, except) {
                let fd = choose|fd: i32| #[trigger] self@.contains_key(fd) && fd != except && self@[fd].host_fd >= 0 && self@[fd].host_fd == host_fd;
                lemma_find_member(self.entries@, fd);
                lemma_find_keyed(self.entries@, fd);
                let k = choose|k: int| 0 <= k < self.entries@.len() && self.entries@[k] == self@[fd];
                assert(self.entries@[k].cookie_fd != except);
            }
        }
        false
    }

    proof fn lemma_find_index(&self, i: int)
        requires
            self.wf(),
            0 <= i < self.entries@.len(),
        ensures
            self@.contains_key(self.entries@[i].cookie_fd),
            self@[self.entries@[i].cookie_fd] == self.entries@[i],
    {
        assert forall|j: int| i < j < self.entries@.len() implies #[trigger] self.entries@[j].cookie_fd != self.entries@[i].cookie_fd by {
            assert(self.entries@[i].cookie_fd != self.entries@[j].cookie_fd);
        }
        lemma_find_last_for(self.entries@, i);
    }
}

/// Track `fd` as a device of `kind` opened without a daemon counterpart.
pub fn register_fd(registry: &mut FdRegistry, fd: i32, kind: DeviceKind)
    requires
        old(registry).wf(),
    ensures
        final(registry).wf(),
        final(registry)@.contains_key(fd),
        final(registry)@[fd].kind == kind,
        final(registry)@[fd].remote_fd == -1,
        final(registry)@[fd].host_fd == -1,
        final(registry)@[fd].synthetic_host,
        final(registry)@ == old(registry)@.insert(fd, final(registry)@[fd]),
{
    let path = kind.default_path();
    registry.register_entry(TrackedFd {
        cookie_fd: fd,
        remote_fd: -1,
        host_fd: -1,
        synthetic_host: true,
        kind,
        path: path.to_string(),
        fake_stat: FakeStat { mode: 0, nlink: 0, rdev: 0, size: 0 },
    });
}

/// The device kind of a tracked descriptor.
pub fn lookup_fd(registry: &FdRegistry, fd: i32) -> (r: Option<DeviceKind>)
    ensures
        registry@.contains_key(fd) ==> r == Some(registry@[fd].kind),
        !registry@.contains_key(fd) ==> r is None,
{
    match registry.lookup_entry(fd) {
        Some(entry) => Some(entry.kind),
        None => None,
    }
}

/// Stop tracking `fd`.
pub fn forget_fd(registry: &mut FdRegistry, fd: i32)
    requires
        old(registry).wf(),
    ensures
        final(registry).wf(),
        final(registry)@ == old(registry)@.remove(fd),
{
    registry.forget(fd)
}

/// The daemon descriptor behind a tracked descriptor, when it has one.
pub fn translate_remote_fd(registry: &FdRegistry, fd: i32) -> (r: Option<i32>)
    ensures
        r == (if registry@.contains_key(fd) && registry@[fd].remote_fd >= 0 { Some(registry@[fd].remote_fd) } else { None::<i32> }),
{
    match registry.lookup_entry(fd) {
        Some(entry) => if entry.remote_fd >= 0 { Some(entry.remote_fd) } else { None },
        None => None,
    }
}

/// The host descriptor an unrecognised ioctl on `fd` may fall through to:
/// only a real (not placeholder) host descriptor qualifies; -1 otherwise.
pub fn passthrough_host_fd(registry: &FdRegistry, fd: i32) -> (r: i32)
    ensures
        r == (if registry@.contains_key(fd) && !registry@[fd].synthetic_host { registry@[fd].host_fd } else { -1i32 }),
{
    match registry.lookup_entry(fd) {
        Some(entry) => if !entry.synthetic_host { entry.host_fd } else { -1 },
        None => -1,
    }
}

/// Record `new_fd` as an alias of the tracked descriptor `source_fd`
/// (after `dup`, `dup2`, `dup3` or `fcntl(F_DUPFD)`). Returns the daemon
/// descriptor whose reference count the daemon must raise, if any.
pub fn register_alias(registry: &mut FdRegistry, new_fd: i32, source_fd: i32) -> (r: Option<i32>)
    requires
        old(registry).wf(),
    ensures
        final(registry).wf(),
        (new_fd < 0 || !old(registry)@.contains_key(source_fd)) ==> final(registry)@ == old(registry)@ && r is None,
        (new_fd >= 0 && old(registry)@.contains_key(source_fd)) ==> {
            let src = old(registry)@[source_fd];
            &&& final(registry)@ == old(registry)@.insert(new_fd, TrackedFd { cookie_fd: new_fd, ..src })
            &&& r == (if src.remote_fd >= 0 { Some(src.remote_fd) } else { None::<i32> })
        },
{
    if new_fd < 0 {
        return None;
    }
    let mut entry = match registry.lookup_entry(source_fd) {
        Some(entry) => entry,
        None => return None,
    };
    let dup_remote = if entry.remote_fd >= 0 { Some(entry.remote_fd) } else { None };
    entry.cookie_fd = new_fd;
    registry.register_entry(entry);
    dup_remote
}

/// What closing a tracked descriptor must release.
#[derive(Debug, Clone, Copy, PartialEq, Eq, Structural)]
pub struct ClosePlan {
    /// The daemon descriptor to close, when no other alias still uses it.
    pub remote_fd: Option<i32>,
    /// The host descriptor to close, when no other alias still uses it.
    pub host_fd: Option<i32>,
}

/// Stop tracking `fd` and say which shared descriptors the close releases:
/// the daemon and host descriptors behind it are closed only by the last
/// alias that refers to them. `None` when `fd` is not tracked.
pub fn close_tracked(registry: &mut FdRegistry, fd: i32) -> (r: Option<ClosePlan>)
    requires
        old(registry).wf(),
    ensures
        final(registry).wf(),
        final(registry)@ == old(registry)@.remove(fd),
        !old(registry)@.contains_key(fd) ==> r is None,
        old(registry)@.contains_key(fd) ==> {
            let e = old(registry)@[fd];
            r == Some(ClosePlan {
                remote_fd: if e.remote_fd >= 0 && !spec_has_other_aliases(old(registry)@, e.remote_fd, fd) { Some(e.remote_fd) } else { None::<i32> },
                host_fd: if e.host_fd >= 0 && !spec_has_other_host_aliases(old(registry)@, e.host_fd, fd) { Some(e.host_fd) } else { None::<i32> },
            })
        },
{
    let entry = match registry.lookup_entry(fd) {
        Some(entry) => entry,
        None => {
            registry.forget(fd);
            assert(registry@ =~= old(registry)@.remove(fd));
            return None;
        },
    };
    let remote_fd = if entry.remote_fd >= 0 && !registry.has_other_aliases(entry.remote_fd, fd) {
        Some(entry.remote_fd)
    } else {
        None
    };
    let host_fd = if entry.host_fd >= 0 && !registry.has_other_host_aliases(entry.host_fd, fd) {
        Some(entry.host_fd)
    } else {
        None
    };
    registry.forget(fd);
    Some(ClosePlan { remote_fd, host_fd })
}

/// Where an `mmap` of a descriptor goes.
#[derive(Debug, Clone, Copy, PartialEq, Eq, Structural)]
pub enum MmapPlan {
    /// Map anonymous memory: the daemon owns the device mapping.
    Anonymous,
    /// Map the host descriptor at the requested offset.
    Host(i32),
    /// Not ours: call the real `mmap` unchanged.
    Passthrough,
}

/// Where an `mmap` of `fd` goes: a descriptor with a daemon counterpart or
/// a placeholder host descriptor gets anonymous memory, one with a real
/// host descriptor maps that, and anything else goes to the real call.
pub fn mmap_plan(registry: &FdRegistry, fd: i32) -> (r: MmapPlan)
    ensures
        r == (if registry@.contains_key(fd) {
            let e = registry@[fd];
            if e.remote_fd >= 0 || e.synthetic_host { MmapPlan::Anonymous }
            else if e.host_fd >= 0 { MmapPlan::Host(e.host_fd) }
            else { MmapPlan::Passthrough }
        } else {
            MmapPlan::Passthrough
        }),
{
    match registry.lookup_entry(fd) {
        Some(e) => {
            if e.remote_fd >= 0 || e.synthetic_host {
                MmapPlan::Anonymous
            } else if e.host_fd >= 0 {
                MmapPlan::Host(e.host_fd)
            } else {
                MmapPlan::Passthrough
            }
        },
        None => MmapPlan::Passthrough,
    }
}

/// Where a `read` of a descriptor goes.
#[derive(Debug, Clone, Copy, PartialEq, Eq, Structural)]
pub enum ReadPlan {
    /// Read the host descriptor.
    Host(i32),
    /// Ask the daemon to read its descriptor.
    Remote(i32),
    /// Not ours: call the real `read` unchanged.
    Passthrough,
}

/// Where a `read` of `fd` goes: a host descriptor first, then the daemon's
/// descriptor, then the real call.
pub fn read_plan(registry: &FdRegistry, fd: i32) -> (r: ReadPlan)
    ensures
        r == (if registry@.contains_key(fd) {
            let e = registry@[fd];
            if e.host_fd >= 0 { ReadPlan::Host(e.host_fd) }
            else if e.remote_fd >= 0 { ReadPlan::Remote(e.remote_fd) }
            else { ReadPlan::Passthrough }
        } else {
            ReadPlan::Passthrough
        }),
{
    match registry.lookup_entry(fd) {
        Some(e) => {
            if e.host_fd >= 0 {
                ReadPlan::Host(e.host_fd)
            } else if e.remote_fd >= 0 {
                ReadPlan::Remote(e.remote_fd)
            } else {
                ReadPlan::Passthrough
            }
        },
        None => ReadPlan::Passthrough,
    }
}

/// The number of bytes a read of `count` bytes delivers from `available`.
pub fn read_len(available: usize, count: usize) -> (r: usize)
    ensures
        r == if available < count { available } else { count },
{
    if available < count { available } else { count }
}

/// The descriptor number a `/proc/self/fd/<n>` path names.
pub open spec fn spec_proc_fd(path: Seq<char>) -> Option<int> {
    if spec_starts_with(path, PROC_SELF_FD_PREFIX@) {
        spec_parse_i32(path.subrange(PROC_SELF_FD_PREFIX@.len() as int, path.len() as int))
    } else {
        None
    }
}

/// The tracked entry a `/proc/self/fd/<n>` path refers to (what
/// `readlink` on it resolves to).
pub fn tracked_fd_from_proc_path(registry: &FdRegistry, path: &str) -> (r: Option<TrackedFd>)
    ensures
        match spec_proc_fd(path@) {
            Some(n) => if registry@.contains_key(n as i32) { r == Some(registry@[n as i32]) } else { r is None },
            None => r is None,
        },
{
    let suffix = match strip_prefix(path, PROC_SELF_FD_PREFIX) {
        Some(s) => s,
        None => return None,
    };
    let fd = match parse_i32(suffix) {
        Some(fd) => fd,
        None => return None,
    };
    registry.lookup_entry(fd)
}

/// What `fstat` reports for `fd`, when it is tracked.
pub fn fake_stat_for(registry: &FdRegistry, fd: i32) -> (r: Option<FakeStat>)
    ensures
        r == (if registry@.contains_key(fd) { Some(registry@[fd].fake_stat) } else { None::<FakeStat> }),
{
    match registry.lookup_entry(fd) {
        Some(e) => Some(e.fake_stat),
        None => None,
    }
}

/// A registered descriptor can be looked up with the kind it was
/// registered with; after it is forgotten it is no longer tracked.
pub proof fn lemma_register_lookup_forget(before: Map<i32, TrackedFd>, e: TrackedFd)
    ensures
        before.insert(e.cookie_fd, e).contains_key(e.cookie_fd),
        before.insert(e.cookie_fd, e)[e.cookie_fd].kind == e.kind,
        !before.insert(e.cookie_fd, e).remove(e.cookie_fd).contains_key(e.cookie_fd),
        forall|fd: i32| fd != e.cookie_fd ==> (#[trigger] before.insert(e.cookie_fd, e).remove(e.cookie_fd).contains_key(fd) <==> before.contains_key(fd)),
{
}

/// After an alias is made of a descriptor with a daemon counterpart,
/// closing either of the two keeps the daemon descriptor open.
pub proof fn lemma_alias_keeps_remote_open(reg: Map<i32, TrackedFd>, source_fd: i32, new_fd: i32)
    requires
        keyed_by_cookie(reg),
        reg.contains_key(source_fd),
        reg[source_fd].remote_fd >= 0,
        new_fd >= 0,
        new_fd != source_fd,
    ensures
        ({
            let after = reg.insert(new_fd, TrackedFd { cookie_fd: new_fd, ..reg[source_fd] });
            &&& spec_has_other_aliases(after, reg[source_fd].remote_fd, source_fd)
            &&& spec_has_other_aliases(after, reg[source_fd].remote_fd, new_fd)
        }),
{
    let after = reg.insert(new_fd, TrackedFd { cookie_fd: new_fd, ..reg[source_fd] });
    assert(after.contains_key(new_fd));
    assert(after.contains_key(source_fd));
}

/// A daemon descriptor held by one descriptor and then by an alias of it
/// is released when the second of the two is closed: once the first is
/// closed, nothing else shares it with the alias.
pub proof fn lemma_last_alias_releases_remote(reg: Map<i32, TrackedFd>, source_fd: i32, new_fd: i32)
    requires
        reg.contains_key(source_fd),
        reg[source_fd].remote_fd >= 0,
        new_fd >= 0,
        new_fd != source_fd,
        !spec_has_other_aliases(reg, reg[source_fd].remote_fd, source_fd),
    ensures
        ({
            let after = reg.insert(new_fd, TrackedFd { cookie_fd: new_fd, ..reg[source_fd] });
            !spec_has_other_aliases(after.remove(source_fd), reg[source_fd].remote_fd, new_fd)
        }),
{
    let remote = reg[source_fd].remote_fd;
    let after = reg.insert(new_fd, TrackedFd { cookie_fd: new_fd, ..reg[source_fd] });
    let closed = after.remove(source_fd);
    assert forall|fd: i32| #[trigger] closed.contains_key(fd) && fd != new_fd implies !(closed[fd].remote_fd >= 0 && closed[fd].remote_fd == remote) by {
        assert(reg.contains_key(fd) && closed[fd] == reg[fd]);
    }
}

} // verus!
