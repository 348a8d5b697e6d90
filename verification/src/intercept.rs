//! The decisions of the interceptor's path-based syscalls: where an
//! `open` goes, the steps of opening a tracked device through the daemon
//! (with what each failure releases), and how `access`, a daemon-backed
//! `read`, `fcntl` and `newfstatat` are answered.

use vstd::prelude::*;

use crate::amdgpu_error::{AmdgpuError, AmdgpuResult, EACCES, EINVAL, spec_errno};
use crate::device::{
    DeviceKind, FdRegistry, TrackedFd, spec_classify, spec_file_lookup, spec_topology_relative,
    topology_lookup,
};
use crate::drm::{copy_bytes_into, spec_copy_bytes};
use crate::schema::{DeviceClass, DeviceRequest, DeviceResponse, FakeStat, Topology};
use crate::text::to_owned;

verus! {

/// Where an `open` (or an `openat` relative to the working directory)
/// goes.
#[derive(Debug, PartialEq, Eq)]
pub enum OpenRoute {
    /// Serve the cached topology file: a memory file holding these bytes.
    /// When no memory file can be made the real call is made instead.
    Topology(Vec<u8>),
    /// Open a tracked device of this kind through the daemon.
    Device(DeviceKind),
    /// Call the real function.
    Real,
}

/// The cached contents of the sysfs topology file at `path`, if any.
pub open spec fn spec_topology_data(topology: Option<Topology>, path: Seq<char>) -> Option<Seq<u8>> {
    match topology {
        Some(t) => match spec_topology_relative(path) {
            Some(rel) => spec_file_lookup(t.files@, rel),
            None => None,
        },
        None => None,
    }
}

/// The route of an open of `path`: `at_cwd` is false for an `openat`
/// relative to another directory, which is always left alone; a cached
/// topology file is served from memory; a device path is taken over when
/// a daemon is configured.
pub open spec fn open_route_result(path: Seq<char>, at_cwd: bool, topology: Option<Topology>, has_daemon: bool, r: OpenRoute) -> bool {
    if !at_cwd {
        r == OpenRoute::Real
    } else {
        match spec_topology_data(topology, path) {
            Some(data) => r matches OpenRoute::Topology(v) && v@ == data,
            None => match spec_classify(path) {
                Some(kind) => r == (if has_daemon { OpenRoute::Device(kind) } else { OpenRoute::Real }),
                None => r == OpenRoute::Real,
            },
        }
    }
}

/// Where an open of `path` goes.
pub fn open_route(path: &str, at_cwd: bool, topology: Option<&Topology>, has_daemon: bool) -> (r: OpenRoute)
    ensures
        open_route_result(path@, at_cwd, match topology { Some(t) => Some(*t), None => None }, has_daemon, r),
{
    if !at_cwd {
        return OpenRoute::Real;
    }
    if let Some(t) = topology {
        if let Some(data) = topology_lookup(t, path) {
            return OpenRoute::Topology(data);
        }
    }
    match DeviceKind::classify(path) {
        Some(kind) => if has_daemon { OpenRoute::Device(kind) } else { OpenRoute::Real },
        None => OpenRoute::Real,
    }
}

/// Whether opening a device of `kind` tries the real node first: a render
/// node does; the KFD device never does, since the daemon owns it, and
/// always gets a placeholder.
pub fn opens_real_node(kind: DeviceKind) -> (r: bool)
    ensures
        r == (kind != DeviceKind::Kfd),
{
    match kind {
        DeviceKind::Kfd => false,
        DeviceKind::DrmRender => true,
    }
}

/// A tracked-device open in progress.
#[derive(Debug)]
pub enum OpenState {
    /// The host side is open; the daemon's stat of the node is awaited.
    AwaitStat { kind: DeviceKind, path: String, flags: u32, mode: u32, host_fd: i32, synthetic_host: bool },
    /// The daemon's descriptor is awaited.
    AwaitOpen { kind: DeviceKind, path: String, host_fd: i32, synthetic_host: bool, fake_stat: FakeStat },
    /// The cookie descriptor the program will hold is awaited.
    AwaitCookie { kind: DeviceKind, path: String, host_fd: i32, synthetic_host: bool, fake_stat: FakeStat, remote_fd: i32 },
}

/// What the caller reports back to an open in progress.
#[derive(Debug)]
pub enum OpenEvent {
    /// The daemon's reply to the request last sent.
    Reply(AmdgpuResult<DeviceResponse>),
    /// The descriptor `memfd_create` gave for the cookie (negative on
    /// failure).
    Cookie(i32),
}

/// What the caller does next for an open in progress.
#[derive(Debug, PartialEq, Eq)]
pub enum OpenAction {
    /// Send this request to the daemon and report its reply.
    Send(DeviceRequest),
    /// Create the cookie descriptor and report it.
    CreateCookie,
    /// Close the daemon and host descriptors given, then return `rc`,
    /// setting errno first when one is given.
    Abort { close_remote: Option<i32>, close_host: Option<i32>, rc: i32, errno: Option<i32> },
    /// Track this entry and return its cookie descriptor.
    Register(TrackedFd),
}

/// The device class of a kind.
pub open spec fn class_of(kind: DeviceKind) -> DeviceClass {
    match kind {
        DeviceKind::Kfd => DeviceClass::Kfd,
        DeviceKind::DrmRender => DeviceClass::DrmRender,
    }
}

/// The first step after the host side of a tracked open: a failed host
/// open is returned as it is; otherwise the daemon is asked for the node's
/// stat.
pub fn open_host_done(kind: DeviceKind, path: String, flags: u32, mode: u32, host_fd: i32, synthetic_host: bool) -> (r: (Option<OpenState>, OpenAction))
    ensures
        host_fd < 0 ==> r.0 is None && r.1 == (OpenAction::Abort { close_remote: None, close_host: None, rc: host_fd, errno: None }),
        host_fd >= 0 ==> (r.0 matches Some(OpenState::AwaitStat { kind: k, path: p, flags: f, mode: m, host_fd: h, synthetic_host: s })
            && k == kind && p@ == path@ && f == flags && m == mode && h == host_fd && s == synthetic_host)
            && (r.1 matches OpenAction::Send(DeviceRequest::StatDevice { class, path: p }) && class == class_of(kind) && p@ == path@),
{
    if host_fd < 0 {
        return (None, OpenAction::Abort { close_remote: None, close_host: None, rc: host_fd, errno: None });
    }
    let request = DeviceRequest::StatDevice { class: kind.device_class(), path: to_owned(path.as_str()) };
    (Some(OpenState::AwaitStat { kind, path, flags, mode, host_fd, synthetic_host }), OpenAction::Send(request))
}

/// Whether `event` is what `state` waits for.
pub open spec fn open_event_fits(state: OpenState, event: OpenEvent) -> bool {
    match state {
        OpenState::AwaitCookie { .. } => event is Cookie,
        _ => event is Reply,
    }
}

/// The step of a tracked open: a stat reply leads to the daemon open, the
/// daemon's descriptor to the cookie, and the cookie to the registered
/// entry. A daemon error fails the open with its errno after the host
/// descriptor is closed (a reply of another kind counts as `EINVAL`); a
/// failed cookie closes both the daemon's and the host descriptor and is
/// returned as it is.
pub open spec fn open_step_result(state: OpenState, event: OpenEvent, r: (Option<OpenState>, OpenAction)) -> bool {
    match state {
        OpenState::AwaitStat { kind, path, flags, mode, host_fd, synthetic_host } => match event {
            OpenEvent::Reply(Ok(DeviceResponse::StatDevice { stat })) =>
                (r.0 matches Some(OpenState::AwaitOpen { kind: k, path: p, host_fd: h, synthetic_host: s, fake_stat })
                    && k == kind && p@ == path@ && h == host_fd && s == synthetic_host && fake_stat == stat)
                && (r.1 matches OpenAction::Send(DeviceRequest::Open { path: p, flags: f, mode: m, class })
                    && p@ == path@ && f == flags && m == mode && class == class_of(kind)),
            OpenEvent::Reply(Err(e)) => r.0 is None
                && r.1 == (OpenAction::Abort { close_remote: None, close_host: Some(host_fd), rc: -1i32, errno: Some(spec_errno(e)) }),
            _ => r.0 is None
                && r.1 == (OpenAction::Abort { close_remote: None, close_host: Some(host_fd), rc: -1i32, errno: Some(EINVAL) }),
        },
        OpenState::AwaitOpen { kind, path, host_fd, synthetic_host, fake_stat } => match event {
            OpenEvent::Reply(Ok(DeviceResponse::Open { virtual_fd })) =>
                (r.0 matches Some(OpenState::AwaitCookie { kind: k, path: p, host_fd: h, synthetic_host: s, fake_stat: st, remote_fd })
                    && k == kind && p@ == path@ && h == host_fd && s == synthetic_host && st == fake_stat && remote_fd == virtual_fd)
                && r.1 == OpenAction::CreateCookie,
            OpenEvent::Reply(Err(e)) => r.0 is None
                && r.1 == (OpenAction::Abort { close_remote: None, close_host: Some(host_fd), rc: -1i32, errno: Some(spec_errno(e)) }),
            _ => r.0 is None
                && r.1 == (OpenAction::Abort { close_remote: None, close_host: Some(host_fd), rc: -1i32, errno: Some(EINVAL) }),
        },
        OpenState::AwaitCookie { kind, path, host_fd, synthetic_host, fake_stat, remote_fd } => match event {
            OpenEvent::Cookie(fd) => r.0 is None && if fd < 0 {
                r.1 == (OpenAction::Abort { close_remote: Some(remote_fd), close_host: Some(host_fd), rc: fd, errno: None })
            } else {
                r.1 matches OpenAction::Register(e) && e.cookie_fd == fd && e.remote_fd == remote_fd && e.host_fd == host_fd
                    && e.synthetic_host == synthetic_host && e.kind == kind && e.path@ == path@ && e.fake_stat == fake_stat
            },
            _ => false,
        },
    }
}

/// Advance a tracked open by the event the caller reports.
pub fn open_step(state: OpenState, event: OpenEvent) -> (r: (Option<OpenState>, OpenAction))
    requires
        open_event_fits(state, event),
    ensures
        open_step_result(state, event, r),
{
    match state {
        OpenState::AwaitStat { kind, path, flags, mode, host_fd, synthetic_host } => match event {
            OpenEvent::Reply(Ok(DeviceResponse::StatDevice { stat })) => {
                let request = DeviceRequest::Open { path: to_owned(path.as_str()), flags, mode, class: kind.device_class() };
                (Some(OpenState::AwaitOpen { kind, path, host_fd, synthetic_host, fake_stat: stat }), OpenAction::Send(request))
            },
            OpenEvent::Reply(Err(e)) =>
                (None, OpenAction::Abort { close_remote: None, close_host: Some(host_fd), rc: -1, errno: Some(e.errno()) }),
            _ => (None, OpenAction::Abort { close_remote: None, close_host: Some(host_fd), rc: -1i32, errno: Some(EINVAL) }),
        },
        OpenState::AwaitOpen { kind, path, host_fd, synthetic_host, fake_stat } => match event {
            OpenEvent::Reply(Ok(DeviceResponse::Open { virtual_fd })) =>
                (Some(OpenState::AwaitCookie { kind, path, host_fd, synthetic_host, fake_stat, remote_fd: virtual_fd }), OpenAction::CreateCookie),
            OpenEvent::Reply(Err(e)) =>
                (None, OpenAction::Abort { close_remote: None, close_host: Some(host_fd), rc: -1, errno: Some(e.errno()) }),
            _ => (None, OpenAction::Abort { close_remote: None, close_host: Some(host_fd), rc: -1i32, errno: Some(EINVAL) }),
        },
        OpenState::AwaitCookie { kind, path, host_fd, synthetic_host, fake_stat, remote_fd } => match event {
            OpenEvent::Cookie(fd) => {
                if fd < 0 {
                    (None, OpenAction::Abort { close_remote: Some(remote_fd), close_host: Some(host_fd), rc: fd, errno: None })
                } else {
                    (None, OpenAction::Register(TrackedFd {
                        cookie_fd: fd, remote_fd, host_fd, synthetic_host, kind, path, fake_stat,
                    }))
                }
            },
            OpenEvent::Reply(_) => (None, OpenAction::CreateCookie),
        },
    }
}

/// The answer to `access` on a device path from the daemon's reply:
/// allowed is success, refused is `EACCES`, an error its errno (a reply
/// of another kind counts as `EINVAL`).
pub fn access_outcome(reply: AmdgpuResult<DeviceResponse>) -> (r: Result<(), i32>)
    ensures
        r == (match reply {
            Ok(DeviceResponse::Access { allowed }) => if allowed { Ok(()) } else { Err(EACCES) },
            Ok(_) => Err(EINVAL),
            Err(e) => Err(spec_errno(e)),
        }),
{
    match reply {
        Ok(DeviceResponse::Access { allowed }) => if allowed { Ok(()) } else { Err(EACCES) },
        Ok(_) => Err(EINVAL),
        Err(e) => Err(e.errno()),
    }
}

/// The bytes a daemon-backed `read` of `count` bytes delivers from the
/// daemon's reply: as many of the returned bytes as fit (the length is
/// what `read` returns); an error fails with its errno (a reply of another
/// kind counts as `EINVAL`).
pub fn read_device_outcome(reply: AmdgpuResult<DeviceResponse>, count: u64) -> (r: Result<Vec<u8>, i32>)
    ensures
        match reply {
            Ok(DeviceResponse::ReadDevice { data }) => r matches Ok(v) && v@ == spec_copy_bytes(count, false, data@),
            Ok(_) => r == Err::<Vec<u8>, i32>(EINVAL),
            Err(e) => r == Err::<Vec<u8>, i32>(spec_errno(e)),
        },
{
    match reply {
        Ok(DeviceResponse::ReadDevice { data }) => Ok(copy_bytes_into(count, false, data.as_slice())),
        Ok(_) => Err(EINVAL),
        Err(e) => Err(e.errno()),
    }
}

/// `fcntl` commands that duplicate a descriptor.
pub const F_DUPFD: i32 = 0;
pub const F_DUPFD_CLOEXEC: i32 = 1030;

/// Whether a successful `fcntl` with `cmd` returning `rc` made an alias
/// that must be tracked.
pub fn fcntl_makes_alias(cmd: i32, rc: i32) -> (r: bool)
    ensures
        r == ((cmd == F_DUPFD || cmd == F_DUPFD_CLOEXEC) && rc >= 0),
{
    (cmd == F_DUPFD || cmd == F_DUPFD_CLOEXEC) && rc >= 0
}

/// The `AT_EMPTY_PATH` flag of `newfstatat`.
pub const AT_EMPTY_PATH: i32 = 0x1000;

/// What `newfstatat` reports without the real call: the tracked
/// descriptor's stat, when the call names the descriptor itself (empty
/// path with `AT_EMPTY_PATH`).
pub fn stat_at_tracked(registry: &FdRegistry, dirfd: i32, flags: i32, empty_path: bool) -> (r: Option<FakeStat>)
    ensures
        r == (if flags & AT_EMPTY_PATH != 0 && empty_path && registry@.contains_key(dirfd) {
            Some(registry@[dirfd].fake_stat)
        } else {
            None::<FakeStat>
        }),
{
    if flags & AT_EMPTY_PATH != 0 && empty_path {
        crate::device::fake_stat_for(registry, dirfd)
    } else {
        None
    }
}

} // verus!
