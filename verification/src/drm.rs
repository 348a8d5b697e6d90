//! The interceptor's DRM render-node ioctl rules, and the routing of a
//! tracked descriptor's ioctl to the KFD or DRM rules.
//!
//! The core DRM ioctls a client issues at start-up are answered in the
//! process; the AMDGPU info query goes to the emulator; anything else
//! falls through to the host descriptor when there is one.

use vstd::prelude::*;

use crate::amdgpu_error::{AmdgpuError, AmdgpuResult, EINVAL, ENOENT, ENOSYS, ENOTTY, spec_errno};
use crate::device::DeviceKind;
use crate::ioc::{DRM_MAGIC, KFD_MAGIC, nr, size, spec_nr, spec_size, spec_ty, ty};
use crate::kfd::{KfdOp, classify_kfd_ioctl, spec_classify_kfd};
use crate::schema::{DrmRequest, DrmResponse};

verus! {

/// A DRM ioctl the interceptor handles itself or forwards.
#[derive(Debug, Clone, Copy, PartialEq, Eq, Structural)]
pub enum DrmOp {
    Version,
    GetMagic,
    GetClient,
    GetCap,
    SetClientCap,
    AuthMagic,
    AmdgpuInfo,
    /// Anything else: handed to the host descriptor.
    Passthrough,
}

/// The DRM command number of each handled ioctl (`drm.h`, and
/// `DRM_COMMAND_BASE + DRM_AMDGPU_INFO` from `amdgpu_drm.h`).
pub open spec fn spec_drm_op(nr: u32) -> DrmOp {
    if nr == 0x00 { DrmOp::Version }
    else if nr == 0x02 { DrmOp::GetMagic }
    else if nr == 0x05 { DrmOp::GetClient }
    else if nr == 0x0c { DrmOp::GetCap }
    else if nr == 0x0d { DrmOp::SetClientCap }
    else if nr == 0x11 { DrmOp::AuthMagic }
    else if nr == 0x45 { DrmOp::AmdgpuInfo }
    else { DrmOp::Passthrough }
}

/// The size in bytes of each handled ioctl's argument block on a 64-bit
/// Linux target (0 for a passthrough, which is not checked).
pub open spec fn spec_drm_args_size(op: DrmOp) -> u32 {
    match op {
        DrmOp::Version => 64,
        DrmOp::GetMagic => 4,
        DrmOp::GetClient => 40,
        DrmOp::GetCap => 16,
        DrmOp::SetClientCap => 16,
        DrmOp::AuthMagic => 4,
        DrmOp::AmdgpuInfo => 32,
        DrmOp::Passthrough => 0,
    }
}

/// The handled ioctl with command number `nr`.
pub fn drm_op(nr: u32) -> (r: DrmOp)
    ensures
        r == spec_drm_op(nr),
{
    if nr == 0x00 { DrmOp::Version }
    else if nr == 0x02 { DrmOp::GetMagic }
    else if nr == 0x05 { DrmOp::GetClient }
    else if nr == 0x0c { DrmOp::GetCap }
    else if nr == 0x0d { DrmOp::SetClientCap }
    else if nr == 0x11 { DrmOp::AuthMagic }
    else if nr == 0x45 { DrmOp::AmdgpuInfo }
    else { DrmOp::Passthrough }
}

/// The size in bytes of `op`'s argument block.
pub fn drm_args_size(op: DrmOp) -> (r: u32)
    ensures
        r == spec_drm_args_size(op),
{
    match op {
        DrmOp::Version => 64,
        DrmOp::GetMagic => 4,
        DrmOp::GetClient => 40,
        DrmOp::GetCap => 16,
        DrmOp::SetClientCap => 16,
        DrmOp::AuthMagic => 4,
        DrmOp::AmdgpuInfo => 32,
        DrmOp::Passthrough => 0,
    }
}

/// Which DRM ioctl `cmd` is: a handled one whose size field is smaller
/// than its argument block is invalid (`EINVAL`).
pub open spec fn spec_classify_drm(cmd: u32) -> Result<DrmOp, i32> {
    let op = spec_drm_op(spec_nr(cmd));
    if spec_size(cmd) < spec_drm_args_size(op) { Err(EINVAL) } else { Ok(op) }
}

/// Which DRM ioctl `cmd` is, or the errno it fails with.
pub fn classify_drm_ioctl(cmd: u32) -> (r: Result<DrmOp, i32>)
    ensures
        r == spec_classify_drm(cmd),
{
    let op = drm_op(nr(cmd));
    if size(cmd) < drm_args_size(op) { Err(EINVAL) } else { Ok(op) }
}

/// Where an ioctl on a tracked descriptor goes.
#[derive(Debug, Clone, Copy, PartialEq, Eq, Structural)]
pub enum IoctlRoute {
    Kfd(KfdOp),
    Drm(DrmOp),
    /// Fail with this errno.
    Fail(i32),
}

/// The route of `cmd` on a descriptor of `kind`: a KFD descriptor takes
/// only KFD commands and a render node only DRM commands (`ENOTTY`
/// otherwise); then the command is classified by its own rules.
pub open spec fn spec_route(kind: DeviceKind, cmd: u32) -> IoctlRoute {
    match kind {
        DeviceKind::Kfd => if spec_ty(cmd) == KFD_MAGIC {
            match spec_classify_kfd(cmd) { Ok(op) => IoctlRoute::Kfd(op), Err(e) => IoctlRoute::Fail(e) }
        } else {
            IoctlRoute::Fail(ENOTTY)
        },
        DeviceKind::DrmRender => if spec_ty(cmd) == DRM_MAGIC {
            match spec_classify_drm(cmd) { Ok(op) => IoctlRoute::Drm(op), Err(e) => IoctlRoute::Fail(e) }
        } else {
            IoctlRoute::Fail(ENOTTY)
        },
    }
}

/// The route of the ioctl `cmd` on a tracked descriptor of `kind`.
pub fn route_ioctl(kind: DeviceKind, cmd: u32) -> (r: IoctlRoute)
    ensures
        r == spec_route(kind, cmd),
{
    let t = ty(cmd);
    match kind {
        DeviceKind::Kfd => if t == KFD_MAGIC {
            match classify_kfd_ioctl(cmd) { Ok(op) => IoctlRoute::Kfd(op), Err(e) => IoctlRoute::Fail(e) }
        } else {
            IoctlRoute::Fail(ENOTTY)
        },
        DeviceKind::DrmRender => if t == DRM_MAGIC {
            match classify_drm_ioctl(cmd) { Ok(op) => IoctlRoute::Drm(op), Err(e) => IoctlRoute::Fail(e) }
        } else {
            IoctlRoute::Fail(ENOTTY)
        },
    }
}

/// The bytes stored into a C string buffer of `capacity` bytes: as much of
/// `value` as leaves room for the terminating NUL, then the NUL; nothing
/// into an empty or null buffer.
pub open spec fn spec_c_string_bytes(capacity: u64, is_null: bool, value: Seq<u8>) -> Seq<u8> {
    if capacity == 0 || is_null {
        Seq::empty()
    } else {
        let n = if value.len() < capacity - 1 { value.len() as int } else { capacity - 1 };
        value.take(n).push(0u8)
    }
}

/// The bytes stored into a C string buffer of `capacity` bytes.
pub fn c_string_bytes(capacity: u64, is_null: bool, value: &[u8]) -> (r: Vec<u8>)
    ensures
        r@ == spec_c_string_bytes(capacity, is_null, value@),
{
    let mut r: Vec<u8> = Vec::new();
    if capacity == 0 || is_null {
        return r;
    }
    let limit = capacity - 1;
    let mut i: usize = 0;
    while i < value.len() && (i as u64) < limit
        invariant
            0 <= i <= value@.len(),
            i <= limit,
            limit == capacity - 1,
            r@ == value@.take(i as int),
        decreases value@.len() - i,
    {
        r.push(value[i]);
        i += 1;
        assert(r@ =~= value@.take(i as int));
    }
    r.push(0u8);
    r
}

/// The bytes stored into a buffer of `capacity` bytes: the first bytes of
/// `data` that fit; nothing into an empty or null buffer.
pub open spec fn spec_copy_bytes(capacity: u64, is_null: bool, data: Seq<u8>) -> Seq<u8> {
    if capacity == 0 || is_null {
        Seq::empty()
    } else {
        data.take(if data.len() < capacity { data.len() as int } else { capacity as int })
    }
}

/// The bytes stored into a buffer of `capacity` bytes.
pub fn copy_bytes_into(capacity: u64, is_null: bool, data: &[u8]) -> (r: Vec<u8>)
    ensures
        r@ == spec_copy_bytes(capacity, is_null, data@),
{
    let mut r: Vec<u8> = Vec::new();
    if capacity == 0 || is_null {
        return r;
    }
    let mut i: usize = 0;
    while i < data.len() && (i as u64) < capacity
        invariant
            0 <= i <= data@.len(),
            i <= capacity,
            r@ == data@.take(i as int),
        decreases data@.len() - i,
    {
        r.push(data[i]);
        i += 1;
        assert(r@ =~= data@.take(i as int));
    }
    r
}

/// The fields of a DRM argument block that the interceptor reads.
#[derive(Debug, Clone, Copy, PartialEq, Eq, Structural)]
pub enum DrmArgs {
    /// The capacities of the three string buffers, and whether each
    /// buffer pointer is null.
    Version { name_len: u64, name_null: bool, date_len: u64, date_null: bool, desc_len: u64, desc_null: bool },
    GetMagic,
    GetClient { idx: i32 },
    GetCap,
    SetClientCap,
    AuthMagic,
    /// The query and its reply buffer; the four sub-query words are the
    /// query union read as `u32`s.
    AmdgpuInfo {
        return_pointer: u64,
        return_size: u32,
        query: u32,
        sub_query: u32,
        sub_query2: u32,
        sub_query3: u32,
        flags: u32,
    },
}

/// What the interceptor stores into a DRM argument block it answers.
#[derive(Debug, PartialEq, Eq)]
pub enum DrmReply {
    /// The driver version, the string bytes to store into each buffer, and
    /// the full string lengths reported back.
    Version {
        version_major: i32,
        version_minor: i32,
        version_patchlevel: i32,
        name: Vec<u8>,
        date: Vec<u8>,
        desc: Vec<u8>,
        name_len: u64,
        date_len: u64,
        desc_len: u64,
    },
    Magic { magic: u32 },
    /// The client record; its pid and uid are the caller's own.
    Client { auth: i32, magic: u64, iocs: u64 },
    Cap { value: u64 },
    /// Nothing is stored.
    Unchanged,
    /// The bytes to store at the info query's return pointer.
    Info { data: Vec<u8> },
}

/// What to do with a DRM ioctl once its argument block has been read.
#[derive(Debug, PartialEq, Eq)]
pub enum DrmStep {
    /// Answered in the process: store this and return 0.
    Reply(DrmReply),
    /// Send this request to the emulator; its reply goes to
    /// [`drm_info_complete`].
    Forward(DrmRequest),
    /// Fail with this errno.
    Fail(i32),
}

/// The driver name reported by DRM_IOCTL_VERSION: `amdgpu`.
pub open spec fn driver_name() -> Seq<u8> {
    seq![0x61u8, 0x6d, 0x64, 0x67, 0x70, 0x75]
}

/// The driver date reported by DRM_IOCTL_VERSION: `mirage`.
pub open spec fn driver_date() -> Seq<u8> {
    seq![0x6du8, 0x69, 0x72, 0x61, 0x67, 0x65]
}

/// The driver description reported by DRM_IOCTL_VERSION: `mirage-amdgpu`.
pub open spec fn driver_desc() -> Seq<u8> {
    seq![0x6du8, 0x69, 0x72, 0x61, 0x67, 0x65, 0x2d, 0x61, 0x6d, 0x64, 0x67, 0x70, 0x75]
}

/// The step for a DRM argument block: version 3.0.0 of a driver named
/// `amdgpu`, magic 1, only client 0 exists (`ENOENT` for any other index)
/// and is authenticated, every capability reads 0, setting a client
/// capability and authenticating a magic succeed, and the info query goes
/// to the emulator.
pub open spec fn drm_begin_result(args: DrmArgs, r: DrmStep) -> bool {
    match args {
        DrmArgs::Version { name_len, name_null, date_len, date_null, desc_len, desc_null } => match r {
            DrmStep::Reply(DrmReply::Version {
                version_major, version_minor, version_patchlevel, name, date, desc, name_len: nl, date_len: dl, desc_len: sl,
            }) => {
                &&& version_major == 3 && version_minor == 0 && version_patchlevel == 0
                &&& name@ == spec_c_string_bytes(name_len, name_null, driver_name())
                &&& date@ == spec_c_string_bytes(date_len, date_null, driver_date())
                &&& desc@ == spec_c_string_bytes(desc_len, desc_null, driver_desc())
                &&& nl == driver_name().len() && dl == driver_date().len() && sl == driver_desc().len()
            },
            _ => false,
        },
        DrmArgs::GetMagic => r == DrmStep::Reply(DrmReply::Magic { magic: 1 }),
        DrmArgs::GetClient { idx } =>
            if idx != 0 { r == DrmStep::Fail(ENOENT) }
            else { r == DrmStep::Reply(DrmReply::Client { auth: 1, magic: 1, iocs: 0 }) },
        DrmArgs::GetCap => r == DrmStep::Reply(DrmReply::Cap { value: 0 }),
        DrmArgs::SetClientCap => r == DrmStep::Reply(DrmReply::Unchanged),
        DrmArgs::AuthMagic => r == DrmStep::Reply(DrmReply::Unchanged),
        DrmArgs::AmdgpuInfo { return_size, query, sub_query, sub_query2, sub_query3, flags, .. } =>
            r == DrmStep::Forward(DrmRequest::Info { query, return_size, sub_query, sub_query2, sub_query3, flags }),
    }
}

/// Decide what a DRM ioctl does.
pub fn drm_begin(args: &DrmArgs) -> (r: DrmStep)
    ensures
        drm_begin_result(*args, r),
{
    match *args {
        DrmArgs::Version { name_len, name_null, date_len, date_null, desc_len, desc_null } => {
            let name: Vec<u8> = vec![0x61u8, 0x6d, 0x64, 0x67, 0x70, 0x75];
            let date: Vec<u8> = vec![0x6du8, 0x69, 0x72, 0x61, 0x67, 0x65];
            let desc: Vec<u8> = vec![0x6du8, 0x69, 0x72, 0x61, 0x67, 0x65, 0x2d, 0x61, 0x6d, 0x64, 0x67, 0x70, 0x75];
            assert(name@ =~= driver_name());
            assert(date@ =~= driver_date());
            assert(desc@ =~= driver_desc());
            let name_bytes = c_string_bytes(name_len, name_null, name.as_slice());
            let date_bytes = c_string_bytes(date_len, date_null, date.as_slice());
            let desc_bytes = c_string_bytes(desc_len, desc_null, desc.as_slice());
            DrmStep::Reply(DrmReply::Version {
                version_major: 3,
                version_minor: 0,
                version_patchlevel: 0,
                name: name_bytes,
                date: date_bytes,
                desc: desc_bytes,
                name_len: name.len() as u64,
                date_len: date.len() as u64,
                desc_len: desc.len() as u64,
            })
        },
        DrmArgs::GetMagic => DrmStep::Reply(DrmReply::Magic { magic: 1 }),
        DrmArgs::GetClient { idx } => {
            if idx != 0 {
                DrmStep::Fail(ENOENT)
            } else {
                DrmStep::Reply(DrmReply::Client { auth: 1, magic: 1, iocs: 0 })
            }
        },
        DrmArgs::GetCap => DrmStep::Reply(DrmReply::Cap { value: 0 }),
        DrmArgs::SetClientCap => DrmStep::Reply(DrmReply::Unchanged),
        DrmArgs::AuthMagic => DrmStep::Reply(DrmReply::Unchanged),
        DrmArgs::AmdgpuInfo { return_size, query, sub_query, sub_query2, sub_query3, flags, .. } =>
            DrmStep::Forward(DrmRequest::Info { query, return_size, sub_query, sub_query2, sub_query3, flags }),
    }
}

/// Apply the emulator's reply to an info query whose reply buffer is
/// `return_size` bytes at `return_pointer`: the reply's bytes that fit are
/// stored; the emulator's error fails the ioctl with its errno.
pub fn drm_info_complete(return_pointer: u64, return_size: u32, reply: AmdgpuResult<DrmResponse>) -> (r: Result<DrmReply, i32>)
    ensures
        match reply {
            Err(e) => r == Err::<DrmReply, i32>(spec_errno(e)),
            Ok(DrmResponse::Info { raw_data }) => r matches Ok(DrmReply::Info { data })
                && data@ == spec_copy_bytes(return_size as u64, return_pointer == 0, raw_data@),
        },
{
    match reply {
        Err(e) => Err(e.errno()),
        Ok(DrmResponse::Info { raw_data }) => {
            let data = copy_bytes_into(return_size as u64, return_pointer == 0, raw_data.as_slice());
            Ok(DrmReply::Info { data })
        },
    }
}

/// Where an unrecognised DRM ioctl goes: to the host descriptor, which
/// must exist (`ENOSYS` otherwise).
pub fn passthrough_target(host_fd: i32) -> (r: Result<i32, i32>)
    ensures
        r == (if host_fd < 0 { Err::<i32, i32>(ENOSYS) } else { Ok(host_fd) }),
{
    if host_fd < 0 { Err(ENOSYS) } else { Ok(host_fd) }
}

} // verus!
