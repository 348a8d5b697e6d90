//! The interceptor's KFD ioctl rules: which command number is which
//! request, what is checked before anything leaves the process, what is
//! answered locally, and how a reply is written back into the caller's
//! argument block.
//!
//! The caller reads and writes the C argument blocks; everything that is
//! decided about them is decided here, over plain copies of their fields.

use vstd::prelude::*;

use crate::amdgpu_error::{AmdgpuError, AmdgpuResult, EFAULT, EINVAL, ENOSYS, ENOTTY, spec_errno};
use crate::device::{DeviceKind, FdRegistry, translate_remote_fd};
use crate::ioc::{KFD_MAGIC, nr, size, spec_nr, spec_size, spec_ty, ty};
use crate::schema::{
    KfdCachePolicy, KfdEventData, KfdEventType, KfdHwExceptionData, KfdMemoryExceptionData,
    KfdMemoryExceptionFailure, KfdProcessDeviceAperture, KfdRequest, KfdResponse,
};

verus! {

/// A KFD ioctl the interceptor handles.
#[derive(Debug, Clone, Copy, PartialEq, Eq, Structural)]
pub enum KfdOp {
    GetVersion,
    SetMemoryPolicy,
    GetClockCounters,
    CreateEvent,
    DestroyEvent,
    SetEvent,
    ResetEvent,
    WaitEvents,
    SetScratchBackingVa,
    SetTrapHandler,
    GetProcessAperturesNew,
    AcquireVm,
    AllocMemoryOfGpu,
    FreeMemoryOfGpu,
    MapMemoryToGpu,
    UnmapMemoryFromGpu,
    SetXnackMode,
    RuntimeEnable,
}

/// The KFD command number of each handled ioctl (`linux/kfd_ioctl.h`).
pub open spec fn spec_kfd_op(nr: u32) -> Option<KfdOp> {
    if nr == 0x01 { Some(KfdOp::GetVersion) }
    else if nr == 0x04 { Some(KfdOp::SetMemoryPolicy) }
    else if nr == 0x05 { Some(KfdOp::GetClockCounters) }
    else if nr == 0x08 { Some(KfdOp::CreateEvent) }
    else if nr == 0x09 { Some(KfdOp::DestroyEvent) }
    else if nr == 0x0A { Some(KfdOp::SetEvent) }
    else if nr == 0x0B { Some(KfdOp::ResetEvent) }
    else if nr == 0x0C { Some(KfdOp::WaitEvents) }
    else if nr == 0x11 { Some(KfdOp::SetScratchBackingVa) }
    else if nr == 0x13 { Some(KfdOp::SetTrapHandler) }
    else if nr == 0x14 { Some(KfdOp::GetProcessAperturesNew) }
    else if nr == 0x15 { Some(KfdOp::AcquireVm) }
    else if nr == 0x16 { Some(KfdOp::AllocMemoryOfGpu) }
    else if nr == 0x17 { Some(KfdOp::FreeMemoryOfGpu) }
    else if nr == 0x18 { Some(KfdOp::MapMemoryToGpu) }
    else if nr == 0x19 { Some(KfdOp::UnmapMemoryFromGpu) }
    else if nr == 0x21 { Some(KfdOp::SetXnackMode) }
    else if nr == 0x25 { Some(KfdOp::RuntimeEnable) }
    else { None }
}

/// The size in bytes of each ioctl's argument block.
pub open spec fn spec_kfd_args_size(op: KfdOp) -> u32 {
    match op {
        KfdOp::GetVersion => 8,
        KfdOp::SetMemoryPolicy => 32,
        KfdOp::GetClockCounters => 40,
        KfdOp::CreateEvent => 32,
        KfdOp::DestroyEvent => 8,
        KfdOp::SetEvent => 8,
        KfdOp::ResetEvent => 8,
        KfdOp::WaitEvents => 24,
        KfdOp::SetScratchBackingVa => 16,
        KfdOp::SetTrapHandler => 24,
        KfdOp::GetProcessAperturesNew => 16,
        KfdOp::AcquireVm => 8,
        KfdOp::AllocMemoryOfGpu => 40,
        KfdOp::FreeMemoryOfGpu => 8,
        KfdOp::MapMemoryToGpu => 24,
        KfdOp::UnmapMemoryFromGpu => 24,
        KfdOp::SetXnackMode => 4,
        KfdOp::RuntimeEnable => 16,
    }
}

/// The command number `linux/kfd_ioctl.h` defines for each handled ioctl
/// (`AMDKFD_IOC_*`: its direction, type `K`, number and the size of its
/// argument struct).
pub open spec fn kfd_kernel_cmd(op: KfdOp) -> u32 {
    match op {
        KfdOp::GetVersion => 0x80084B01,
        KfdOp::SetMemoryPolicy => 0x40204B04,
        KfdOp::GetClockCounters => 0xC0284B05,
        KfdOp::CreateEvent => 0xC0204B08,
        KfdOp::DestroyEvent => 0x40084B09,
        KfdOp::SetEvent => 0x40084B0A,
        KfdOp::ResetEvent => 0x40084B0B,
        KfdOp::WaitEvents => 0xC0184B0C,
        KfdOp::SetScratchBackingVa => 0xC0104B11,
        KfdOp::SetTrapHandler => 0x40184B13,
        KfdOp::GetProcessAperturesNew => 0xC0104B14,
        KfdOp::AcquireVm => 0x40084B15,
        KfdOp::AllocMemoryOfGpu => 0xC0284B16,
        KfdOp::FreeMemoryOfGpu => 0x40084B17,
        KfdOp::MapMemoryToGpu => 0xC0184B18,
        KfdOp::UnmapMemoryFromGpu => 0xC0184B19,
        KfdOp::SetXnackMode => 0xC0044B21,
        KfdOp::RuntimeEnable => 0xC0104B25,
    }
}

proof fn lemma_kernel_cmd_fields()
    ensures
        spec_nr(0x80084B01u32) == 0x01u32 && spec_size(0x80084B01u32) == 8u32 &&
        spec_nr(0x40204B04u32) == 0x04u32 && spec_size(0x40204B04u32) == 32u32 &&
        spec_nr(0xC0284B05u32) == 0x05u32 && spec_size(0xC0284B05u32) == 40u32 &&
        spec_nr(0xC0204B08u32) == 0x08u32 && spec_size(0xC0204B08u32) == 32u32 &&
        spec_nr(0x40084B09u32) == 0x09u32 && spec_size(0x40084B09u32) == 8u32 &&
        spec_nr(0x40084B0Au32) == 0x0Au32 && spec_size(0x40084B0Au32) == 8u32 &&
        spec_nr(0x40084B0Bu32) == 0x0Bu32 && spec_size(0x40084B0Bu32) == 8u32 &&
        spec_nr(0xC0184B0Cu32) == 0x0Cu32 && spec_size(0xC0184B0Cu32) == 24u32 &&
        spec_nr(0xC0104B11u32) == 0x11u32 && spec_size(0xC0104B11u32) == 16u32 &&
        spec_nr(0x40184B13u32) == 0x13u32 && spec_size(0x40184B13u32) == 24u32 &&
        spec_nr(0xC0104B14u32) == 0x14u32 && spec_size(0xC0104B14u32) == 16u32 &&
        spec_nr(0x40084B15u32) == 0x15u32 && spec_size(0x40084B15u32) == 8u32 &&
        spec_nr(0xC0284B16u32) == 0x16u32 && spec_size(0xC0284B16u32) == 40u32 &&
        spec_nr(0x40084B17u32) == 0x17u32 && spec_size(0x40084B17u32) == 8u32 &&
        spec_nr(0xC0184B18u32) == 0x18u32 && spec_size(0xC0184B18u32) == 24u32 &&
        spec_nr(0xC0184B19u32) == 0x19u32 && spec_size(0xC0184B19u32) == 24u32 &&
        spec_nr(0xC0044B21u32) == 0x21u32 && spec_size(0xC0044B21u32) == 4u32 &&
        spec_nr(0xC0104B25u32) == 0x25u32 && spec_size(0xC0104B25u32) == 16u32,
{
    assert(
        spec_nr(0x80084B01u32) == 0x01u32 && spec_size(0x80084B01u32) == 8u32 &&
        spec_nr(0x40204B04u32) == 0x04u32 && spec_size(0x40204B04u32) == 32u32 &&
        spec_nr(0xC0284B05u32) == 0x05u32 && spec_size(0xC0284B05u32) == 40u32 &&
        spec_nr(0xC0204B08u32) == 0x08u32 && spec_size(0xC0204B08u32) == 32u32 &&
        spec_nr(0x40084B09u32) == 0x09u32 && spec_size(0x40084B09u32) == 8u32 &&
        spec_nr(0x40084B0Au32) == 0x0Au32 && spec_size(0x40084B0Au32) == 8u32 &&
        spec_nr(0x40084B0Bu32) == 0x0Bu32 && spec_size(0x40084B0Bu32) == 8u32 &&
        spec_nr(0xC0184B0Cu32) == 0x0Cu32 && spec_size(0xC0184B0Cu32) == 24u32 &&
        spec_nr(0xC0104B11u32) == 0x11u32 && spec_size(0xC0104B11u32) == 16u32 &&
        spec_nr(0x40184B13u32) == 0x13u32 && spec_size(0x40184B13u32) == 24u32 &&
        spec_nr(0xC0104B14u32) == 0x14u32 && spec_size(0xC0104B14u32) == 16u32 &&
        spec_nr(0x40084B15u32) == 0x15u32 && spec_size(0x40084B15u32) == 8u32 &&
        spec_nr(0xC0284B16u32) == 0x16u32 && spec_size(0xC0284B16u32) == 40u32 &&
        spec_nr(0x40084B17u32) == 0x17u32 && spec_size(0x40084B17u32) == 8u32 &&
        spec_nr(0xC0184B18u32) == 0x18u32 && spec_size(0xC0184B18u32) == 24u32 &&
        spec_nr(0xC0184B19u32) == 0x19u32 && spec_size(0xC0184B19u32) == 24u32 &&
        spec_nr(0xC0044B21u32) == 0x21u32 && spec_size(0xC0044B21u32) == 4u32 &&
        spec_nr(0xC0104B25u32) == 0x25u32 && spec_size(0xC0104B25u32) == 16u32
    ) by (bit_vector);
}

/// The command number the kernel header defines for each handled ioctl
/// classifies as that ioctl, and its size field is exactly the size of the
/// argument block the interceptor reads and writes.
pub proof fn lemma_kernel_cmds_classify(op: KfdOp)
    ensures
        spec_classify_kfd(kfd_kernel_cmd(op)) == Ok::<KfdOp, i32>(op),
        spec_kfd_args_size(op) == spec_size(kfd_kernel_cmd(op)),
{
    lemma_kernel_cmd_fields();
}

/// The handled ioctl with command number `nr`.
pub fn kfd_op(nr: u32) -> (r: Option<KfdOp>)
    ensures
        r == spec_kfd_op(nr),
{
    if nr == 0x01 { Some(KfdOp::GetVersion) }
    else if nr == 0x04 { Some(KfdOp::SetMemoryPolicy) }
    else if nr == 0x05 { Some(KfdOp::GetClockCounters) }
    else if nr == 0x08 { Some(KfdOp::CreateEvent) }
    else if nr == 0x09 { Some(KfdOp::DestroyEvent) }
    else if nr == 0x0A { Some(KfdOp::SetEvent) }
    else if nr == 0x0B { Some(KfdOp::ResetEvent) }
    else if nr == 0x0C { Some(KfdOp::WaitEvents) }
    else if nr == 0x11 { Some(KfdOp::SetScratchBackingVa) }
    else if nr == 0x13 { Some(KfdOp::SetTrapHandler) }
    else if nr == 0x14 { Some(KfdOp::GetProcessAperturesNew) }
    else if nr == 0x15 { Some(KfdOp::AcquireVm) }
    else if nr == 0x16 { Some(KfdOp::AllocMemoryOfGpu) }
    else if nr == 0x17 { Some(KfdOp::FreeMemoryOfGpu) }
    else if nr == 0x18 { Some(KfdOp::MapMemoryToGpu) }
    else if nr == 0x19 { Some(KfdOp::UnmapMemoryFromGpu) }
    else if nr == 0x21 { Some(KfdOp::SetXnackMode) }
    else if nr == 0x25 { Some(KfdOp::RuntimeEnable) }
    else { None }
}

/// The size in bytes of `op`'s argument block.
pub fn kfd_args_size(op: KfdOp) -> (r: u32)
    ensures
        r == spec_kfd_args_size(op),
        r == spec_size(kfd_kernel_cmd(op)),
{
    proof {
        lemma_kernel_cmds_classify(op);
    }
    match op {
        KfdOp::GetVersion => 8,
        KfdOp::SetMemoryPolicy => 32,
        KfdOp::GetClockCounters => 40,
        KfdOp::CreateEvent => 32,
        KfdOp::DestroyEvent => 8,
        KfdOp::SetEvent => 8,
        KfdOp::ResetEvent => 8,
        KfdOp::WaitEvents => 24,
        KfdOp::SetScratchBackingVa => 16,
        KfdOp::SetTrapHandler => 24,
        KfdOp::GetProcessAperturesNew => 16,
        KfdOp::AcquireVm => 8,
        KfdOp::AllocMemoryOfGpu => 40,
        KfdOp::FreeMemoryOfGpu => 8,
        KfdOp::MapMemoryToGpu => 24,
        KfdOp::UnmapMemoryFromGpu => 24,
        KfdOp::SetXnackMode => 4,
        KfdOp::RuntimeEnable => 16,
    }
}

/// Which handled ioctl a KFD command is: an unknown command number is not
/// implemented (`ENOSYS`), a known one whose size field is smaller than its
/// argument block is invalid (`EINVAL`).
pub open spec fn spec_classify_kfd(cmd: u32) -> Result<KfdOp, i32> {
    match spec_kfd_op(spec_nr(cmd)) {
        None => Err(ENOSYS),
        Some(op) => if spec_size(cmd) < spec_kfd_args_size(op) { Err(EINVAL) } else { Ok(op) },
    }
}

/// Which handled ioctl the KFD command `cmd` is, or the errno it fails with.
pub fn classify_kfd_ioctl(cmd: u32) -> (r: Result<KfdOp, i32>)
    ensures
        r == spec_classify_kfd(cmd),
        forall|op: KfdOp| cmd == #[trigger] kfd_kernel_cmd(op) ==> r == Ok::<KfdOp, i32>(op),
{
    proof {
        assert forall|op: KfdOp| cmd == #[trigger] kfd_kernel_cmd(op) implies spec_classify_kfd(cmd) == Ok::<KfdOp, i32>(op) by {
            lemma_kernel_cmds_classify(op);
        }
    }
    match kfd_op(nr(cmd)) {
        None => Err(ENOSYS),
        Some(op) => if size(cmd) < kfd_args_size(op) { Err(EINVAL) } else { Ok(op) },
    }
}


/// The fields of a KFD argument block that the interceptor reads or
/// writes, one variant per handled ioctl.
#[derive(Debug, Clone, Copy, PartialEq, Eq, Structural)]
pub enum KfdArgs {
    GetVersion { major_version: u32, minor_version: u32 },
    SetMemoryPolicy {
        alternate_aperture_base: u64,
        alternate_aperture_size: u64,
        gpu_id: u32,
        default_policy: u32,
        alternate_policy: u32,
        misc_process_flag: u32,
    },
    GetClockCounters {
        gpu_clock_counter: u64,
        cpu_clock_counter: u64,
        system_clock_counter: u64,
        system_clock_freq: u64,
        gpu_id: u32,
    },
    CreateEvent {
        event_page_offset: u64,
        event_trigger_data: u32,
        event_type: u32,
        auto_reset: u32,
        node_id: u32,
        event_id: u32,
        event_slot_index: u32,
    },
    DestroyEvent { event_id: u32 },
    SetEvent { event_id: u32 },
    ResetEvent { event_id: u32 },
    WaitEvents { events_ptr: u64, num_events: u32, wait_for_all: u32, timeout: u32, wait_result: u32 },
    SetScratchBackingVa { va_addr: u64, gpu_id: u32 },
    SetTrapHandler { tba_addr: u64, tma_addr: u64, gpu_id: u32 },
    GetProcessAperturesNew { apertures_ptr: u64, num_of_nodes: u32 },
    AcquireVm { drm_fd: u32, gpu_id: u32 },
    AllocMemoryOfGpu { va_addr: u64, size: u64, handle: u64, mmap_offset: u64, gpu_id: u32, flags: u32 },
    FreeMemoryOfGpu { handle: u64 },
    MapMemoryToGpu { handle: u64, device_ids_ptr: u64, n_devices: u32, n_success: u32 },
    UnmapMemoryFromGpu { handle: u64, device_ids_ptr: u64, n_devices: u32, n_success: u32 },
    SetXnackMode { xnack_enabled: i32 },
    RuntimeEnable { r_debug: u64, mode_mask: u32, capabilities_mask: u32 },
}

/// The ioctl an argument block belongs to.
pub open spec fn spec_args_op(args: KfdArgs) -> KfdOp {
    match args {
        KfdArgs::GetVersion { .. } => KfdOp::GetVersion,
        KfdArgs::SetMemoryPolicy { .. } => KfdOp::SetMemoryPolicy,
        KfdArgs::GetClockCounters { .. } => KfdOp::GetClockCounters,
        KfdArgs::CreateEvent { .. } => KfdOp::CreateEvent,
        KfdArgs::DestroyEvent { .. } => KfdOp::DestroyEvent,
        KfdArgs::SetEvent { .. } => KfdOp::SetEvent,
        KfdArgs::ResetEvent { .. } => KfdOp::ResetEvent,
        KfdArgs::WaitEvents { .. } => KfdOp::WaitEvents,
        KfdArgs::SetScratchBackingVa { .. } => KfdOp::SetScratchBackingVa,
        KfdArgs::SetTrapHandler { .. } => KfdOp::SetTrapHandler,
        KfdArgs::GetProcessAperturesNew { .. } => KfdOp::GetProcessAperturesNew,
        KfdArgs::AcquireVm { .. } => KfdOp::AcquireVm,
        KfdArgs::AllocMemoryOfGpu { .. } => KfdOp::AllocMemoryOfGpu,
        KfdArgs::FreeMemoryOfGpu { .. } => KfdOp::FreeMemoryOfGpu,
        KfdArgs::MapMemoryToGpu { .. } => KfdOp::MapMemoryToGpu,
        KfdArgs::UnmapMemoryFromGpu { .. } => KfdOp::UnmapMemoryFromGpu,
        KfdArgs::SetXnackMode { .. } => KfdOp::SetXnackMode,
        KfdArgs::RuntimeEnable { .. } => KfdOp::RuntimeEnable,
    }
}

/// What must be read from the caller's memory, beyond the argument block,
/// before a request can be built.
#[derive(Debug, Clone, Copy, PartialEq, Eq, Structural)]
pub enum UserRead {
    Nothing,
    /// `count` device ids (`u32`) at `ptr`.
    DeviceIds { ptr: u64, count: u32 },
    /// `count` event records at `ptr`.
    Events { ptr: u64, count: u32 },
}

/// The extra reads an argument block asks for: a device-id list is read
/// when it is not empty and faults (`EFAULT`) on a null pointer; an event
/// list must be non-empty and non-null (`EINVAL` otherwise).
pub open spec fn spec_user_read(args: KfdArgs) -> Result<UserRead, i32> {
    match args {
        KfdArgs::MapMemoryToGpu { device_ids_ptr, n_devices, .. } => spec_device_ids_read(device_ids_ptr, n_devices),
        KfdArgs::UnmapMemoryFromGpu { device_ids_ptr, n_devices, .. } => spec_device_ids_read(device_ids_ptr, n_devices),
        KfdArgs::WaitEvents { events_ptr, num_events, .. } =>
            if events_ptr == 0 || num_events == 0 { Err(EINVAL) } else { Ok(UserRead::Events { ptr: events_ptr, count: num_events }) },
        _ => Ok(UserRead::Nothing),
    }
}

/// The read of a device-id list of `count` entries at `ptr`.
pub open spec fn spec_device_ids_read(ptr: u64, count: u32) -> Result<UserRead, i32> {
    if count == 0 { Ok(UserRead::Nothing) }
    else if ptr == 0 { Err(EFAULT) }
    else { Ok(UserRead::DeviceIds { ptr, count }) }
}

fn device_ids_read(ptr: u64, count: u32) -> (r: Result<UserRead, i32>)
    ensures
        r == spec_device_ids_read(ptr, count),
{
    if count == 0 { Ok(UserRead::Nothing) }
    else if ptr == 0 { Err(EFAULT) }
    else { Ok(UserRead::DeviceIds { ptr, count }) }
}

/// The extra reads `args` asks for, or the errno the ioctl fails with.
pub fn user_read(args: &KfdArgs) -> (r: Result<UserRead, i32>)
    ensures
        r == spec_user_read(*args),
{
    match args {
        KfdArgs::MapMemoryToGpu { device_ids_ptr, n_devices, .. } => device_ids_read(*device_ids_ptr, *n_devices),
        KfdArgs::UnmapMemoryFromGpu { device_ids_ptr, n_devices, .. } => device_ids_read(*device_ids_ptr, *n_devices),
        KfdArgs::WaitEvents { events_ptr, num_events, .. } =>
            if *events_ptr == 0 || *num_events == 0 { Err(EINVAL) } else { Ok(UserRead::Events { ptr: *events_ptr, count: *num_events }) },
        _ => Ok(UserRead::Nothing),
    }
}

/// The `flags` bit of an allocation that registers user memory.
pub const KFD_IOC_ALLOC_MEM_FLAGS_USERPTR: u32 = 0x4;

/// Handles at or above this value are minted by the interceptor for
/// user-memory allocations; the daemon never sees them.
pub const SYNTHETIC_HANDLE_BASE: u64 = 0xFFFF_0000_0000_0000;

/// The first synthetic handle handed out.
pub const SYNTHETIC_HANDLE_FIRST: u64 = 0xFFFF_0000_0000_0001;

/// Whether `handle` was minted by the interceptor.
pub open spec fn spec_is_synthetic(handle: u64) -> bool {
    handle >= SYNTHETIC_HANDLE_BASE
}

/// Whether an allocation registers user memory.
pub open spec fn spec_is_userptr(flags: u32) -> bool {
    flags & KFD_IOC_ALLOC_MEM_FLAGS_USERPTR != 0
}

/// The counter that mints synthetic handles.
#[derive(Debug)]
pub struct SyntheticHandles {
    next: u64,
}

impl SyntheticHandles {
    /// The handle the next user-memory allocation receives.
    pub closed spec fn next(&self) -> u64 {
        self.next
    }

    /// A counter that starts at [`SYNTHETIC_HANDLE_FIRST`].
    pub fn new() -> (r: Self)
        ensures
            r.next() == SYNTHETIC_HANDLE_FIRST,
    {
        SyntheticHandles { next: SYNTHETIC_HANDLE_FIRST }
    }

    /// Mint a handle: the current value, after which the counter moves on
    /// by one (wrapping, as an atomic fetch-and-add does).
    pub fn take(&mut self) -> (h: u64)
        ensures
            h == old(self).next(),
            final(self).next() == (if old(self).next() == u64::MAX { 0 } else { (old(self).next() + 1) as u64 }),
    {
        let h = self.next;
        self.next = self.next.wrapping_add(1);
        h
    }
}

/// One event record of a WAIT_EVENTS list as it sits in the caller's
/// memory: the payload union as eight 32-bit words (the memory-exception
/// view uses all eight, the hardware-exception view the first four).
#[derive(Debug, Clone, Copy, PartialEq, Eq)]
pub struct KfdEventDataRaw {
    pub payload: [u32; 8],
    pub kfd_event_data_ext: u64,
    pub event_id: u32,
    pub pad: u32,
}

/// The event sent to the emulator for a raw record: its id and extension
/// word; the payload is an output and is not sent.
pub open spec fn spec_event_to_schema(raw: KfdEventDataRaw) -> KfdEventData {
    KfdEventData {
        event_id: raw.event_id,
        memory_exception_data: None,
        hw_exception_data: None,
        kfd_event_data_ext: raw.kfd_event_data_ext,
    }
}

/// The event sent to the emulator for a raw record.
pub fn event_data_to_schema(raw: &KfdEventDataRaw) -> (r: KfdEventData)
    ensures
        r == spec_event_to_schema(*raw),
{
    KfdEventData {
        event_id: raw.event_id,
        memory_exception_data: None,
        hw_exception_data: None,
        kfd_event_data_ext: raw.kfd_event_data_ext,
    }
}

/// The low 32 bits of `v`.
pub open spec fn lo32(v: u64) -> u32 {
    (v % 0x1_0000_0000) as u32
}

/// The high 32 bits of `v`.
pub open spec fn hi32(v: u64) -> u32 {
    (v / 0x1_0000_0000) as u32
}

/// The payload words of a memory-exception event (the address stored low
/// word first).
pub open spec fn memory_payload(m: KfdMemoryExceptionData) -> Seq<u32> {
    seq![
        m.failure.not_present, m.failure.read_only, m.failure.no_execute, m.failure.imprecise,
        lo32(m.va), hi32(m.va), m.gpu_id, m.error_type,
    ]
}

/// The payload words after a hardware-exception event is written over
/// `old`: the first four words change, the rest stay.
pub open spec fn hw_payload(h: KfdHwExceptionData, old: Seq<u32>) -> Seq<u32> {
    seq![h.reset_type, h.reset_cause, h.memory_lost, h.gpu_id, old[4], old[5], old[6], old[7]]
}

/// A reply event written over the raw record `raw`: id and extension word
/// always, the payload when the event carries one (a memory exception
/// taking precedence over a hardware exception).
pub open spec fn spec_event_from_schema(e: KfdEventData, raw: KfdEventDataRaw) -> (KfdEventDataRaw, Seq<u32>) {
    let payload = match e.memory_exception_data {
        Some(m) => memory_payload(m),
        None => match e.hw_exception_data {
            Some(h) => hw_payload(h, raw.payload@),
            None => raw.payload@,
        },
    };
    (KfdEventDataRaw { kfd_event_data_ext: e.kfd_event_data_ext, event_id: e.event_id, ..raw }, payload)
}

/// Whether `out` is the record `raw` after the reply event `e` is written
/// over it.
pub open spec fn event_written(e: KfdEventData, raw: KfdEventDataRaw, out: KfdEventDataRaw) -> bool {
    let (fields, payload) = spec_event_from_schema(e, raw);
    &&& out.kfd_event_data_ext == fields.kfd_event_data_ext
    &&& out.event_id == fields.event_id
    &&& out.pad == raw.pad
    &&& out.payload@ == payload
}

fn split_u64(v: u64) -> (r: (u32, u32))
    ensures
        r.0 == lo32(v),
        r.1 == hi32(v),
{
    let lo = (v & 0xffff_ffff) as u32;
    let hi = (v >> 32) as u32;
    assert(v & 0xffff_ffff == v % 0x1_0000_0000) by (bit_vector);
    assert(v >> 32 == v / 0x1_0000_0000) by (bit_vector);
    (lo, hi)
}

/// Write the reply event `e` over the raw record `raw`.
pub fn event_data_from_schema(e: &KfdEventData, raw: &KfdEventDataRaw) -> (r: KfdEventDataRaw)
    ensures
        event_written(*e, *raw, r),
{
    let payload: [u32; 8] = match e.memory_exception_data {
        Some(m) => {
            let (lo, hi) = split_u64(m.va);
            [
                m.failure.not_present, m.failure.read_only, m.failure.no_execute, m.failure.imprecise,
                lo, hi, m.gpu_id, m.error_type,
            ]
        },
        None => match e.hw_exception_data {
            Some(h) => [h.reset_type, h.reset_cause, h.memory_lost, h.gpu_id, raw.payload[4], raw.payload[5], raw.payload[6], raw.payload[7]],
            None => raw.payload,
        },
    };
    let r = KfdEventDataRaw { payload, kfd_event_data_ext: e.kfd_event_data_ext, event_id: e.event_id, pad: raw.pad };
    assert(r.payload@ =~= spec_event_from_schema(*e, *raw).1);
    r
}

/// Writing back the event sent for a record changes nothing in it: the
/// request carries the record's id and extension word, and no payload.
pub proof fn lemma_event_round_trip(raw: KfdEventDataRaw)
    ensures
        event_written(spec_event_to_schema(raw), raw, raw),
{
}

/// The two payload words of a memory-exception address give the address
/// back (low word plus high word shifted up by 32 bits).
pub proof fn lemma_address_words(va: u64)
    ensures
        lo32(va) + hi32(va) * 0x1_0000_0000 == va,
{
    assert(va % 0x1_0000_0000 + (va / 0x1_0000_0000) * 0x1_0000_0000 == va) by (nonlinear_arith);
}

/// The cache policy a raw `u32` names.
pub open spec fn spec_cache_policy(value: u32) -> Option<KfdCachePolicy> {
    if value == 0 { Some(KfdCachePolicy::Coherent) }
    else if value == 1 { Some(KfdCachePolicy::Noncoherent) }
    else { None }
}

/// The cache policy a raw `u32` names.
pub fn cache_policy_from_raw(value: u32) -> (r: Option<KfdCachePolicy>)
    ensures
        r == spec_cache_policy(value),
{
    if value == 0 { Some(KfdCachePolicy::Coherent) }
    else if value == 1 { Some(KfdCachePolicy::Noncoherent) }
    else { None }
}

/// The event type a raw `u32` names.
pub open spec fn spec_event_type(value: u32) -> Option<KfdEventType> {
    if value == 0 { Some(KfdEventType::Signal) }
    else if value == 1 { Some(KfdEventType::NodeChange) }
    else if value == 2 { Some(KfdEventType::DeviceStateChange) }
    else if value == 3 { Some(KfdEventType::HwException) }
    else if value == 4 { Some(KfdEventType::SystemEvent) }
    else if value == 5 { Some(KfdEventType::DebugEvent) }
    else if value == 6 { Some(KfdEventType::ProfileEvent) }
    else if value == 7 { Some(KfdEventType::QueueEvent) }
    else if value == 8 { Some(KfdEventType::Memory) }
    else { None }
}

/// The event type a raw `u32` names.
pub fn event_type_from_raw(value: u32) -> (r: Option<KfdEventType>)
    ensures
        r == spec_event_type(value),
{
    if value == 0 { Some(KfdEventType::Signal) }
    else if value == 1 { Some(KfdEventType::NodeChange) }
    else if value == 2 { Some(KfdEventType::DeviceStateChange) }
    else if value == 3 { Some(KfdEventType::HwException) }
    else if value == 4 { Some(KfdEventType::SystemEvent) }
    else if value == 5 { Some(KfdEventType::DebugEvent) }
    else if value == 6 { Some(KfdEventType::ProfileEvent) }
    else if value == 7 { Some(KfdEventType::QueueEvent) }
    else if value == 8 { Some(KfdEventType::Memory) }
    else { None }
}

/// What to do with a KFD ioctl once its argument block (and any list it
/// points to) has been read.
#[derive(Debug, PartialEq, Eq)]
pub enum KfdStep {
    /// Send this request to the emulator; its reply goes to [`kfd_complete`].
    Forward(KfdRequest),
    /// Answered without the emulator: write this block back, return 0.
    Done(KfdArgs),
    /// Fail with this errno.
    Fail(i32),
}

/// The descriptor the daemon knows for the caller's DRM descriptor `fd`:
/// its daemon counterpart when it has one, else `fd` itself.
pub open spec fn spec_daemon_drm_fd(reg: Map<i32, crate::device::TrackedFd>, fd: u32) -> u32 {
    let cookie = fd as i32;
    if reg.contains_key(cookie) && reg[cookie].remote_fd >= 0 { reg[cookie].remote_fd as u32 } else { fd }
}

/// The runtime-enable flags word: the mode mask low, the capabilities
/// mask high.
pub open spec fn runtime_flags(mode_mask: u32, capabilities_mask: u32) -> u64 {
    (mode_mask + capabilities_mask * 0x1_0000_0000) as u64
}

/// The step for a KFD argument block: `device_ids` and `events` are what
/// [`user_read`] asked to be read (empty when nothing was), `reg` the
/// descriptor registry and `next` the next synthetic handle.
pub open spec fn kfd_begin_result(
    args: KfdArgs,
    device_ids: Seq<u32>,
    events: Seq<KfdEventDataRaw>,
    reg: Map<i32, crate::device::TrackedFd>,
    next: u64,
    r: KfdStep,
) -> bool {
    match args {
        KfdArgs::GetVersion { .. } => r == KfdStep::Forward(KfdRequest::GetVersion),
        KfdArgs::SetMemoryPolicy {
            alternate_aperture_base, alternate_aperture_size, gpu_id, default_policy, alternate_policy, misc_process_flag,
        } => match (spec_cache_policy(default_policy), spec_cache_policy(alternate_policy)) {
            (Some(d), Some(a)) => r == KfdStep::Forward(KfdRequest::SetMemoryPolicy {
                alternate_aperture_base, alternate_aperture_size, gpu_id,
                default_policy: d, alternate_policy: a, misc_process_flag,
            }),
            _ => r == KfdStep::Fail(EINVAL),
        },
        KfdArgs::GetClockCounters { gpu_id, .. } => r == KfdStep::Forward(KfdRequest::GetClockCounters { gpu_id }),
        KfdArgs::CreateEvent { event_type, auto_reset, node_id, .. } => match spec_event_type(event_type) {
            Some(t) => r == KfdStep::Forward(KfdRequest::CreateEvent { event_type: t, auto_reset, node_id }),
            None => r == KfdStep::Fail(EINVAL),
        },
        KfdArgs::DestroyEvent { event_id } => r == KfdStep::Forward(KfdRequest::DestroyEvent { event_id }),
        KfdArgs::SetEvent { event_id } => r == KfdStep::Forward(KfdRequest::SetEvent { event_id }),
        KfdArgs::ResetEvent { event_id } => r == KfdStep::Forward(KfdRequest::ResetEvent { event_id }),
        KfdArgs::WaitEvents { wait_for_all, timeout, .. } => match r {
            KfdStep::Forward(KfdRequest::WaitEvents { events: sent, wait_for_all: w, timeout: t }) =>
                sent@ == events.map_values(|e: KfdEventDataRaw| spec_event_to_schema(e)) && w == (wait_for_all != 0) && t == timeout,
            _ => false,
        },
        KfdArgs::SetScratchBackingVa { va_addr, gpu_id } => r == KfdStep::Forward(KfdRequest::SetScratchBackingVa { va_addr, gpu_id }),
        KfdArgs::SetTrapHandler { tba_addr, tma_addr, gpu_id } =>
            r == KfdStep::Forward(KfdRequest::SetTrapHandler { tba_addr, tma_addr, gpu_id }),
        KfdArgs::GetProcessAperturesNew { num_of_nodes, .. } =>
            r == KfdStep::Forward(KfdRequest::GetProcessAperturesNew { max_nodes: num_of_nodes }),
        KfdArgs::AcquireVm { drm_fd, gpu_id } =>
            r == KfdStep::Forward(KfdRequest::AcquireVm { drm_fd: spec_daemon_drm_fd(reg, drm_fd), gpu_id }),
        KfdArgs::AllocMemoryOfGpu { va_addr, size, handle, mmap_offset, gpu_id, flags } =>
            if spec_is_userptr(flags) {
                r == KfdStep::Done(KfdArgs::AllocMemoryOfGpu { va_addr, size, handle: next, mmap_offset, gpu_id, flags })
            } else {
                r == KfdStep::Forward(KfdRequest::AllocMemoryOfGpu { va_addr, size, gpu_id, flags, mmap_offset })
            },
        KfdArgs::FreeMemoryOfGpu { handle } =>
            if spec_is_synthetic(handle) { r == KfdStep::Done(args) }
            else { r == KfdStep::Forward(KfdRequest::FreeMemoryOfGpu { handle }) },
        KfdArgs::MapMemoryToGpu { handle, device_ids_ptr, n_devices, .. } =>
            if spec_is_synthetic(handle) {
                r == KfdStep::Done(KfdArgs::MapMemoryToGpu { handle, device_ids_ptr, n_devices, n_success: n_devices })
            } else {
                match r {
                    KfdStep::Forward(KfdRequest::MapMemoryToGpu { handle: h, device_ids: ids }) => h == handle && ids@ == device_ids,
                    _ => false,
                }
            },
        KfdArgs::UnmapMemoryFromGpu { handle, device_ids_ptr, n_devices, .. } =>
            if spec_is_synthetic(handle) {
                r == KfdStep::Done(KfdArgs::UnmapMemoryFromGpu { handle, device_ids_ptr, n_devices, n_success: n_devices })
            } else {
                match r {
                    KfdStep::Forward(KfdRequest::UnmapMemoryFromGpu { handle: h, device_ids: ids }) => h == handle && ids@ == device_ids,
                    _ => false,
                }
            },
        KfdArgs::SetXnackMode { xnack_enabled } => r == KfdStep::Forward(KfdRequest::SetXnackMode { xnack_enabled }),
        KfdArgs::RuntimeEnable { mode_mask, capabilities_mask, .. } =>
            r == KfdStep::Forward(KfdRequest::RuntimeEnable { flags: runtime_flags(mode_mask, capabilities_mask) }),
    }
}

/// Whether `args` is a user-memory allocation, which takes a synthetic
/// handle.
pub open spec fn takes_synthetic_handle(args: KfdArgs) -> bool {
    match args {
        KfdArgs::AllocMemoryOfGpu { flags, .. } => spec_is_userptr(flags),
        _ => false,
    }
}

fn is_userptr(flags: u32) -> (r: bool)
    ensures
        r == spec_is_userptr(flags),
{
    flags & KFD_IOC_ALLOC_MEM_FLAGS_USERPTR != 0
}

fn runtime_flags_word(mode_mask: u32, capabilities_mask: u32) -> (r: u64)
    ensures
        r == runtime_flags(mode_mask, capabilities_mask),
{
    let r = (mode_mask as u64) | ((capabilities_mask as u64) << 32);
    assert((mode_mask as u64) | ((capabilities_mask as u64) << 32) == mode_mask + capabilities_mask * 0x1_0000_0000) by (bit_vector);
    r
}

fn events_to_schema(events: &[KfdEventDataRaw]) -> (r: Vec<KfdEventData>)
    ensures
        r@ == events@.map_values(|e: KfdEventDataRaw| spec_event_to_schema(e)),
{
    let mut r: Vec<KfdEventData> = Vec::new();
    let mut i: usize = 0;
    while i < events.len()
        invariant
            0 <= i <= events@.len(),
            r@ == events@.take(i as int).map_values(|e: KfdEventDataRaw| spec_event_to_schema(e)),
        decreases events@.len() - i,
    {
        r.push(event_data_to_schema(&events[i]));
        i += 1;
        assert(r@ =~= events@.take(i as int).map_values(|e: KfdEventDataRaw| spec_event_to_schema(e)));
    }
    assert(events@.take(i as int) =~= events@);
    r
}

/// Decide what a KFD ioctl does: forward a request built from the block,
/// answer it locally (user-memory allocations, and frees and (un)maps of
/// the handles those receive), or fail. Only a user-memory allocation
/// advances the synthetic handle counter.
pub fn kfd_begin(
    args: &KfdArgs,
    device_ids: Vec<u32>,
    events: &[KfdEventDataRaw],
    registry: &FdRegistry,
    handles: &mut SyntheticHandles,
) -> (r: KfdStep)
    ensures
        kfd_begin_result(*args, device_ids@, events@, registry@, old(handles).next(), r),
        takes_synthetic_handle(*args) ==> final(handles).next() == (if old(handles).next() == u64::MAX { 0 } else { (old(handles).next() + 1) as u64 }),
        !takes_synthetic_handle(*args) ==> final(handles).next() == old(handles).next(),
{
    match *args {
        KfdArgs::GetVersion { .. } => KfdStep::Forward(KfdRequest::GetVersion),
        KfdArgs::SetMemoryPolicy {
            alternate_aperture_base, alternate_aperture_size, gpu_id, default_policy, alternate_policy, misc_process_flag,
        } => {
            let d = match cache_policy_from_raw(default_policy) {
                Some(d) => d,
                None => return KfdStep::Fail(EINVAL),
            };
            let a = match cache_policy_from_raw(alternate_policy) {
                Some(a) => a,
                None => return KfdStep::Fail(EINVAL),
            };
            KfdStep::Forward(KfdRequest::SetMemoryPolicy {
                alternate_aperture_base, alternate_aperture_size, gpu_id,
                default_policy: d, alternate_policy: a, misc_process_flag,
            })
        },
        KfdArgs::GetClockCounters { gpu_id, .. } => KfdStep::Forward(KfdRequest::GetClockCounters { gpu_id }),
        KfdArgs::CreateEvent { event_type, auto_reset, node_id, .. } => match event_type_from_raw(event_type) {
            Some(t) => KfdStep::Forward(KfdRequest::CreateEvent { event_type: t, auto_reset, node_id }),
            None => KfdStep::Fail(EINVAL),
        },
        KfdArgs::DestroyEvent { event_id } => KfdStep::Forward(KfdRequest::DestroyEvent { event_id }),
        KfdArgs::SetEvent { event_id } => KfdStep::Forward(KfdRequest::SetEvent { event_id }),
        KfdArgs::ResetEvent { event_id } => KfdStep::Forward(KfdRequest::ResetEvent { event_id }),
        KfdArgs::WaitEvents { wait_for_all, timeout, .. } => KfdStep::Forward(KfdRequest::WaitEvents {
            events: events_to_schema(events),
            wait_for_all: wait_for_all != 0,
            timeout,
        }),
        KfdArgs::SetScratchBackingVa { va_addr, gpu_id } => KfdStep::Forward(KfdRequest::SetScratchBackingVa { va_addr, gpu_id }),
        KfdArgs::SetTrapHandler { tba_addr, tma_addr, gpu_id } =>
            KfdStep::Forward(KfdRequest::SetTrapHandler { tba_addr, tma_addr, gpu_id }),
        KfdArgs::GetProcessAperturesNew { num_of_nodes, .. } =>
            KfdStep::Forward(KfdRequest::GetProcessAperturesNew { max_nodes: num_of_nodes }),
        KfdArgs::AcquireVm { drm_fd, gpu_id } => {
            let fd = match translate_remote_fd(registry, drm_fd as i32) {
                Some(remote) => remote as u32,
                None => drm_fd,
            };
            KfdStep::Forward(KfdRequest::AcquireVm { drm_fd: fd, gpu_id })
        },
        KfdArgs::AllocMemoryOfGpu { va_addr, size, handle, mmap_offset, gpu_id, flags } => {
            if is_userptr(flags) {
                let h = handles.take();
                KfdStep::Done(KfdArgs::AllocMemoryOfGpu { va_addr, size, handle: h, mmap_offset, gpu_id, flags })
            } else {
                KfdStep::Forward(KfdRequest::AllocMemoryOfGpu { va_addr, size, gpu_id, flags, mmap_offset })
            }
        },
        KfdArgs::FreeMemoryOfGpu { handle } => {
            if handle >= SYNTHETIC_HANDLE_BASE {
                KfdStep::Done(*args)
            } else {
                KfdStep::Forward(KfdRequest::FreeMemoryOfGpu { handle })
            }
        },
        KfdArgs::MapMemoryToGpu { handle, device_ids_ptr, n_devices, .. } => {
            if handle >= SYNTHETIC_HANDLE_BASE {
                KfdStep::Done(KfdArgs::MapMemoryToGpu { handle, device_ids_ptr, n_devices, n_success: n_devices })
            } else {
                KfdStep::Forward(KfdRequest::MapMemoryToGpu { handle, device_ids })
            }
        },
        KfdArgs::UnmapMemoryFromGpu { handle, device_ids_ptr, n_devices, .. } => {
            if handle >= SYNTHETIC_HANDLE_BASE {
                KfdStep::Done(KfdArgs::UnmapMemoryFromGpu { handle, device_ids_ptr, n_devices, n_success: n_devices })
            } else {
                KfdStep::Forward(KfdRequest::UnmapMemoryFromGpu { handle, device_ids })
            }
        },
        KfdArgs::SetXnackMode { xnack_enabled } => KfdStep::Forward(KfdRequest::SetXnackMode { xnack_enabled }),
        KfdArgs::RuntimeEnable { mode_mask, capabilities_mask, .. } =>
            KfdStep::Forward(KfdRequest::RuntimeEnable { flags: runtime_flags_word(mode_mask, capabilities_mask) }),
    }
}

/// What a successful KFD ioctl writes back into the caller's memory.
#[derive(Debug, PartialEq, Eq)]
pub struct KfdWriteBack {
    /// The argument block.
    pub args: KfdArgs,
    /// Apertures to store at the block's aperture pointer.
    pub apertures: Vec<KfdProcessDeviceAperture>,
    /// Event records to store from the start of the block's event list.
    pub events: Vec<KfdEventDataRaw>,
}

/// A write-back of the block `args` alone.
pub open spec fn only_args(w: KfdWriteBack, args: KfdArgs) -> bool {
    w.args == args && w.apertures@.len() == 0 && w.events@.len() == 0
}

/// Whether `out` is `events` after the reply events `replies` are written
/// over them pairwise (as far as both lists go).
pub open spec fn events_written(replies: Seq<KfdEventData>, events: Seq<KfdEventDataRaw>, out: Seq<KfdEventDataRaw>) -> bool {
    &&& out.len() == (if replies.len() < events.len() { replies.len() } else { events.len() })
    &&& forall|i: int| 0 <= i < out.len() ==> event_written(replies[i], events[i], #[trigger] out[i])
}

/// What applying the emulator's `reply` to the block `args` gives, where
/// `events` are the event records read for a WAIT_EVENTS call: the
/// emulator's error as its errno, a reply of another kind as `EINVAL`, an
/// aperture list with nowhere to go as `EFAULT`, and otherwise the block
/// with the reply's outputs stored in it.
pub open spec fn kfd_complete_result(
    args: KfdArgs,
    events: Seq<KfdEventDataRaw>,
    reply: AmdgpuResult<KfdResponse>,
    r: Result<KfdWriteBack, i32>,
) -> bool {
    match reply {
        Err(e) => r == Err::<KfdWriteBack, i32>(spec_errno(e)),
        Ok(resp) => match (args, resp) {
            (KfdArgs::GetVersion { .. }, KfdResponse::GetVersion { major_version, minor_version }) =>
                r matches Ok(w) && only_args(w, KfdArgs::GetVersion { major_version, minor_version }),
            (KfdArgs::SetMemoryPolicy { .. }, KfdResponse::SetMemoryPolicy) => r matches Ok(w) && only_args(w, args),
            (
                KfdArgs::GetClockCounters { gpu_id, .. },
                KfdResponse::GetClockCounters { gpu_clock_counter, cpu_clock_counter, system_clock_counter, system_clock_freq },
            ) => r matches Ok(w) && only_args(w, KfdArgs::GetClockCounters {
                gpu_clock_counter, cpu_clock_counter, system_clock_counter, system_clock_freq, gpu_id,
            }),
            (
                KfdArgs::CreateEvent { event_type, auto_reset, node_id, .. },
                KfdResponse::CreateEvent { event_page_offset, event_trigger_data, event_id, event_slot_index },
            ) => r matches Ok(w) && only_args(w, KfdArgs::CreateEvent {
                event_page_offset, event_trigger_data, event_type, auto_reset, node_id, event_id, event_slot_index,
            }),
            (KfdArgs::DestroyEvent { .. }, KfdResponse::DestroyEvent) => r matches Ok(w) && only_args(w, args),
            (KfdArgs::SetEvent { .. }, KfdResponse::SetEvent) => r matches Ok(w) && only_args(w, args),
            (KfdArgs::ResetEvent { .. }, KfdResponse::ResetEvent) => r matches Ok(w) && only_args(w, args),
            (
                KfdArgs::WaitEvents { events_ptr, num_events, wait_for_all, timeout, .. },
                KfdResponse::WaitEvents { events: replies, wait_result },
            ) => r matches Ok(w) && {
                &&& w.args == KfdArgs::WaitEvents { events_ptr, num_events, wait_for_all, timeout, wait_result }
                &&& w.apertures@.len() == 0
                &&& events_written(replies@, events, w.events@)
            },
            (KfdArgs::SetScratchBackingVa { .. }, KfdResponse::SetScratchBackingVa) => r matches Ok(w) && only_args(w, args),
            (KfdArgs::SetTrapHandler { .. }, KfdResponse::SetTrapHandler) => r matches Ok(w) && only_args(w, args),
            (KfdArgs::GetProcessAperturesNew { apertures_ptr, .. }, KfdResponse::GetProcessAperturesNew { apertures }) =>
                if apertures@.len() > 0 && apertures_ptr == 0 {
                    r == Err::<KfdWriteBack, i32>(EFAULT)
                } else {
                    r matches Ok(w) && {
                        &&& w.args == KfdArgs::GetProcessAperturesNew { apertures_ptr, num_of_nodes: apertures@.len() as u32 }
                        &&& w.apertures@ == apertures@
                        &&& w.events@.len() == 0
                    }
                },
            (KfdArgs::AcquireVm { .. }, KfdResponse::AcquireVm) => r matches Ok(w) && only_args(w, args),
            (
                KfdArgs::AllocMemoryOfGpu { size, gpu_id, flags, .. },
                KfdResponse::AllocMemoryOfGpu { handle, mmap_offset, va_addr },
            ) => r matches Ok(w) && only_args(w, KfdArgs::AllocMemoryOfGpu { va_addr, size, handle, mmap_offset, gpu_id, flags }),
            (KfdArgs::FreeMemoryOfGpu { .. }, KfdResponse::FreeMemoryOfGpu) => r matches Ok(w) && only_args(w, args),
            (KfdArgs::MapMemoryToGpu { handle, device_ids_ptr, n_devices, .. }, KfdResponse::MapMemoryToGpu { n_success }) =>
                r matches Ok(w) && only_args(w, KfdArgs::MapMemoryToGpu { handle, device_ids_ptr, n_devices, n_success }),
            (KfdArgs::UnmapMemoryFromGpu { handle, device_ids_ptr, n_devices, .. }, KfdResponse::UnmapMemoryFromGpu { n_success }) =>
                r matches Ok(w) && only_args(w, KfdArgs::UnmapMemoryFromGpu { handle, device_ids_ptr, n_devices, n_success }),
            (KfdArgs::SetXnackMode { .. }, KfdResponse::SetXnackMode { xnack_enabled }) =>
                r matches Ok(w) && only_args(w, KfdArgs::SetXnackMode { xnack_enabled }),
            (KfdArgs::RuntimeEnable { .. }, KfdResponse::RuntimeEnable) => r matches Ok(w) && only_args(w, args),
            _ => r == Err::<KfdWriteBack, i32>(EINVAL),
        },
    }
}

fn write_back(args: KfdArgs) -> (r: Result<KfdWriteBack, i32>)
    ensures
        r matches Ok(w) && only_args(w, args),
{
    Ok(KfdWriteBack { args, apertures: Vec::new(), events: Vec::new() })
}

fn write_events(replies: &Vec<KfdEventData>, events: &[KfdEventDataRaw]) -> (r: Vec<KfdEventDataRaw>)
    ensures
        events_written(replies@, events@, r@),
{
    let n = if replies.len() < events.len() { replies.len() } else { events.len() };
    let mut r: Vec<KfdEventDataRaw> = Vec::new();
    let mut i: usize = 0;
    while i < n
        invariant
            n == (if replies@.len() < events@.len() { replies@.len() } else { events@.len() }),
            0 <= i <= n,
            r@.len() == i,
            forall|j: int| 0 <= j < i ==> event_written(replies@[j], events@[j], #[trigger] r@[j]),
        decreases n - i,
    {
        r.push(event_data_from_schema(&replies[i], &events[i]));
        i += 1;
    }
    r
}

/// Apply the emulator's reply to a forwarded KFD ioctl.
pub fn kfd_complete(args: KfdArgs, events: &[KfdEventDataRaw], reply: AmdgpuResult<KfdResponse>) -> (r: Result<KfdWriteBack, i32>)
    ensures
        kfd_complete_result(args, events@, reply, r),
{
    let resp = match reply {
        Err(e) => return Err(e.errno()),
        Ok(resp) => resp,
    };
    match (args, resp) {
        (KfdArgs::GetVersion { .. }, KfdResponse::GetVersion { major_version, minor_version }) =>
            write_back(KfdArgs::GetVersion { major_version, minor_version }),
        (KfdArgs::SetMemoryPolicy { .. }, KfdResponse::SetMemoryPolicy) => write_back(args),
        (
            KfdArgs::GetClockCounters { gpu_id, .. },
            KfdResponse::GetClockCounters { gpu_clock_counter, cpu_clock_counter, system_clock_counter, system_clock_freq },
        ) => write_back(KfdArgs::GetClockCounters {
            gpu_clock_counter, cpu_clock_counter, system_clock_counter, system_clock_freq, gpu_id,
        }),
        (
            KfdArgs::CreateEvent { event_type, auto_reset, node_id, .. },
            KfdResponse::CreateEvent { event_page_offset, event_trigger_data, event_id, event_slot_index },
        ) => write_back(KfdArgs::CreateEvent {
            event_page_offset, event_trigger_data, event_type, auto_reset, node_id, event_id, event_slot_index,
        }),
        (KfdArgs::DestroyEvent { .. }, KfdResponse::DestroyEvent) => write_back(args),
        (KfdArgs::SetEvent { .. }, KfdResponse::SetEvent) => write_back(args),
        (KfdArgs::ResetEvent { .. }, KfdResponse::ResetEvent) => write_back(args),
        (
            KfdArgs::WaitEvents { events_ptr, num_events, wait_for_all, timeout, .. },
            KfdResponse::WaitEvents { events: replies, wait_result },
        ) => {
            let out = write_events(&replies, events);
            Ok(KfdWriteBack {
                args: KfdArgs::WaitEvents { events_ptr, num_events, wait_for_all, timeout, wait_result },
                apertures: Vec::new(),
                events: out,
            })
        },
        (KfdArgs::SetScratchBackingVa { .. }, KfdResponse::SetScratchBackingVa) => write_back(args),
        (KfdArgs::SetTrapHandler { .. }, KfdResponse::SetTrapHandler) => write_back(args),
        (KfdArgs::GetProcessAperturesNew { apertures_ptr, .. }, KfdResponse::GetProcessAperturesNew { apertures }) => {
            if apertures.len() > 0 && apertures_ptr == 0 {
                Err(EFAULT)
            } else {
                let n = apertures.len() as u32;
                Ok(KfdWriteBack {
                    args: KfdArgs::GetProcessAperturesNew { apertures_ptr, num_of_nodes: n },
                    apertures,
                    events: Vec::new(),
                })
            }
        },
        (KfdArgs::AcquireVm { .. }, KfdResponse::AcquireVm) => write_back(args),
        (
            KfdArgs::AllocMemoryOfGpu { size, gpu_id, flags, .. },
            KfdResponse::AllocMemoryOfGpu { handle, mmap_offset, va_addr },
        ) => write_back(KfdArgs::AllocMemoryOfGpu { va_addr, size, handle, mmap_offset, gpu_id, flags }),
        (KfdArgs::FreeMemoryOfGpu { .. }, KfdResponse::FreeMemoryOfGpu) => write_back(args),
        (KfdArgs::MapMemoryToGpu { handle, device_ids_ptr, n_devices, .. }, KfdResponse::MapMemoryToGpu { n_success }) =>
            write_back(KfdArgs::MapMemoryToGpu { handle, device_ids_ptr, n_devices, n_success }),
        (KfdArgs::UnmapMemoryFromGpu { handle, device_ids_ptr, n_devices, .. }, KfdResponse::UnmapMemoryFromGpu { n_success }) =>
            write_back(KfdArgs::UnmapMemoryFromGpu { handle, device_ids_ptr, n_devices, n_success }),
        (KfdArgs::SetXnackMode { .. }, KfdResponse::SetXnackMode { xnack_enabled }) =>
            write_back(KfdArgs::SetXnackMode { xnack_enabled }),
        (KfdArgs::RuntimeEnable { .. }, KfdResponse::RuntimeEnable) => write_back(args),
        _ => Err(EINVAL),
    }
}

} // verus!
