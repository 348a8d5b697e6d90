//! Typed requests and responses exchanged with an emulator: the KFD
//! ioctls the interceptor forwards, the DRM-AMDGPU info query, the device
//! syscalls, and the sysfs topology.

use vstd::prelude::*;

verus! {

/// Who issued a request.
#[derive(Debug, Clone, Copy, PartialEq, Eq, Structural)]
pub struct IoctlCtx {
    pub pid: u32,
    pub tid: u32,
}

/// KFD memory cache policy.
#[derive(Debug, Clone, Copy, PartialEq, Eq, Structural)]
pub enum KfdCachePolicy {
    Coherent,
    Noncoherent,
}

/// KFD event type.
#[derive(Debug, Clone, Copy, PartialEq, Eq, Structural)]
pub enum KfdEventType {
    Signal,
    NodeChange,
    DeviceStateChange,
    HwException,
    SystemEvent,
    DebugEvent,
    ProfileEvent,
    QueueEvent,
    Memory,
}

/// Failure flags of a memory exception event.
#[derive(Debug, Clone, Copy, PartialEq, Eq, Structural)]
pub struct KfdMemoryExceptionFailure {
    pub not_present: u32,
    pub read_only: u32,
    pub no_execute: u32,
    pub imprecise: u32,
}

/// Payload of a memory exception event.
#[derive(Debug, Clone, Copy, PartialEq, Eq, Structural)]
pub struct KfdMemoryExceptionData {
    pub failure: KfdMemoryExceptionFailure,
    pub va: u64,
    pub gpu_id: u32,
    pub error_type: u32,
}

/// Payload of a hardware exception event.
#[derive(Debug, Clone, Copy, PartialEq, Eq, Structural)]
pub struct KfdHwExceptionData {
    pub reset_type: u32,
    pub reset_cause: u32,
    pub memory_lost: u32,
    pub gpu_id: u32,
}

/// One event of a WAIT_EVENTS request or reply.
#[derive(Debug, Clone, Copy, PartialEq, Eq, Structural)]
pub struct KfdEventData {
    pub event_id: u32,
    pub memory_exception_data: Option<KfdMemoryExceptionData>,
    pub hw_exception_data: Option<KfdHwExceptionData>,
    pub kfd_event_data_ext: u64,
}

/// The apertures of one GPU node.
#[derive(Debug, Clone, Copy, PartialEq, Eq, Structural)]
pub struct KfdProcessDeviceAperture {
    pub lds_base: u64,
    pub lds_limit: u64,
    pub scratch_base: u64,
    pub scratch_limit: u64,
    pub gpuvm_base: u64,
    pub gpuvm_limit: u64,
    pub gpu_id: u32,
}

/// A KFD ioctl request.
#[derive(Debug, Clone, PartialEq, Eq)]
pub enum KfdRequest {
    GetVersion,
    SetMemoryPolicy {
        alternate_aperture_base: u64,
        alternate_aperture_size: u64,
        gpu_id: u32,
        default_policy: KfdCachePolicy,
        alternate_policy: KfdCachePolicy,
        misc_process_flag: u32,
    },
    GetClockCounters { gpu_id: u32 },
    CreateEvent { event_type: KfdEventType, auto_reset: u32, node_id: u32 },
    DestroyEvent { event_id: u32 },
    SetEvent { event_id: u32 },
    ResetEvent { event_id: u32 },
    WaitEvents { events: Vec<KfdEventData>, wait_for_all: bool, timeout: u32 },
    SetScratchBackingVa { va_addr: u64, gpu_id: u32 },
    SetTrapHandler { tba_addr: u64, tma_addr: u64, gpu_id: u32 },
    GetProcessAperturesNew { max_nodes: u32 },
    AcquireVm { drm_fd: u32, gpu_id: u32 },
    AllocMemoryOfGpu { va_addr: u64, size: u64, gpu_id: u32, flags: u32, mmap_offset: u64 },
    FreeMemoryOfGpu { handle: u64 },
    MapMemoryToGpu { handle: u64, device_ids: Vec<u32> },
    UnmapMemoryFromGpu { handle: u64, device_ids: Vec<u32> },
    SetXnackMode { xnack_enabled: i32 },
    RuntimeEnable { flags: u64 },
}

/// A KFD ioctl reply.
#[derive(Debug, Clone, PartialEq, Eq)]
pub enum KfdResponse {
    GetVersion { major_version: u32, minor_version: u32 },
    SetMemoryPolicy,
    GetClockCounters {
        gpu_clock_counter: u64,
        cpu_clock_counter: u64,
        system_clock_counter: u64,
        system_clock_freq: u64,
    },
    CreateEvent { event_page_offset: u64, event_trigger_data: u32, event_id: u32, event_slot_index: u32 },
    DestroyEvent,
    SetEvent,
    ResetEvent,
    WaitEvents { events: Vec<KfdEventData>, wait_result: u32 },
    SetScratchBackingVa,
    SetTrapHandler,
    GetProcessAperturesNew { apertures: Vec<KfdProcessDeviceAperture> },
    AcquireVm,
    AllocMemoryOfGpu { handle: u64, mmap_offset: u64, va_addr: u64 },
    FreeMemoryOfGpu,
    MapMemoryToGpu { n_success: u32 },
    UnmapMemoryFromGpu { n_success: u32 },
    SetXnackMode { xnack_enabled: i32 },
    RuntimeEnable,
}

/// A DRM-AMDGPU ioctl request.
#[derive(Debug, Clone, PartialEq, Eq)]
pub enum DrmRequest {
    Info { query: u32, return_size: u32, sub_query: u32, sub_query2: u32, sub_query3: u32, flags: u32 },
}

/// A DRM-AMDGPU ioctl reply.
#[derive(Debug, Clone, PartialEq, Eq)]
pub enum DrmResponse {
    Info { raw_data: Vec<u8> },
}

/// The device class a syscall is aimed at.
#[derive(Debug, Clone, Copy, PartialEq, Eq, Structural)]
pub enum DeviceClass {
    Kfd,
    DrmRender,
}

/// The `stat` fields an emulator reports for a device node.
#[derive(Debug, Clone, Copy, PartialEq, Eq, Structural, Default)]
pub struct FakeStat {
    pub mode: u32,
    pub nlink: u32,
    pub rdev: u64,
    pub size: u64,
}

/// A non-ioctl device syscall.
#[derive(Debug, Clone, PartialEq, Eq)]
pub enum DeviceRequest {
    Open { path: String, flags: u32, mode: u32, class: DeviceClass },
    Close { virtual_fd: i32 },
    Dup { virtual_fd: i32 },
    Access { class: DeviceClass, path: String, mode: u32 },
    StatDevice { class: DeviceClass, path: String },
    ReadDevice { virtual_fd: i32, count: u64 },
}

/// A device syscall reply.
#[derive(Debug, Clone, PartialEq, Eq)]
pub enum DeviceResponse {
    Open { virtual_fd: i32 },
    Close,
    Dup,
    Access { allowed: bool },
    StatDevice { stat: FakeStat },
    ReadDevice { data: Vec<u8> },
}

/// The KFD sysfs topology: file contents keyed by their path relative to
/// the topology root.
#[derive(Debug, Clone, PartialEq, Eq)]
pub struct Topology {
    pub files: Vec<(String, Vec<u8>)>,
}

} // verus!
