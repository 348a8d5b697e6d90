use mirage::amdgpu_error::{AmdgpuError, EFAULT, EINVAL, ENOENT};
use mirage::device::FdRegistry;
use mirage::drm::{drm_begin, drm_info_complete, passthrough_target, DrmArgs, DrmReply, DrmStep};
use mirage::kfd::{
    event_data_from_schema, event_data_to_schema, kfd_begin, kfd_complete, user_read, KfdArgs, KfdEventDataRaw,
    KfdStep, SyntheticHandles, UserRead, SYNTHETIC_HANDLE_FIRST,
};
use mirage::schema::{
    DrmRequest, DrmResponse, KfdEventData, KfdHwExceptionData, KfdMemoryExceptionData, KfdMemoryExceptionFailure,
    KfdProcessDeviceAperture, KfdRequest, KfdResponse,
};

fn begin(args: KfdArgs, handles: &mut SyntheticHandles) -> KfdStep {
    kfd_begin(&args, vec![], &[], &FdRegistry::new(), handles)
}

#[test]
fn get_version_is_forwarded_and_written_back() {
    let mut handles = SyntheticHandles::new();
    let args = KfdArgs::GetVersion { major_version: 0, minor_version: 0 };
    assert_eq!(begin(args, &mut handles), KfdStep::Forward(KfdRequest::GetVersion));
    let w = kfd_complete(args, &[], Ok(KfdResponse::GetVersion { major_version: 7, minor_version: 42 })).unwrap();
    assert_eq!(w.args, KfdArgs::GetVersion { major_version: 7, minor_version: 42 });
    assert!(w.apertures.is_empty() && w.events.is_empty());
    assert_eq!(kfd_complete(args, &[], Err(AmdgpuError::NoSys)).unwrap_err(), 38);
    assert_eq!(kfd_complete(args, &[], Ok(KfdResponse::SetEvent)).unwrap_err(), EINVAL);
}

#[test]
fn user_memory_gets_a_synthetic_handle_that_never_reaches_the_daemon() {
    let mut handles = SyntheticHandles::new();
    let alloc = KfdArgs::AllocMemoryOfGpu { va_addr: 0x1000, size: 4096, handle: 0, mmap_offset: 0, gpu_id: 1, flags: 0x4 };
    let step = begin(alloc, &mut handles);
    assert_eq!(
        step,
        KfdStep::Done(KfdArgs::AllocMemoryOfGpu { va_addr: 0x1000, size: 4096, handle: SYNTHETIC_HANDLE_FIRST, mmap_offset: 0, gpu_id: 1, flags: 0x4 })
    );
    let free = KfdArgs::FreeMemoryOfGpu { handle: SYNTHETIC_HANDLE_FIRST };
    assert_eq!(begin(free, &mut handles), KfdStep::Done(free));
    let map = KfdArgs::MapMemoryToGpu { handle: SYNTHETIC_HANDLE_FIRST, device_ids_ptr: 0x10, n_devices: 2, n_success: 0 };
    assert_eq!(
        begin(map, &mut handles),
        KfdStep::Done(KfdArgs::MapMemoryToGpu { handle: SYNTHETIC_HANDLE_FIRST, device_ids_ptr: 0x10, n_devices: 2, n_success: 2 })
    );
    // A device allocation goes to the daemon and leaves the counter alone.
    let vram = KfdArgs::AllocMemoryOfGpu { va_addr: 0x2000, size: 8192, handle: 0, mmap_offset: 0, gpu_id: 1, flags: 0x1 };
    assert_eq!(
        begin(vram, &mut handles),
        KfdStep::Forward(KfdRequest::AllocMemoryOfGpu { va_addr: 0x2000, size: 8192, gpu_id: 1, flags: 0x1, mmap_offset: 0 })
    );
    let next = begin(alloc, &mut handles);
    assert_eq!(
        next,
        KfdStep::Done(KfdArgs::AllocMemoryOfGpu { va_addr: 0x1000, size: 4096, handle: SYNTHETIC_HANDLE_FIRST + 1, mmap_offset: 0, gpu_id: 1, flags: 0x4 })
    );
}

#[test]
fn bad_enums_and_lists_are_refused() {
    let mut handles = SyntheticHandles::new();
    let policy = KfdArgs::SetMemoryPolicy {
        alternate_aperture_base: 0,
        alternate_aperture_size: 0,
        gpu_id: 1,
        default_policy: 9,
        alternate_policy: 0,
        misc_process_flag: 0,
    };
    assert_eq!(begin(policy, &mut handles), KfdStep::Fail(EINVAL));
    let wait = KfdArgs::WaitEvents { events_ptr: 0, num_events: 1, wait_for_all: 0, timeout: 0, wait_result: 0 };
    assert_eq!(user_read(&wait), Err(EINVAL));
    let map = KfdArgs::MapMemoryToGpu { handle: 5, device_ids_ptr: 0, n_devices: 1, n_success: 0 };
    assert_eq!(user_read(&map), Err(EFAULT));
    let map = KfdArgs::MapMemoryToGpu { handle: 5, device_ids_ptr: 0x40, n_devices: 1, n_success: 0 };
    assert_eq!(user_read(&map), Ok(UserRead::DeviceIds { ptr: 0x40, count: 1 }));
}

#[test]
fn apertures_need_somewhere_to_go() {
    let args = KfdArgs::GetProcessAperturesNew { apertures_ptr: 0, num_of_nodes: 4 };
    let aperture = KfdProcessDeviceAperture { lds_base: 1, lds_limit: 2, scratch_base: 3, scratch_limit: 4, gpuvm_base: 5, gpuvm_limit: 6, gpu_id: 7 };
    assert_eq!(kfd_complete(args, &[], Ok(KfdResponse::GetProcessAperturesNew { apertures: vec![aperture] })).unwrap_err(), EFAULT);
    let args = KfdArgs::GetProcessAperturesNew { apertures_ptr: 0x80, num_of_nodes: 4 };
    let w = kfd_complete(args, &[], Ok(KfdResponse::GetProcessAperturesNew { apertures: vec![aperture] })).unwrap();
    assert_eq!(w.args, KfdArgs::GetProcessAperturesNew { apertures_ptr: 0x80, num_of_nodes: 1 });
    assert_eq!(w.apertures, vec![aperture]);
}

#[test]
fn event_records_round_trip() {
    let raw = KfdEventDataRaw { payload: [1, 2, 3, 4, 5, 6, 7, 8], kfd_event_data_ext: 9, event_id: 10, pad: 11 };
    let sent = event_data_to_schema(&raw);
    assert_eq!(sent.event_id, 10);
    assert_eq!(event_data_from_schema(&sent, &raw), raw);
    let memory = KfdEventData {
        event_id: 10,
        memory_exception_data: Some(KfdMemoryExceptionData {
            failure: KfdMemoryExceptionFailure { not_present: 1, read_only: 0, no_execute: 0, imprecise: 1 },
            va: 0x1_2345_6789,
            gpu_id: 77,
            error_type: 3,
        }),
        hw_exception_data: None,
        kfd_event_data_ext: 0,
    };
    let written = event_data_from_schema(&memory, &raw);
    assert_eq!(written.payload, [1, 0, 0, 1, 0x2345_6789, 1, 77, 3]);
    let hw = KfdEventData {
        event_id: 10,
        memory_exception_data: None,
        hw_exception_data: Some(KfdHwExceptionData { reset_type: 1, reset_cause: 2, memory_lost: 0, gpu_id: 5 }),
        kfd_event_data_ext: 0,
    };
    assert_eq!(event_data_from_schema(&hw, &raw).payload, [1, 2, 0, 5, 5, 6, 7, 8]);
}

#[test]
fn drm_core_ioctls_are_answered_in_process() {
    match drm_begin(&DrmArgs::Version { name_len: 4, name_null: false, date_len: 0, date_null: true, desc_len: 64, desc_null: false }) {
        DrmStep::Reply(DrmReply::Version { version_major, name, date, desc, name_len, desc_len, .. }) => {
            assert_eq!(version_major, 3);
            assert_eq!(name, b"amd\0".to_vec());
            assert!(date.is_empty());
            assert_eq!(desc, b"mirage-amdgpu\0".to_vec());
            assert_eq!((name_len, desc_len), (6, 13));
        }
        other => panic!("expected a version reply, got {other:?}"),
    }
    assert_eq!(drm_begin(&DrmArgs::GetClient { idx: 1 }), DrmStep::Fail(ENOENT));
    assert_eq!(drm_begin(&DrmArgs::GetMagic), DrmStep::Reply(DrmReply::Magic { magic: 1 }));
    let info = DrmArgs::AmdgpuInfo { return_pointer: 0x100, return_size: 4, query: 0x19, sub_query: 0, sub_query2: 0, sub_query3: 0, flags: 0 };
    assert_eq!(
        drm_begin(&info),
        DrmStep::Forward(DrmRequest::Info { query: 0x19, return_size: 4, sub_query: 0, sub_query2: 0, sub_query3: 0, flags: 0 })
    );
    assert_eq!(
        drm_info_complete(0x100, 4, Ok(DrmResponse::Info { raw_data: vec![1, 2, 3, 4, 5, 6] })),
        Ok(DrmReply::Info { data: vec![1, 2, 3, 4] })
    );
    assert_eq!(passthrough_target(-1), Err(38));
    assert_eq!(passthrough_target(5), Ok(5));
}
