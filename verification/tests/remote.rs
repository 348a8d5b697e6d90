use std::sync::Arc;

use mirage::amdgpu_error::AmdgpuError;
use mirage::frame::{frame_len, read_frame, write_frame, IoFailure, IoKind, WireError, MAX_FRAME_LEN};
use mirage::protocol::{
    after_exchange, dispatch, ConnCache, Emulator, EmulatorServer, RemoteEmulator, RoundTripStep,
    WireRequest, WireResponse,
};
use mirage::schema::{
    DeviceRequest, DeviceResponse, DrmRequest, DrmResponse, IoctlCtx, KfdRequest, KfdResponse,
    Topology,
};

/// Always reports KFD version 1.13 and rejects everything else.
struct FixedEmulator;

impl Emulator for FixedEmulator {
    fn handle_any_kfd_ioctl(&self, _ctx: IoctlCtx, request: KfdRequest) -> Result<KfdResponse, AmdgpuError> {
        match request {
            KfdRequest::GetVersion => Ok(KfdResponse::GetVersion { major_version: 1, minor_version: 13 }),
            _ => Err(AmdgpuError::NoSys),
        }
    }

    fn handle_any_drm_ioctl(&self, _ctx: IoctlCtx, _request: DrmRequest) -> Result<DrmResponse, AmdgpuError> {
        Err(AmdgpuError::NoSys)
    }

    fn handle_any_device_syscall(&self, _ctx: IoctlCtx, _request: DeviceRequest) -> Result<DeviceResponse, AmdgpuError> {
        Err(AmdgpuError::NoSys)
    }

    fn get_topology(&self) -> Result<Topology, AmdgpuError> {
        Ok(Topology { files: vec![("nodes/0/name".to_string(), b"gfx942".to_vec())] })
    }
}

fn start_fixed_server(tag: &str) -> EmulatorServer<FixedEmulator> {
    EmulatorServer::from_arc(format!("/tmp/mirage-remote-{tag}.sock"), Arc::new(FixedEmulator))
}

/// Carry `payload` through one frame, as the socket does.
fn through_socket(payload: &[u8]) -> Vec<u8> {
    let mut wire = Vec::new();
    write_frame(&mut wire, payload).expect("frame fits");
    let (back, used) = read_frame(&wire).expect("frame reads back");
    assert_eq!(used, wire.len());
    back
}

#[test]
fn ping_pong_round_trip() {
    let server = start_fixed_server("ping");
    let remote = RemoteEmulator::new(server.socket_path().to_string());
    let response = server.serve(WireRequest::Ping);
    remote.ping(Ok(response)).expect("ping ok");
}

#[test]
fn kfd_get_version_round_trip_via_handle_trait() {
    let server = start_fixed_server("getver");
    let remote = RemoteEmulator::new(server.socket_path().to_string());
    let ctx = IoctlCtx { pid: 1, tid: 1 };
    let request = remote.kfd_request(ctx, KfdRequest::GetVersion);
    let resp = remote.forward_kfd_ioctl(Ok(server.serve(request))).expect("get_version ok");
    assert_eq!(resp, KfdResponse::GetVersion { major_version: 1, minor_version: 13 });
}

#[test]
fn unimplemented_ioctl_round_trips_as_enosys() {
    let server = start_fixed_server("enosys");
    let remote = RemoteEmulator::new(server.socket_path().to_string());
    let ctx = IoctlCtx { pid: 1, tid: 1 };
    let request = remote.kfd_request(ctx, KfdRequest::SetEvent { event_id: 3 });
    let err = remote.forward_kfd_ioctl(Ok(server.serve(request))).unwrap_err();
    assert_eq!(err, AmdgpuError::NoSys);
}

#[test]
fn server_keeps_its_socket_path() {
    let server = EmulatorServer::new("/run/mirage/emulator.sock".to_string(), FixedEmulator);
    assert_eq!(server.socket_path(), "/run/mirage/emulator.sock");
    let remote = RemoteEmulator::new("/run/mirage/emulator.sock".to_string());
    assert_eq!(remote.socket_path(), "/run/mirage/emulator.sock");
}

#[test]
fn dispatch_answers_each_request_with_its_kind() {
    let ctx = IoctlCtx { pid: 3, tid: 4 };
    assert_eq!(dispatch(&FixedEmulator, WireRequest::Ping), WireResponse::Pong);
    assert_eq!(
        dispatch(&FixedEmulator, WireRequest::Drm { ctx, request: DrmRequest::Info { query: 0, return_size: 0, sub_query: 0, sub_query2: 0, sub_query3: 0, flags: 0 } }),
        WireResponse::Drm(Err(AmdgpuError::NoSys))
    );
    assert_eq!(
        dispatch(&FixedEmulator, WireRequest::Device { ctx, request: DeviceRequest::Close { virtual_fd: 3 } }),
        WireResponse::Device(Err(AmdgpuError::NoSys))
    );
    let topo = dispatch(&FixedEmulator, WireRequest::GetTopology);
    let remote = RemoteEmulator::new("/tmp/x.sock".to_string());
    let topology = remote.topology_reply(Ok(topo)).unwrap();
    assert_eq!(topology.files.len(), 1);
}

#[test]
fn ping_with_wrong_reply_is_invalid() {
    let remote = RemoteEmulator::new("/tmp/x.sock".to_string());
    assert_eq!(remote.ping(Ok(WireResponse::Kfd(Err(AmdgpuError::NoSys)))), Err(AmdgpuError::Invalid));
    assert_eq!(remote.ping(Err(AmdgpuError::TimedOut)), Err(AmdgpuError::TimedOut));
    assert_eq!(remote.forward_kfd_ioctl(Ok(WireResponse::Pong)), Err(AmdgpuError::Invalid));
}

#[test]
fn frame_round_trip_gives_back_the_payload() {
    let payload = b"\x01\x02hello".to_vec();
    assert_eq!(through_socket(&payload), payload);
    let mut wire = Vec::new();
    write_frame(&mut wire, &payload).unwrap();
    assert_eq!(&wire[..4], &[0, 0, 0, 7]);
    assert_eq!(through_socket(&[]), Vec::<u8>::new());
}

#[test]
fn oversized_frame_is_refused() {
    assert_eq!(frame_len([0x04, 0x00, 0x00, 0x01]), Err(WireError::FrameTooLarge(MAX_FRAME_LEN + 1)));
    assert_eq!(frame_len([0x04, 0x00, 0x00, 0x00]), Ok(MAX_FRAME_LEN));
    assert_eq!(frame_len([0, 0, 1, 2]), Ok(258));
}

#[test]
fn truncated_frame_is_an_error() {
    let mut wire = Vec::new();
    write_frame(&mut wire, b"abcdef").unwrap();
    assert!(read_frame(&wire[..wire.len() - 1]).is_err());
    assert!(read_frame(&wire[..2]).is_err());
}

#[test]
fn stale_connection_is_retried_once() {
    let lost = Err(WireError::Io(IoFailure { kind: IoKind::BrokenPipe, raw_os_error: None }));
    match after_exchange(0, lost) {
        RoundTripStep::Retry => {}
        other => panic!("expected a retry, got {other:?}"),
    }
    let lost = Err(WireError::Io(IoFailure { kind: IoKind::BrokenPipe, raw_os_error: None }));
    match after_exchange(1, lost) {
        RoundTripStep::Finish(Err(_)) => {}
        other => panic!("expected to give up, got {other:?}"),
    }
    match after_exchange(0, Ok(WireResponse::Pong)) {
        RoundTripStep::Finish(Ok(WireResponse::Pong)) => {}
        other => panic!("expected the reply, got {other:?}"),
    }
}

#[test]
fn connection_cache_keeps_one_stream_per_path() {
    let mut cache: ConnCache<u32> = ConnCache::new();
    assert!(!cache.contains("/a"));
    cache.insert("/a".to_string(), 1);
    cache.insert("/b".to_string(), 2);
    assert!(cache.contains("/a"));
    assert_eq!(cache.get_for("/b").copied(), Some(2));
    cache.insert("/a".to_string(), 3);
    assert_eq!(cache.get_for("/a").copied(), Some(3));
    cache.forget("/a");
    assert!(!cache.contains("/a"));
    assert!(cache.contains("/b"));
}
