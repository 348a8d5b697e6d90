use mirage::amdgpu_error::{AmdgpuError, EINVAL, ENOSYS, ENOTTY};
use mirage::device::{
    close_tracked, forget_fd, lookup_fd, mmap_plan, read_plan, register_alias, register_fd,
    topology_lookup, DeviceKind, FdRegistry, MmapPlan, ReadPlan,
};
use mirage::drm::{route_ioctl, IoctlRoute};
use mirage::ioc::{ioc, iowr, nr, size, ty, IoctlCmd, kfd_iowr};
use mirage::kfd::classify_kfd_ioctl;
use mirage::schema::{DeviceClass, Topology};

#[test]
fn classify_kfd() {
    assert_eq!(DeviceKind::classify("/dev/kfd"), Some(DeviceKind::Kfd));
}

#[test]
fn classify_render_node() {
    assert_eq!(DeviceKind::classify("/dev/dri/renderD128"), Some(DeviceKind::DrmRender));
}

#[test]
fn classify_untracked() {
    assert_eq!(DeviceKind::classify("/etc/passwd"), None);
}

#[test]
fn registry_round_trip() {
    let mut registry = FdRegistry::new();
    register_fd(&mut registry, 12345, DeviceKind::Kfd);
    assert_eq!(lookup_fd(&registry, 12345), Some(DeviceKind::Kfd));
    forget_fd(&mut registry, 12345);
    assert_eq!(lookup_fd(&registry, 12345), None);
}

#[test]
fn unknown_ioctl_returns_enosys() {
    let cmd: u32 = (1u32 << 30) | ((b'K' as u32) << 8) | 0xFF | (8u32 << 16);
    assert_eq!(route_ioctl(DeviceKind::Kfd, cmd), IoctlRoute::Fail(ENOSYS));
    assert_eq!(classify_kfd_ioctl(cmd), Err(ENOSYS));
}

#[test]
fn wrong_subsystem_returns_enotty() {
    let cmd: u32 = (1u32 << 30) | ((b'd' as u32) << 8) | 0x01 | (8u32 << 16);
    assert_eq!(route_ioctl(DeviceKind::Kfd, cmd), IoctlRoute::Fail(ENOTTY));
}

#[test]
fn get_version_ioctl_is_recognised() {
    // _IOWR('K', 0x01, struct { u32 major; u32 minor; })
    let cmd: u32 = (3 << 30) | ((b'K' as u32) << 8) | 0x01 | (8 << 16);
    assert_eq!(iowr(b'K' as u32, 1, 8), cmd);
    assert!(classify_kfd_ioctl(cmd).is_ok());
    // A size field smaller than the argument block is refused; a larger one is accepted.
    let larger: u32 = (3 << 30) | ((b'K' as u32) << 8) | 0x01 | (12 << 16);
    assert!(classify_kfd_ioctl(larger).is_ok());
    let bad: u32 = (3 << 30) | ((b'K' as u32) << 8) | 0x01 | (4 << 16);
    assert_eq!(classify_kfd_ioctl(bad), Err(EINVAL));
}

#[test]
fn ioctl_number_fields_decode() {
    let cmd = ioc(3, b'K' as u32, 0x21, 40);
    assert_eq!(nr(cmd), 0x21);
    assert_eq!(ty(cmd), b'K' as u32);
    assert_eq!(size(cmd), 40);
    assert_eq!(cmd, 0xC028_4B21);
    let typed: IoctlCmd<[u8; 8]> = kfd_iowr(0x01);
    assert_eq!(typed.nr(), 0xC008_4B01);
    assert_eq!(IoctlCmd::<u32>::new(77).nr(), 77);
}

#[test]
fn device_kind_knows_its_class_and_path() {
    assert_eq!(DeviceKind::Kfd.device_class(), DeviceClass::Kfd);
    assert_eq!(DeviceKind::DrmRender.device_class(), DeviceClass::DrmRender);
    assert_eq!(DeviceKind::Kfd.default_path(), "/dev/kfd");
    assert_eq!(DeviceKind::DrmRender.default_path(), "/dev/dri/renderD128");
}

#[test]
fn topology_files_are_served_from_both_sysfs_roots() {
    let topology = Topology { files: vec![("nodes/1/gpu_id".to_string(), b"4242\n".to_vec())] };
    assert_eq!(topology_lookup(&topology, "/sys/class/kfd/kfd/topology/nodes/1/gpu_id"), Some(b"4242\n".to_vec()));
    assert_eq!(topology_lookup(&topology, "/sys/devices/virtual/kfd/kfd/topology/nodes/1/gpu_id"), Some(b"4242\n".to_vec()));
    assert_eq!(topology_lookup(&topology, "/sys/class/kfd/kfd/topology/nodes/2/gpu_id"), None);
    assert_eq!(topology_lookup(&topology, "/etc/passwd"), None);
}

#[test]
fn errno_round_trips_through_the_error_type() {
    assert_eq!(AmdgpuError::from_errno(ENOSYS), AmdgpuError::NoSys);
    assert_eq!(AmdgpuError::NoSys.errno(), ENOSYS);
    assert_eq!(AmdgpuError::from_errno(1234).errno(), 1234);
}

fn entry(fd: i32, remote_fd: i32, host_fd: i32) -> mirage::device::TrackedFd {
    mirage::device::TrackedFd {
        cookie_fd: fd,
        remote_fd,
        host_fd,
        synthetic_host: false,
        kind: DeviceKind::DrmRender,
        path: "/dev/dri/renderD128".to_string(),
        fake_stat: mirage::schema::FakeStat { mode: 0o20666, nlink: 1, rdev: 0xe280, size: 0 },
    }
}

#[test]
fn last_alias_releases_the_daemon_descriptor() {
    let mut registry = FdRegistry::new();
    registry.register_entry(entry(10, 3, 20));
    assert_eq!(register_alias(&mut registry, 11, 10), Some(3));
    let first = close_tracked(&mut registry, 10).unwrap();
    assert_eq!(first.remote_fd, None);
    assert_eq!(first.host_fd, None);
    let second = close_tracked(&mut registry, 11).unwrap();
    assert_eq!(second.remote_fd, Some(3));
    assert_eq!(second.host_fd, Some(20));
    assert!(close_tracked(&mut registry, 11).is_none());
}

#[test]
fn reads_and_maps_follow_the_backing_descriptor() {
    let mut registry = FdRegistry::new();
    registry.register_entry(entry(10, 3, -1));
    registry.register_entry(entry(12, -1, 22));
    assert_eq!(read_plan(&registry, 10), ReadPlan::Remote(3));
    assert_eq!(read_plan(&registry, 12), ReadPlan::Host(22));
    assert_eq!(read_plan(&registry, 99), ReadPlan::Passthrough);
    assert_eq!(mmap_plan(&registry, 10), MmapPlan::Anonymous);
    assert_eq!(mmap_plan(&registry, 12), MmapPlan::Host(22));
    assert_eq!(mmap_plan(&registry, 99), MmapPlan::Passthrough);
}

#[test]
fn commands_built_from_the_same_number_are_equal() {
    assert_eq!(IoctlCmd::<u32>::new(5), IoctlCmd::<u32>::new(5));
    assert_ne!(IoctlCmd::<u32>::new(5), IoctlCmd::<u32>::new(6));
    assert_eq!(IoctlCmd::<u32>::new(7).nr(), 7);
}
