//! Verified core of the Mirage GPU emulation stack: ioctl number
//! encoding, wire framing, device classification and fd tracking for the
//! interceptor, container command construction, and the daemon's
//! session/profile/workload rules.

pub mod ioc;
pub mod amdgpu_error;
pub mod frame;
pub mod schema;
pub mod protocol;
pub mod text;
pub mod device;
pub mod kfd;
pub mod drm;
pub mod intercept;
pub mod container;
pub mod docker;
pub mod mock;
pub mod daemon;
pub mod boot;
pub mod control;
pub mod marshal;
pub mod topology;
pub mod listing;
