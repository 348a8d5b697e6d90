# mirage

The verified core of Mirage, a GPU emulation stack that lets programs
written for AMD GPUs run against an emulator: an `LD_PRELOAD` interceptor
takes over `/dev/kfd` and the DRM render nodes and forwards their ioctls
over a Unix socket to a daemon, which boots emulated sessions as
containers.

## Layout

- `src/` is the library, verified with Verus:
  - `ioc`, `kfd`, `drm`, `device`, `intercept`: ioctl numbers, the
    interceptor's per-ioctl rules, the descriptor registry and the
    decisions of each intercepted syscall;
  - `frame`, `protocol`, `schema`, `amdgpu_error`: the emulator wire
    protocol, its framing and its error type;
  - `container`, `docker`, `mock`: container runtimes (the docker command
    line and an in-memory one);
  - `daemon`, `boot`, `topology`, `control`, `listing`: the daemon's
    rules for profiles, workloads, sessions and execs, the boot task, the
    synthetic sysfs tree, the control channel, and the order sessions are
    listed in;
  - `text`, `marshal`: text helpers and conversion traits.
- `app/` is the I/O around it: socket transports, the docker program and
  its files, the boot task's runner and the interceptor's C entry points.
- `tests/` exercises the library.
