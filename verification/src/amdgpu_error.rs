//! The error type that crosses the emulator boundary. Every variant maps
//! to a Linux errno so that the interceptor can hand it back to the
//! intercepted program unchanged.

use vstd::prelude::*;

verus! {

pub const EPERM: i32 = 1;
pub const ENOENT: i32 = 2;
pub const EIO: i32 = 5;
pub const EBADF: i32 = 9;
pub const EAGAIN: i32 = 11;
pub const ENOMEM: i32 = 12;
pub const EACCES: i32 = 13;
pub const EFAULT: i32 = 14;
pub const EBUSY: i32 = 16;
pub const EEXIST: i32 = 17;
pub const ENODEV: i32 = 19;
pub const EINVAL: i32 = 22;
pub const ENOTTY: i32 = 25;
pub const ENOSPC: i32 = 28;
pub const ENOSYS: i32 = 38;
pub const ETIMEDOUT: i32 = 110;

/// An emulator-side failure, one variant per errno the emulators report,
/// with [`AmdgpuError::Errno`] carrying any other code verbatim.
#[derive(Debug, Clone, Copy, PartialEq, Eq, Structural)]
pub enum AmdgpuError {
    Perm,
    NoEnt,
    Io,
    BadF,
    Again,
    NoMem,
    Access,
    Fault,
    Busy,
    Exist,
    NoDev,
    Invalid,
    NoTty,
    NoSpc,
    NoSys,
    TimedOut,
    /// Any errno without a variant of its own.
    Errno(i32),
}

pub type AmdgpuResult<T> = Result<T, AmdgpuError>;

/// The variant that stands for `errno`.
pub open spec fn spec_from_errno(errno: i32) -> AmdgpuError {
    if errno == EPERM {
        AmdgpuError::Perm
    } else if errno == ENOENT {
        AmdgpuError::NoEnt
    } else if errno == EIO {
        AmdgpuError::Io
    } else if errno == EBADF {
        AmdgpuError::BadF
    } else if errno == EAGAIN {
        AmdgpuError::Again
    } else if errno == ENOMEM {
        AmdgpuError::NoMem
    } else if errno == EACCES {
        AmdgpuError::Access
    } else if errno == EFAULT {
        AmdgpuError::Fault
    } else if errno == EBUSY {
        AmdgpuError::Busy
    } else if errno == EEXIST {
        AmdgpuError::Exist
    } else if errno == ENODEV {
        AmdgpuError::NoDev
    } else if errno == EINVAL {
        AmdgpuError::Invalid
    } else if errno == ENOTTY {
        AmdgpuError::NoTty
    } else if errno == ENOSPC {
        AmdgpuError::NoSpc
    } else if errno == ENOSYS {
        AmdgpuError::NoSys
    } else if errno == ETIMEDOUT {
        AmdgpuError::TimedOut
    } else {
        AmdgpuError::Errno(errno)
    }
}

/// The errno a variant stands for.
pub open spec fn spec_errno(e: AmdgpuError) -> i32 {
    match e {
        AmdgpuError::Perm => EPERM,
        AmdgpuError::NoEnt => ENOENT,
        AmdgpuError::Io => EIO,
        AmdgpuError::BadF => EBADF,
        AmdgpuError::Again => EAGAIN,
        AmdgpuError::NoMem => ENOMEM,
        AmdgpuError::Access => EACCES,
        AmdgpuError::Fault => EFAULT,
        AmdgpuError::Busy => EBUSY,
        AmdgpuError::Exist => EEXIST,
        AmdgpuError::NoDev => ENODEV,
        AmdgpuError::Invalid => EINVAL,
        AmdgpuError::NoTty => ENOTTY,
        AmdgpuError::NoSpc => ENOSPC,
        AmdgpuError::NoSys => ENOSYS,
        AmdgpuError::TimedOut => ETIMEDOUT,
        AmdgpuError::Errno(n) => n,
    }
}

/// An error value in canonical form: a raw errno is only used for codes
/// that have no variant of their own.
pub open spec fn is_canonical(e: AmdgpuError) -> bool {
    match e {
        AmdgpuError::Errno(n) => spec_from_errno(n) == AmdgpuError::Errno(n),
        _ => true,
    }
}

impl AmdgpuError {
    /// The variant that stands for `errno`.
    pub fn from_errno(errno: i32) -> (e: AmdgpuError)
        ensures
            e == spec_from_errno(errno),
    {
        if errno == EPERM {
            AmdgpuError::Perm
        } else if errno == ENOENT {
            AmdgpuError::NoEnt
        } else if errno == EIO {
            AmdgpuError::Io
        } else if errno == EBADF {
            AmdgpuError::BadF
        } else if errno == EAGAIN {
            AmdgpuError::Again
        } else if errno == ENOMEM {
            AmdgpuError::NoMem
        } else if errno == EACCES {
            AmdgpuError::Access
        } else if errno == EFAULT {
            AmdgpuError::Fault
        } else if errno == EBUSY {
            AmdgpuError::Busy
        } else if errno == EEXIST {
            AmdgpuError::Exist
        } else if errno == ENODEV {
            AmdgpuError::NoDev
        } else if errno == EINVAL {
            AmdgpuError::Invalid
        } else if errno == ENOTTY {
            AmdgpuError::NoTty
        } else if errno == ENOSPC {
            AmdgpuError::NoSpc
        } else if errno == ENOSYS {
            AmdgpuError::NoSys
        } else if errno == ETIMEDOUT {
            AmdgpuError::TimedOut
        } else {
            AmdgpuError::Errno(errno)
        }
    }

    /// The errno this error stands for.
    pub fn errno(&self) -> (n: i32)
        ensures
            n == spec_errno(*self),
    {
        match self {
            AmdgpuError::Perm => EPERM,
            AmdgpuError::NoEnt => ENOENT,
            AmdgpuError::Io => EIO,
            AmdgpuError::BadF => EBADF,
            AmdgpuError::Again => EAGAIN,
            AmdgpuError::NoMem => ENOMEM,
            AmdgpuError::Access => EACCES,
            AmdgpuError::Fault => EFAULT,
            AmdgpuError::Busy => EBUSY,
            AmdgpuError::Exist => EEXIST,
            AmdgpuError::NoDev => ENODEV,
            AmdgpuError::Invalid => EINVAL,
            AmdgpuError::NoTty => ENOTTY,
            AmdgpuError::NoSpc => ENOSPC,
            AmdgpuError::NoSys => ENOSYS,
            AmdgpuError::TimedOut => ETIMEDOUT,
            AmdgpuError::Errno(n) => *n,
        }
    }
}

/// An errno survives the trip through [`AmdgpuError`]: converting it and
/// asking for its errno gives it back.
pub proof fn lemma_errno_round_trip(errno: i32)
    ensures
        spec_errno(spec_from_errno(errno)) == errno,
        is_canonical(spec_from_errno(errno)),
{
}

/// A canonical error survives the trip through its errno.
pub proof fn lemma_error_round_trip(e: AmdgpuError)
    requires
        is_canonical(e),
    ensures
        spec_from_errno(spec_errno(e)) == e,
{
}

} // verus!
