//! Linux `_IOC` ioctl-number encoding and decoding (the layout of
//! `<asm-generic/ioctl.h>`), plus the typed [`IoctlCmd`] helpers used to
//! build KFD and DRM-AMDGPU command numbers.

use core::marker::PhantomData;
use vstd::prelude::*;

verus! {

/// Width of the command-number field.
pub const NRBITS: u32 = 8;
/// Width of the type (magic) field.
pub const TYPEBITS: u32 = 8;
/// Width of the argument-size field.
pub const SIZEBITS: u32 = 14;
/// Width of the direction field.
pub const DIRBITS: u32 = 2;

pub const NRSHIFT: u32 = 0;
pub const TYPESHIFT: u32 = 8;
pub const SIZESHIFT: u32 = 16;
pub const DIRSHIFT: u32 = 30;

pub const NRMASK: u32 = 0xff;
pub const TYPEMASK: u32 = 0xff;
pub const SIZEMASK: u32 = 0x3fff;
pub const DIRMASK: u32 = 0x3;

/// No data transfer.
pub const NONE: u32 = 0;
/// Userspace writes, kernel reads.
pub const WRITE: u32 = 1;
/// Kernel writes, userspace reads.
pub const READ: u32 = 2;

/// ioctl type of the KFD char device (`'K'`).
pub const KFD_MAGIC: u32 = 0x4b;
/// ioctl type of DRM devices (`'d'`).
pub const DRM_MAGIC: u32 = 0x64;
/// First driver-private DRM command number.
pub const DRM_COMMAND_BASE: u32 = 0x40;

/// The encoded command word, as a bit-level expression.
pub open spec fn spec_ioc(dir: u32, ty: u32, nr: u32, size: u32) -> u32 {
    (dir << 30u32) | (ty << 8u32) | (nr << 0u32) | (size << 16u32)
}

/// The command word packs its four fields without overlap.
pub open spec fn fields_fit(dir: u32, ty: u32, nr: u32, size: u32) -> bool {
    dir <= DIRMASK && ty <= TYPEMASK && nr <= NRMASK && size <= SIZEMASK
}

pub open spec fn spec_nr(cmd: u32) -> u32 {
    (cmd >> 0u32) & 0xffu32
}

pub open spec fn spec_ty(cmd: u32) -> u32 {
    (cmd >> 8u32) & 0xffu32
}

pub open spec fn spec_size(cmd: u32) -> u32 {
    (cmd >> 16u32) & 0x3fffu32
}

pub open spec fn spec_dir(cmd: u32) -> u32 {
    (cmd >> 30u32) & 0x3u32
}

/// Encode `(dir, ty, nr, size)` into an ioctl command number.
pub fn ioc(dir: u32, ty: u32, nr: u32, size: u32) -> (cmd: u32)
    ensures
        cmd == spec_ioc(dir, ty, nr, size),
{
    (dir << DIRSHIFT) | (ty << TYPESHIFT) | (nr << NRSHIFT) | (size << SIZESHIFT)
}

/// `_IO(ty, nr)`: a command without an argument.
pub fn io(ty: u32, nr: u32) -> (cmd: u32)
    ensures
        cmd == spec_ioc(NONE, ty, nr, 0),
{
    ioc(NONE, ty, nr, 0)
}

/// `_IOR(ty, nr, size)`.
pub fn ior(ty: u32, nr: u32, size: u32) -> (cmd: u32)
    ensures
        cmd == spec_ioc(READ, ty, nr, size),
{
    ioc(READ, ty, nr, size)
}

/// `_IOW(ty, nr, size)`.
pub fn iow(ty: u32, nr: u32, size: u32) -> (cmd: u32)
    ensures
        cmd == spec_ioc(WRITE, ty, nr, size),
{
    ioc(WRITE, ty, nr, size)
}

/// `_IOWR(ty, nr, size)`.
pub fn iowr(ty: u32, nr: u32, size: u32) -> (cmd: u32)
    ensures
        cmd == spec_ioc(READ | WRITE, ty, nr, size),
{
    ioc(READ | WRITE, ty, nr, size)
}

/// The command-number field of an ioctl command.
pub fn nr(cmd: u32) -> (r: u32)
    ensures
        r == spec_nr(cmd),
        r <= NRMASK,
{
    let r = (cmd >> NRSHIFT) & NRMASK;
    assert(((cmd >> 0u32) & 0xffu32) <= 0xffu32) by (bit_vector);
    r
}

/// The type (magic) field of an ioctl command.
pub fn ty(cmd: u32) -> (r: u32)
    ensures
        r == spec_ty(cmd),
        r <= TYPEMASK,
{
    let r = (cmd >> TYPESHIFT) & TYPEMASK;
    assert(((cmd >> 8u32) & 0xffu32) <= 0xffu32) by (bit_vector);
    r
}

/// The argument-size field of an ioctl command.
pub fn size(cmd: u32) -> (r: u32)
    ensures
        r == spec_size(cmd),
        r <= SIZEMASK,
{
    let r = (cmd >> SIZESHIFT) & SIZEMASK;
    assert(((cmd >> 16u32) & 0x3fffu32) <= 0x3fffu32) by (bit_vector);
    r
}

/// The direction field of an ioctl command.
pub fn dir(cmd: u32) -> (r: u32)
    ensures
        r == spec_dir(cmd),
        r <= DIRMASK,
{
    let r = (cmd >> DIRSHIFT) & DIRMASK;
    assert(((cmd >> 30u32) & 0x3u32) <= 0x3u32) by (bit_vector);
    r
}

/// Decoding an encoded command gives back each of its fields, whenever the
/// fields fit their widths.
pub proof fn lemma_decode_encode(dir: u32, ty: u32, nr: u32, size: u32)
    requires
        fields_fit(dir, ty, nr, size),
    ensures
        spec_nr(spec_ioc(dir, ty, nr, size)) == nr,
        spec_ty(spec_ioc(dir, ty, nr, size)) == ty,
        spec_size(spec_ioc(dir, ty, nr, size)) == size,
        spec_dir(spec_ioc(dir, ty, nr, size)) == dir,
{
    assert(dir <= 3u32 && ty <= 0xffu32 && nr <= 0xffu32 && size <= 0x3fffu32 ==> {
        let c = (dir << 30u32) | (ty << 8u32) | (nr << 0u32) | (size << 16u32);
        &&& ((c >> 0u32) & 0xffu32) == nr
        &&& ((c >> 8u32) & 0xffu32) == ty
        &&& ((c >> 16u32) & 0x3fffu32) == size
        &&& ((c >> 30u32) & 0x3u32) == dir
    }) by (bit_vector);
}

/// Every command number is the encoding of its own decoded fields.
pub proof fn lemma_encode_decode(cmd: u32)
    ensures
        fields_fit(spec_dir(cmd), spec_ty(cmd), spec_nr(cmd), spec_size(cmd)),
        spec_ioc(spec_dir(cmd), spec_ty(cmd), spec_nr(cmd), spec_size(cmd)) == cmd,
{
    assert({
        let d = (cmd >> 30u32) & 0x3u32;
        let t = (cmd >> 8u32) & 0xffu32;
        let n = (cmd >> 0u32) & 0xffu32;
        let s = (cmd >> 16u32) & 0x3fffu32;
        &&& d <= 3u32 && t <= 0xffu32 && n <= 0xffu32 && s <= 0x3fffu32
        &&& ((d << 30u32) | (t << 8u32) | (n << 0u32) | (s << 16u32)) == cmd
    }) by (bit_vector);
}

/// A typed ioctl command: the command number for an argument of type `T`.
#[derive(Debug)]
pub struct IoctlCmd<T> {
    nr: u32,
    marker: PhantomData<T>,
}

impl<T> Clone for IoctlCmd<T> {
    fn clone(&self) -> (c: Self)
        ensures
            c == *self,
    {
        IoctlCmd { nr: self.nr, marker: PhantomData }
    }
}

impl<T> Copy for IoctlCmd<T> {

}

impl<T> PartialEq for IoctlCmd<T> {
    fn eq(&self, other: &Self) -> (r: bool) {
        self.nr == other.nr
    }
}

impl<T> vstd::std_specs::cmp::PartialEqSpecImpl for IoctlCmd<T> {
    open spec fn obeys_eq_spec() -> bool {
        true
    }

    open spec fn eq_spec(&self, other: &Self) -> bool {
        self.spec_nr() == other.spec_nr()
    }
}

impl<T> Eq for IoctlCmd<T> {

}

impl<T> IoctlCmd<T> {
    /// The encoded command number this value carries.
    pub closed spec fn spec_nr(self) -> u32 {
        self.nr
    }

    /// The command that carries the number `nr`.
    pub closed spec fn spec_new(nr: u32) -> Self {
        IoctlCmd { nr, marker: PhantomData }
    }

    /// Wrap an already-encoded command number.
    pub fn new(nr: u32) -> (cmd: Self)
        ensures
            cmd == Self::spec_new(nr),
            cmd.spec_nr() == nr,
    {
        IoctlCmd { nr, marker: PhantomData }
    }

    /// The encoded command number.
    pub fn nr(self) -> (r: u32)
        ensures
            r == self.spec_nr(),
    {
        self.nr
    }
}

/// A command carries the number it was made from, and two commands made
/// from numbers are equal exactly when the numbers are.
pub proof fn lemma_cmd_new_eq<T>(a: u32, b: u32)
    ensures
        IoctlCmd::<T>::spec_new(a).spec_nr() == a,
        (IoctlCmd::<T>::spec_new(a) == IoctlCmd::<T>::spec_new(b)) <==> a == b,
{
    assert(IoctlCmd::<T>::spec_new(a).spec_nr() == a);
    assert(IoctlCmd::<T>::spec_new(b).spec_nr() == b);
}

/// The size field the kernel sees for an argument of type `T`: the low
/// fourteen bits of its byte size.
pub open spec fn spec_arg_size<T>() -> u32 {
    (vstd::layout::size_of::<T>() as u32)
}

/// `_IOR(KFD_MAGIC, nr, T)`.
pub fn kfd_ior<T>(nr: u32) -> (cmd: IoctlCmd<T>)
    ensures
        cmd.spec_nr() == spec_ioc(READ, KFD_MAGIC, nr, spec_arg_size::<T>()),
{
    IoctlCmd::new(ior(KFD_MAGIC, nr, core::mem::size_of::<T>() as u32))
}

/// `_IOW(KFD_MAGIC, nr, T)`.
pub fn kfd_iow<T>(nr: u32) -> (cmd: IoctlCmd<T>)
    ensures
        cmd.spec_nr() == spec_ioc(WRITE, KFD_MAGIC, nr, spec_arg_size::<T>()),
{
    IoctlCmd::new(iow(KFD_MAGIC, nr, core::mem::size_of::<T>() as u32))
}

/// `_IOWR(KFD_MAGIC, nr, T)`.
pub fn kfd_iowr<T>(nr: u32) -> (cmd: IoctlCmd<T>)
    ensures
        cmd.spec_nr() == spec_ioc(READ | WRITE, KFD_MAGIC, nr, spec_arg_size::<T>()),
{
    IoctlCmd::new(iowr(KFD_MAGIC, nr, core::mem::size_of::<T>() as u32))
}

/// `DRM_IOW(DRM_COMMAND_BASE + nr, T)`.
pub fn drm_iow<T>(nr: u32) -> (cmd: IoctlCmd<T>)
    requires
        nr + DRM_COMMAND_BASE <= u32::MAX,
    ensures
        cmd.spec_nr() == spec_ioc(WRITE, DRM_MAGIC, (DRM_COMMAND_BASE + nr) as u32, spec_arg_size::<T>()),
{
    IoctlCmd::new(iow(DRM_MAGIC, DRM_COMMAND_BASE + nr, core::mem::size_of::<T>() as u32))
}

/// `DRM_IOWR(DRM_COMMAND_BASE + nr, T)`.
pub fn drm_iowr<T>(nr: u32) -> (cmd: IoctlCmd<T>)
    requires
        nr + DRM_COMMAND_BASE <= u32::MAX,
    ensures
        cmd.spec_nr() == spec_ioc(READ | WRITE, DRM_MAGIC, (DRM_COMMAND_BASE + nr) as u32, spec_arg_size::<T>()),
{
    IoctlCmd::new(iowr(DRM_MAGIC, DRM_COMMAND_BASE + nr, core::mem::size_of::<T>() as u32))
}

} // verus!
