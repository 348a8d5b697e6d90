//! Length-prefixed framing shared by the emulator wire protocol and the
//! daemon control socket: a big-endian `u32` payload length followed by
//! the payload bytes. Encoding the payload itself (BARE or JSON) happens
//! at the transport edge; this module builds and checks the frames.

use vstd::prelude::*;

use crate::amdgpu_error::{AmdgpuError, spec_from_errno};

verus! {

/// Maximum accepted frame payload in bytes.
pub const MAX_FRAME_LEN: usize = 0x400_0000;

/// The classes of I/O failure the transport logic distinguishes.
#[derive(Debug, Clone, Copy, PartialEq, Eq, Structural)]
pub enum IoKind {
    BrokenPipe,
    ConnectionReset,
    ConnectionAborted,
    UnexpectedEof,
    NotConnected,
    NotFound,
    Other,
}

/// An I/O failure as the transport logic sees it: its kind and, when the
/// operating system reported one, the raw errno.
#[derive(Debug, Clone, Copy, PartialEq, Eq, Structural)]
pub struct IoFailure {
    pub kind: IoKind,
    pub raw_os_error: Option<i32>,
}

/// Errors produced by the transport layer.
#[derive(Debug, Clone, PartialEq, Eq)]
pub enum WireError {
    Io(IoFailure),
    /// The payload could not be encoded; the message describes why.
    Encode(String),
    /// The payload could not be decoded; the message describes why.
    Decode(String),
    /// A frame announced or carried more than [`MAX_FRAME_LEN`] bytes.
    FrameTooLarge(usize),
}

/// The four big-endian bytes of `n`.
pub open spec fn be_bytes(n: u32) -> Seq<u8> {
    seq![(n >> 24u32) as u8, ((n >> 16u32) & 0xffu32) as u8, ((n >> 8u32) & 0xffu32) as u8, (n & 0xffu32) as u8]
}

/// The value of four big-endian bytes.
pub open spec fn be_value(b: Seq<u8>) -> u32 {
    ((b[0] as u32) << 24u32) | ((b[1] as u32) << 16u32) | ((b[2] as u32) << 8u32) | (b[3] as u32)
}

/// The frame that carries `payload`.
pub open spec fn spec_frame(payload: Seq<u8>) -> Seq<u8> {
    be_bytes(payload.len() as u32) + payload
}

/// Whether an I/O failure reports that the connection was lost, so that a
/// fresh connection may succeed.
pub open spec fn spec_is_retryable(e: IoFailure) -> bool {
    match e.kind {
        IoKind::BrokenPipe | IoKind::ConnectionReset | IoKind::ConnectionAborted
        | IoKind::UnexpectedEof | IoKind::NotConnected => true,
        _ => false,
    }
}

/// The emulator error an I/O failure stands for.
pub open spec fn spec_io_to_amdgpu(e: IoFailure) -> AmdgpuError {
    match e.raw_os_error {
        Some(n) => spec_from_errno(n),
        None => AmdgpuError::Io,
    }
}

/// The emulator error a transport error stands for.
pub open spec fn spec_wire_to_amdgpu(e: WireError) -> AmdgpuError {
    match e {
        WireError::Io(io) => spec_io_to_amdgpu(io),
        _ => AmdgpuError::Io,
    }
}

pub(crate) proof fn lemma_be_round_trip(n: u32)
    ensures
        be_value(be_bytes(n)) == n,
{
    let b = be_bytes(n);
    assert(b[0] == (n >> 24u32) as u8);
    assert(b[1] == ((n >> 16u32) & 0xffu32) as u8);
    assert(b[2] == ((n >> 8u32) & 0xffu32) as u8);
    assert(b[3] == (n & 0xffu32) as u8);
    assert(((((n >> 24u32) as u8) as u32) << 24u32) | (((((n >> 16u32) & 0xffu32) as u8) as u32) << 16u32)
        | (((((n >> 8u32) & 0xffu32) as u8) as u32) << 8u32) | (((n & 0xffu32) as u8) as u32) == n)
        by (bit_vector);
}

/// Encode `n` as four big-endian bytes.
fn be_u32_bytes(n: u32) -> (r: [u8; 4])
    ensures
        r@ == be_bytes(n),
{
    let r = [(n >> 24u32) as u8, ((n >> 16u32) & 0xffu32) as u8, ((n >> 8u32) & 0xffu32) as u8, (n & 0xffu32) as u8];
    assert(r@ =~= be_bytes(n));
    r
}

/// Append the frame carrying `payload` to `out`.
///
/// Fails with [`WireError::FrameTooLarge`] exactly when the payload is
/// longer than [`MAX_FRAME_LEN`]; `out` is then left unchanged.
pub fn write_frame(out: &mut Vec<u8>, payload: &[u8]) -> (r: Result<(), WireError>)
    ensures
        payload@.len() > MAX_FRAME_LEN <==> r == Err::<(), WireError>(WireError::FrameTooLarge(payload@.len() as usize)),
        payload@.len() <= MAX_FRAME_LEN <==> r is Ok,
        r is Ok ==> final(out)@ == old(out)@ + spec_frame(payload@),
        r is Err ==> final(out)@ == old(out)@,
{
    if payload.len() > MAX_FRAME_LEN {
        return Err(WireError::FrameTooLarge(payload.len()));
    }
    let header = be_u32_bytes(payload.len() as u32);
    let ghost start = out@;
    let mut i: usize = 0;
    while i < 4
        invariant
            0 <= i <= 4,
            out@ == start + header@.take(i as int),
        decreases 4 - i,
    {
        out.push(header[i]);
        assert(header@.take(i + 1) =~= header@.take(i as int).push(header@[i as int]));
        i += 1;
    }
    assert(header@.take(4) =~= header@);
    let ghost mid = out@;
    let mut j: usize = 0;
    while j < payload.len()
        invariant
            0 <= j <= payload@.len(),
            out@ == mid + payload@.take(j as int),
        decreases payload@.len() - j,
    {
        out.push(payload[j]);
        assert(payload@.take(j + 1) =~= payload@.take(j as int).push(payload@[j as int]));
        j += 1;
    }
    assert(payload@.take(payload@.len() as int) =~= payload@);
    assert(out@ =~= start + spec_frame(payload@));
    Ok(())
}

/// The payload length announced by a frame header, rejecting lengths above
/// [`MAX_FRAME_LEN`].
pub fn frame_len(header: [u8; 4]) -> (r: Result<usize, WireError>)
    ensures
        be_value(header@) <= MAX_FRAME_LEN ==> r == Ok::<usize, WireError>(be_value(header@) as usize),
        be_value(header@) > MAX_FRAME_LEN ==> r == Err::<usize, WireError>(WireError::FrameTooLarge(be_value(header@) as usize)),
{
    let len = ((header[0] as u32) << 24u32) | ((header[1] as u32) << 16u32) | ((header[2] as u32) << 8u32)
        | (header[3] as u32);
    assert(len == be_value(header@));
    let len = len as usize;
    if len > MAX_FRAME_LEN {
        Err(WireError::FrameTooLarge(len))
    } else {
        Ok(len)
    }
}

/// The result of reading one frame from the front of `input`.
pub open spec fn spec_read_frame(input: Seq<u8>) -> Result<(Seq<u8>, int), WireError> {
    if input.len() < 4 {
        Err(WireError::Io(IoFailure { kind: IoKind::UnexpectedEof, raw_os_error: None }))
    } else {
        let len = be_value(input.take(4));
        if len > MAX_FRAME_LEN {
            Err(WireError::FrameTooLarge(len as usize))
        } else if input.len() < 4 + len {
            Err(WireError::Io(IoFailure { kind: IoKind::UnexpectedEof, raw_os_error: None }))
        } else {
            Ok((input.subrange(4, 4 + len), 4 + len))
        }
    }
}

/// Read one frame from the front of `input`, returning its payload and the
/// number of bytes it occupied. Input that ends before the frame does is
/// reported as an unexpected end of file.
pub fn read_frame(input: &[u8]) -> (r: Result<(Vec<u8>, usize), WireError>)
    ensures
        match (r, spec_read_frame(input@)) {
            (Ok((payload, used)), Ok((p, u))) => payload@ == p && used == u,
            (Err(e), Err(e2)) => e == e2,
            _ => false,
        },
{
    if input.len() < 4 {
        return Err(WireError::Io(IoFailure { kind: IoKind::UnexpectedEof, raw_os_error: None }));
    }
    let header = [input[0], input[1], input[2], input[3]];
    assert(header@ =~= input@.take(4));
    let len = match frame_len(header) {
        Ok(len) => len,
        Err(e) => return Err(e),
    };
    if input.len() - 4 < len {
        return Err(WireError::Io(IoFailure { kind: IoKind::UnexpectedEof, raw_os_error: None }));
    }
    let mut payload: Vec<u8> = Vec::new();
    let mut i: usize = 0;
    while i < len
        invariant
            0 <= i <= len,
            4 + len <= input@.len(),
            input@.len() == input.len(),
            payload@ == input@.subrange(4, 4 + i),
        decreases len - i,
    {
        payload.push(input[4 + i]);
        assert(input@.subrange(4, 4 + i + 1) =~= input@.subrange(4, 4 + i).push(input@[4 + i]));
        i += 1;
    }
    Ok((payload, 4 + len))
}

/// Reading back a written frame gives the payload that was written, and
/// consumes exactly the frame.
pub proof fn lemma_frame_round_trip(payload: Seq<u8>, rest: Seq<u8>)
    requires
        payload.len() <= MAX_FRAME_LEN,
    ensures
        spec_read_frame(spec_frame(payload) + rest) == Ok::<(Seq<u8>, int), WireError>((payload, 4 + payload.len() as int)),
{
    let input = spec_frame(payload) + rest;
    lemma_be_round_trip(payload.len() as u32);
    assert(input.take(4) =~= be_bytes(payload.len() as u32));
    assert(input.subrange(4, 4 + payload.len() as int) =~= payload);
}

/// Whether an I/O failure reports a lost connection, so that reconnecting
/// once is worthwhile.
pub fn is_retryable_io(e: &IoFailure) -> (r: bool)
    ensures
        r == spec_is_retryable(*e),
        r <==> (e.kind == IoKind::BrokenPipe || e.kind == IoKind::ConnectionReset || e.kind == IoKind::ConnectionAborted
            || e.kind == IoKind::UnexpectedEof || e.kind == IoKind::NotConnected),
{
    match e.kind {
        IoKind::BrokenPipe | IoKind::ConnectionReset | IoKind::ConnectionAborted
        | IoKind::UnexpectedEof | IoKind::NotConnected => true,
        _ => false,
    }
}

/// The emulator error an I/O failure stands for: its errno when the
/// operating system reported one, [`AmdgpuError::Io`] otherwise.
pub fn io_to_amdgpu(e: &IoFailure) -> (r: AmdgpuError)
    ensures
        r == spec_io_to_amdgpu(*e),
{
    match e.raw_os_error {
        Some(n) => AmdgpuError::from_errno(n),
        None => AmdgpuError::Io,
    }
}

/// The emulator error a transport error stands for.
pub fn wire_to_amdgpu(e: &WireError) -> (r: AmdgpuError)
    ensures
        r == spec_wire_to_amdgpu(*e),
{
    match e {
        WireError::Io(io) => io_to_amdgpu(io),
        _ => AmdgpuError::Io,
    }
}

} // verus!
