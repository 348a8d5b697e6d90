//! The daemon control channel: the client handle, the frames that cross
//! the socket, and what each side does with the frame it reads next.
//!
//! A frame on this channel is a big-endian `u32` length followed by that
//! many bytes of JSON; the JSON itself is produced and parsed outside the
//! library, which sees each frame as a [`TransportFrame`].

use vstd::prelude::*;

use crate::frame::{be_bytes, be_value, lemma_be_round_trip, MAX_FRAME_LEN};
use crate::text::{decimal, push_str, to_owned, u64_to_string};

verus! {

/// How the command-line client prints replies.
#[derive(Debug, Clone, Copy, PartialEq, Eq, Structural)]
pub enum OutputFormat {
    /// Human-readable text.
    Default,
    /// One JSON document per reply.
    Json,
}

impl Default for OutputFormat {
    fn default() -> (r: Self)
        ensures
            r == OutputFormat::Default,
    {
        OutputFormat::Default
    }
}

/// Client handle for the daemon listening on a Unix socket.
#[derive(Debug, Clone)]
pub struct MirageDaemonClient {
    socket_path: String,
}

impl MirageDaemonClient {
    /// The socket this client talks to.
    pub closed spec fn spec_socket_path(&self) -> Seq<char> {
        self.socket_path@
    }

    /// A client for the daemon listening on `socket_path`.
    pub fn new(socket_path: String) -> (r: Self)
        ensures
            r.spec_socket_path() == socket_path@,
    {
        MirageDaemonClient { socket_path }
    }

    /// The socket this client talks to.
    pub fn socket_path(&self) -> (r: &str)
        ensures
            r@ == self.spec_socket_path(),
    {
        self.socket_path.as_str()
    }
}

/// A frame of the control channel, as the channel logic sees it. Request,
/// input, output and reply frames carry the name of the message they hold
/// (its kind); an error frame carries the error's message.
#[derive(Debug, Clone, PartialEq, Eq)]
pub enum TransportFrame {
    Request(String),
    Input(String),
    Output(String),
    Reply(String),
    Error(String),
    EndInput,
}

/// The name of a frame used in protocol error messages.
pub open spec fn spec_frame_kind(frame: TransportFrame) -> Seq<char> {
    match frame {
        TransportFrame::Request(k) => k@,
        TransportFrame::Input(k) => k@,
        TransportFrame::Output(k) => k@,
        TransportFrame::Reply(k) => k@,
        TransportFrame::Error(_) => "error"@,
        TransportFrame::EndInput => "end-input"@,
    }
}

impl TransportFrame {
    /// The name of this frame used in protocol error messages: the kind of
    /// the message it holds, `"error"` or `"end-input"`.
    pub fn kind(&self) -> (r: String)
        ensures
            r@ == spec_frame_kind(*self),
    {
        match self {
            TransportFrame::Request(k) => to_owned(k.as_str()),
            TransportFrame::Input(k) => to_owned(k.as_str()),
            TransportFrame::Output(k) => to_owned(k.as_str()),
            TransportFrame::Reply(k) => to_owned(k.as_str()),
            TransportFrame::Error(_) => to_owned("error"),
            TransportFrame::EndInput => to_owned("end-input"),
        }
    }
}

/// How a control-channel exchange fails.
#[derive(Debug, Clone, PartialEq, Eq)]
pub enum ControlError {
    /// The peer broke the protocol; the message says how.
    Protocol(String),
    /// The daemon answered with an error; this is its message.
    Remote(String),
}

/// `prefix` followed by `rest`.
fn two(prefix: &str, rest: &str) -> (r: String)
    ensures
        r@ == prefix@ + rest@,
{
    let mut s = to_owned(prefix);
    push_str(&mut s, rest);
    s
}

/// `prefix`, then `middle`, then `suffix`.
fn three(prefix: &str, middle: &str, suffix: &str) -> (r: String)
    ensures
        r@ == prefix@ + middle@ + suffix@,
{
    let mut s = to_owned(prefix);
    push_str(&mut s, middle);
    push_str(&mut s, suffix);
    s
}

/// What the client does with a frame read while it waits for the reply.
#[derive(Debug, Clone, PartialEq, Eq)]
pub enum ClientStep {
    /// Hand the output message to the caller and read on.
    Forward,
    /// The exchange is over: this is the reply.
    Reply,
    /// The exchange failed.
    Fail(ControlError),
}

/// The client's step on `frame`, where `has_output` says whether the
/// caller takes output messages.
pub open spec fn spec_client_step(frame: TransportFrame, has_output: bool) -> (Seq<char>, Seq<char>) {
    match frame {
        TransportFrame::Output(k) => if has_output {
            ("forward"@, Seq::empty())
        } else {
            ("protocol"@, "received unexpected "@ + k@ + " output frame"@)
        },
        TransportFrame::Reply(_) => ("reply"@, Seq::empty()),
        TransportFrame::Error(m) => ("remote"@, m@),
        _ => ("protocol"@, "expected output or reply frame but received "@ + spec_frame_kind(frame)),
    }
}

/// The tag and message of a client step.
pub open spec fn client_step_view(step: ClientStep) -> (Seq<char>, Seq<char>) {
    match step {
        ClientStep::Forward => ("forward"@, Seq::empty()),
        ClientStep::Reply => ("reply"@, Seq::empty()),
        ClientStep::Fail(ControlError::Protocol(m)) => ("protocol"@, m@),
        ClientStep::Fail(ControlError::Remote(m)) => ("remote"@, m@),
    }
}

/// What the client does with `frame` while it waits for the reply: output
/// is forwarded when the caller takes it and is a protocol error
/// otherwise, a reply ends the exchange, an error frame fails it with the
/// daemon's message, and any other frame is a protocol error.
pub fn client_step(frame: &TransportFrame, has_output: bool) -> (r: ClientStep)
    ensures
        client_step_view(r) == spec_client_step(*frame, has_output),
{
    match frame {
        TransportFrame::Output(k) => {
            if has_output {
                ClientStep::Forward
            } else {
                ClientStep::Fail(ControlError::Protocol(three("received unexpected ", k.as_str(), " output frame")))
            }
        },
        TransportFrame::Reply(_) => ClientStep::Reply,
        TransportFrame::Error(m) => ClientStep::Fail(ControlError::Remote(to_owned(m.as_str()))),
        _ => {
            let kind = frame.kind();
            ClientStep::Fail(ControlError::Protocol(two("expected output or reply frame but received ", kind.as_str())))
        },
    }
}

/// The server's answer to the first frame of a connection: the request's
/// kind, or the protocol error for any other frame.
pub open spec fn spec_first_frame(frame: TransportFrame) -> Result<Seq<char>, Seq<char>> {
    match frame {
        TransportFrame::Request(k) => Ok(k@),
        _ => Err("expected request frame but received "@ + spec_frame_kind(frame)),
    }
}

/// The view of a server decision.
pub open spec fn kind_or_error_view(r: Result<String, ControlError>) -> Result<Seq<char>, Seq<char>> {
    match r {
        Ok(k) => Ok(k@),
        Err(ControlError::Protocol(m)) => Err(m@),
        Err(ControlError::Remote(m)) => Err("remote: "@ + m@),
    }
}

/// The server accepts a connection only if its first frame is a request;
/// it answers with the request's kind.
pub fn server_first_frame(frame: &TransportFrame) -> (r: Result<String, ControlError>)
    ensures
        kind_or_error_view(r) == spec_first_frame(*frame),
        r is Err ==> r->Err_0 is Protocol,
{
    match frame {
        TransportFrame::Request(k) => Ok(to_owned(k.as_str())),
        _ => {
            let kind = frame.kind();
            Err(ControlError::Protocol(two("expected request frame but received ", kind.as_str())))
        },
    }
}

/// What the server does with a frame read after the request.
#[derive(Debug, Clone, PartialEq, Eq)]
pub enum InputStep {
    /// Hand the input message to the daemon and read on.
    Deliver,
    /// The client sent all its input.
    Finish,
    /// The client broke the protocol; the message says how.
    Fail(String),
}

/// The server's step on a frame read after the request.
pub open spec fn spec_input_step(frame: TransportFrame) -> (int, Seq<char>) {
    match frame {
        TransportFrame::Input(_) => (0, Seq::empty()),
        TransportFrame::EndInput => (1, Seq::empty()),
        _ => (2, "expected input or end-input frame but received "@ + spec_frame_kind(frame)),
    }
}

/// The tag and message of an input step.
pub open spec fn input_step_view(step: InputStep) -> (int, Seq<char>) {
    match step {
        InputStep::Deliver => (0, Seq::empty()),
        InputStep::Finish => (1, Seq::empty()),
        InputStep::Fail(m) => (2, m@),
    }
}

/// After the request the server reads input frames until the end-input
/// frame; any other frame is a protocol error.
pub fn server_input_step(frame: &TransportFrame) -> (r: InputStep)
    ensures
        input_step_view(r) == spec_input_step(*frame),
{
    match frame {
        TransportFrame::Input(_) => InputStep::Deliver,
        TransportFrame::EndInput => InputStep::Finish,
        _ => {
            let kind = frame.kind();
            InputStep::Fail(two("expected input or end-input frame but received ", kind.as_str()))
        },
    }
}

/// The protocol error for a frame announcing `len` bytes.
pub open spec fn oversized_message(len: nat) -> Seq<char> {
    "rpc frame of "@ + decimal(len) + " bytes exceeds maximum supported size of "@ + decimal(
        MAX_FRAME_LEN as nat,
    ) + " bytes"@
}

/// The payload length a control frame header announces; lengths above
/// [`MAX_FRAME_LEN`] are a protocol error.
pub fn control_frame_len(header: [u8; 4]) -> (r: Result<usize, ControlError>)
    ensures
        be_value(header@) <= MAX_FRAME_LEN ==> r == Ok::<usize, ControlError>(be_value(header@) as usize),
        be_value(header@) > MAX_FRAME_LEN ==> (r matches Err(ControlError::Protocol(m)) && m@
            == oversized_message(be_value(header@) as nat)),
{
    let len = ((header[0] as u32) << 24u32) | ((header[1] as u32) << 16u32) | ((header[2] as u32) << 8u32)
        | (header[3] as u32);
    assert(len == be_value(header@));
    if (len as usize) > MAX_FRAME_LEN {
        let mut m = to_owned("rpc frame of ");
        let n = u64_to_string(len as u64);
        push_str(&mut m, n.as_str());
        push_str(&mut m, " bytes exceeds maximum supported size of ");
        let max = u64_to_string(MAX_FRAME_LEN as u64);
        push_str(&mut m, max.as_str());
        push_str(&mut m, " bytes");
        Err(ControlError::Protocol(m))
    } else {
        Ok(len as usize)
    }
}

/// The header of a control frame carrying `len` bytes; a length that does
/// not fit in a `u32` is a protocol error.
pub fn control_frame_header(len: usize) -> (r: Result<[u8; 4], ControlError>)
    ensures
        len <= u32::MAX ==> (r matches Ok(h) && h@ == be_bytes(len as u32)),
        len > u32::MAX ==> (r matches Err(ControlError::Protocol(m)) && m@ == "rpc frame exceeds u32 length limit"@),
{
    if len > 0xffff_ffffusize {
        return Err(ControlError::Protocol(to_owned("rpc frame exceeds u32 length limit")));
    }
    let n = len as u32;
    let h = [(n >> 24u32) as u8, ((n >> 16u32) & 0xffu32) as u8, ((n >> 8u32) & 0xffu32) as u8, (n & 0xffu32) as u8];
    assert(h@ =~= be_bytes(n));
    Ok(h)
}

/// A control frame header written for `len` payload bytes is read back as
/// `len` whenever `len` is within [`MAX_FRAME_LEN`]; a longer payload is
/// refused by the reader.
pub proof fn lemma_control_frame_round_trip(len: u32)
    ensures
        be_value(be_bytes(len)) == len,
        len <= MAX_FRAME_LEN ==> be_value(be_bytes(len)) <= MAX_FRAME_LEN,
        len > MAX_FRAME_LEN ==> be_value(be_bytes(len)) > MAX_FRAME_LEN,
{
    lemma_be_round_trip(len);
}

} // verus!
