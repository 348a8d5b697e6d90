//! The container runtime's vocabulary: what a session asks a runtime to
//! start or run, what it reports back, and how it fails.

use vstd::prelude::*;

use crate::text::copy_bytes;

verus! {

/// A transport protocol of a published port.
#[derive(Debug, Clone, Copy, PartialEq, Eq, Structural)]
pub enum Protocol {
    Tcp,
    Udp,
}

/// One environment variable.
#[derive(Debug, Clone, PartialEq, Eq)]
pub struct SetEnv {
    pub key: String,
    pub value: String,
}

/// A program to run: command, arguments and environment.
#[derive(Debug, Clone, PartialEq, Eq)]
pub struct ExecArgs {
    pub command: String,
    pub args: Vec<String>,
    pub env: Vec<SetEnv>,
}

/// A host directory mounted into a container.
#[derive(Debug, Clone, PartialEq, Eq)]
pub struct BindMount {
    pub host_path: String,
    pub container_path: String,
    pub readonly: bool,
}

/// A file written on the host and mounted into a container.
#[derive(Debug, Clone, PartialEq, Eq)]
pub struct InjectedFile {
    pub container_path: String,
    pub content: Vec<u8>,
    pub readonly: bool,
    pub label: Option<String>,
}

/// A container port to publish; host port 0 lets the runtime pick one.
#[derive(Debug, Clone, PartialEq, Eq)]
pub struct PortMapping {
    pub container_port: u16,
    pub host_port: u16,
    pub protocol: Protocol,
    pub label: Option<String>,
}

/// Everything a container is started with.
#[derive(Debug, Clone, PartialEq, Eq)]
pub struct ContainerDef {
    pub image: String,
    pub mounts: Vec<BindMount>,
    pub injected_files: Vec<InjectedFile>,
    pub entrypoint: ExecArgs,
    pub working_dir: Option<String>,
    pub ports: Vec<PortMapping>,
    pub privileged: bool,
    pub devices: Vec<String>,
    pub resource_limits_json: Option<String>,
    pub network: Option<String>,
    /// Labels attached to the container, by key.
    pub labels: Vec<(String, String)>,
}

/// A request to start a named container.
#[derive(Debug, Clone, PartialEq, Eq)]
pub struct StartContainerRequest {
    pub name: String,
    pub container: ContainerDef,
}

/// A started container: the runtime's id and the name it was given.
#[derive(Debug, Clone, PartialEq, Eq)]
pub struct ContainerHandle {
    pub id: String,
    pub name: String,
}

/// The life-cycle state of a container.
#[derive(Debug, Clone, Copy, PartialEq, Eq, Structural)]
pub enum ContainerState {
    Created,
    Running,
    Exited,
    Dead,
}

/// A published port as the runtime resolved it.
#[derive(Debug, Clone, PartialEq, Eq)]
pub struct ResolvedPortMapping {
    pub container_port: u16,
    pub host_port: Option<u16>,
    pub protocol: Protocol,
    pub label: Option<String>,
}

/// What the runtime reports about a container.
#[derive(Debug, Clone, PartialEq, Eq)]
pub struct ContainerInspection {
    pub handle: ContainerHandle,
    pub image: String,
    pub state: ContainerState,
    pub exit_code: Option<i32>,
    pub ports: Vec<ResolvedPortMapping>,
}

/// A started container's inspection.
#[derive(Debug, Clone, PartialEq, Eq)]
pub struct StartedContainer {
    pub inspection: ContainerInspection,
}

/// A container as a runtime lists it.
#[derive(Debug, Clone, PartialEq, Eq)]
pub struct ListedContainer {
    pub handle: ContainerHandle,
    pub image: String,
    pub state: ContainerState,
    pub labels: Vec<(String, String)>,
}

/// A container's output so far.
#[derive(Debug, Clone, PartialEq, Eq)]
pub struct ContainerLogs {
    pub stdout: Vec<u8>,
    pub stderr: Vec<u8>,
}

/// A program to run inside a container.
#[derive(Debug, Clone, PartialEq, Eq)]
pub struct ExecRequest {
    pub container: ContainerHandle,
    pub program: ExecArgs,
    pub working_dir: Option<String>,
}

/// How a program run inside a container ended.
#[derive(Debug, Clone, PartialEq, Eq)]
pub struct ExecResult {
    pub exit_code: i32,
    pub stdout: Vec<u8>,
    pub stderr: Vec<u8>,
}

/// The runtime operation a command belongs to.
#[derive(Debug, Clone, Copy, PartialEq, Eq, Structural)]
pub enum ContainerRuntimeOperation {
    PullImage,
    StartContainer,
    InspectContainer,
    ReadLogs,
    Exec,
    StopContainer,
    RemoveContainer,
    CreateNetwork,
    RemoveNetwork,
}

/// A progress report sent while a runtime operation runs.
#[derive(Debug, Clone, PartialEq, Eq)]
pub enum ContainerRuntimeEvent {
    /// A human-readable status line.
    Status { operation: ContainerRuntimeOperation, message: String },
    /// A chunk the runtime program wrote to its standard output.
    Stdout { operation: ContainerRuntimeOperation, chunk: Vec<u8> },
    /// A chunk the runtime program wrote to its standard error.
    Stderr { operation: ContainerRuntimeOperation, chunk: Vec<u8> },
}

/// What an event says: 0 for a status line, 1 for standard output, 2 for
/// standard error; its operation; and its bytes or text.
pub type EventView = (int, ContainerRuntimeOperation, Seq<u8>, Seq<char>);

/// The view of one event.
pub open spec fn event_view(e: ContainerRuntimeEvent) -> EventView {
    match e {
        ContainerRuntimeEvent::Status { operation, message } => (0, operation, Seq::empty(), message@),
        ContainerRuntimeEvent::Stdout { operation, chunk } => (1, operation, chunk@, Seq::empty()),
        ContainerRuntimeEvent::Stderr { operation, chunk } => (2, operation, chunk@, Seq::empty()),
    }
}

/// A status line for `operation`.
pub open spec fn status_event(operation: ContainerRuntimeOperation, message: Seq<char>) -> EventView {
    (0, operation, Seq::empty(), message)
}

/// The chunk events for a program's two outputs: each that is not empty,
/// standard output first.
pub open spec fn chunk_events(operation: ContainerRuntimeOperation, stdout: Seq<u8>, stderr: Seq<u8>) -> Seq<EventView> {
    (if stdout.len() > 0 { seq![(1int, operation, stdout, Seq::<char>::empty())] } else { Seq::empty() })
        + (if stderr.len() > 0 { seq![(2int, operation, stderr, Seq::<char>::empty())] } else { Seq::empty() })
}

/// The events a progress log holds.
pub open spec fn events_view(events: Seq<ContainerRuntimeEvent>) -> Seq<EventView>
    decreases events.len(),
{
    if events.len() == 0 {
        Seq::empty()
    } else {
        events_view(events.drop_last()).push(event_view(events.last()))
    }
}

/// The view of an optional progress log.
pub open spec fn log_view(log: Option<Vec<ContainerRuntimeEvent>>) -> Option<Seq<EventView>> {
    match log {
        None => None,
        Some(events) => Some(events_view(events@)),
    }
}

/// A log with `more` appended; no log stays no log.
pub open spec fn appended(log: Option<Seq<EventView>>, more: Seq<EventView>) -> Option<Seq<EventView>> {
    match log {
        None => None,
        Some(events) => Some(events + more),
    }
}

/// Appending twice is appending both.
pub proof fn lemma_appended_twice(log: Option<Seq<EventView>>, a: Seq<EventView>, b: Seq<EventView>)
    ensures
        appended(appended(log, a), b) == appended(log, a + b),
{
    if let Some(events) = log {
        assert(events + a + b =~= events + (a + b));
    }
}

fn report(progress: &mut Option<Vec<ContainerRuntimeEvent>>, event: ContainerRuntimeEvent)
    ensures
        log_view(*final(progress)) == appended(log_view(*old(progress)), seq![event_view(event)]),
{
    match progress {
        Some(events) => {
            let ghost before = events@;
            events.push(event);
            proof {
                assert(events@.drop_last() =~= before);
                assert(events_view(before).push(event_view(event)) =~= events_view(before) + seq![event_view(event)]);
            }
        },
        None => {},
    }
}

proof fn lemma_no_chunks(log: Option<Vec<ContainerRuntimeEvent>>, operation: ContainerRuntimeOperation)
    ensures
        appended(log_view(log), chunk_events(operation, Seq::empty(), Seq::empty())) == log_view(log),
{
    if let Some(events) = log {
        assert(events_view(events@) + chunk_events(operation, Seq::empty(), Seq::empty()) =~= events_view(events@));
    }
}

/// Report a status line for `operation` to the progress log, if there is
/// one.
pub fn emit_status(progress: &mut Option<Vec<ContainerRuntimeEvent>>, operation: ContainerRuntimeOperation, message: String)
    ensures
        log_view(*final(progress)) == appended(log_view(*old(progress)), seq![status_event(operation, message@)]),
{
    report(progress, ContainerRuntimeEvent::Status { operation, message });
}

/// Report a chunk of standard output for `operation` to the progress log,
/// if there is one; an empty chunk is not reported.
pub fn emit_stdout(progress: &mut Option<Vec<ContainerRuntimeEvent>>, operation: ContainerRuntimeOperation, chunk: &[u8])
    ensures
        log_view(*final(progress)) == appended(log_view(*old(progress)), chunk_events(operation, chunk@, Seq::empty())),
{
    if chunk.len() == 0 {
        proof {
            lemma_no_chunks(*old(progress), operation);
        }
        return;
    }
    report(progress, ContainerRuntimeEvent::Stdout { operation, chunk: copy_bytes(chunk) });
    assert(chunk_events(operation, chunk@, Seq::empty()) =~= seq![(1int, operation, chunk@, Seq::<char>::empty())]);
}

/// Report a chunk of standard error for `operation` to the progress log,
/// if there is one; an empty chunk is not reported.
pub fn emit_stderr(progress: &mut Option<Vec<ContainerRuntimeEvent>>, operation: ContainerRuntimeOperation, chunk: &[u8])
    ensures
        log_view(*final(progress)) == appended(log_view(*old(progress)), chunk_events(operation, Seq::empty(), chunk@)),
{
    if chunk.len() == 0 {
        proof {
            lemma_no_chunks(*old(progress), operation);
        }
        return;
    }
    report(progress, ContainerRuntimeEvent::Stderr { operation, chunk: copy_bytes(chunk) });
    assert(chunk_events(operation, Seq::empty(), chunk@) =~= seq![(2int, operation, chunk@, Seq::<char>::empty())]);
}

/// The kind of a runtime failure.
#[derive(Debug, Clone, Copy, PartialEq, Eq, Structural)]
pub enum ErrorKind {
    InvalidRequest,
    NotFound,
    RuntimeUnavailable,
    Io,
    Parse,
    CommandFailed,
}

/// How a runtime operation fails.
#[derive(Debug, Clone, PartialEq, Eq)]
pub enum ContainerRuntimeError {
    /// The request itself is unacceptable.
    InvalidRequest(String),
    /// The container (or object) does not exist.
    NotFound(String),
    /// The runtime program cannot be run at all.
    RuntimeUnavailable(String),
    /// Running the runtime program failed.
    Io(String),
    /// The runtime's output could not be understood.
    Parse(String),
    /// The runtime program ran and failed.
    CommandFailed { command: String, status: Option<i32>, stdout: String, stderr: String },
}

/// The kind and message of an error (for a failed command, its command
/// line).
pub open spec fn error_view(e: ContainerRuntimeError) -> (ErrorKind, Seq<char>) {
    match e {
        ContainerRuntimeError::InvalidRequest(m) => (ErrorKind::InvalidRequest, m@),
        ContainerRuntimeError::NotFound(m) => (ErrorKind::NotFound, m@),
        ContainerRuntimeError::RuntimeUnavailable(m) => (ErrorKind::RuntimeUnavailable, m@),
        ContainerRuntimeError::Io(m) => (ErrorKind::Io, m@),
        ContainerRuntimeError::Parse(m) => (ErrorKind::Parse, m@),
        ContainerRuntimeError::CommandFailed { command, .. } => (ErrorKind::CommandFailed, command@),
    }
}

/// Build an error of `kind` with `message` (for a failed command, the
/// message is its command line and the rest is empty).
pub fn make_error(kind: ErrorKind, message: String) -> (e: ContainerRuntimeError)
    ensures
        error_view(e) == (kind, message@),
{
    match kind {
        ErrorKind::InvalidRequest => ContainerRuntimeError::InvalidRequest(message),
        ErrorKind::NotFound => ContainerRuntimeError::NotFound(message),
        ErrorKind::RuntimeUnavailable => ContainerRuntimeError::RuntimeUnavailable(message),
        ErrorKind::Io => ContainerRuntimeError::Io(message),
        ErrorKind::Parse => ContainerRuntimeError::Parse(message),
        ErrorKind::CommandFailed => ContainerRuntimeError::CommandFailed {
            command: message,
            status: None,
            stdout: String::new(),
            stderr: String::new(),
        },
    }
}

} // verus!
