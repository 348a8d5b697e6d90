//! A session boot as a state machine: the daemon's boot task pulls the
//! image, creates the session network when there is one, starts the
//! containers node by node, and on a failed start removes what it started
//! before reporting the failure. The task decides; its caller performs each
//! action and reports how it went.

use vstd::prelude::*;

use crate::container::{ContainerHandle, ContainerRuntimeEvent, StartContainerRequest};
use crate::daemon::BootPlan;
use crate::text::{decode_utf8, push_str, spec_trim, strings_view, to_owned, trim, utf8_strict};

verus! {

/// What a boot task waits for.
#[derive(Debug, Clone, Copy, PartialEq, Eq, Structural)]
pub enum BootStage {
    /// The image pull.
    Pulling,
    /// The session network.
    CreatingNetwork,
    /// The start of the next container.
    Starting,
    /// The removal of started container number `i` after a failed start.
    RemovingNode(usize),
    /// The removal of the network after a failed start.
    RemovingNetwork,
    /// Nothing: the boot is over.
    Finished,
}

/// What the caller reports to a boot task.
#[derive(Debug, PartialEq, Eq)]
pub enum BootEvent {
    /// The image pull is over (its outcome does not matter: a cached image
    /// may still start).
    PullDone,
    /// The network was created, or why not.
    NetworkCreated(Result<(), String>),
    /// The container started with this handle, or why not.
    ContainerStarted(Result<ContainerHandle, String>),
    /// A started container was stopped and removed (whatever came of it).
    NodeRemoved,
    /// The network was removed (whatever came of it).
    NetworkRemoved,
}

/// How many seconds a container started by a failed boot is given to stop
/// before it is removed.
pub const NODE_STOP_SECS: u32 = 5;

/// What a boot that succeeded gives: the emulator session id and the ids
/// of the containers it started, in node order.
#[derive(Debug, PartialEq, Eq)]
pub struct BootSuccess {
    pub emulator_session: String,
    pub container_ids: Vec<String>,
}

/// The ids of started containers.
pub open spec fn handle_ids(handles: Seq<ContainerHandle>) -> Seq<Seq<char>> {
    Seq::new(handles.len(), |i: int| handles[i].id@)
}

/// What a boot task asks its caller to do next.
#[derive(Debug, PartialEq, Eq)]
pub enum BootAction {
    PullImage(String),
    CreateNetwork(String),
    StartContainer(StartContainerRequest),
    /// Stop the container (giving it [`NODE_STOP_SECS`] seconds) and
    /// force-remove it.
    RemoveNode(ContainerHandle),
    RemoveNetwork(String),
    /// The boot is over: what it gave, or the failure message.
    Finish(Result<BootSuccess, String>),
}

/// A boot in progress.
#[derive(Debug)]
pub struct BootTask {
    emulator_session: String,
    network: Option<String>,
    /// The containers still to start, in node order.
    pending: Vec<StartContainerRequest>,
    started: Vec<ContainerHandle>,
    stage: BootStage,
    failure: String,
}

/// Whether `event` is one a task at `stage` waits for.
pub open spec fn expects(stage: BootStage, event: BootEvent) -> bool {
    match stage {
        BootStage::Pulling => event is PullDone,
        BootStage::CreatingNetwork => event is NetworkCreated,
        BootStage::Starting => event is ContainerStarted,
        BootStage::RemovingNode(_) => event is NodeRemoved,
        BootStage::RemovingNetwork => event is NetworkRemoved,
        BootStage::Finished => false,
    }
}

/// The failure message of a network that could not be created.
pub open spec fn network_failure(e: Seq<char>) -> Seq<char> {
    "failed to create network: "@ + e
}

/// The failure message of a container that could not be started.
pub open spec fn start_failure(e: Seq<char>) -> Seq<char> {
    "failed to start container: "@ + e
}

impl BootTask {
    pub closed spec fn stage(&self) -> BootStage {
        self.stage
    }

    pub closed spec fn emulator_session(&self) -> Seq<char> {
        self.emulator_session@
    }

    pub closed spec fn network(&self) -> Option<String> {
        self.network
    }

    /// The containers still to start, in node order.
    pub closed spec fn pending(&self) -> Seq<StartContainerRequest> {
        self.pending@
    }

    /// The containers started so far, in node order.
    pub closed spec fn started(&self) -> Seq<ContainerHandle> {
        self.started@
    }

    /// The message a failed boot finishes with.
    pub closed spec fn failure(&self) -> Seq<char> {
        self.failure@
    }

    /// Start booting `plan` on `image`: the first thing to do is to pull
    /// the image.
    pub fn new(plan: BootPlan, image: String, emulator_session: String) -> (r: (BootTask, BootAction))
        ensures
            r.0.stage() == BootStage::Pulling,
            r.0.emulator_session() == emulator_session@,
            r.0.network() == plan.network,
            r.0.pending() == plan.containers@,
            r.0.started().len() == 0,
            r.1 == BootAction::PullImage(image),
    {
        let task = BootTask {
            emulator_session,
            network: plan.network,
            pending: plan.containers,
            started: Vec::new(),
            stage: BootStage::Pulling,
            failure: String::new(),
        };
        (task, BootAction::PullImage(image))
    }

    /// The next container to start, or success when all have started.
    fn start_next(&mut self) -> (a: BootAction)
        ensures
            final(self).network() == old(self).network(),
            final(self).started() == old(self).started(),
            final(self).emulator_session() == old(self).emulator_session(),
            old(self).pending().len() > 0 ==> {
                &&& a == BootAction::StartContainer(old(self).pending()[0])
                &&& final(self).pending() == old(self).pending().drop_first()
                &&& final(self).stage() == BootStage::Starting
            },
            old(self).pending().len() == 0 ==> {
                &&& a matches BootAction::Finish(Ok(s)) && s.emulator_session@ == old(self).emulator_session()
                    && strings_view(s.container_ids@) == handle_ids(old(self).started())
                &&& final(self).pending() == old(self).pending()
                &&& final(self).stage() == BootStage::Finished
            },
    {
        if self.pending.len() > 0 {
            let next = self.pending.remove(0);
            self.stage = BootStage::Starting;
            BootAction::StartContainer(next)
        } else {
            let mut ids: Vec<String> = Vec::new();
            let mut i: usize = 0;
            while i < self.started.len()
                invariant
                    0 <= i <= self.started@.len(),
                    strings_view(ids@) == handle_ids(self.started@.take(i as int)),
                decreases self.started@.len() - i,
            {
                let ghost before = ids@;
                let id = self.started[i].id.clone();
                ids.push(id);
                assert(strings_view(ids@) =~= strings_view(before).push(id@));
                assert(handle_ids(self.started@.take(i + 1)) =~= handle_ids(self.started@.take(i as int)).push(self.started@[i as int].id@));
                i += 1;
            }
            assert(self.started@.take(i as int) =~= self.started@);
            self.stage = BootStage::Finished;
            BootAction::Finish(Ok(BootSuccess { emulator_session: self.emulator_session.clone(), container_ids: ids }))
        }
    }

    /// The cleanup step after a failed start that has removed the first
    /// `from` started containers: remove the next one, then the network,
    /// then report the failure.
    fn clean_up_from(&mut self, from: usize) -> (a: BootAction)
        requires
            from <= old(self).started().len(),
        ensures
            final(self).network() == old(self).network(),
            final(self).started() == old(self).started(),
            final(self).pending() == old(self).pending(),
            final(self).failure() == old(self).failure(),
            final(self).emulator_session() == old(self).emulator_session(),
            from < old(self).started().len() ==> a == BootAction::RemoveNode(old(self).started()[from as int])
                && final(self).stage() == BootStage::RemovingNode(from),
            from == old(self).started().len() && old(self).network() is Some ==>
                a == BootAction::RemoveNetwork(old(self).network()->0) && final(self).stage() == BootStage::RemovingNetwork,
            from == old(self).started().len() && old(self).network() is None ==>
                (a matches BootAction::Finish(Err(m)) && m@ == old(self).failure()) && final(self).stage() == BootStage::Finished,
    {
        if from < self.started.len() {
            let h = &self.started[from];
            let handle = ContainerHandle { id: h.id.clone(), name: h.name.clone() };
            self.stage = BootStage::RemovingNode(from);
            return BootAction::RemoveNode(handle);
        }
        match &self.network {
            Some(net) => {
                let net = net.clone();
                self.stage = BootStage::RemovingNetwork;
                BootAction::RemoveNetwork(net)
            },
            None => {
                self.stage = BootStage::Finished;
                BootAction::Finish(Err(self.failure.clone()))
            },
        }
    }

    /// Take the outcome of the last action and say what to do next.
    ///
    /// After the pull comes the network (when there is one), then the
    /// containers in node order; the boot succeeds with the emulator
    /// session id once all have started. A network that cannot be created
    /// fails the boot at once. A container that cannot be started fails it
    /// after the containers already started, and then the network, have
    /// been removed.
    pub fn step(&mut self, event: BootEvent) -> (a: BootAction)
        requires
            expects(old(self).stage(), event),
            old(self).stage() matches BootStage::RemovingNode(i) ==> i < old(self).started().len(),
        ensures
            final(self).network() == old(self).network(),
            final(self).emulator_session() == old(self).emulator_session(),
            final(self).stage() matches BootStage::RemovingNode(i) ==> i < final(self).started().len(),
            ({
                let old_task = *old(self);
                match event {
                    BootEvent::PullDone => match old_task.network() {
                        Some(net) => a == BootAction::CreateNetwork(net) && final(self).stage() == BootStage::CreatingNetwork
                            && final(self).pending() == old_task.pending() && final(self).started() == old_task.started(),
                        None => starts_next(old_task.pending(), old_task.emulator_session(), *final(self), a)
                            && final(self).started() == old_task.started(),
                    },
                    BootEvent::NetworkCreated(Ok(())) => starts_next(old_task.pending(), old_task.emulator_session(), *final(self), a)
                        && final(self).started() == old_task.started(),
                    BootEvent::NetworkCreated(Err(e)) => (a matches BootAction::Finish(Err(m)) && m@ == network_failure(e@))
                        && final(self).stage() == BootStage::Finished,
                    BootEvent::ContainerStarted(Ok(h)) => {
                        &&& final(self).started() == old_task.started().push(h)
                        &&& starts_next(old_task.pending(), old_task.emulator_session(), *final(self), a)
                    },
                    BootEvent::ContainerStarted(Err(e)) => {
                        &&& final(self).failure() == start_failure(e@)
                        &&& final(self).started() == old_task.started()
                        &&& final(self).pending() == old_task.pending()
                        &&& cleans_up_from(old_task.started(), old_task.network(), start_failure(e@), 0, *final(self), a)
                    },
                    BootEvent::NodeRemoved => match old_task.stage() {
                        BootStage::RemovingNode(i) => cleans_up_from(old_task.started(), old_task.network(), old_task.failure(),
                            i + 1, *final(self), a) && final(self).started() == old_task.started(),
                        _ => true,
                    },
                    BootEvent::NetworkRemoved => (a matches BootAction::Finish(Err(m)) && m@ == old_task.failure())
                        && final(self).stage() == BootStage::Finished,
                }
            }),
    {
        match event {
            BootEvent::PullDone => {
                match &self.network {
                    Some(net) => {
                        let net = net.clone();
                        self.stage = BootStage::CreatingNetwork;
                        BootAction::CreateNetwork(net)
                    },
                    None => self.start_next(),
                }
            },
            BootEvent::NetworkCreated(Ok(())) => self.start_next(),
            BootEvent::NetworkCreated(Err(e)) => {
                let mut m = to_owned("failed to create network: ");
                push_str(&mut m, e.as_str());
                self.stage = BootStage::Finished;
                BootAction::Finish(Err(m))
            },
            BootEvent::ContainerStarted(Ok(h)) => {
                self.started.push(h);
                self.start_next()
            },
            BootEvent::ContainerStarted(Err(e)) => {
                let mut m = to_owned("failed to start container: ");
                push_str(&mut m, e.as_str());
                self.failure = m;
                self.clean_up_from(0)
            },
            BootEvent::NodeRemoved => {
                let i = match self.stage {
                    BootStage::RemovingNode(i) => i,
                    _ => 0,
                };
                let n = self.started.len();
                let next = if i < n { i + 1 } else { n };
                self.clean_up_from(next)
            },
            BootEvent::NetworkRemoved => {
                self.stage = BootStage::Finished;
                BootAction::Finish(Err(self.failure.clone()))
            },
        }
    }
}

/// `after` and `a` start the first of the `pending` containers, or
/// finish the boot successfully with `emulator_session` and the ids of the
/// containers `after` has started when none is left.
pub open spec fn starts_next(pending: Seq<StartContainerRequest>, emulator_session: Seq<char>, after: BootTask, a: BootAction) -> bool {
    if pending.len() > 0 {
        &&& a == BootAction::StartContainer(pending[0])
        &&& after.pending() == pending.drop_first()
        &&& after.stage() == BootStage::Starting
    } else {
        &&& a matches BootAction::Finish(Ok(s)) && s.emulator_session@ == emulator_session
            && strings_view(s.container_ids@) == handle_ids(after.started())
        &&& after.stage() == BootStage::Finished
    }
}

/// The reply to a boot request.
#[derive(Debug, PartialEq, Eq)]
pub struct BootReply {
    pub ok: bool,
    pub error: Option<String>,
    /// The head node's container.
    pub container_id: Option<String>,
    /// Every node's container, in node order.
    pub container_ids: Vec<String>,
}

/// The reply to a boot request that came to `outcome`: success with the
/// started containers (the first is the head node's), or the failure.
pub fn boot_reply(outcome: Result<BootSuccess, String>) -> (r: BootReply)
    ensures
        match outcome {
            Ok(s) => r.ok && r.error is None && r.container_ids@ == s.container_ids@
                && r.container_id == (if s.container_ids@.len() > 0 { Some(s.container_ids@[0]) } else { None::<String> }),
            Err(m) => !r.ok && r.error == Some(m) && r.container_id is None && r.container_ids@.len() == 0,
        },
{
    match outcome {
        Ok(s) => {
            let head = if s.container_ids.len() > 0 { Some(s.container_ids[0].clone()) } else { None };
            BootReply { ok: true, error: None, container_id: head, container_ids: s.container_ids }
        },
        Err(m) => BootReply { ok: false, error: Some(m), container_id: None, container_ids: Vec::new() },
    }
}

/// `after` and `a` continue the cleanup of a failed boot that has removed
/// the first `from` of the `started` containers: the next one, then the
/// network, then the failure report.
pub open spec fn cleans_up_from(
    started: Seq<ContainerHandle>,
    network: Option<String>,
    failure: Seq<char>,
    from: int,
    after: BootTask,
    a: BootAction,
) -> bool {
    if from < started.len() {
        a == BootAction::RemoveNode(started[from]) && after.stage() == BootStage::RemovingNode(from as usize)
    } else {
        match network {
            Some(net) => a == BootAction::RemoveNetwork(net) && after.stage() == BootStage::RemovingNetwork,
            None => (a matches BootAction::Finish(Err(m)) && m@ == failure) && after.stage() == BootStage::Finished,
        }
    }
}

/// The part of `s` after its last newline (all of `s` without one).
pub open spec fn after_last_newline(s: Seq<char>) -> Seq<char>
    decreases s.len(),
{
    if s.len() == 0 {
        s
    } else if s.last() == '\n' {
        seq![]
    } else {
        after_last_newline(s.drop_last()).push(s.last())
    }
}

/// The last line of `s` (a final newline ends that line rather than
/// starting an empty one); none for empty text. A carriage return before
/// the newline stays on the line.
pub open spec fn spec_last_line(s: Seq<char>) -> Option<Seq<char>> {
    if s.len() == 0 {
        None
    } else if s.last() == '\n' {
        Some(after_last_newline(s.drop_last()))
    } else {
        Some(after_last_newline(s))
    }
}

/// The progress message a chunk of output text gives: its last line,
/// trimmed, unless that is empty.
pub open spec fn chunk_message(text: Seq<char>) -> Option<Seq<char>> {
    match spec_last_line(text) {
        None => None,
        Some(line) => if spec_trim(line).len() == 0 { None } else { Some(spec_trim(line)) },
    }
}

/// The progress message a runtime event gives while an image is pulled:
/// a status line as it is, a chunk of output by its last line once
/// trimmed (when it is valid UTF-8); never an empty one.
pub open spec fn spec_progress_message(event: ContainerRuntimeEvent) -> Option<Seq<char>> {
    match event {
        ContainerRuntimeEvent::Status { message, .. } => if message@.len() == 0 { None } else { Some(message@) },
        ContainerRuntimeEvent::Stdout { chunk, .. } => match utf8_strict(chunk@) {
            Some(text) => chunk_message(text),
            None => None,
        },
        ContainerRuntimeEvent::Stderr { chunk, .. } => match utf8_strict(chunk@) {
            Some(text) => chunk_message(text),
            None => None,
        },
    }
}

/// The last line of `s`.
fn last_line(s: &str) -> (r: Option<String>)
    ensures
        match r {
            Some(l) => spec_last_line(s@) == Some(l@),
            None => spec_last_line(s@) is None,
        },
{
    let n = s.unicode_len();
    if n == 0 {
        return None;
    }
    let end = if s.get_char(n - 1) == '\n' { n - 1 } else { n };
    let mut start = end;
    while start > 0 && s.get_char(start - 1) != '\n'
        invariant
            0 <= start <= end <= n,
            n == s@.len(),
            after_last_newline(s@.subrange(0, end as int))
                == after_last_newline(s@.subrange(0, start as int)) + s@.subrange(start as int, end as int),
        decreases start,
    {
        proof {
            let pre = s@.subrange(0, start as int);
            assert(pre.drop_last() =~= s@.subrange(0, start - 1));
            assert(s@.subrange(start - 1, end as int) =~= seq![pre.last()] + s@.subrange(start as int, end as int));
            assert(after_last_newline(pre) == after_last_newline(pre.drop_last()).push(pre.last()));
            assert(after_last_newline(pre.drop_last()).push(pre.last()) + s@.subrange(start as int, end as int)
                =~= after_last_newline(pre.drop_last()) + s@.subrange(start - 1, end as int));
        }
        start -= 1;
    }
    proof {
        let pre = s@.subrange(0, start as int);
        if start > 0 {
            assert(pre.last() == '\n');
        }
        assert(after_last_newline(pre) =~= seq![]);
        if s@.last() == '\n' {
            assert(s@.drop_last() =~= s@.subrange(0, end as int));
        } else {
            assert(s@ =~= s@.subrange(0, end as int));
        }
    }
    let line = to_owned(s.substring_char(start, end));
    assert(line@ =~= s@.subrange(start as int, end as int));
    Some(line)
}

/// The progress message `event` gives (see [`spec_progress_message`]).
pub fn progress_message(event: &ContainerRuntimeEvent) -> (r: Option<String>)
    ensures
        match r {
            Some(m) => spec_progress_message(*event) == Some(m@),
            None => spec_progress_message(*event) is None,
        },
{
    let chunk = match event {
        ContainerRuntimeEvent::Status { message, .. } => {
            if message.unicode_len() == 0 {
                return None;
            }
            return Some(to_owned(message.as_str()));
        },
        ContainerRuntimeEvent::Stdout { chunk, .. } => chunk,
        ContainerRuntimeEvent::Stderr { chunk, .. } => chunk,
    };
    let text = match decode_utf8(chunk.as_slice()) {
        Some(text) => text,
        None => return None,
    };
    match last_line(text.as_str()) {
        None => None,
        Some(line) => {
            let m = trim(line.as_str());
            if m.unicode_len() == 0 {
                None
            } else {
                Some(m)
            }
        },
    }
}

} // verus!
