//! An in-memory container runtime for tests: it records what it is asked
//! to do, starts containers named `mock-N` whose unpublished ports get
//! host ports counted up from 40000, and fails the next operation of a
//! kind on request.

use vstd::prelude::*;

use crate::container::{
    BindMount, ContainerDef, ExecArgs, InjectedFile, PortMapping, SetEnv, ContainerHandle, ContainerInspection, ContainerLogs, ContainerRuntimeError, ContainerRuntimeEvent,
    ContainerRuntimeOperation, ContainerState, ErrorKind, EventView, ExecRequest, ExecResult,
    ListedContainer, ResolvedPortMapping, StartContainerRequest, StartedContainer, appended,
    chunk_events, emit_status, emit_stderr, emit_stdout, error_view, lemma_appended_twice, log_view,
    status_event,
};
use crate::protocol::str_eq;
use crate::text::{decimal, push_str, to_owned, u64_to_string};

verus! {

/// What the mock runtime keeps of a started container.
#[derive(Debug, Clone, PartialEq, Eq)]
pub struct MockContainer {
    pub inspection: ContainerInspection,
    pub logs: ContainerLogs,
    /// Results handed to the next `exec` calls, in order.
    pub next_exec_results: Vec<ExecResult>,
    pub labels: Vec<(String, String)>,
}

/// The value kept under `key` among keyed entries: the latest one.
pub open spec fn keyed_lookup<V>(entries: Seq<(String, V)>, key: Seq<char>) -> Option<V>
    decreases entries.len(),
{
    if entries.len() == 0 {
        None
    } else if entries.last().0@ == key {
        Some(entries.last().1)
    } else {
        keyed_lookup(entries.drop_last(), key)
    }
}

/// The entries without any kept under `key`.
pub open spec fn keyed_remove<V>(entries: Seq<(String, V)>, key: Seq<char>) -> Seq<(String, V)>
    decreases entries.len(),
{
    if entries.len() == 0 {
        seq![]
    } else if entries.last().0@ == key {
        keyed_remove(entries.drop_last(), key)
    } else {
        keyed_remove(entries.drop_last(), key).push(entries.last())
    }
}

pub(crate) proof fn lemma_keyed_remove<V>(entries: Seq<(String, V)>, key: Seq<char>, q: Seq<char>)
    ensures
        keyed_lookup(keyed_remove(entries, key), q) == (if q == key { None } else { keyed_lookup(entries, q) }),
    decreases entries.len(),
{
    if entries.len() > 0 {
        lemma_keyed_remove(entries.drop_last(), key, q);
        let rest = keyed_remove(entries.drop_last(), key);
        assert(rest.push(entries.last()).drop_last() =~= rest);
    }
}

/// Remove every entry kept under `key`, returning the latest value.
pub(crate) fn take_keyed<V>(entries: &mut Vec<(String, V)>, key: &str) -> (r: Option<V>)
    ensures
        r == keyed_lookup(old(entries)@, key@),
        final(entries)@ == keyed_remove(old(entries)@, key@),
{
    let mut kept: Vec<(String, V)> = Vec::new();
    let mut found: Option<V> = None;
    let mut rest: Vec<(String, V)> = Vec::new();
    std::mem::swap(&mut rest, entries);
    let ghost all = rest@;
    let ghost mut taken: int = 0;
    while rest.len() > 0
        invariant
            0 <= taken <= all.len(),
            rest@ == all.skip(taken),
            kept@ == keyed_remove(all.take(taken), key@),
            found == keyed_lookup(all.take(taken), key@),
        decreases rest@.len(),
    {
        let e = rest.remove(0);
        proof {
            assert(all[taken] == e);
            assert(all.take(taken + 1).drop_last() =~= all.take(taken));
            assert(all.skip(taken + 1) =~= all.skip(taken).drop_first());
        }
        if str_eq(e.0.as_str(), key) {
            found = Some(e.1);
        } else {
            kept.push(e);
        }
        proof { taken = taken + 1; }
    }
    assert(all.take(taken) =~= all);
    *entries = kept;
    found
}

/// The position of the latest entry kept under `key`.
pub(crate) fn find_keyed<V>(entries: &Vec<(String, V)>, key: &str) -> (r: Option<usize>)
    ensures
        match r {
            Some(i) => i < entries@.len() && entries@[i as int].0@ == key@
                && keyed_lookup(entries@, key@) == Some(entries@[i as int].1)
                && forall|j: int| i < j < entries@.len() ==> entries@[j].0@ != key@,
            None => keyed_lookup(entries@, key@) is None,
        },
{
    let mut i = entries.len();
    assert(entries@.take(i as int) =~= entries@);
    while i > 0
        invariant
            0 <= i <= entries@.len(),
            keyed_lookup(entries@, key@) == keyed_lookup(entries@.take(i as int), key@),
            forall|j: int| i <= j < entries@.len() ==> entries@[j].0@ != key@,
        decreases i,
    {
        assert(entries@.take(i as int).drop_last() =~= entries@.take(i - 1));
        if str_eq(entries[i - 1].0.as_str(), key) {
            return Some(i - 1);
        }
        i -= 1;
    }
    None
}

proof fn lemma_keyed_update<V>(entries: Seq<(String, V)>, i: int, v: V, q: Seq<char>)
    requires
        0 <= i < entries.len(),
        forall|j: int| i < j < entries.len() ==> entries[j].0@ != entries[i].0@,
    ensures
        keyed_lookup(entries.update(i, (entries[i].0, v)), q)
            == (if q == entries[i].0@ { Some(v) } else { keyed_lookup(entries, q) }),
    decreases entries.len(),
{
    let u = entries.update(i, (entries[i].0, v));
    if i == entries.len() - 1 {
        assert(u.drop_last() =~= entries.drop_last());
        if q != entries[i].0@ {
        }
    } else {
        assert(u.drop_last() =~= entries.drop_last().update(i, (entries[i].0, v)));
        lemma_keyed_update(entries.drop_last(), i, v, q);
    }
}

pub(crate) proof fn lemma_keyed_update_all<V>(entries: Seq<(String, V)>, i: int, v: V)
    requires
        0 <= i < entries.len(),
        forall|j: int| i < j < entries.len() ==> entries[j].0@ != entries[i].0@,
    ensures
        forall|q: Seq<char>| #[trigger] keyed_lookup(entries.update(i, (entries[i].0, v)), q)
            == (if q == entries[i].0@ { Some(v) } else { keyed_lookup(entries, q) }),
{
    assert forall|q: Seq<char>| #[trigger] keyed_lookup(entries.update(i, (entries[i].0, v)), q)
        == (if q == entries[i].0@ { Some(v) } else { keyed_lookup(entries, q) }) by {
        lemma_keyed_update(entries, i, v, q);
    }
}

/// The failure the mock reports for an injected error: the command
/// `mock ACTION` failed with status 1 and `message` as its error output.
pub open spec fn is_mock_failure(e: ContainerRuntimeError, action: Seq<char>, message: Seq<char>) -> bool {
    e matches ContainerRuntimeError::CommandFailed { command, status, stdout, stderr }
        && command@ == "mock "@ + action && status == Some(1i32) && stdout@.len() == 0 && stderr@ == message
}

/// The failure the mock reports for an injected error.
pub fn command_failure(action: &str, message: String) -> (e: ContainerRuntimeError)
    ensures
        is_mock_failure(e, action@, message@),
{
    let mut command = to_owned("mock ");
    push_str(&mut command, action);
    ContainerRuntimeError::CommandFailed { command, status: Some(1), stdout: String::new(), stderr: message }
}

/// An in-memory container runtime.
#[derive(Debug)]
pub struct MockContainerRuntime {
    pulled_images: Vec<String>,
    start_requests: Vec<StartContainerRequest>,
    exec_requests: Vec<ExecRequest>,
    networks: Vec<String>,
    containers: Vec<(String, MockContainer)>,
    next_container_id: u64,
    next_ephemeral_port: u16,
    next_pull_error: Option<String>,
    next_start_error: Option<String>,
    next_exec_errors: Vec<(String, String)>,
    next_log_errors: Vec<(String, String)>,
}

/// The first host port handed to a port published without one.
pub const FIRST_EPHEMERAL_PORT: u16 = 40000;

/// The number of ports among `ports` published without a host port.
pub open spec fn unpublished(ports: Seq<crate::container::PortMapping>) -> nat
    decreases ports.len(),
{
    if ports.len() == 0 { 0 } else { unpublished(ports.drop_last()) + if ports.last().host_port == 0 { 1nat } else { 0nat } }
}

/// The ports of a started container: each port keeps its host port, or
/// gets the next ephemeral one, counting up from `next`.
pub open spec fn resolve_mock_ports(ports: Seq<crate::container::PortMapping>, next: int) -> Seq<ResolvedPortMapping>
    decreases ports.len(),
{
    if ports.len() == 0 {
        seq![]
    } else {
        let p = ports.last();
        let before = resolve_mock_ports(ports.drop_last(), next);
        let host = if p.host_port == 0 { (next + unpublished(ports.drop_last())) as u16 } else { p.host_port };
        before.push(ResolvedPortMapping { container_port: p.container_port, host_port: Some(host), protocol: p.protocol, label: p.label })
    }
}

/// The id of the `n`-th started container.
pub open spec fn mock_id(n: nat) -> Seq<char> {
    "mock-"@ + decimal(n)
}

/// Whether every label of `wanted` is among `have` with the same value.
pub open spec fn labels_match(wanted: Seq<(String, String)>, have: Seq<(String, String)>) -> bool {
    forall|i: int| 0 <= i < wanted.len() ==> (keyed_lookup(have, #[trigger] wanted[i].0@) matches Some(v) && v@ == wanted[i].1@)
}

impl MockContainerRuntime {
    /// The images pulled so far.
    pub closed spec fn pulled(&self) -> Seq<String> { self.pulled_images@ }
    /// The start requests accepted so far.
    pub closed spec fn started(&self) -> Seq<StartContainerRequest> { self.start_requests@ }
    /// The exec requests received so far.
    pub closed spec fn execs(&self) -> Seq<ExecRequest> { self.exec_requests@ }
    /// The networks that exist.
    pub closed spec fn nets(&self) -> Seq<String> { self.networks@ }
    /// The container kept under `id`.
    pub closed spec fn container(&self, id: Seq<char>) -> Option<MockContainer> { keyed_lookup(self.containers@, id) }
    /// The containers in the order they are listed.
    pub closed spec fn container_list(&self) -> Seq<(String, MockContainer)> { self.containers@ }
    /// How many containers have been started.
    pub closed spec fn next_id(&self) -> u64 { self.next_container_id }
    /// The next ephemeral host port.
    pub closed spec fn next_port(&self) -> u16 { self.next_ephemeral_port }
    /// The failure the next pull reports.
    pub closed spec fn pull_error(&self) -> Option<String> { self.next_pull_error }
    /// The failure the next start reports.
    pub closed spec fn start_error(&self) -> Option<String> { self.next_start_error }
    /// The failure the next exec in container `id` reports.
    pub closed spec fn exec_error(&self, id: Seq<char>) -> Option<String> { keyed_lookup(self.next_exec_errors@, id) }
    /// The failure the next log read of container `id` reports.
    pub closed spec fn log_error(&self, id: Seq<char>) -> Option<String> { keyed_lookup(self.next_log_errors@, id) }

    /// A runtime that has done nothing yet.
    pub fn new() -> (r: Self)
        ensures
            r.pulled().len() == 0 && r.started().len() == 0 && r.execs().len() == 0 && r.nets().len() == 0,
            r.container_list().len() == 0,
            forall|id: Seq<char>| #[trigger] r.container(id) is None,
            r.next_id() == 0,
            r.next_port() == FIRST_EPHEMERAL_PORT,
            r.pull_error() is None && r.start_error() is None,
            forall|id: Seq<char>| #[trigger] r.exec_error(id) is None && r.log_error(id) is None,
    {
        MockContainerRuntime {
            pulled_images: Vec::new(),
            start_requests: Vec::new(),
            exec_requests: Vec::new(),
            networks: Vec::new(),
            containers: Vec::new(),
            next_container_id: 0,
            next_ephemeral_port: FIRST_EPHEMERAL_PORT,
            next_pull_error: None,
            next_start_error: None,
            next_exec_errors: Vec::new(),
            next_log_errors: Vec::new(),
        }
    }

    /// The images pulled so far.
    pub fn pulled_images(&self) -> (r: Vec<String>)
        ensures
            r@ == self.pulled(),
    {
        self.pulled_images.clone()
    }

    /// The start requests accepted so far, in order.
    pub fn start_requests(&self) -> (r: Vec<StartContainerRequest>)
        ensures
            r@.len() == self.started().len(),
            forall|i: int| 0 <= i < r@.len() ==> same_start_request(#[trigger] r@[i], self.started()[i]),
    {
        let mut out: Vec<StartContainerRequest> = Vec::new();
        let mut i: usize = 0;
        while i < self.start_requests.len()
            invariant
                0 <= i <= self.start_requests@.len(),
                out@.len() == i,
                forall|j: int| 0 <= j < i ==> same_start_request(#[trigger] out@[j], self.start_requests@[j]),
            decreases self.start_requests@.len() - i,
        {
            out.push(clone_start_request(&self.start_requests[i]));
            i += 1;
        }
        out
    }

    /// The exec requests received so far, in order.
    pub fn exec_requests(&self) -> (r: Vec<ExecRequest>)
        ensures
            r@.len() == self.execs().len(),
            forall|i: int| 0 <= i < r@.len() ==> same_exec_request(#[trigger] r@[i], self.execs()[i]),
    {
        let mut out: Vec<ExecRequest> = Vec::new();
        let mut i: usize = 0;
        while i < self.exec_requests.len()
            invariant
                0 <= i <= self.exec_requests@.len(),
                out@.len() == i,
                forall|j: int| 0 <= j < i ==> same_exec_request(#[trigger] out@[j], self.exec_requests@[j]),
            decreases self.exec_requests@.len() - i,
        {
            out.push(clone_exec_request(&self.exec_requests[i]));
            i += 1;
        }
        out
    }

    /// The networks that exist.
    pub fn networks(&self) -> (r: Vec<String>)
        ensures
            r@ == self.nets(),
    {
        self.networks.clone()
    }

    /// Make the next pull fail with `message`.
    pub fn fail_next_pull(&mut self, message: String)
        ensures
            final(self).pull_error() == Some(message),
            final(self).start_error() == old(self).start_error(),
            final(self).pulled() == old(self).pulled(),
    {
        self.next_pull_error = Some(message);
    }

    /// Make the next start fail with `message`.
    pub fn fail_next_start(&mut self, message: String)
        ensures
            final(self).start_error() == Some(message),
            final(self).pull_error() == old(self).pull_error(),
            final(self).next_id() == old(self).next_id(),
            final(self).next_port() == old(self).next_port(),
            final(self).started() == old(self).started(),
            forall|id: Seq<char>| #[trigger] final(self).container(id) == old(self).container(id),
    {
        self.next_start_error = Some(message);
    }

    /// Make the next exec in `handle`'s container fail with `message`.
    pub fn fail_next_exec(&mut self, handle: &ContainerHandle, message: String)
        ensures
            final(self).exec_error(handle.id@) == Some(message),
            forall|id: Seq<char>| id != handle.id@ ==> #[trigger] final(self).exec_error(id) == old(self).exec_error(id),
            forall|id: Seq<char>| #[trigger] final(self).container(id) == old(self).container(id),
            forall|id: Seq<char>| #[trigger] final(self).log_error(id) == old(self).log_error(id),
    {
        let ghost before = self.next_exec_errors@;
        self.next_exec_errors.push((handle.id.clone(), message));
        assert(self.next_exec_errors@.drop_last() =~= before);
    }

    /// Make the next log read of `handle`'s container fail with `message`.
    pub fn fail_next_logs(&mut self, handle: &ContainerHandle, message: String)
        ensures
            final(self).log_error(handle.id@) == Some(message),
            forall|id: Seq<char>| id != handle.id@ ==> #[trigger] final(self).log_error(id) == old(self).log_error(id),
            forall|id: Seq<char>| #[trigger] final(self).container(id) == old(self).container(id),
            forall|id: Seq<char>| #[trigger] final(self).exec_error(id) == old(self).exec_error(id),
    {
        let ghost before = self.next_log_errors@;
        self.next_log_errors.push((handle.id.clone(), message));
        assert(self.next_log_errors@.drop_last() =~= before);
    }

    /// Set what reading `handle`'s container's logs gives (nothing happens
    /// for an unknown container).
    pub fn set_logs(&mut self, handle: &ContainerHandle, logs: ContainerLogs)
        ensures
            match old(self).container(handle.id@) {
                Some(c) => final(self).container(handle.id@) == Some(MockContainer { logs, ..c }),
                None => final(self).container(handle.id@) is None,
            },
            forall|id: Seq<char>| id != handle.id@ ==> #[trigger] final(self).container(id) == old(self).container(id),
            forall|id: Seq<char>| #[trigger] final(self).exec_error(id) == old(self).exec_error(id),
            forall|id: Seq<char>| #[trigger] final(self).log_error(id) == old(self).log_error(id),
    {
        if let Some(i) = find_keyed(&self.containers, handle.id.as_str()) {
            let ghost before = self.containers@;
            let (key, c) = self.containers.remove(i);
            let updated = MockContainer { logs, ..c };
            self.containers.insert(i, (key, updated));
            proof {
                assert(self.containers@ =~= before.update(i as int, (before[i as int].0, updated)));
                lemma_keyed_update_all(before, i as int, updated);
            }
        }
    }

    /// Queue the result of the next `exec` in `handle`'s container (nothing
    /// happens for an unknown container).
    pub fn queue_exec_result(&mut self, handle: &ContainerHandle, result: ExecResult)
        ensures
            match old(self).container(handle.id@) {
                Some(c) => final(self).container(handle.id@) matches Some(n)
                    && n.next_exec_results@ == c.next_exec_results@.push(result)
                    && n.inspection == c.inspection && n.logs == c.logs && n.labels == c.labels,
                None => final(self).container(handle.id@) is None,
            },
            forall|id: Seq<char>| id != handle.id@ ==> #[trigger] final(self).container(id) == old(self).container(id),
            forall|id: Seq<char>| #[trigger] final(self).exec_error(id) == old(self).exec_error(id),
            forall|id: Seq<char>| #[trigger] final(self).log_error(id) == old(self).log_error(id),
    {
        if let Some(i) = find_keyed(&self.containers, handle.id.as_str()) {
            let ghost before = self.containers@;
            let (key, mut c) = self.containers.remove(i);
            c.next_exec_results.push(result);
            let ghost updated = c;
            self.containers.insert(i, (key, c));
            proof {
                assert(self.containers@ =~= before.update(i as int, (before[i as int].0, updated)));
                lemma_keyed_update_all(before, i as int, updated);
            }
        }
    }
}

/// What the next exec on a container whose queued results are `queue`
/// gives: the first queued result, if any (without one, an empty
/// success).
pub open spec fn next_exec_result(queue: Seq<ExecResult>) -> Option<ExecResult> {
    if queue.len() > 0 { Some(queue[0]) } else { None }
}

/// The queued results left after one exec.
pub open spec fn after_exec(queue: Seq<ExecResult>) -> Seq<ExecResult> {
    if queue.len() > 0 { queue.drop_first() } else { queue }
}

/// The queued results left after `n` execs.
pub open spec fn after_execs(queue: Seq<ExecResult>, n: nat) -> Seq<ExecResult>
    decreases n,
{
    if n == 0 { queue } else { after_exec(after_execs(queue, (n - 1) as nat)) }
}

proof fn lemma_after_execs(queue: Seq<ExecResult>, n: nat)
    ensures
        after_execs(queue, n) == queue.skip(if n <= queue.len() { n as int } else { queue.len() as int }),
    decreases n,
{
    if n == 0 {
        assert(queue.skip(0) =~= queue);
    } else {
        lemma_after_execs(queue, (n - 1) as nat);
        if n <= queue.len() {
            assert(queue.skip(n - 1).drop_first() =~= queue.skip(n as int));
        }
    }
}

/// Queued exec results come back first in, first out: the exec after `i`
/// others gives the `i`-th queued result, and once the queue is used up
/// an exec gives none (an empty success).
pub proof fn lemma_exec_results_fifo(queue: Seq<ExecResult>, i: nat)
    ensures
        i < queue.len() ==> next_exec_result(after_execs(queue, i)) == Some(queue[i as int]),
        i >= queue.len() ==> next_exec_result(after_execs(queue, i)) is None,
{
    lemma_after_execs(queue, i);
}

fn clone_string_opt(o: &Option<String>) -> (r: Option<String>)
    ensures
        r == *o,
{
    match o {
        Some(s) => Some(s.clone()),
        None => None,
    }
}

fn clone_pairs(v: &Vec<(String, String)>) -> (r: Vec<(String, String)>)
    ensures
        r@ == v@,
{
    let mut out: Vec<(String, String)> = Vec::new();
    let mut i: usize = 0;
    while i < v.len()
        invariant
            0 <= i <= v@.len(),
            out@ == v@.take(i as int),
        decreases v@.len() - i,
    {
        out.push((v[i].0.clone(), v[i].1.clone()));
        i += 1;
        assert(out@ =~= v@.take(i as int));
    }
    assert(v@.take(i as int) =~= v@);
    out
}

fn clone_ports(v: &Vec<ResolvedPortMapping>) -> (r: Vec<ResolvedPortMapping>)
    ensures
        r@ == v@,
{
    let mut out: Vec<ResolvedPortMapping> = Vec::new();
    let mut i: usize = 0;
    while i < v.len()
        invariant
            0 <= i <= v@.len(),
            out@ == v@.take(i as int),
        decreases v@.len() - i,
    {
        let p = &v[i];
        out.push(ResolvedPortMapping { container_port: p.container_port, host_port: p.host_port, protocol: p.protocol, label: clone_string_opt(&p.label) });
        i += 1;
        assert(out@ =~= v@.take(i as int));
    }
    assert(v@.take(i as int) =~= v@);
    out
}

/// Whether two inspections say the same.
pub open spec fn same_inspection(a: ContainerInspection, b: ContainerInspection) -> bool {
    a.handle == b.handle && a.image == b.image && a.state == b.state && a.exit_code == b.exit_code && a.ports@ == b.ports@
}

/// Whether two log snapshots hold the same output.
pub open spec fn same_logs(a: ContainerLogs, b: ContainerLogs) -> bool {
    a.stdout@ == b.stdout@ && a.stderr@ == b.stderr@
}

fn clone_inspection(i: &ContainerInspection) -> (r: ContainerInspection)
    ensures
        same_inspection(r, *i),
{
    ContainerInspection {
        handle: ContainerHandle { id: i.handle.id.clone(), name: i.handle.name.clone() },
        image: i.image.clone(),
        state: i.state,
        exit_code: i.exit_code,
        ports: clone_ports(&i.ports),
    }
}

fn clone_bytes_vec(v: &Vec<u8>) -> (r: Vec<u8>)
    ensures
        r@ == v@,
{
    crate::text::copy_bytes(v.as_slice())
}

/// Whether two injected files are the same file.
pub open spec fn same_file(a: InjectedFile, b: InjectedFile) -> bool {
    a.container_path == b.container_path && a.content@ == b.content@ && a.readonly == b.readonly && a.label == b.label
}

/// Whether two programs are the same command line and environment.
pub open spec fn same_program(a: ExecArgs, b: ExecArgs) -> bool {
    a.command == b.command && a.args@ == b.args@ && a.env@ == b.env@
}

/// Whether two container definitions say the same.
pub open spec fn same_def(a: ContainerDef, b: ContainerDef) -> bool {
    &&& a.image == b.image
    &&& a.mounts@ == b.mounts@
    &&& a.injected_files@.len() == b.injected_files@.len()
    &&& forall|i: int| 0 <= i < a.injected_files@.len() ==> same_file(#[trigger] a.injected_files@[i], b.injected_files@[i])
    &&& same_program(a.entrypoint, b.entrypoint)
    &&& a.working_dir == b.working_dir
    &&& a.ports@ == b.ports@
    &&& a.privileged == b.privileged
    &&& a.devices@ == b.devices@
    &&& a.resource_limits_json == b.resource_limits_json
    &&& a.network == b.network
    &&& a.labels@ == b.labels@
}

/// Whether two start requests say the same.
pub open spec fn same_start_request(a: StartContainerRequest, b: StartContainerRequest) -> bool {
    a.name == b.name && same_def(a.container, b.container)
}

/// Whether two exec requests say the same.
pub open spec fn same_exec_request(a: ExecRequest, b: ExecRequest) -> bool {
    a.container == b.container && same_program(a.program, b.program) && a.working_dir == b.working_dir
}

fn clone_strings(v: &Vec<String>) -> (r: Vec<String>)
    ensures
        r@ == v@,
{
    let mut out: Vec<String> = Vec::new();
    let mut i: usize = 0;
    while i < v.len()
        invariant
            0 <= i <= v@.len(),
            out@ == v@.take(i as int),
        decreases v@.len() - i,
    {
        out.push(v[i].clone());
        i += 1;
        assert(out@ =~= v@.take(i as int));
    }
    assert(v@.take(i as int) =~= v@);
    out
}

fn clone_mount_list(v: &Vec<BindMount>) -> (r: Vec<BindMount>)
    ensures
        r@ == v@,
{
    let mut out: Vec<BindMount> = Vec::new();
    let mut i: usize = 0;
    while i < v.len()
        invariant
            0 <= i <= v@.len(),
            out@ == v@.take(i as int),
        decreases v@.len() - i,
    {
        let m = &v[i];
        out.push(BindMount { host_path: m.host_path.clone(), container_path: m.container_path.clone(), readonly: m.readonly });
        i += 1;
        assert(out@ =~= v@.take(i as int));
    }
    assert(v@.take(i as int) =~= v@);
    out
}

fn clone_env_list(v: &Vec<SetEnv>) -> (r: Vec<SetEnv>)
    ensures
        r@ == v@,
{
    let mut out: Vec<SetEnv> = Vec::new();
    let mut i: usize = 0;
    while i < v.len()
        invariant
            0 <= i <= v@.len(),
            out@ == v@.take(i as int),
        decreases v@.len() - i,
    {
        out.push(SetEnv { key: v[i].key.clone(), value: v[i].value.clone() });
        i += 1;
        assert(out@ =~= v@.take(i as int));
    }
    assert(v@.take(i as int) =~= v@);
    out
}

fn clone_port_list(v: &Vec<PortMapping>) -> (r: Vec<PortMapping>)
    ensures
        r@ == v@,
{
    let mut out: Vec<PortMapping> = Vec::new();
    let mut i: usize = 0;
    while i < v.len()
        invariant
            0 <= i <= v@.len(),
            out@ == v@.take(i as int),
        decreases v@.len() - i,
    {
        let p = &v[i];
        out.push(PortMapping { container_port: p.container_port, host_port: p.host_port, protocol: p.protocol, label: clone_string_opt(&p.label) });
        i += 1;
        assert(out@ =~= v@.take(i as int));
    }
    assert(v@.take(i as int) =~= v@);
    out
}

fn clone_files(v: &Vec<InjectedFile>) -> (r: Vec<InjectedFile>)
    ensures
        r@.len() == v@.len(),
        forall|i: int| 0 <= i < v@.len() ==> same_file(#[trigger] r@[i], v@[i]),
{
    let mut out: Vec<InjectedFile> = Vec::new();
    let mut i: usize = 0;
    while i < v.len()
        invariant
            0 <= i <= v@.len(),
            out@.len() == i,
            forall|j: int| 0 <= j < i ==> same_file(#[trigger] out@[j], v@[j]),
        decreases v@.len() - i,
    {
        let f = &v[i];
        out.push(InjectedFile {
            container_path: f.container_path.clone(),
            content: clone_bytes_vec(&f.content),
            readonly: f.readonly,
            label: clone_string_opt(&f.label),
        });
        i += 1;
    }
    out
}

fn clone_program(a: &ExecArgs) -> (r: ExecArgs)
    ensures
        same_program(r, *a),
{
    ExecArgs { command: a.command.clone(), args: clone_strings(&a.args), env: clone_env_list(&a.env) }
}

fn clone_start_request(q: &StartContainerRequest) -> (r: StartContainerRequest)
    ensures
        same_start_request(r, *q),
{
    let d = &q.container;
    let container = ContainerDef {
        image: d.image.clone(),
        mounts: clone_mount_list(&d.mounts),
        injected_files: clone_files(&d.injected_files),
        entrypoint: clone_program(&d.entrypoint),
        working_dir: clone_string_opt(&d.working_dir),
        ports: clone_port_list(&d.ports),
        privileged: d.privileged,
        devices: clone_strings(&d.devices),
        resource_limits_json: clone_string_opt(&d.resource_limits_json),
        network: clone_string_opt(&d.network),
        labels: clone_pairs(&d.labels),
    };
    StartContainerRequest { name: q.name.clone(), container }
}

fn clone_exec_request(q: &ExecRequest) -> (r: ExecRequest)
    ensures
        same_exec_request(r, *q),
{
    ExecRequest {
        container: ContainerHandle { id: q.container.id.clone(), name: q.container.name.clone() },
        program: clone_program(&q.program),
        working_dir: clone_string_opt(&q.working_dir),
    }
}

/// Report the status line `prefix` followed by `subject`.
fn emit_line(progress: &mut Option<Vec<ContainerRuntimeEvent>>, operation: ContainerRuntimeOperation, prefix: &str, subject: &str)
    ensures
        log_view(*final(progress)) == appended(log_view(*old(progress)), seq![status_event(operation, prefix@ + subject@)]),
{
    let mut m = to_owned(prefix);
    push_str(&mut m, subject);
    emit_status(progress, operation, m);
}

/// Report both outputs of a program (each only when not empty).
fn emit_outputs(progress: &mut Option<Vec<ContainerRuntimeEvent>>, operation: ContainerRuntimeOperation, stdout: &Vec<u8>, stderr: &Vec<u8>)
    ensures
        log_view(*final(progress)) == appended(log_view(*old(progress)), chunk_events(operation, stdout@, stderr@)),
{
    emit_stdout(progress, operation, stdout.as_slice());
    emit_stderr(progress, operation, stderr.as_slice());
    proof {
        lemma_appended_twice(log_view(*old(progress)), chunk_events(operation, stdout@, Seq::empty()),
            chunk_events(operation, Seq::empty(), stderr@));
        assert(chunk_events(operation, stdout@, Seq::empty()) + chunk_events(operation, Seq::empty(), stderr@)
            =~= chunk_events(operation, stdout@, stderr@));
    }
}

proof fn lemma_two_lines(log: Option<Seq<EventView>>, a: EventView, b: EventView)
    ensures
        appended(appended(log, seq![a]), seq![b]) == appended(log, seq![a, b]),
{
    lemma_appended_twice(log, seq![a], seq![b]);
    assert(seq![a] + seq![b] =~= seq![a, b]);
}

proof fn lemma_line_then(log: Option<Seq<EventView>>, a: EventView, more: Seq<EventView>)
    ensures
        appended(appended(log, seq![a]), more) == appended(log, seq![a] + more),
{
    lemma_appended_twice(log, seq![a], more);
}

impl MockContainerRuntime {
    /// Pull an image: an injected failure is reported once (`mock pull`),
    /// otherwise the image is recorded.
    pub fn pull_image(&mut self, image: &str, progress: &mut Option<Vec<ContainerRuntimeEvent>>) -> (r: Result<(), ContainerRuntimeError>)
        ensures
            r is Err ==> log_view(*final(progress)) == appended(log_view(*old(progress)),
                seq![status_event(ContainerRuntimeOperation::PullImage, "pulling image "@ + image@)]),
            r is Ok ==> log_view(*final(progress)) == appended(log_view(*old(progress)),
                seq![status_event(ContainerRuntimeOperation::PullImage, "pulling image "@ + image@),
                    status_event(ContainerRuntimeOperation::PullImage, "finished pulling image "@ + image@)]),
            match old(self).pull_error() {
                Some(m) => (r matches Err(e) && is_mock_failure(e, "pull"@, m@)) && final(self).pull_error() is None
                    && final(self).pulled() == old(self).pulled(),
                None => r is Ok && final(self).pulled().len() == old(self).pulled().len() + 1
                    && final(self).pulled().last()@ == image@
                    && final(self).pulled().drop_last() == old(self).pulled(),
            },
            final(self).start_error() == old(self).start_error(),
            final(self).next_id() == old(self).next_id(),
            final(self).next_port() == old(self).next_port(),
            forall|id: Seq<char>| #[trigger] final(self).container(id) == old(self).container(id),
    {
        emit_line(progress, ContainerRuntimeOperation::PullImage, "pulling image ", image);
        let ghost started = log_view(*progress);
        if let Some(message) = self.next_pull_error.take() {
            return Err(command_failure("pull", message));
        }
        let ghost before = self.pulled_images@;
        self.pulled_images.push(to_owned(image));
        assert(self.pulled_images@.drop_last() =~= before);
        emit_line(progress, ContainerRuntimeOperation::PullImage, "finished pulling image ", image);
        proof {
            lemma_two_lines(log_view(*old(progress)), status_event(ContainerRuntimeOperation::PullImage, "pulling image "@ + image@),
                status_event(ContainerRuntimeOperation::PullImage, "finished pulling image "@ + image@));
        }
        Ok(())
    }

    /// Start a container: an injected failure is reported once (`mock
    /// run`); otherwise the request is recorded and a running container
    /// `mock-N` (N counting starts) is kept with its ports resolved, no
    /// logs, no queued exec results and the request's labels.
    pub fn start_container(&mut self, request: StartContainerRequest, progress: &mut Option<Vec<ContainerRuntimeEvent>>) -> (r: Result<StartedContainer, ContainerRuntimeError>)
        requires
            old(self).next_id() < u64::MAX,
            old(self).next_port() + unpublished(request.container.ports@) <= u16::MAX,
        ensures
            r is Err ==> log_view(*final(progress)) == appended(log_view(*old(progress)),
                seq![status_event(ContainerRuntimeOperation::StartContainer, "starting container "@ + request.name@)]),
            r matches Ok(s) ==> log_view(*final(progress)) == appended(log_view(*old(progress)),
                seq![status_event(ContainerRuntimeOperation::StartContainer, "starting container "@ + request.name@),
                    status_event(ContainerRuntimeOperation::StartContainer, "started container "@ + s.inspection.handle.id@)]),
            match old(self).start_error() {
                Some(m) => (r matches Err(e) && is_mock_failure(e, "run"@, m@)) && final(self).start_error() is None
                    && final(self).next_id() == old(self).next_id()
                    && final(self).next_port() == old(self).next_port()
                    && final(self).started() == old(self).started()
                    && forall|id: Seq<char>| #[trigger] final(self).container(id) == old(self).container(id),
                None => {
                    let n = (old(self).next_id() + 1) as u64;
                    &&& final(self).next_id() == n
                    &&& final(self).next_port() == old(self).next_port() + unpublished(request.container.ports@)
                    &&& final(self).started() == old(self).started().push(request)
                    &&& r matches Ok(s) && {
                        &&& s.inspection.handle.id@ == mock_id(n as nat)
                        &&& s.inspection.handle.name == request.name
                        &&& s.inspection.image == request.container.image
                        &&& s.inspection.state == ContainerState::Running
                        &&& s.inspection.exit_code is None
                        &&& s.inspection.ports@ == resolve_mock_ports(request.container.ports@, old(self).next_port() as int)
                        &&& final(self).container(mock_id(n as nat)) matches Some(c) && {
                            &&& same_inspection(c.inspection, s.inspection)
                            &&& c.logs.stdout@.len() == 0 && c.logs.stderr@.len() == 0
                            &&& c.next_exec_results@.len() == 0
                            &&& c.labels@ == request.container.labels@
                        }
                    }
                    &&& forall|id: Seq<char>| id != mock_id(n as nat) ==> #[trigger] final(self).container(id) == old(self).container(id)
                },
            },
            final(self).pull_error() == old(self).pull_error(),
            final(self).pulled() == old(self).pulled(),
    {
        emit_line(progress, ContainerRuntimeOperation::StartContainer, "starting container ", request.name.as_str());
        if let Some(message) = self.next_start_error.take() {
            return Err(command_failure("run", message));
        }
        self.next_container_id = self.next_container_id + 1;
        let mut id = to_owned("mock-");
        push_str(&mut id, u64_to_string(self.next_container_id).as_str());
        let ports = &request.container.ports;
        let mut resolved: Vec<ResolvedPortMapping> = Vec::new();
        let ghost first = self.next_ephemeral_port as int;
        let mut next_port = self.next_ephemeral_port;
        let mut i: usize = 0;
        while i < ports.len()
            invariant
                0 <= i <= ports@.len(),
                first + unpublished(ports@) <= u16::MAX,
                next_port == first + unpublished(ports@.take(i as int)),
                resolved@ == resolve_mock_ports(ports@.take(i as int), first),
            decreases ports@.len() - i,
        {
            proof {
                assert(ports@.take(i + 1).drop_last() =~= ports@.take(i as int));
                lemma_unpublished_prefix(ports@, i + 1);
            }
            let p = &ports[i];
            let host = if p.host_port == 0 {
                let allocated = next_port;
                next_port = next_port + 1;
                allocated
            } else {
                p.host_port
            };
            resolved.push(ResolvedPortMapping { container_port: p.container_port, host_port: Some(host), protocol: p.protocol, label: clone_string_opt(&p.label) });
            i += 1;
        }
        assert(ports@.take(i as int) =~= ports@);
        self.next_ephemeral_port = next_port;
        let inspection = ContainerInspection {
            handle: ContainerHandle { id: id.clone(), name: request.name.clone() },
            image: request.container.image.clone(),
            state: ContainerState::Running,
            exit_code: None,
            ports: resolved,
        };
        let kept = MockContainer {
            inspection: clone_inspection(&inspection),
            logs: ContainerLogs { stdout: Vec::new(), stderr: Vec::new() },
            next_exec_results: Vec::new(),
            labels: clone_pairs(&request.container.labels),
        };
        let _ = take_keyed(&mut self.containers, id.as_str());
        let ghost before = self.containers@;
        assert(id@ == mock_id(self.next_container_id as nat));
        self.containers.push((id, kept));
        proof {
            assert(self.containers@.drop_last() =~= before);
            assert forall|q: Seq<char>| q != mock_id(self.next_container_id as nat) implies #[trigger] keyed_lookup(self.containers@, q) == old(self).container(q) by {
                lemma_keyed_remove(old(self).containers@, mock_id(self.next_container_id as nat), q);
            }
        }
        let ghost name = request.name@;
        self.start_requests.push(request);
        emit_line(progress, ContainerRuntimeOperation::StartContainer, "started container ", inspection.handle.id.as_str());
        proof {
            lemma_two_lines(log_view(*old(progress)), status_event(ContainerRuntimeOperation::StartContainer, "starting container "@ + name),
                status_event(ContainerRuntimeOperation::StartContainer, "started container "@ + inspection.handle.id@));
        }
        Ok(StartedContainer { inspection })
    }

    /// What is known of `handle`'s container (not found once removed).
    pub fn inspect_container(&self, handle: &ContainerHandle, progress: &mut Option<Vec<ContainerRuntimeEvent>>) -> (r: Result<ContainerInspection, ContainerRuntimeError>)
        ensures
            log_view(*final(progress)) == appended(log_view(*old(progress)),
                seq![status_event(ContainerRuntimeOperation::InspectContainer, "inspecting container "@ + handle.id@)]),
            match self.container(handle.id@) {
                Some(c) => r matches Ok(x) && same_inspection(x, c.inspection),
                None => r matches Err(e) && error_view(e) == (ErrorKind::NotFound, handle.id@),
            },
    {
        emit_line(progress, ContainerRuntimeOperation::InspectContainer, "inspecting container ", handle.id.as_str());
        match find_keyed(&self.containers, handle.id.as_str()) {
            Some(i) => Ok(clone_inspection(&self.containers[i].1.inspection)),
            None => Err(ContainerRuntimeError::NotFound(handle.id.clone())),
        }
    }

    /// The logs of `handle`'s container: an injected failure is reported
    /// once (`mock logs`); an unknown container is not found.
    pub fn read_logs(&mut self, handle: &ContainerHandle, progress: &mut Option<Vec<ContainerRuntimeEvent>>) -> (r: Result<ContainerLogs, ContainerRuntimeError>)
        ensures
            r is Err ==> log_view(*final(progress)) == appended(log_view(*old(progress)),
                seq![status_event(ContainerRuntimeOperation::ReadLogs, "reading logs for "@ + handle.id@)]),
            r matches Ok(l) ==> log_view(*final(progress)) == appended(log_view(*old(progress)),
                seq![status_event(ContainerRuntimeOperation::ReadLogs, "reading logs for "@ + handle.id@)]
                    + chunk_events(ContainerRuntimeOperation::ReadLogs, l.stdout@, l.stderr@)),
            match old(self).log_error(handle.id@) {
                Some(m) => (r matches Err(e) && is_mock_failure(e, "logs"@, m@)),
                None => match old(self).container(handle.id@) {
                    Some(c) => r matches Ok(l) && same_logs(l, c.logs),
                    None => r matches Err(e) && error_view(e) == (ErrorKind::NotFound, handle.id@),
                },
            },
            final(self).log_error(handle.id@) is None,
            forall|id: Seq<char>| id != handle.id@ ==> #[trigger] final(self).log_error(id) == old(self).log_error(id),
            forall|id: Seq<char>| #[trigger] final(self).container(id) == old(self).container(id),
            forall|id: Seq<char>| #[trigger] final(self).exec_error(id) == old(self).exec_error(id),
    {
        emit_line(progress, ContainerRuntimeOperation::ReadLogs, "reading logs for ", handle.id.as_str());
        let taken = take_keyed(&mut self.next_log_errors, handle.id.as_str());
        proof {
            assert forall|q: Seq<char>| #[trigger] keyed_lookup(self.next_log_errors@, q) == (if q == handle.id@ { None } else { old(self).log_error(q) }) by {
                lemma_keyed_remove(old(self).next_log_errors@, handle.id@, q);
            }
        }
        if let Some(message) = taken {
            return Err(command_failure("logs", message));
        }
        match find_keyed(&self.containers, handle.id.as_str()) {
            Some(i) => {
                let l = &self.containers[i].1.logs;
                let logs = ContainerLogs { stdout: clone_bytes_vec(&l.stdout), stderr: clone_bytes_vec(&l.stderr) };
                emit_outputs(progress, ContainerRuntimeOperation::ReadLogs, &logs.stdout, &logs.stderr);
                proof {
                    lemma_line_then(log_view(*old(progress)), status_event(ContainerRuntimeOperation::ReadLogs, "reading logs for "@ + handle.id@),
                        chunk_events(ContainerRuntimeOperation::ReadLogs, logs.stdout@, logs.stderr@));
                }
                Ok(logs)
            },
            None => Err(ContainerRuntimeError::NotFound(handle.id.clone())),
        }
    }

    /// Mark `handle`'s container exited with status 0.
    pub fn stop_container(&mut self, handle: &ContainerHandle, timeout_secs: u32, progress: &mut Option<Vec<ContainerRuntimeEvent>>) -> (r: Result<(), ContainerRuntimeError>)
        ensures
            log_view(*final(progress)) == appended(log_view(*old(progress)),
                seq![status_event(ContainerRuntimeOperation::StopContainer, "stopping container "@ + handle.id@)]),
            match old(self).container(handle.id@) {
                Some(c) => r is Ok && final(self).container(handle.id@) == Some(MockContainer {
                    inspection: ContainerInspection { state: ContainerState::Exited, exit_code: Some(0i32), ..c.inspection },
                    ..c
                }),
                None => (r matches Err(e) && error_view(e) == (ErrorKind::NotFound, handle.id@)) && final(self).container(handle.id@) is None,
            },
            forall|id: Seq<char>| id != handle.id@ ==> #[trigger] final(self).container(id) == old(self).container(id),
            forall|id: Seq<char>| #[trigger] final(self).exec_error(id) == old(self).exec_error(id),
            forall|id: Seq<char>| #[trigger] final(self).log_error(id) == old(self).log_error(id),
    {
        emit_line(progress, ContainerRuntimeOperation::StopContainer, "stopping container ", handle.id.as_str());
        match find_keyed(&self.containers, handle.id.as_str()) {
            Some(i) => {
                let ghost before = self.containers@;
                let (key, mut c) = self.containers.remove(i);
                c.inspection.state = ContainerState::Exited;
                c.inspection.exit_code = Some(0);
                let ghost updated = c;
                self.containers.insert(i, (key, c));
                proof {
                    assert(self.containers@ =~= before.update(i as int, (before[i as int].0, updated)));
                    lemma_keyed_update_all(before, i as int, updated);
                }
                Ok(())
            },
            None => Err(ContainerRuntimeError::NotFound(handle.id.clone())),
        }
    }

    /// Forget `handle`'s container (not found when there is none).
    pub fn remove_container(&mut self, handle: &ContainerHandle, force: bool, progress: &mut Option<Vec<ContainerRuntimeEvent>>) -> (r: Result<(), ContainerRuntimeError>)
        ensures
            log_view(*final(progress)) == appended(log_view(*old(progress)),
                seq![status_event(ContainerRuntimeOperation::RemoveContainer, "removing container "@ + handle.id@)]),
            old(self).container(handle.id@) is Some ==> r is Ok,
            old(self).container(handle.id@) is None ==> (r matches Err(e) && error_view(e) == (ErrorKind::NotFound, handle.id@)),
            final(self).container(handle.id@) is None,
            forall|id: Seq<char>| id != handle.id@ ==> #[trigger] final(self).container(id) == old(self).container(id),
            forall|id: Seq<char>| #[trigger] final(self).exec_error(id) == old(self).exec_error(id),
            forall|id: Seq<char>| #[trigger] final(self).log_error(id) == old(self).log_error(id),
    {
        emit_line(progress, ContainerRuntimeOperation::RemoveContainer, "removing container ", handle.id.as_str());
        let removed = take_keyed(&mut self.containers, handle.id.as_str());
        proof {
            assert forall|q: Seq<char>| #[trigger] keyed_lookup(self.containers@, q) == (if q == handle.id@ { None } else { old(self).container(q) }) by {
                lemma_keyed_remove(old(self).containers@, handle.id@, q);
            }
        }
        if removed.is_some() {
            Ok(())
        } else {
            Err(ContainerRuntimeError::NotFound(handle.id.clone()))
        }
    }

    /// Record a network.
    pub fn create_network(&mut self, name: &str, progress: &mut Option<Vec<ContainerRuntimeEvent>>)
        ensures
            log_view(*final(progress)) == appended(log_view(*old(progress)),
                seq![status_event(ContainerRuntimeOperation::CreateNetwork, "creating network "@ + name@)]),
            final(self).nets().len() == old(self).nets().len() + 1,
            final(self).nets().last()@ == name@,
            final(self).nets().drop_last() == old(self).nets(),
            forall|id: Seq<char>| #[trigger] final(self).container(id) == old(self).container(id),
    {
        emit_line(progress, ContainerRuntimeOperation::CreateNetwork, "creating network ", name);
        let ghost before = self.networks@;
        self.networks.push(to_owned(name));
        assert(self.networks@.drop_last() =~= before);
    }

    /// Drop every network named `name`.
    pub fn remove_network(&mut self, name: &str, progress: &mut Option<Vec<ContainerRuntimeEvent>>)
        ensures
            log_view(*final(progress)) == appended(log_view(*old(progress)),
                seq![status_event(ContainerRuntimeOperation::RemoveNetwork, "removing network "@ + name@)]),
            final(self).nets() == old(self).nets().filter(|n: String| n@ != name@),
            forall|id: Seq<char>| #[trigger] final(self).container(id) == old(self).container(id),
    {
        emit_line(progress, ContainerRuntimeOperation::RemoveNetwork, "removing network ", name);
        let mut kept: Vec<String> = Vec::new();
        let mut i: usize = 0;
        while i < self.networks.len()
            invariant
                0 <= i <= self.networks@.len(),
                kept@ == self.networks@.take(i as int).filter(|n: String| n@ != name@),
            decreases self.networks@.len() - i,
        {
            proof {
                assert(self.networks@.take(i + 1).drop_last() =~= self.networks@.take(i as int));
                self.networks@.take(i as int).lemma_filter_push(self.networks@[i as int], |n: String| n@ != name@);
                assert(self.networks@.take(i + 1) =~= self.networks@.take(i as int).push(self.networks@[i as int]));
            }
            if !str_eq(self.networks[i].as_str(), name) {
                kept.push(self.networks[i].clone());
            }
            i += 1;
        }
        assert(self.networks@.take(i as int) =~= self.networks@);
        self.networks = kept;
    }
}

proof fn lemma_unpublished_prefix(ports: Seq<crate::container::PortMapping>, i: int)
    requires
        0 <= i <= ports.len(),
    ensures
        unpublished(ports.take(i)) <= unpublished(ports),
    decreases ports.len() - i,
{
    if i < ports.len() {
        assert(ports.take(i + 1).drop_last() =~= ports.take(i));
        lemma_unpublished_prefix(ports, i + 1);
    } else {
        assert(ports.take(i) =~= ports);
    }
}

impl MockContainerRuntime {
    /// Run a program in a container: the request is recorded; an injected
    /// failure is reported once (`mock exec`); an unknown container is not
    /// found; otherwise the next queued result is handed out (or a silent
    /// success when none is queued).
    pub fn exec(&mut self, request: ExecRequest, progress: &mut Option<Vec<ContainerRuntimeEvent>>) -> (r: Result<ExecResult, ContainerRuntimeError>)
        ensures
            r is Err ==> log_view(*final(progress)) == appended(log_view(*old(progress)),
                seq![status_event(ContainerRuntimeOperation::Exec, "executing "@ + request.program.command@ + " in "@ + request.container.id@)]),
            r matches Ok(x) ==> log_view(*final(progress)) == appended(log_view(*old(progress)),
                seq![status_event(ContainerRuntimeOperation::Exec, "executing "@ + request.program.command@ + " in "@ + request.container.id@)]
                    + chunk_events(ContainerRuntimeOperation::Exec, x.stdout@, x.stderr@)),
            final(self).execs() == old(self).execs().push(request),
            ({
                let id = request.container.id@;
                match old(self).exec_error(id) {
                    Some(m) => (r matches Err(e) && is_mock_failure(e, "exec"@, m@))
                        && forall|q: Seq<char>| #[trigger] final(self).container(q) == old(self).container(q),
                    None => match old(self).container(id) {
                        None => (r matches Err(e) && error_view(e) == (ErrorKind::NotFound, id))
                            && forall|q: Seq<char>| #[trigger] final(self).container(q) == old(self).container(q),
                        Some(c) => match next_exec_result(c.next_exec_results@) {
                            Some(x) => r == Ok::<ExecResult, ContainerRuntimeError>(x)
                                && (final(self).container(id) matches Some(n)
                                    && n.next_exec_results@ == after_exec(c.next_exec_results@)
                                    && n.inspection == c.inspection && n.logs == c.logs && n.labels == c.labels)
                                && forall|q: Seq<char>| q != id ==> #[trigger] final(self).container(q) == old(self).container(q),
                            None => (r matches Ok(x) && x.exit_code == 0 && x.stdout@.len() == 0 && x.stderr@.len() == 0)
                                && forall|q: Seq<char>| #[trigger] final(self).container(q) == old(self).container(q),
                        },
                    },
                }
            }),
            final(self).exec_error(request.container.id@) is None,
            forall|q: Seq<char>| q != request.container.id@ ==> #[trigger] final(self).exec_error(q) == old(self).exec_error(q),
            forall|q: Seq<char>| #[trigger] final(self).log_error(q) == old(self).log_error(q),
    {
        let mut line = to_owned("executing ");
        push_str(&mut line, request.program.command.as_str());
        push_str(&mut line, " in ");
        push_str(&mut line, request.container.id.as_str());
        emit_status(progress, ContainerRuntimeOperation::Exec, line);
        let ghost first = status_event(ContainerRuntimeOperation::Exec, "executing "@ + request.program.command@ + " in "@ + request.container.id@);
        let id = request.container.id.clone();
        let ghost before_execs = self.exec_requests@;
        self.exec_requests.push(request);
        assert(self.exec_requests@ == before_execs.push(request));
        let taken = take_keyed(&mut self.next_exec_errors, id.as_str());
        proof {
            assert forall|q: Seq<char>| #[trigger] keyed_lookup(self.next_exec_errors@, q) == (if q == id@ { None } else { old(self).exec_error(q) }) by {
                lemma_keyed_remove(old(self).next_exec_errors@, id@, q);
            }
        }
        if let Some(message) = taken {
            return Err(command_failure("exec", message));
        }
        match find_keyed(&self.containers, id.as_str()) {
            None => Err(ContainerRuntimeError::NotFound(id)),
            Some(i) => {
                if self.containers[i].1.next_exec_results.len() == 0 {
                    let silent = ExecResult { exit_code: 0, stdout: Vec::new(), stderr: Vec::new() };
                    proof {
                        lemma_line_then(log_view(*old(progress)), first, Seq::empty());
                        assert(chunk_events(ContainerRuntimeOperation::Exec, silent.stdout@, silent.stderr@) =~= Seq::<EventView>::empty());
                        assert(seq![first] + Seq::<EventView>::empty() =~= seq![first]);
                    }
                    return Ok(silent);
                }
                let ghost before = self.containers@;
                let (key, mut c) = self.containers.remove(i);
                let ghost queued = c.next_exec_results@;
                let result = c.next_exec_results.remove(0);
                assert(c.next_exec_results@ =~= queued.drop_first());
                let ghost updated = c;
                self.containers.insert(i, (key, c));
                proof {
                    assert(self.containers@ =~= before.update(i as int, (before[i as int].0, updated)));
                    lemma_keyed_update_all(before, i as int, updated);
                }
                emit_outputs(progress, ContainerRuntimeOperation::Exec, &result.stdout, &result.stderr);
                proof {
                    lemma_line_then(log_view(*old(progress)), first, chunk_events(ContainerRuntimeOperation::Exec, result.stdout@, result.stderr@));
                }
                Ok(result)
            },
        }
    }
}

/// Whether `a` sorts before `b` character by character (a proper prefix
/// sorts first), as `String` ordering does.
pub open spec fn text_less(a: Seq<char>, b: Seq<char>) -> bool
    decreases a.len(),
{
    if a.len() == 0 {
        b.len() > 0
    } else if b.len() == 0 {
        false
    } else if a[0] != b[0] {
        (a[0] as u32) < (b[0] as u32)
    } else {
        text_less(a.drop_first(), b.drop_first())
    }
}

pub(crate) fn text_less_exec(a: &str, b: &str) -> (r: bool)
    ensures
        r == text_less(a@, b@),
{
    let n = a.unicode_len();
    let m = b.unicode_len();
    let mut i: usize = 0;
    assert(a@.subrange(0, n as int) =~= a@);
    assert(b@.subrange(0, m as int) =~= b@);
    while i < n && i < m && a.get_char(i) == b.get_char(i)
        invariant
            0 <= i <= n,
            i <= m,
            n == a@.len(),
            m == b@.len(),
            text_less(a@, b@) == text_less(a@.subrange(i as int, n as int), b@.subrange(i as int, m as int)),
        decreases n - i,
    {
        assert(a@.subrange(i as int, n as int).drop_first() =~= a@.subrange(i + 1, n as int));
        assert(b@.subrange(i as int, m as int).drop_first() =~= b@.subrange(i + 1, m as int));
        i += 1;
    }
    if i == n {
        i < m
    } else if i == m {
        false
    } else {
        (a.get_char(i) as u32) < (b.get_char(i) as u32)
    }
}

/// What a listing shows of a container: handle, image, state, labels.
pub type ListedView = (ContainerHandle, String, ContainerState, Seq<(String, String)>);

/// What a listing shows of a kept container.
pub open spec fn listed_of_container(c: MockContainer) -> ListedView {
    (c.inspection.handle, c.inspection.image, c.inspection.state, c.labels@)
}

/// What a listed container shows.
pub open spec fn listed_of(l: ListedContainer) -> ListedView {
    (l.handle, l.image, l.state, l.labels@)
}

/// The listings of the kept containers whose labels include `wanted`, in
/// the order they are kept.
pub open spec fn matching_listed(entries: Seq<(String, MockContainer)>, wanted: Seq<(String, String)>) -> Seq<ListedView>
    decreases entries.len(),
{
    if entries.len() == 0 {
        seq![]
    } else if labels_match(wanted, entries.last().1.labels@) {
        matching_listed(entries.drop_last(), wanted).push(listed_of_container(entries.last().1))
    } else {
        matching_listed(entries.drop_last(), wanted)
    }
}

/// `sorted` with `x` put after every listing whose id does not sort after
/// its id.
pub open spec fn insert_by_id(sorted: Seq<ListedView>, x: ListedView) -> Seq<ListedView>
    decreases sorted.len(),
{
    if sorted.len() == 0 {
        seq![x]
    } else if text_less(x.0.id@, sorted.last().0.id@) {
        insert_by_id(sorted.drop_last(), x).push(sorted.last())
    } else {
        sorted.push(x)
    }
}

/// Listings stably sorted by container id.
pub open spec fn sort_by_id(s: Seq<ListedView>) -> Seq<ListedView>
    decreases s.len(),
{
    if s.len() == 0 { seq![] } else { insert_by_id(sort_by_id(s.drop_last()), s.last()) }
}

/// The listings of a sequence of listed containers.
pub open spec fn listed_views(v: Seq<ListedContainer>) -> Seq<ListedView> {
    Seq::new(v.len(), |i: int| listed_of(v[i]))
}

proof fn lemma_insert_by_id_at(s: Seq<ListedView>, x: ListedView, p: int)
    requires
        0 <= p <= s.len(),
        forall|j: int| p <= j < s.len() ==> text_less(x.0.id@, #[trigger] s[j].0.id@),
        p > 0 ==> !text_less(x.0.id@, s[p - 1].0.id@),
    ensures
        insert_by_id(s, x) == s.insert(p, x),
    decreases s.len(),
{
    if s.len() == 0 {
        assert(s.insert(p, x) =~= seq![x]);
    } else if p == s.len() {
        assert(s.insert(p, x) =~= s.push(x));
    } else {
        assert(text_less(x.0.id@, s[s.len() - 1].0.id@));
        lemma_insert_by_id_at(s.drop_last(), x, p);
        assert(s.insert(p, x) =~= s.drop_last().insert(p, x).push(s.last()));
    }
}

fn labels_match_exec(wanted: &Vec<(String, String)>, have: &Vec<(String, String)>) -> (r: bool)
    ensures
        r == labels_match(wanted@, have@),
{
    let mut i: usize = 0;
    while i < wanted.len()
        invariant
            0 <= i <= wanted@.len(),
            forall|j: int| 0 <= j < i ==> (keyed_lookup(have@, #[trigger] wanted@[j].0@) matches Some(v) && v@ == wanted@[j].1@),
        decreases wanted@.len() - i,
    {
        match find_keyed(have, wanted[i].0.as_str()) {
            Some(k) => {
                if !str_eq(have[k].1.as_str(), wanted[i].1.as_str()) {
                    return false;
                }
            },
            None => return false,
        }
        i += 1;
    }
    true
}

impl MockContainerRuntime {
    /// The kept containers whose labels include every label of `labels`,
    /// ordered by container id.
    pub fn list_containers(&self, labels: &Vec<(String, String)>) -> (r: Vec<ListedContainer>)
        ensures
            listed_views(r@) == sort_by_id(matching_listed(self.container_list(), labels@)),
    {
        let mut found: Vec<ListedContainer> = Vec::new();
        let mut i: usize = 0;
        while i < self.containers.len()
            invariant
                0 <= i <= self.containers@.len(),
                listed_views(found@) == matching_listed(self.containers@.take(i as int), labels@),
            decreases self.containers@.len() - i,
        {
            assert(self.containers@.take(i + 1).drop_last() =~= self.containers@.take(i as int));
            let c = &self.containers[i].1;
            if labels_match_exec(labels, &c.labels) {
                let ghost before = found@;
                let l = ListedContainer {
                    handle: ContainerHandle { id: c.inspection.handle.id.clone(), name: c.inspection.handle.name.clone() },
                    image: c.inspection.image.clone(),
                    state: c.inspection.state,
                    labels: clone_pairs(&c.labels),
                };
                found.push(l);
                assert(listed_views(found@) =~= listed_views(before).push(listed_of(l)));
            }
            i += 1;
        }
        assert(self.containers@.take(i as int) =~= self.containers@);
        let mut out: Vec<ListedContainer> = Vec::new();
        let mut rest = found;
        let ghost all = rest@;
        let ghost mut done: int = 0;
        assert(listed_views(out@) =~= seq![]);
        while rest.len() > 0
            invariant
                0 <= done <= all.len(),
                rest@ == all.skip(done),
                listed_views(out@) == sort_by_id(listed_views(all.take(done))),
            decreases rest@.len(),
        {
            let x = rest.remove(0);
            proof {
                assert(all[done] == x);
                assert(listed_views(all.take(done + 1)).drop_last() =~= listed_views(all.take(done)));
                assert(listed_views(all.take(done + 1)).last() == listed_of(x));
                assert(all.skip(done + 1) =~= all.skip(done).drop_first());
            }
            let mut p = out.len();
            while p > 0 && text_less_exec(x.handle.id.as_str(), out[p - 1].handle.id.as_str())
                invariant
                    0 <= p <= out@.len(),
                    forall|j: int| p <= j < out@.len() ==> text_less(x.handle.id@, #[trigger] out@[j].handle.id@),
                decreases p,
            {
                p -= 1;
            }
            proof {
                let v = listed_views(out@);
                assert forall|j: int| p <= j < v.len() implies text_less(listed_of(x).0.id@, #[trigger] v[j].0.id@) by {
                    assert(v[j] == listed_of(out@[j]));
                }
                if p > 0 {
                    assert(v[p - 1] == listed_of(out@[p - 1]));
                }
                lemma_insert_by_id_at(v, listed_of(x), p as int);
            }
            let ghost before = out@;
            out.insert(p, x);
            proof {
                assert(listed_views(out@) =~= listed_views(before).insert(p as int, listed_of(x)));
                done = done + 1;
            }
        }
        assert(all.take(done) =~= all);
        out
    }
}

} // verus!
