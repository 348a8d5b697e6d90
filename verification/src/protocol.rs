//! The emulator wire protocol: what a client sends, what the daemon
//! answers, how the server dispatches a request to an [`Emulator`], and
//! the client-side rules for interpreting replies and retrying a stale
//! connection.

use std::sync::Arc;

use vstd::prelude::*;

use crate::amdgpu_error::{AmdgpuError, AmdgpuResult};
use crate::frame::{IoFailure, IoKind, WireError, io_to_amdgpu, spec_io_to_amdgpu, spec_is_retryable, spec_wire_to_amdgpu, wire_to_amdgpu, is_retryable_io};
use crate::schema::{DeviceRequest, DeviceResponse, DrmRequest, DrmResponse, IoctlCtx, KfdRequest, KfdResponse, Topology};

verus! {

/// Request sent from the client to the daemon.
#[derive(Debug, Clone, PartialEq, Eq)]
pub enum WireRequest {
    /// A KFD ioctl targeting `/dev/kfd`.
    Kfd { ctx: IoctlCtx, request: KfdRequest },
    /// A DRM-AMDGPU ioctl targeting a render node.
    Drm { ctx: IoctlCtx, request: DrmRequest },
    /// A non-ioctl device syscall.
    Device { ctx: IoctlCtx, request: DeviceRequest },
    /// Fetch the whole KFD sysfs topology.
    GetTopology,
    /// Liveness probe; answered with [`WireResponse::Pong`].
    Ping,
}

/// Response returned by the daemon. Emulator errors travel as data.
#[derive(Debug, PartialEq, Eq)]
pub enum WireResponse {
    Kfd(AmdgpuResult<KfdResponse>),
    Drm(AmdgpuResult<DrmResponse>),
    Device(AmdgpuResult<DeviceResponse>),
    Topology(AmdgpuResult<Topology>),
    Pong,
}

/// A GPU emulator that the daemon exposes to remote clients.
pub trait Emulator {
    fn handle_any_kfd_ioctl(&self, ctx: IoctlCtx, request: KfdRequest) -> AmdgpuResult<KfdResponse>;

    fn handle_any_drm_ioctl(&self, ctx: IoctlCtx, request: DrmRequest) -> AmdgpuResult<DrmResponse>;

    fn handle_any_device_syscall(&self, ctx: IoctlCtx, request: DeviceRequest) -> AmdgpuResult<DeviceResponse>;

    fn get_topology(&self) -> AmdgpuResult<Topology>;
}

/// The response kind that answers a request kind.
pub open spec fn answers(request: WireRequest, response: WireResponse) -> bool {
    match request {
        WireRequest::Kfd { .. } => response is Kfd,
        WireRequest::Drm { .. } => response is Drm,
        WireRequest::Device { .. } => response is Device,
        WireRequest::GetTopology => response is Topology,
        WireRequest::Ping => response == WireResponse::Pong,
    }
}

/// Whether `r` answers `request` the way `emulator` does: a ping with a
/// pong, every other request with what the emulator entry point of its
/// kind returns for the request's own context and arguments.
pub open spec fn dispatched<E: Emulator>(emulator: &E, request: WireRequest, r: WireResponse) -> bool {
    match request {
        WireRequest::Kfd { ctx, request } => r matches WireResponse::Kfd(x)
            && call_ensures(E::handle_any_kfd_ioctl, (emulator, ctx, request), x),
        WireRequest::Drm { ctx, request } => r matches WireResponse::Drm(x)
            && call_ensures(E::handle_any_drm_ioctl, (emulator, ctx, request), x),
        WireRequest::Device { ctx, request } => r matches WireResponse::Device(x)
            && call_ensures(E::handle_any_device_syscall, (emulator, ctx, request), x),
        WireRequest::GetTopology => r matches WireResponse::Topology(x) && call_ensures(E::get_topology, (emulator,), x),
        WireRequest::Ping => r == WireResponse::Pong,
    }
}

/// Answer one request with `emulator`: a ping is answered directly, every
/// other request by the emulator entry point of its kind, whose result is
/// carried back unchanged.
pub fn dispatch<E: Emulator>(emulator: &E, request: WireRequest) -> (r: WireResponse)
    ensures
        answers(request, r),
        dispatched(emulator, request, r),
{
    match request {
        WireRequest::Ping => WireResponse::Pong,
        WireRequest::Kfd { ctx, request } => WireResponse::Kfd(emulator.handle_any_kfd_ioctl(ctx, request)),
        WireRequest::Drm { ctx, request } => WireResponse::Drm(emulator.handle_any_drm_ioctl(ctx, request)),
        WireRequest::Device { ctx, request } => WireResponse::Device(emulator.handle_any_device_syscall(ctx, request)),
        WireRequest::GetTopology => WireResponse::Topology(emulator.get_topology()),
    }
}

/// Daemon side of the ioctl proxy: an [`Emulator`] served on a Unix
/// socket. Accepting connections and moving frames is left to the caller;
/// the server answers each request it is handed.
pub struct EmulatorServer<E> {
    emulator: Arc<E>,
    socket_path: String,
}

impl<E: Emulator> EmulatorServer<E> {
    /// The socket this server listens on.
    pub closed spec fn spec_socket_path(&self) -> Seq<char> {
        self.socket_path@
    }

    /// The emulator this server answers with.
    pub closed spec fn spec_emulator(&self) -> E {
        *self.emulator
    }

    /// Serve `emulator` on `socket_path`.
    pub fn new(socket_path: String, emulator: E) -> (r: Self)
        ensures
            r.spec_socket_path() == socket_path@,
            r.spec_emulator() == emulator,
    {
        Self::from_arc(socket_path, Arc::new(emulator))
    }

    /// Serve an already shared emulator on `socket_path`.
    pub fn from_arc(socket_path: String, emulator: Arc<E>) -> (r: Self)
        ensures
            r.spec_socket_path() == socket_path@,
            r.spec_emulator() == *emulator,
    {
        EmulatorServer { emulator, socket_path }
    }

    /// The socket this server listens on.
    pub fn socket_path(&self) -> (r: &str)
        ensures
            r@ == self.spec_socket_path(),
    {
        self.socket_path.as_str()
    }

    /// Answer one request read from a client.
    pub fn serve(&self, request: WireRequest) -> (r: WireResponse)
        ensures
            answers(request, r),
            dispatched(&self.spec_emulator(), request, r),
    {
        dispatch(&*self.emulator, request)
    }
}

/// What the server does with the outcome of reading a request frame.
#[derive(Debug, Clone, PartialEq, Eq)]
pub enum ServerStep {
    /// Dispatch the request and write the response.
    Dispatch(WireRequest),
    /// The peer hung up; close the connection quietly.
    Close,
    /// Drop the connection and report the error.
    Fail(WireError),
}

/// The server's reaction to reading a request: a lost peer (end of file or
/// broken pipe) ends the connection quietly, any other error ends it with
/// that error.
pub fn server_step(read: Result<WireRequest, WireError>) -> (r: ServerStep)
    ensures
        match read {
            Ok(req) => r == ServerStep::Dispatch(req),
            Err(WireError::Io(e)) => (e.kind == IoKind::UnexpectedEof || e.kind == IoKind::BrokenPipe)
                ==> r == ServerStep::Close,
            Err(_) => true,
        },
        match read {
            Err(WireError::Io(e)) => !(e.kind == IoKind::UnexpectedEof || e.kind == IoKind::BrokenPipe)
                ==> r == ServerStep::Fail(WireError::Io(e)),
            Err(e) => !(e is Io) ==> r == ServerStep::Fail(e),
            Ok(_) => true,
        },
{
    match read {
        Ok(req) => ServerStep::Dispatch(req),
        Err(WireError::Io(e)) => {
            match e.kind {
                IoKind::UnexpectedEof | IoKind::BrokenPipe => ServerStep::Close,
                _ => ServerStep::Fail(WireError::Io(e)),
            }
        },
        Err(e) => ServerStep::Fail(e),
    }
}

/// Client side of the ioctl proxy: names the daemon socket it talks to.
#[derive(Debug, Clone)]
pub struct RemoteEmulator {
    socket_path: String,
}

/// How many times a request is sent before the client gives up.
pub const MAX_ROUND_TRIP_ATTEMPTS: u32 = 2;

/// What the client does after one attempt to exchange a request.
#[derive(Debug, PartialEq, Eq)]
pub enum RoundTripStep {
    /// Drop the cached connection, reconnect and send again.
    Retry,
    /// Stop with this result.
    Finish(AmdgpuResult<WireResponse>),
}

/// The step after attempt number `attempt` (counted from zero) ended with
/// `outcome`.
pub open spec fn spec_after_exchange(attempt: u32, outcome: Result<WireResponse, WireError>) -> RoundTripStep {
    match outcome {
        Ok(response) => RoundTripStep::Finish(Ok(response)),
        Err(WireError::Io(e)) => if attempt == 0 && spec_is_retryable(e) {
            RoundTripStep::Retry
        } else {
            RoundTripStep::Finish(Err(spec_io_to_amdgpu(e)))
        },
        Err(e) => RoundTripStep::Finish(Err(spec_wire_to_amdgpu(e))),
    }
}

impl RemoteEmulator {
    pub closed spec fn spec_socket_path(&self) -> Seq<char> {
        self.socket_path@
    }

    /// A client for the daemon listening on `socket_path`.
    pub fn new(socket_path: String) -> (r: Self)
        ensures
            r.spec_socket_path() == socket_path@,
    {
        RemoteEmulator { socket_path }
    }

    /// The socket path this client talks to.
    pub fn socket_path(&self) -> (r: &str)
        ensures
            r@ == self.spec_socket_path(),
    {
        self.socket_path.as_str()
    }

    /// The liveness verdict for the reply to a [`WireRequest::Ping`]: a
    /// pong means alive, any other reply is invalid, and a failed exchange
    /// keeps its error.
    pub fn ping(&self, reply: AmdgpuResult<WireResponse>) -> (r: AmdgpuResult<()>)
        ensures
            match reply {
                Ok(WireResponse::Pong) => r == Ok::<(), AmdgpuError>(()),
                Ok(_) => r == Err::<(), AmdgpuError>(AmdgpuError::Invalid),
                Err(e) => r == Err::<(), AmdgpuError>(e),
            },
    {
        match reply {
            Ok(WireResponse::Pong) => Ok(()),
            Ok(_) => Err(AmdgpuError::Invalid),
            Err(e) => Err(e),
        }
    }

    /// The request that forwards a KFD ioctl.
    pub fn kfd_request(&self, ctx: IoctlCtx, request: KfdRequest) -> (r: WireRequest)
        ensures
            r == (WireRequest::Kfd { ctx, request }),
    {
        WireRequest::Kfd { ctx, request }
    }

    /// The KFD result carried by a reply: a KFD reply carries it, any
    /// other reply is invalid, and a failed exchange keeps its error.
    pub fn forward_kfd_ioctl(&self, reply: AmdgpuResult<WireResponse>) -> (r: AmdgpuResult<KfdResponse>)
        ensures
            match reply {
                Ok(WireResponse::Kfd(res)) => r == res,
                Ok(_) => r == Err::<KfdResponse, AmdgpuError>(AmdgpuError::Invalid),
                Err(e) => r == Err::<KfdResponse, AmdgpuError>(e),
            },
    {
        match reply {
            Ok(WireResponse::Kfd(res)) => res,
            Ok(_) => Err(AmdgpuError::Invalid),
            Err(e) => Err(e),
        }
    }

    /// The request that forwards a DRM ioctl.
    pub fn drm_request(&self, ctx: IoctlCtx, request: DrmRequest) -> (r: WireRequest)
        ensures
            r == (WireRequest::Drm { ctx, request }),
    {
        WireRequest::Drm { ctx, request }
    }

    /// The DRM result carried by a reply.
    pub fn forward_drm_ioctl(&self, reply: AmdgpuResult<WireResponse>) -> (r: AmdgpuResult<DrmResponse>)
        ensures
            match reply {
                Ok(WireResponse::Drm(res)) => r == res,
                Ok(_) => r == Err::<DrmResponse, AmdgpuError>(AmdgpuError::Invalid),
                Err(e) => r == Err::<DrmResponse, AmdgpuError>(e),
            },
    {
        match reply {
            Ok(WireResponse::Drm(res)) => res,
            Ok(_) => Err(AmdgpuError::Invalid),
            Err(e) => Err(e),
        }
    }

    /// The request that forwards a device syscall.
    pub fn device_request(&self, ctx: IoctlCtx, request: DeviceRequest) -> (r: WireRequest)
        ensures
            r == (WireRequest::Device { ctx, request }),
    {
        WireRequest::Device { ctx, request }
    }

    /// The device-syscall result carried by a reply.
    pub fn forward_device_syscall(&self, reply: AmdgpuResult<WireResponse>) -> (r: AmdgpuResult<DeviceResponse>)
        ensures
            match reply {
                Ok(WireResponse::Device(res)) => r == res,
                Ok(_) => r == Err::<DeviceResponse, AmdgpuError>(AmdgpuError::Invalid),
                Err(e) => r == Err::<DeviceResponse, AmdgpuError>(e),
            },
    {
        match reply {
            Ok(WireResponse::Device(res)) => res,
            Ok(_) => Err(AmdgpuError::Invalid),
            Err(e) => Err(e),
        }
    }

    /// The topology carried by a reply.
    pub fn topology_reply(&self, reply: AmdgpuResult<WireResponse>) -> (r: AmdgpuResult<Topology>)
        ensures
            match reply {
                Ok(WireResponse::Topology(res)) => r == res,
                Ok(_) => r == Err::<Topology, AmdgpuError>(AmdgpuError::Invalid),
                Err(e) => r == Err::<Topology, AmdgpuError>(e),
            },
    {
        match reply {
            Ok(WireResponse::Topology(res)) => res,
            Ok(_) => Err(AmdgpuError::Invalid),
            Err(e) => Err(e),
        }
    }
}

/// The client's reaction to the outcome of attempt `attempt` (from zero):
/// a reply finishes; a lost connection on the first attempt is retried
/// once on a fresh connection; any other failure finishes with the
/// emulator error it stands for.
pub fn after_exchange(attempt: u32, outcome: Result<WireResponse, WireError>) -> (r: RoundTripStep)
    ensures
        r == spec_after_exchange(attempt, outcome),
        (r is Retry) <==> (attempt == 0 && match outcome {
            Err(WireError::Io(e)) => e.kind == IoKind::BrokenPipe || e.kind == IoKind::ConnectionReset
                || e.kind == IoKind::ConnectionAborted || e.kind == IoKind::UnexpectedEof || e.kind == IoKind::NotConnected,
            _ => false,
        }),
{
    proof {
        lemma_lost_connection_retried(attempt, outcome);
    }
    match outcome {
        Ok(response) => RoundTripStep::Finish(Ok(response)),
        Err(WireError::Io(e)) => {
            if attempt == 0 && is_retryable_io(&e) {
                RoundTripStep::Retry
            } else {
                RoundTripStep::Finish(Err(io_to_amdgpu(&e)))
            }
        },
        Err(e) => {
            let err = wire_to_amdgpu(&e);
            RoundTripStep::Finish(Err(err))
        },
    }
}

/// A first exchange that fails because the connection was lost (a broken
/// pipe, a reset or aborted connection, an unexpected end of file, or no
/// connection) is sent again on a new connection; no other outcome, and no
/// later attempt, is.
pub proof fn lemma_lost_connection_retried(attempt: u32, outcome: Result<WireResponse, WireError>)
    ensures
        (spec_after_exchange(attempt, outcome) is Retry) <==> (attempt == 0 && match outcome {
            Err(WireError::Io(e)) => e.kind == IoKind::BrokenPipe || e.kind == IoKind::ConnectionReset
                || e.kind == IoKind::ConnectionAborted || e.kind == IoKind::UnexpectedEof || e.kind == IoKind::NotConnected,
            _ => false,
        }),
{
}

/// The result when connecting to the daemon fails.
pub fn after_connect_failure(e: &IoFailure) -> (r: AmdgpuError)
    ensures
        r == spec_io_to_amdgpu(*e),
{
    io_to_amdgpu(e)
}

/// A retried exchange never asks for a third attempt: the second attempt
/// always finishes.
pub proof fn lemma_round_trip_bounded(outcome: Result<WireResponse, WireError>)
    ensures
        spec_after_exchange(1, outcome) is Finish,
{
}

/// Per-thread cache of open connections, at most one per socket path.
#[derive(Debug)]
pub struct ConnCache<S> {
    entries: Vec<(String, S)>,
}

impl<S> ConnCache<S> {
    /// The cached socket paths, in insertion order.
    pub closed spec fn paths(&self) -> Seq<Seq<char>> {
        cache_keys(self.entries@)
    }

    /// No path is cached twice.
    pub open spec fn wf(&self) -> bool {
        self.paths().no_duplicates()
    }

    /// An empty cache.
    pub fn new() -> (c: Self)
        ensures
            c.paths() == Seq::<Seq<char>>::empty(),
            c.wf(),
    {
        let c = ConnCache { entries: Vec::new() };
        assert(c.paths() =~= Seq::<Seq<char>>::empty());
        c
    }

    /// The position of the connection for `path`, if one is cached.
    pub fn position(&self, path: &str) -> (r: Option<usize>)
        ensures
            match r {
                Some(i) => i < self.paths().len() && self.paths()[i as int] == path@,
                None => !self.paths().contains(path@),
            },
    {
        let mut i: usize = 0;
        while i < self.entries.len()
            invariant
                0 <= i <= self.entries@.len(),
                self.paths().len() == self.entries@.len(),
                forall|j: int| 0 <= j < i ==> self.paths()[j] != path@,
            decreases self.entries@.len() - i,
        {
            if str_eq(self.entries[i].0.as_str(), path) {
                return Some(i);
            }
            i += 1;
        }
        None
    }

    /// Whether a connection for `path` is cached.
    pub fn contains(&self, path: &str) -> (r: bool)
        ensures
            r == self.paths().contains(path@),
    {
        self.position(path).is_some()
    }

    /// The cached connection for `path`.
    pub fn get_for(&mut self, path: &str) -> (r: Option<&mut S>)
        ensures
            r is Some <==> old(self).paths().contains(path@),
            final(self).paths() == old(self).paths(),
    {
        match self.position(path) {
            Some(i) => Some(&mut self.entries[i].1),
            None => None,
        }
    }

    /// Drop the connection for `path`, if any; every other cached
    /// connection stays.
    pub fn forget(&mut self, path: &str)
        requires
            old(self).wf(),
        ensures
            final(self).wf(),
            !final(self).paths().contains(path@),
            forall|q: Seq<char>| q != path@ ==> (final(self).paths().contains(q) <==> old(self).paths().contains(q)),
    {
        let ghost old_paths = self.paths();
        let mut kept: Vec<(String, S)> = Vec::new();
        let mut rest: Vec<(String, S)> = Vec::new();
        std::mem::swap(&mut rest, &mut self.entries);
        let ghost all = rest@;
        assert(cache_keys(all) =~= old_paths);
        let ghost mut taken: int = 0;
        while rest.len() > 0
            invariant
                0 <= taken <= all.len(),
                taken + rest@.len() == all.len(),
                rest@ == all.skip(taken),
                old_paths == cache_keys(all),
                old_paths.no_duplicates(),
                cache_keys(kept@).no_duplicates(),
                forall|q: Seq<char>| #[trigger] cache_keys(kept@).contains(q) <==>
                    (q != path@ && old_paths.take(taken).contains(q)),
            decreases rest@.len(),
        {
            let ghost kpaths = cache_keys(kept@);
            let e = rest.remove(0);
            proof {
                assert(all[taken] == e);
                assert(old_paths.take(taken + 1) =~= old_paths.take(taken).push(e.0@));
                assert(all.skip(taken + 1) =~= all.skip(taken).drop_first());
                assert(!old_paths.take(taken).contains(e.0@)) by {
                    if old_paths.take(taken).contains(e.0@) {
                        let k = choose|k: int| 0 <= k < taken && old_paths.take(taken)[k] == e.0@;
                        assert(old_paths[k] == old_paths[taken]);
                    }
                }
            }
            let ghost ep = e.0@;
            if !str_eq(e.0.as_str(), path) {
                kept.push(e);
                assert(cache_keys(kept@) =~= kpaths.push(ep));
                proof {
                    assert forall|q: Seq<char>| kpaths.push(ep).contains(q) <==> (kpaths.contains(q) || q == ep) by {
                        lemma_push_contains(kpaths, ep, q);
                    }
                    assert(!kpaths.contains(ep));
                    assert forall|i: int, j: int| 0 <= i < j < kpaths.push(ep).len() implies kpaths.push(ep)[i] != kpaths.push(ep)[j] by {
                        if j == kpaths.len() {
                            assert(kpaths.contains(kpaths[i]));
                        }
                    }
                }
            } else {
                assert(cache_keys(kept@) =~= kpaths);
            }
            proof {
                let kp2 = cache_keys(kept@);
                assert forall|q: Seq<char>| kp2.contains(q) <==> (q != path@ && old_paths.take(taken + 1).contains(q)) by {
                    lemma_push_contains(old_paths.take(taken), ep, q);
                    lemma_push_contains(kpaths, ep, q);
                    assert(kpaths.contains(q) <==> (q != path@ && old_paths.take(taken).contains(q)));
                }
                taken = taken + 1;
            }
        }
        assert(old_paths.take(taken) =~= old_paths);
        assert(!cache_keys(kept@).contains(path@));
        self.entries = kept;
        assert(self.paths() == cache_keys(kept@));
        assert(!self.paths().contains(path@) && true);
    }

    /// Cache `stream` as the connection for `path`, replacing any previous
    /// one; every other cached connection stays.
    pub fn insert(&mut self, path: String, stream: S)
        requires
            old(self).wf(),
        ensures
            final(self).wf(),
            final(self).paths().contains(path@),
            forall|q: Seq<char>| q != path@ ==> (final(self).paths().contains(q) <==> old(self).paths().contains(q)),
    {
        self.forget(path.as_str());
        let ghost before = self.paths();
        let ghost p = path@;
        self.entries.push((path, stream));
        assert(self.paths() =~= before.push(p));
        assert(self.paths()[before.len() as int] == p);
        assert forall|q: Seq<char>| self.paths().contains(q) <==> (before.contains(q) || q == p) by {
            lemma_push_contains(before, p, q);
        }
        assert forall|i: int, j: int| 0 <= i < j < self.paths().len() implies self.paths()[i] != self.paths()[j] by {
            if j == before.len() {
                assert(before.contains(before[i]));
            }
        }
    }
}

/// The keys of an association list.
pub open spec fn cache_keys<S>(entries: Seq<(String, S)>) -> Seq<Seq<char>> {
    entries.map_values(|e: (String, S)| e.0@)
}

proof fn lemma_push_contains<A>(s: Seq<A>, x: A, q: A)
    ensures
        s.push(x).contains(q) <==> (s.contains(q) || q == x),
{
    if s.contains(q) {
        let k = choose|k: int| 0 <= k < s.len() && s[k] == q;
        assert(s.push(x)[k] == q);
    }
    if q == x {
        assert(s.push(x)[s.len() as int] == q);
    }
    if s.push(x).contains(q) {
        let k = choose|k: int| 0 <= k < s.push(x).len() && s.push(x)[k] == q;
        if k < s.len() {
            assert(s[k] == q);
        }
    }
}

/// String equality by contents.
pub fn str_eq(a: &str, b: &str) -> (r: bool)
    ensures
        r == (a@ == b@),
{
    let n = a.unicode_len();
    if n != b.unicode_len() {
        return false;
    }
    let mut i: usize = 0;
    while i < n
        invariant
            0 <= i <= n,
            n == a@.len(),
            n == b@.len(),
            forall|j: int| 0 <= j < i ==> a@[j] == b@[j],
        decreases n - i,
    {
        if a.get_char(i) != b.get_char(i) {
            return false;
        }
        i += 1;
    }
    assert(a@ =~= b@);
    true
}

} // verus!
