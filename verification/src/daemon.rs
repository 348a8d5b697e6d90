//! The daemon's rules: which simulators it knows, what makes a profile,
//! workload or boot request acceptable, how a session's containers are
//! planned and labelled, how sessions are reported from the containers a
//! runtime lists, and the bounded output buffer of a running exec.

use vstd::prelude::*;

use crate::container::{BindMount, ContainerDef, ContainerHandle, ExecArgs, ListedContainer, SetEnv, StartContainerRequest};
use crate::docker::surround;
use crate::mock::{text_less, text_less_exec, find_keyed, keyed_lookup, keyed_remove, lemma_keyed_remove, lemma_keyed_update_all, take_keyed};
use crate::text::{decimal, is_blank, push_str, spec_is_blank, strings_view, to_owned, u64_to_string};

verus! {

/// How precisely a simulator models the hardware.
#[derive(Debug, Clone, Copy, PartialEq, Eq, Structural)]
pub enum SimulatorMode {
    Functional,
    CycleAccurate,
}

/// The family of a GPU.
#[derive(Debug, Clone, Copy, PartialEq, Eq, Structural)]
pub enum GpuFamily {
    AmdCdna,
}

/// A GPU a simulator can model.
#[derive(Debug, Clone, PartialEq, Eq)]
pub struct GpuDef {
    pub name: String,
    pub arch: String,
    pub family: GpuFamily,
    pub description: Option<String>,
}

/// What a simulator says about itself.
#[derive(Debug, Clone, PartialEq, Eq)]
pub struct SimulatorInfo {
    pub name: String,
    pub version: String,
    pub description: Option<String>,
    pub supported_gpus: Vec<GpuDef>,
    pub supports_custom_gpus: bool,
    pub supported_modes: Vec<SimulatorMode>,
}

/// A named hardware configuration sessions boot with.
#[derive(Debug, Clone, PartialEq, Eq)]
pub struct ProfileDef {
    pub name: String,
    pub simulator: String,
    pub mode: SimulatorMode,
    pub gpu: String,
    pub num_gpus: u32,
    pub num_nodes: u32,
}

/// A daemon configuration: the profiles the daemon offers.
#[derive(Debug, Clone, PartialEq, Eq)]
pub struct DaemonDef {
    /// The profiles this daemon instance exposes.
    pub profiles: Vec<ProfileDef>,
}

/// A request to create a profile.
#[derive(Debug, Clone, PartialEq, Eq)]
pub struct CreateProfileRequest {
    pub name: String,
    pub simulator: String,
    pub gpu: String,
    pub mode: SimulatorMode,
    pub gpus_per_node: u32,
    pub nodes: u32,
}

/// When a workload's session is cleaned up.
#[derive(Debug, Clone, Copy, PartialEq, Eq, Structural)]
pub enum CleanupPolicy {
    Always,
    Never,
    OnSuccess,
}

/// A named sequence of programs to run in a session.
#[derive(Debug, Clone, PartialEq, Eq)]
pub struct WorkloadDef {
    pub name: String,
    pub profile: String,
    pub image: String,
    pub startup: Option<ExecArgs>,
    pub execs: Vec<ExecArgs>,
    pub cleanup: CleanupPolicy,
}

/// A request to create a workload; each program is written
/// `command,arg,arg...`.
#[derive(Debug, Clone, PartialEq, Eq)]
pub struct CreateWorkloadRequest {
    pub name: String,
    pub profile: String,
    pub image: String,
    pub startup: Option<String>,
    pub execs: Vec<String>,
    pub cleanup: CleanupPolicy,
}

/// Where a session stands.
#[derive(Debug, Clone, Copy, PartialEq, Eq, Structural)]
pub enum SessionPhase {
    Pulling,
    Starting,
    Running,
    Failed,
    Stale,
}

/// How healthy a session is.
#[derive(Debug, Clone, Copy, PartialEq, Eq, Structural)]
pub enum HealthStatus {
    Healthy,
    Unhealthy,
    Unknown,
}

/// Container label every managed container carries.
pub const LABEL_MANAGED: &'static str = "mirage.managed";
/// Container label holding the session name.
pub const LABEL_SESSION: &'static str = "mirage.session";
/// Container label holding the profile name.
pub const LABEL_PROFILE: &'static str = "mirage.profile";
/// Container label holding the image.
pub const LABEL_IMAGE: &'static str = "mirage.image";
/// Container label holding the simulator name.
pub const LABEL_SIMULATOR: &'static str = "mirage.simulator";
/// Container label holding the emulator session id.
pub const LABEL_EMULATOR_SESSION: &'static str = "mirage.emulator_session";
/// Container label holding the node index.
pub const LABEL_NODE_INDEX: &'static str = "mirage.node_index";
/// Port the head node of a multi-node session listens on.
pub const MIRAGE_HEAD_PORT: u16 = 29500;

/// The simulator built into the daemon: `rocjitsu` 0.5.0, functional,
/// modelling the MI300X, MI325X (gfx942) and MI350X (gfx950).
pub fn builtin_simulators() -> (r: Vec<(String, SimulatorInfo)>)
    ensures
        r@.len() == 1,
        r@[0].0@ == "rocjitsu"@,
        r@[0].1.name@ == "rocjitsu"@,
        r@[0].1.version@ == "0.5.0"@,
        r@[0].1.supported_gpus@.len() == 3,
        r@[0].1.supported_gpus@[0].name@ == "MI300X"@ && r@[0].1.supported_gpus@[0].arch@ == "gfx942"@,
        r@[0].1.supported_gpus@[1].name@ == "MI325X"@ && r@[0].1.supported_gpus@[1].arch@ == "gfx942"@,
        r@[0].1.supported_gpus@[2].name@ == "MI350X"@ && r@[0].1.supported_gpus@[2].arch@ == "gfx950"@,
        !r@[0].1.supports_custom_gpus,
        r@[0].1.supported_modes@ == seq![SimulatorMode::Functional],
{
    let gpus = vec![
        GpuDef {
            name: to_owned("MI300X"),
            arch: to_owned("gfx942"),
            family: GpuFamily::AmdCdna,
            description: Some(to_owned("AMD Instinct MI300X")),
        },
        GpuDef {
            name: to_owned("MI325X"),
            arch: to_owned("gfx942"),
            family: GpuFamily::AmdCdna,
            description: Some(to_owned("AMD Instinct MI325X")),
        },
        GpuDef {
            name: to_owned("MI350X"),
            arch: to_owned("gfx950"),
            family: GpuFamily::AmdCdna,
            description: Some(to_owned("AMD Instinct MI350X")),
        },
    ];
    let info = SimulatorInfo {
        name: to_owned("rocjitsu"),
        version: to_owned("0.5.0"),
        description: Some(to_owned("AMD CDNA functional simulator")),
        supported_gpus: gpus,
        supports_custom_gpus: false,
        supported_modes: vec![SimulatorMode::Functional],
    };
    vec![(to_owned("rocjitsu"), info)]
}

/// Whether a simulator runs in `mode` (one that lists no modes runs in
/// any).
pub open spec fn spec_supports_mode(info: SimulatorInfo, mode: SimulatorMode) -> bool {
    info.supported_modes@.len() == 0 || info.supported_modes@.contains(mode)
}

/// Whether a simulator runs in `mode`.
pub fn simulator_supports_mode(info: &SimulatorInfo, mode: SimulatorMode) -> (r: bool)
    ensures
        r == spec_supports_mode(*info, mode),
{
    if info.supported_modes.len() == 0 {
        return true;
    }
    let mut i: usize = 0;
    while i < info.supported_modes.len()
        invariant
            0 <= i <= info.supported_modes@.len(),
            forall|j: int| 0 <= j < i ==> info.supported_modes@[j] != mode,
        decreases info.supported_modes@.len() - i,
    {
        if info.supported_modes[i] == mode {
            assert(info.supported_modes@[i as int] == mode);
            return true;
        }
        i += 1;
    }
    false
}

/// Whether a simulator models the GPU named `gpu`.
pub open spec fn spec_supports_gpu(info: SimulatorInfo, gpu: Seq<char>) -> bool {
    exists|i: int| 0 <= i < info.supported_gpus@.len() && #[trigger] info.supported_gpus@[i].name@ == gpu
}

/// Whether a simulator models the GPU named `gpu`.
pub fn simulator_supports_gpu(info: &SimulatorInfo, gpu: &str) -> (r: bool)
    ensures
        r == spec_supports_gpu(*info, gpu@),
{
    let mut i: usize = 0;
    while i < info.supported_gpus.len()
        invariant
            0 <= i <= info.supported_gpus@.len(),
            forall|j: int| 0 <= j < i ==> #[trigger] info.supported_gpus@[j].name@ != gpu@,
        decreases info.supported_gpus@.len() - i,
    {
        if crate::protocol::str_eq(info.supported_gpus[i].name.as_str(), gpu) {
            return true;
        }
        i += 1;
    }
    false
}

/// The profile a create request describes.
pub fn profile_from_request(request: CreateProfileRequest) -> (r: ProfileDef)
    ensures
        r == (ProfileDef {
            name: request.name,
            simulator: request.simulator,
            mode: request.mode,
            gpu: request.gpu,
            num_gpus: request.gpus_per_node,
            num_nodes: request.nodes,
        }),
{
    ProfileDef {
        name: request.name,
        simulator: request.simulator,
        mode: request.mode,
        gpu: request.gpu,
        num_gpus: request.gpus_per_node,
        num_nodes: request.nodes,
    }
}

/// A daemon request that failed, with the message the client sees.
pub type Refusal = String;

/// The program a command line names: its first word, the rest as
/// arguments; an empty command line is refused.
pub fn exec_from_command(command: Vec<String>) -> (r: Result<ExecArgs, Refusal>)
    ensures
        command@.len() == 0 ==> (r matches Err(m) && m@ == "no command provided"@),
        command@.len() > 0 ==> (r matches Ok(e) && e.command == command@[0] && e.args@ == command@.drop_first() && e.env@.len() == 0),
{
    if command.len() == 0 {
        return Err(to_owned("no command provided"));
    }
    let mut rest = command;
    let ghost all = rest@;
    let program = rest.remove(0);
    assert(rest@ =~= all.drop_first());
    Ok(ExecArgs { command: program, args: rest, env: Vec::new() })
}

/// The comma-separated fields of `s` (one empty field for an empty text),
/// as `str::split(',')` yields them.
pub open spec fn split_commas(s: Seq<char>) -> Seq<Seq<char>>
    decreases s.len(),
{
    if s.len() == 0 {
        seq![seq![]]
    } else {
        let p = split_commas(s.drop_last());
        if s.last() == ',' {
            p.push(seq![])
        } else {
            p.update(p.len() - 1, p.last().push(s.last()))
        }
    }
}

proof fn lemma_split_nonempty(s: Seq<char>)
    ensures
        split_commas(s).len() >= 1,
    decreases s.len(),
{
    if s.len() > 0 {
        lemma_split_nonempty(s.drop_last());
    }
}

/// The program a workload step `command,arg,arg...` names.
pub open spec fn spec_csv_exec_ok(spec: Seq<char>, e: ExecArgs) -> bool {
    let parts = split_commas(spec);
    e.command@ == parts[0] && strings_view(e.args@) == parts.drop_first() && e.env@.len() == 0
}

/// The program a workload step `command,arg,arg...` names.
pub fn parse_csv_exec(spec: &str) -> (r: ExecArgs)
    ensures
        spec_csv_exec_ok(spec@, r),
{
    let n = spec.unicode_len();
    let mut parts: Vec<String> = Vec::new();
    let mut current = String::new();
    let mut i: usize = 0;
    proof { assert(spec@.take(0) =~= seq![]); }
    assert(strings_view(parts@).push(current@) =~= split_commas(spec@.take(0)));
    while i < n
        invariant
            0 <= i <= n,
            n == spec@.len(),
            strings_view(parts@).push(current@) == split_commas(spec@.take(i as int)),
        decreases n - i,
    {
        let c = spec.get_char(i);
        let ghost before_parts = parts@;
        let ghost before_current = current@;
        proof {
            assert(spec@.take(i + 1).drop_last() =~= spec@.take(i as int));
            assert(spec@.take(i + 1).last() == c);
            lemma_split_nonempty(spec@.take(i as int));
        }
        if c == ',' {
            let done = current;
            parts.push(done);
            current = String::new();
            assert(strings_view(parts@).push(current@) =~= split_commas(spec@.take(i as int)).push(seq![]));
        } else {
            crate::text::push_char(&mut current, c);
            assert(strings_view(parts@).push(current@) =~= strings_view(before_parts).push(before_current.push(c)));
            assert(strings_view(parts@).push(current@) =~= split_commas(spec@.take(i as int)).update(
                split_commas(spec@.take(i as int)).len() - 1, split_commas(spec@.take(i as int)).last().push(c)));
        }
        i += 1;
    }
    assert(spec@.take(n as int) =~= spec@);
    let ghost whole = strings_view(parts@).push(current@);
    let mut words = parts;
    words.push(current);
    assert(strings_view(words@) =~= whole);
    let command = words.remove(0);
    assert(strings_view(words@) =~= whole.drop_first());
    ExecArgs { command, args: words, env: Vec::new() }
}

/// The workload a create request describes: each step parsed from its
/// comma-separated form.
pub fn workload_from_request(request: CreateWorkloadRequest) -> (r: WorkloadDef)
    ensures
        r.name == request.name && r.profile == request.profile && r.image == request.image && r.cleanup == request.cleanup,
        match request.startup {
            Some(s) => r.startup matches Some(e) && spec_csv_exec_ok(s@, e),
            None => r.startup is None,
        },
        r.execs@.len() == request.execs@.len(),
        forall|i: int| 0 <= i < r.execs@.len() ==> spec_csv_exec_ok(request.execs@[i]@, #[trigger] r.execs@[i]),
{
    let startup = match &request.startup {
        Some(s) => Some(parse_csv_exec(s.as_str())),
        None => None,
    };
    let mut execs: Vec<ExecArgs> = Vec::new();
    let mut i: usize = 0;
    while i < request.execs.len()
        invariant
            0 <= i <= request.execs@.len(),
            execs@.len() == i,
            forall|j: int| 0 <= j < i ==> spec_csv_exec_ok(request.execs@[j]@, #[trigger] execs@[j]),
        decreases request.execs@.len() - i,
    {
        execs.push(parse_csv_exec(request.execs[i].as_str()));
        i += 1;
    }
    WorkloadDef {
        name: request.name,
        profile: request.profile,
        image: request.image,
        startup,
        execs,
        cleanup: request.cleanup,
    }
}

/// The name `{:?}` gives a simulator mode.
pub open spec fn mode_name(mode: SimulatorMode) -> Seq<char> {
    match mode {
        SimulatorMode::Functional => "Functional"@,
        SimulatorMode::CycleAccurate => "CycleAccurate"@,
    }
}

fn mode_text(mode: SimulatorMode) -> (r: &'static str)
    ensures
        r@ == mode_name(mode),
{
    match mode {
        SimulatorMode::Functional => "Functional",
        SimulatorMode::CycleAccurate => "CycleAccurate",
    }
}

/// Why a new profile is refused, in the order checked: blank name, no
/// GPUs, no nodes, the name already taken, an unknown simulator, a GPU or
/// a mode the simulator does not support. `exists` says whether a profile
/// of that name is stored and `simulator` is the registered simulator of
/// the profile's name.
pub open spec fn profile_refusal(profile: ProfileDef, exists: bool, simulator: Option<SimulatorInfo>) -> Option<Seq<char>> {
    if spec_is_blank(profile.name@) {
        Some("profile name must not be empty"@)
    } else if profile.num_gpus == 0 {
        Some("gpus per node must be greater than zero"@)
    } else if profile.num_nodes == 0 {
        Some("node count must be greater than zero"@)
    } else if exists {
        Some("profile '"@ + profile.name@ + "' already exists"@)
    } else {
        match simulator {
            None => Some("simulator '"@ + profile.simulator@ + "' is not registered"@),
            Some(info) => if !spec_supports_gpu(info, profile.gpu@) {
                Some("gpu '"@ + profile.gpu@ + "' is not supported by simulator '"@ + profile.simulator@ + "'"@)
            } else if !spec_supports_mode(info, profile.mode) {
                Some("mode '"@ + mode_name(profile.mode) + "' is not supported by simulator '"@ + profile.simulator@ + "'"@)
            } else {
                None
            },
        }
    }
}

/// Whether a refusal result matches a spec refusal.
pub open spec fn refusal_agrees(r: Result<(), Refusal>, s: Option<Seq<char>>) -> bool {
    match s {
        None => r is Ok,
        Some(m) => r matches Err(x) && x@ == m,
    }
}

/// Check a new profile (see [`profile_refusal`]).
pub fn check_new_profile(profile: &ProfileDef, exists: bool, simulator: Option<&SimulatorInfo>) -> (r: Result<(), Refusal>)
    ensures
        refusal_agrees(r, profile_refusal(*profile, exists, match simulator { Some(s) => Some(*s), None => None })),
{
    if is_blank(profile.name.as_str()) {
        return Err(to_owned("profile name must not be empty"));
    }
    if profile.num_gpus == 0 {
        return Err(to_owned("gpus per node must be greater than zero"));
    }
    if profile.num_nodes == 0 {
        return Err(to_owned("node count must be greater than zero"));
    }
    if exists {
        return Err(surround("profile '", profile.name.as_str(), "' already exists"));
    }
    match simulator {
        None => Err(surround("simulator '", profile.simulator.as_str(), "' is not registered")),
        Some(info) => {
            if !simulator_supports_gpu(info, profile.gpu.as_str()) {
                let mut m = surround("gpu '", profile.gpu.as_str(), "' is not supported by simulator '");
                push_str(&mut m, profile.simulator.as_str());
                push_str(&mut m, "'");
                return Err(m);
            }
            if !simulator_supports_mode(info, profile.mode) {
                let mut m = surround("mode '", mode_text(profile.mode), "' is not supported by simulator '");
                push_str(&mut m, profile.simulator.as_str());
                push_str(&mut m, "'");
                return Err(m);
            }
            Ok(())
        },
    }
}

/// Why a new workload is refused, in the order checked: blank name, no
/// steps, the name already taken, an unknown profile.
pub open spec fn workload_refusal(workload: WorkloadDef, exists: bool, profile_exists: bool) -> Option<Seq<char>> {
    if spec_is_blank(workload.name@) {
        Some("workload name must not be empty"@)
    } else if workload.execs@.len() == 0 {
        Some("workload must contain at least one exec step"@)
    } else if exists {
        Some("workload '"@ + workload.name@ + "' already exists"@)
    } else if !profile_exists {
        Some("profile '"@ + workload.profile@ + "' does not exist"@)
    } else {
        None
    }
}

/// Check a new workload (see [`workload_refusal`]).
pub fn check_new_workload(workload: &WorkloadDef, exists: bool, profile_exists: bool) -> (r: Result<(), Refusal>)
    ensures
        refusal_agrees(r, workload_refusal(*workload, exists, profile_exists)),
{
    if is_blank(workload.name.as_str()) {
        return Err(to_owned("workload name must not be empty"));
    }
    if workload.execs.len() == 0 {
        return Err(to_owned("workload must contain at least one exec step"));
    }
    if exists {
        return Err(surround("workload '", workload.name.as_str(), "' already exists"));
    }
    if !profile_exists {
        return Err(surround("profile '", workload.profile.as_str(), "' does not exist"));
    }
    Ok(())
}

/// The id of the `n`-th exec in a session: `session/SESSION/exec/N`.
pub open spec fn spec_exec_id(session: Seq<char>, n: u64) -> Seq<char> {
    "session/"@ + session + "/exec/"@ + decimal(n as nat)
}

/// The id of the `n`-th exec in a session.
pub fn make_exec_id(session: &str, n: u64) -> (r: String)
    ensures
        r@ == spec_exec_id(session@, n),
{
    let mut r = surround("session/", session, "/exec/");
    push_str(&mut r, u64_to_string(n).as_str());
    r
}

/// The labels of a session's container, in key order: the emulator
/// session, image, managed flag, node index, profile, session and
/// simulator.
pub open spec fn spec_session_labels(
    session: Seq<char>,
    profile: Seq<char>,
    simulator: Seq<char>,
    image: Seq<char>,
    emulator_session: Seq<char>,
    node_index: u32,
) -> Seq<(Seq<char>, Seq<char>)> {
    seq![
        (LABEL_EMULATOR_SESSION@, emulator_session),
        (LABEL_IMAGE@, image),
        (LABEL_MANAGED@, "true"@),
        (LABEL_NODE_INDEX@, decimal(node_index as nat)),
        (LABEL_PROFILE@, profile),
        (LABEL_SESSION@, session),
        (LABEL_SIMULATOR@, simulator),
    ]
}

/// The contents of a list of string pairs.
pub open spec fn pairs_view(v: Seq<(String, String)>) -> Seq<(Seq<char>, Seq<char>)> {
    Seq::new(v.len(), |i: int| (v[i].0@, v[i].1@))
}

fn push_pair(v: &mut Vec<(String, String)>, k: &str, value: &str)
    ensures
        pairs_view(final(v)@) == pairs_view(old(v)@).push((k@, value@)),
{
    v.push((to_owned(k), to_owned(value)));
    assert(pairs_view(v@) =~= pairs_view(old(v)@).push((k@, value@)));
}

/// The labels of a session's container (see [`spec_session_labels`]).
pub fn session_labels(
    session: &str,
    profile: &str,
    simulator: &str,
    image: &str,
    emulator_session: &str,
    node_index: u32,
) -> (r: Vec<(String, String)>)
    ensures
        pairs_view(r@) == spec_session_labels(session@, profile@, simulator@, image@, emulator_session@, node_index),
{
    let mut v: Vec<(String, String)> = Vec::new();
    push_pair(&mut v, LABEL_EMULATOR_SESSION, emulator_session);
    push_pair(&mut v, LABEL_IMAGE, image);
    push_pair(&mut v, LABEL_MANAGED, "true");
    push_pair(&mut v, LABEL_NODE_INDEX, u64_to_string(node_index as u64).as_str());
    push_pair(&mut v, LABEL_PROFILE, profile);
    push_pair(&mut v, LABEL_SESSION, session);
    push_pair(&mut v, LABEL_SIMULATOR, simulator);
    assert(pairs_view(v@) =~= spec_session_labels(session@, profile@, simulator@, image@, emulator_session@, node_index));
    v
}

/// The value of label `key` of a listed container.
pub open spec fn label_of(c: ListedContainer, key: Seq<char>) -> Option<Seq<char>> {
    match keyed_lookup(c.labels@, key) {
        Some(v) => Some(v@),
        None => None,
    }
}

/// The value of label `key` of a listed container.
pub fn label_value(c: &ListedContainer, key: &str) -> (r: Option<String>)
    ensures
        match r {
            Some(v) => label_of(*c, key@) == Some(v@),
            None => label_of(*c, key@) is None,
        },
{
    let mut i = c.labels.len();
    assert(c.labels@.take(i as int) =~= c.labels@);
    while i > 0
        invariant
            0 <= i <= c.labels@.len(),
            keyed_lookup(c.labels@, key@) == keyed_lookup(c.labels@.take(i as int), key@),
        decreases i,
    {
        assert(c.labels@.take(i as int).drop_last() =~= c.labels@.take(i - 1));
        if crate::protocol::str_eq(c.labels[i - 1].0.as_str(), key) {
            return Some(c.labels[i - 1].1.clone());
        }
        i -= 1;
    }
    None
}

/// Whether container `c` carries label `key` with value `value`.
pub open spec fn has_label(c: ListedContainer, key: Seq<char>, value: Seq<char>) -> bool {
    label_of(c, key) == Some(value)
}

fn label_is(c: &ListedContainer, key: &str, value: &str) -> (r: bool)
    ensures
        r == has_label(*c, key@, value@),
{
    match label_value(c, key) {
        Some(v) => crate::protocol::str_eq(v.as_str(), value),
        None => false,
    }
}

/// Whether any listed container belongs to session `name`.
pub open spec fn spec_session_has_container(containers: Seq<ListedContainer>, name: Seq<char>) -> bool {
    exists|i: int| 0 <= i < containers.len() && has_label(#[trigger] containers[i], LABEL_SESSION@, name)
}

/// Whether any listed container belongs to session `name`.
pub fn session_has_container(containers: &Vec<ListedContainer>, name: &str) -> (r: bool)
    ensures
        r == spec_session_has_container(containers@, name@),
{
    let mut i: usize = 0;
    while i < containers.len()
        invariant
            0 <= i <= containers@.len(),
            forall|j: int| 0 <= j < i ==> !has_label(#[trigger] containers@[j], LABEL_SESSION@, name@),
        decreases containers@.len() - i,
    {
        if label_is(&containers[i], LABEL_SESSION, name) {
            return true;
        }
        i += 1;
    }
    false
}

/// The message for a session that does not exist.
pub open spec fn missing_session_message(name: Seq<char>) -> Seq<char> {
    "session '"@ + name + "' does not exist"@
}

/// A health or time query about a session needs the session to have a
/// container.
pub fn check_session_exists(containers: &Vec<ListedContainer>, name: &str) -> (r: Result<(), Refusal>)
    ensures
        refusal_agrees(r, if spec_session_has_container(containers@, name@) { None } else { Some(missing_session_message(name@)) }),
{
    if session_has_container(containers, name) {
        Ok(())
    } else {
        Err(surround("session '", name, "' does not exist"))
    }
}

/// Whether any listed container runs a session of profile `name`.
pub open spec fn spec_profile_in_use(containers: Seq<ListedContainer>, name: Seq<char>) -> bool {
    exists|i: int| 0 <= i < containers.len() && has_label(#[trigger] containers[i], LABEL_PROFILE@, name)
}

/// Why deleting a profile is refused: it does not exist, or a session
/// still runs with it (`exists` says whether it is stored).
pub open spec fn delete_profile_refusal(name: Seq<char>, exists: bool, containers: Seq<ListedContainer>) -> Option<Seq<char>> {
    if !exists {
        Some("profile '"@ + name + "' does not exist"@)
    } else if spec_profile_in_use(containers, name) {
        Some("profile '"@ + name + "' is still referenced by an active session"@)
    } else {
        None
    }
}

/// Check the deletion of profile `name` (see [`delete_profile_refusal`]).
pub fn check_delete_profile(name: &str, exists: bool, containers: &Vec<ListedContainer>) -> (r: Result<(), Refusal>)
    ensures
        refusal_agrees(r, delete_profile_refusal(name@, exists, containers@)),
{
    if !exists {
        return Err(surround("profile '", name, "' does not exist"));
    }
    let mut i: usize = 0;
    while i < containers.len()
        invariant
            exists,
            0 <= i <= containers@.len(),
            forall|j: int| 0 <= j < i ==> !has_label(#[trigger] containers@[j], LABEL_PROFILE@, name@),
        decreases containers@.len() - i,
    {
        if label_is(&containers[i], LABEL_PROFILE, name) {
            proof {
                assert(has_label(containers@[i as int], LABEL_PROFILE@, name@));
            }
            return Err(surround("profile '", name, "' is still referenced by an active session"));
        }
        i += 1;
    }
    Ok(())
}

/// Deleting a workload needs it to exist.
pub fn check_delete_workload(name: &str, exists: bool) -> (r: Result<(), Refusal>)
    ensures
        refusal_agrees(r, if exists { None } else { Some("workload '"@ + name@ + "' does not exist"@) }),
{
    if exists {
        Ok(())
    } else {
        Err(surround("workload '", name, "' does not exist"))
    }
}

/// The profiles a listing shows: with a simulator filter, only those of
/// that simulator, in the order given.
pub open spec fn spec_profiles_for(profiles: Seq<ProfileDef>, simulator: Option<Seq<char>>) -> Seq<ProfileDef> {
    match simulator {
        None => profiles,
        Some(f) => of_simulator(profiles, f),
    }
}

/// The profiles of simulator `f`, in the order given.
pub open spec fn of_simulator(profiles: Seq<ProfileDef>, f: Seq<char>) -> Seq<ProfileDef>
    decreases profiles.len(),
{
    if profiles.len() == 0 {
        seq![]
    } else if profiles.last().simulator@ == f {
        of_simulator(profiles.drop_last(), f).push(profiles.last())
    } else {
        of_simulator(profiles.drop_last(), f)
    }
}

/// The profiles a listing shows (see [`spec_profiles_for`]).
pub fn profiles_for(profiles: Vec<ProfileDef>, simulator: Option<&str>) -> (r: Vec<ProfileDef>)
    ensures
        r@ == spec_profiles_for(profiles@, match simulator { Some(f) => Some(f@), None => None }),
{
    let f = match simulator {
        None => return profiles,
        Some(f) => f,
    };
    let mut kept: Vec<ProfileDef> = Vec::new();
    let mut rest = profiles;
    let ghost all = rest@;
    let ghost mut done: int = 0;
    while rest.len() > 0
        invariant
            0 <= done <= all.len(),
            rest@ == all.skip(done),
            kept@ == of_simulator(all.take(done), f@),
        decreases rest@.len(),
    {
        let p = rest.remove(0);
        proof {
            assert(all[done] == p);
            assert(all.skip(done + 1) =~= all.skip(done).drop_first());
            assert(all.take(done + 1).drop_last() =~= all.take(done));
        }
        if crate::protocol::str_eq(p.simulator.as_str(), f) {
            kept.push(p);
        }
        proof {
            done = done + 1;
        }
    }
    assert(all.take(done) =~= all);
    kept
}

/// What the daemon lists of a workload.
#[derive(Debug, Clone, PartialEq, Eq)]
pub struct WorkloadSummary {
    pub name: String,
    pub profile: String,
    pub image: String,
    pub has_startup: bool,
    pub exec_count: u32,
    pub cleanup: CleanupPolicy,
}

/// The summary of a workload: whether it has a startup step and how many
/// steps it runs (as a `u32`).
pub fn workload_summary(w: &WorkloadDef) -> (r: WorkloadSummary)
    ensures
        r.name == w.name && r.profile == w.profile && r.image == w.image,
        r.has_startup == w.startup is Some,
        r.exec_count == w.execs@.len() as u32,
        r.cleanup == w.cleanup,
{
    WorkloadSummary {
        name: w.name.clone(),
        profile: w.profile.clone(),
        image: w.image.clone(),
        has_startup: w.startup.is_some(),
        exec_count: w.execs.len() as u32,
        cleanup: w.cleanup,
    }
}

/// A host directory mounted into a session, written `host:container` or
/// `host:container:MODE` (read-only when MODE is `ro`); a spec without a
/// colon is invalid.
pub open spec fn spec_parse_volume(v: Seq<char>) -> Option<(Seq<char>, Seq<char>, bool)> {
    let i = crate::docker::first_index(v, ':');
    if i < 0 {
        None
    } else {
        let rest = v.subrange(i + 1, v.len() as int);
        let j = crate::docker::first_index(rest, ':');
        if j < 0 {
            Some((v.subrange(0, i), rest, false))
        } else {
            Some((v.subrange(0, i), rest.subrange(0, j), rest.subrange(j + 1, rest.len() as int) == "ro"@))
        }
    }
}

fn find_char(s: &str, c: char) -> (r: Option<usize>)
    ensures
        match r {
            Some(i) => crate::docker::first_index(s@, c) == i as int && i < s@.len() && s@[i as int] == c,
            None => crate::docker::first_index(s@, c) == -1,
        },
{
    let n = s.unicode_len();
    let mut i: usize = 0;
    while i < n && s.get_char(i) != c
        invariant
            0 <= i <= n,
            n == s@.len(),
            forall|j: int| 0 <= j < i ==> s@[j] != c,
        decreases n - i,
    {
        i += 1;
    }
    proof { crate::docker::lemma_first_index(s@, c, i as int); }
    if i == n { None } else { Some(i) }
}

/// The mount a volume spec describes.
pub fn parse_volume(v: &str) -> (r: Option<BindMount>)
    ensures
        match spec_parse_volume(v@) {
            None => r is None,
            Some((host, container, readonly)) => r matches Some(m)
                && m.host_path@ == host && m.container_path@ == container && m.readonly == readonly,
        },
{
    let n = v.unicode_len();
    let i = match find_char(v, ':') {
        Some(i) => i,
        None => return None,
    };
    let host = to_owned(v.substring_char(0, i));
    let rest = v.substring_char(i + 1, n);
    let m = rest.unicode_len();
    match find_char(rest, ':') {
        None => Some(BindMount { host_path: host, container_path: to_owned(rest), readonly: false }),
        Some(j) => {
            let mode = rest.substring_char(j + 1, m);
            Some(BindMount {
                host_path: host,
                container_path: to_owned(rest.substring_char(0, j)),
                readonly: crate::protocol::str_eq(mode, "ro"),
            })
        },
    }
}

/// The message for an invalid volume spec.
pub open spec fn volume_message(v: Seq<char>) -> Seq<char> {
    "invalid volume spec '"@ + v + "': expected host:container[:ro]"@
}

/// The first invalid volume spec among `volumes`.
pub open spec fn first_bad_volume(volumes: Seq<String>) -> Option<Seq<char>>
    decreases volumes.len(),
{
    if volumes.len() == 0 {
        None
    } else {
        match first_bad_volume(volumes.drop_last()) {
            Some(v) => Some(v),
            None => if spec_parse_volume(volumes.last()@) is None { Some(volumes.last()@) } else { None },
        }
    }
}

proof fn lemma_bad_volume_prefix(volumes: Seq<String>, i: int)
    requires
        0 <= i <= volumes.len(),
        first_bad_volume(volumes.take(i)) is Some,
    ensures
        first_bad_volume(volumes) == first_bad_volume(volumes.take(i)),
    decreases volumes.len() - i,
{
    if i < volumes.len() {
        assert(volumes.take(i + 1).drop_last() =~= volumes.take(i));
        lemma_bad_volume_prefix(volumes, i + 1);
    } else {
        assert(volumes.take(i) =~= volumes);
    }
}

/// Why a boot request is refused, in the order checked: a blank session
/// name, an invalid volume spec, a session of that name that already has
/// containers or is already booting, an unknown profile, a profile whose
/// simulator is not registered, and no container runtime.
pub open spec fn boot_refusal(
    session: Seq<char>,
    profile_name: Seq<char>,
    volumes: Seq<String>,
    has_container: bool,
    pending: bool,
    profile: Option<ProfileDef>,
    simulator_registered: bool,
    has_runtime: bool,
) -> Option<Seq<char>> {
    if spec_is_blank(session) {
        Some("session name must not be empty"@)
    } else if first_bad_volume(volumes) is Some {
        Some(volume_message(first_bad_volume(volumes)->0))
    } else if has_container || pending {
        Some("session '"@ + session + "' already exists"@)
    } else {
        match profile {
            None => Some("profile '"@ + profile_name + "' does not exist"@),
            Some(p) => if !simulator_registered {
                Some("simulator '"@ + p.simulator@ + "' is not registered"@)
            } else if !has_runtime {
                Some("no container runtime configured"@)
            } else {
                None
            },
        }
    }
}

/// Check a boot request (see [`boot_refusal`]); `simulator_registered`
/// is asked only of a profile that exists.
pub fn check_boot(
    session: &str,
    profile_name: &str,
    volumes: &Vec<String>,
    has_container: bool,
    pending: bool,
    profile: Option<&ProfileDef>,
    simulator_registered: bool,
    has_runtime: bool,
) -> (r: Result<(), Refusal>)
    ensures
        refusal_agrees(r, boot_refusal(session@, profile_name@, volumes@, has_container, pending,
            match profile { Some(p) => Some(*p), None => None }, simulator_registered, has_runtime)),
{
    if is_blank(session) {
        return Err(to_owned("session name must not be empty"));
    }
    let mut i: usize = 0;
    while i < volumes.len()
        invariant
            !spec_is_blank(session@),
            0 <= i <= volumes@.len(),
            first_bad_volume(volumes@.take(i as int)) is None,
        decreases volumes@.len() - i,
    {
        proof {
            assert(volumes@.take(i + 1).drop_last() =~= volumes@.take(i as int));
            assert(volumes@.take(i + 1).last() == volumes@[i as int]);
        }
        if parse_volume(volumes[i].as_str()).is_none() {
            proof {
                assert(first_bad_volume(volumes@.take(i + 1)) == Some(volumes@[i as int]@));
                lemma_bad_volume_prefix(volumes@, i + 1);
            }
            let m = surround("invalid volume spec '", volumes[i].as_str(), "': expected host:container[:ro]");
            return Err(m);
        }
        i += 1;
    }
    assert(volumes@.take(i as int) =~= volumes@);
    if has_container || pending {
        return Err(surround("session '", session, "' already exists"));
    }
    match profile {
        None => Err(surround("profile '", profile_name, "' does not exist")),
        Some(p) => {
            if !simulator_registered {
                return Err(surround("simulator '", p.simulator.as_str(), "' is not registered"));
            }
            if !has_runtime {
                return Err(to_owned("no container runtime configured"));
            }
            Ok(())
        },
    }
}

/// The id that ties a session's containers to its emulator:
/// `emu-SESSION-MILLIS`.
pub fn emulator_session_id(session: &str, millis: u64) -> (r: String)
    ensures
        r@ == "emu-"@ + session@ + "-"@ + decimal(millis as nat),
{
    let mut r = surround("emu-", session, "-");
    push_str(&mut r, u64_to_string(millis).as_str());
    r
}

/// What the daemon set up on the host to intercept a session's GPU calls:
/// the interceptor library, the emulator socket, and the directory holding
/// the synthetic sysfs topology and device nodes (if one was written).
#[derive(Debug, Clone, PartialEq, Eq)]
pub struct InterceptorSetup {
    pub library_path: String,
    pub socket_path: String,
    pub topology_dir: Option<String>,
}

/// Where the interceptor library is mounted in a container.
pub const CONTAINER_INTERCEPTOR_PATH: &'static str = "/opt/mirage/libmirage_interceptor.so";
/// Where the emulator socket is mounted in a container.
pub const CONTAINER_SOCKET_PATH: &'static str = "/opt/mirage/emulator.sock";

/// A mount as (host path, container path, read-only).
pub open spec fn mount_view(m: BindMount) -> (Seq<char>, Seq<char>, bool) {
    (m.host_path@, m.container_path@, m.readonly)
}

/// The contents of a list of mounts.
pub open spec fn mounts_view(v: Seq<BindMount>) -> Seq<(Seq<char>, Seq<char>, bool)> {
    Seq::new(v.len(), |i: int| mount_view(v[i]))
}

/// The contents of an environment.
pub open spec fn env_view(v: Seq<SetEnv>) -> Seq<(Seq<char>, Seq<char>)> {
    Seq::new(v.len(), |i: int| (v[i].key@, v[i].value@))
}

/// The mounts of a session's containers: the interceptor library
/// (read-only) and emulator socket, then, with a synthetic topology, its
/// sysfs trees and device nodes (read-only), then the extra volumes.
pub open spec fn spec_boot_mounts(setup: Option<InterceptorSetup>, volumes: Seq<String>) -> Seq<(Seq<char>, Seq<char>, bool)> {
    let interceptor = match setup {
        None => seq![],
        Some(s) => seq![
            (s.library_path@, CONTAINER_INTERCEPTOR_PATH@, true),
            (s.socket_path@, CONTAINER_SOCKET_PATH@, false),
        ] + match s.topology_dir {
            None => seq![],
            Some(d) => seq![
                (crate::docker::spec_path_join(d@, "sys/class/kfd"@), "/sys/class/kfd"@, true),
                (crate::docker::spec_path_join(d@, "sys/class/kfd/kfd/topology"@), "/sys/devices/virtual/kfd/kfd/topology"@, true),
                (crate::docker::spec_path_join(d@, "dev/dri"@), "/dev/dri"@, true),
                (crate::docker::spec_path_join(d@, "dev/kfd"@), "/dev/kfd"@, true),
            ],
        },
    };
    interceptor + Seq::new(volumes.len(), |i: int| spec_parse_volume(volumes[i]@)->0)
}

/// How many containers a profile's session runs (at least one).
pub open spec fn node_count(p: ProfileDef) -> u32 {
    if p.num_nodes == 0 { 1 } else { p.num_nodes }
}

/// The name of node `i`'s container: `mirage-SESSION` for a single node,
/// `mirage-SESSION-nodeI` otherwise.
pub open spec fn node_container_name(session: Seq<char>, multi: bool, i: u32) -> Seq<char> {
    if multi { "mirage-"@ + session + "-node"@ + decimal(i as nat) } else { "mirage-"@ + session }
}

/// The environment of node `i` of `n`: the session name, the interceptor
/// settings when there is one, and for more than one node the node count,
/// this node's rank, and the head node's name and port.
pub open spec fn spec_boot_env(session: Seq<char>, setup: Option<InterceptorSetup>, n: u32, i: u32) -> Seq<(Seq<char>, Seq<char>)> {
    seq![("MIRAGE_SESSION"@, session)]
    + (if setup is Some {
        seq![("LD_PRELOAD"@, CONTAINER_INTERCEPTOR_PATH@), ("MIRAGE_INTERCEPTOR_SOCKET"@, CONTAINER_SOCKET_PATH@)]
    } else {
        seq![]
    })
    + (if n > 1 {
        seq![
            ("MIRAGE_NUM_NODES"@, decimal(n as nat)),
            ("MIRAGE_NODE_RANK"@, decimal(i as nat)),
            ("MIRAGE_HEAD_ADDR"@, node_container_name(session, true, 0)),
            ("MIRAGE_HEAD_PORT"@, decimal(MIRAGE_HEAD_PORT as nat)),
        ]
    } else {
        seq![]
    })
}

/// Whether `r` is the start request for node `i` of a session.
pub open spec fn node_request_ok(
    r: StartContainerRequest,
    session: Seq<char>,
    profile_name: Seq<char>,
    profile: ProfileDef,
    image: Seq<char>,
    emulator_session: Seq<char>,
    setup: Option<InterceptorSetup>,
    volumes: Seq<String>,
    i: u32,
) -> bool {
    let n = node_count(profile);
    let c = r.container;
    &&& r.name@ == node_container_name(session, n > 1, i)
    &&& c.image@ == image
    &&& mounts_view(c.mounts@) == spec_boot_mounts(setup, volumes)
    &&& c.injected_files@.len() == 0
    &&& c.entrypoint.command@ == "sleep"@
    &&& strings_view(c.entrypoint.args@) == seq!["infinity"@]
    &&& env_view(c.entrypoint.env@) == spec_boot_env(session, setup, n, i)
    &&& c.working_dir is None
    &&& c.ports@.len() == 0
    &&& c.devices@.len() == 0
    &&& !c.privileged
    &&& c.resource_limits_json is None
    &&& (if n > 1 { c.network matches Some(net) && net@ == "mirage-"@ + session } else { c.network is None })
    &&& pairs_view(c.labels@) == spec_session_labels(session, profile_name, profile.simulator@, image, emulator_session, i)
}

/// The containers of a session to start, in node order, and the network
/// a multi-node session creates first (`mirage-SESSION`).
#[derive(Debug, PartialEq, Eq)]
pub struct BootPlan {
    pub network: Option<String>,
    pub containers: Vec<StartContainerRequest>,
}

fn push_mount(v: &mut Vec<BindMount>, host: String, container: &str, readonly: bool)
    ensures
        mounts_view(final(v)@) == mounts_view(old(v)@).push((host@, container@, readonly)),
{
    v.push(BindMount { host_path: host, container_path: to_owned(container), readonly });
    assert(mounts_view(v@) =~= mounts_view(old(v)@).push((host@, container@, readonly)));
}

fn push_env(v: &mut Vec<SetEnv>, key: &str, value: &str)
    ensures
        env_view(final(v)@) == env_view(old(v)@).push((key@, value@)),
{
    v.push(SetEnv { key: to_owned(key), value: to_owned(value) });
    assert(env_view(v@) =~= env_view(old(v)@).push((key@, value@)));
}

fn clone_mounts(v: &Vec<BindMount>) -> (r: Vec<BindMount>)
    ensures
        mounts_view(r@) == mounts_view(v@),
{
    let mut out: Vec<BindMount> = Vec::new();
    let mut i: usize = 0;
    while i < v.len()
        invariant
            0 <= i <= v@.len(),
            mounts_view(out@) == mounts_view(v@.take(i as int)),
        decreases v@.len() - i,
    {
        push_mount(&mut out, v[i].host_path.clone(), v[i].container_path.as_str(), v[i].readonly);
        i += 1;
        assert(mounts_view(out@) =~= mounts_view(v@.take(i as int)));
    }
    assert(v@.take(i as int) =~= v@);
    out
}

fn clone_env(v: &Vec<SetEnv>) -> (r: Vec<SetEnv>)
    ensures
        env_view(r@) == env_view(v@),
{
    let mut out: Vec<SetEnv> = Vec::new();
    let mut i: usize = 0;
    while i < v.len()
        invariant
            0 <= i <= v@.len(),
            env_view(out@) == env_view(v@.take(i as int)),
        decreases v@.len() - i,
    {
        push_env(&mut out, v[i].key.as_str(), v[i].value.as_str());
        i += 1;
        assert(env_view(out@) =~= env_view(v@.take(i as int)));
    }
    assert(v@.take(i as int) =~= v@);
    out
}

fn node_name(session: &str, multi: bool, i: u32) -> (r: String)
    ensures
        r@ == node_container_name(session@, multi, i),
{
    if multi {
        let mut r = surround("mirage-", session, "-node");
        push_str(&mut r, u64_to_string(i as u64).as_str());
        r
    } else {
        let mut r = to_owned("mirage-");
        push_str(&mut r, session);
        r
    }
}

/// The mounts of a session's containers (see [`spec_boot_mounts`]).
fn boot_mounts(setup: &Option<InterceptorSetup>, volumes: &Vec<String>) -> (r: Vec<BindMount>)
    requires
        first_bad_volume(volumes@) is None,
    ensures
        mounts_view(r@) == spec_boot_mounts(*setup, volumes@),
{
    let mut v: Vec<BindMount> = Vec::new();
    match setup {
        None => {},
        Some(s) => {
            push_mount(&mut v, s.library_path.clone(), CONTAINER_INTERCEPTOR_PATH, true);
            push_mount(&mut v, s.socket_path.clone(), CONTAINER_SOCKET_PATH, false);
            match &s.topology_dir {
                None => {},
                Some(d) => {
                    push_mount(&mut v, crate::docker::path_join(d.as_str(), "sys/class/kfd"), "/sys/class/kfd", true);
                    push_mount(&mut v, crate::docker::path_join(d.as_str(), "sys/class/kfd/kfd/topology"), "/sys/devices/virtual/kfd/kfd/topology", true);
                    push_mount(&mut v, crate::docker::path_join(d.as_str(), "dev/dri"), "/dev/dri", true);
                    push_mount(&mut v, crate::docker::path_join(d.as_str(), "dev/kfd"), "/dev/kfd", true);
                },
            }
        },
    }
    let ghost head = mounts_view(v@);
    let mut i: usize = 0;
    while i < volumes.len()
        invariant
            0 <= i <= volumes@.len(),
            first_bad_volume(volumes@) is None,
            mounts_view(v@) == head + Seq::new(i as nat, |k: int| spec_parse_volume(volumes@[k]@)->0),
        decreases volumes@.len() - i,
    {
        proof { lemma_no_bad_volume(volumes@, i as int); }
        let m = parse_volume(volumes[i].as_str());
        match m {
            Some(m) => {
                push_mount(&mut v, m.host_path, m.container_path.as_str(), m.readonly);
            },
            None => {},
        }
        i += 1;
        assert(mounts_view(v@) =~= head + Seq::new(i as nat, |k: int| spec_parse_volume(volumes@[k]@)->0));
    }
    assert(spec_boot_mounts(*setup, volumes@) =~= head + Seq::new(i as nat, |k: int| spec_parse_volume(volumes@[k]@)->0));
    v
}

proof fn lemma_no_bad_volume(volumes: Seq<String>, i: int)
    requires
        0 <= i < volumes.len(),
        first_bad_volume(volumes) is None,
    ensures
        spec_parse_volume(volumes[i]@) is Some,
    decreases volumes.len(),
{
    if i < volumes.len() - 1 {
        lemma_no_bad_volume(volumes.drop_last(), i);
    }
}

/// Plan a session's containers: one per node (at least one), each named,
/// mounted, configured and labelled for its node (see
/// [`node_request_ok`]), running `sleep infinity` on the given image,
/// with a network `mirage-SESSION` when there is more than one node.
pub fn boot_plan(
    session: &str,
    profile_name: &str,
    profile: &ProfileDef,
    image: &str,
    emulator_session: &str,
    setup: &Option<InterceptorSetup>,
    volumes: &Vec<String>,
) -> (r: BootPlan)
    requires
        first_bad_volume(volumes@) is None,
    ensures
        r.containers@.len() == node_count(*profile),
        node_count(*profile) > 1 ==> (r.network matches Some(net) && net@ == "mirage-"@ + session@),
        node_count(*profile) <= 1 ==> r.network is None,
        forall|i: int| 0 <= i < r.containers@.len() ==> node_request_ok(#[trigger] r.containers@[i], session@, profile_name@,
            *profile, image@, emulator_session@, *setup, volumes@, i as u32),
{
    let n: u32 = if profile.num_nodes == 0 { 1 } else { profile.num_nodes };
    let multi = n > 1;
    let mounts = boot_mounts(setup, volumes);
    let mut base_env: Vec<SetEnv> = Vec::new();
    push_env(&mut base_env, "MIRAGE_SESSION", session);
    if setup.is_some() {
        push_env(&mut base_env, "LD_PRELOAD", CONTAINER_INTERCEPTOR_PATH);
        push_env(&mut base_env, "MIRAGE_INTERCEPTOR_SOCKET", CONTAINER_SOCKET_PATH);
    }
    let head = node_name(session, true, 0);
    let network: Option<String> = if multi { Some(node_name(session, false, 0)) } else { None };
    let mut containers: Vec<StartContainerRequest> = Vec::new();
    let mut i: u32 = 0;
    while i < n
        invariant
            n == node_count(*profile),
            multi == (n > 1),
            0 <= i <= n,
            containers@.len() == i,
            mounts_view(mounts@) == spec_boot_mounts(*setup, volumes@),
            env_view(base_env@) == seq![("MIRAGE_SESSION"@, session@)] + (if setup is Some {
                seq![("LD_PRELOAD"@, CONTAINER_INTERCEPTOR_PATH@), ("MIRAGE_INTERCEPTOR_SOCKET"@, CONTAINER_SOCKET_PATH@)]
            } else { seq![] }),
            head@ == node_container_name(session@, true, 0),
            multi ==> (network matches Some(net) && net@ == "mirage-"@ + session@),
            !multi ==> network is None,
            forall|k: int| 0 <= k < i ==> node_request_ok(#[trigger] containers@[k], session@, profile_name@,
                *profile, image@, emulator_session@, *setup, volumes@, k as u32),
        decreases n - i,
    {
        let mut env = clone_env(&base_env);
        let ghost base = env_view(env@);
        if multi {
            push_env(&mut env, "MIRAGE_NUM_NODES", u64_to_string(n as u64).as_str());
            push_env(&mut env, "MIRAGE_NODE_RANK", u64_to_string(i as u64).as_str());
            push_env(&mut env, "MIRAGE_HEAD_ADDR", head.as_str());
            push_env(&mut env, "MIRAGE_HEAD_PORT", u64_to_string(MIRAGE_HEAD_PORT as u64).as_str());
        }
        assert(env_view(env@) =~= spec_boot_env(session@, *setup, n, i));
        let mut args: Vec<String> = Vec::new();
        args.push(to_owned("infinity"));
        assert(strings_view(args@) =~= seq!["infinity"@]);
        let net = match &network {
            Some(s) => Some(s.clone()),
            None => None,
        };
        let request = StartContainerRequest {
            name: node_name(session, multi, i),
            container: ContainerDef {
                image: to_owned(image),
                mounts: clone_mounts(&mounts),
                injected_files: Vec::new(),
                entrypoint: ExecArgs { command: to_owned("sleep"), args, env },
                working_dir: None,
                ports: Vec::new(),
                privileged: false,
                devices: Vec::new(),
                resource_limits_json: None,
                network: net,
                labels: session_labels(session, profile_name, profile.simulator.as_str(), image, emulator_session, i),
            },
        };
        containers.push(request);
        i += 1;
    }
    BootPlan { network, containers }
}

/// A session accepted for boot whose containers are not all up yet (or
/// whose boot failed).
#[derive(Debug, Clone, PartialEq, Eq)]
pub struct PendingSession {
    pub profile: String,
    pub simulator: String,
    pub image: String,
    pub phase: SessionPhase,
    pub progress_message: Option<String>,
    pub error_message: Option<String>,
}

/// An exec the daemon runs: its rolling output and, once the program has
/// ended, its exit code.
#[derive(Debug)]
pub struct ExecRecord {
    pub output: ExecBuffer,
    pub exit_code: Option<i32>,
}

/// Whether the output buffer of every exec record is well formed.
pub open spec fn records_ok(records: Seq<(String, ExecRecord)>) -> bool {
    forall|i: int| 0 <= i < records.len() ==> (#[trigger] records[i]).1.output.wf()
}

proof fn lemma_records_lookup(records: Seq<(String, ExecRecord)>, key: Seq<char>)
    requires
        records_ok(records),
    ensures
        keyed_lookup(records, key) matches Some(r) ==> r.output.wf(),
    decreases records.len(),
{
    if records.len() > 0 {
        assert(records.last() == records[records.len() - 1]);
        assert forall|i: int| 0 <= i < records.drop_last().len() implies (#[trigger] records.drop_last()[i]).1.output.wf() by {
            assert(records.drop_last()[i] == records[i]);
        }
        lemma_records_lookup(records.drop_last(), key);
    }
}

proof fn lemma_records_push(records: Seq<(String, ExecRecord)>, e: (String, ExecRecord))
    requires
        records_ok(records),
        e.1.output.wf(),
    ensures
        records_ok(records.push(e)),
{
    assert forall|i: int| 0 <= i < records.push(e).len() implies (#[trigger] records.push(e)[i]).1.output.wf() by {
        if i < records.len() {
            assert(records.push(e)[i] == records[i]);
        }
    }
}

proof fn lemma_records_remove(records: Seq<(String, ExecRecord)>, key: Seq<char>)
    requires
        records_ok(records),
    ensures
        records_ok(keyed_remove(records, key)),
    decreases records.len(),
{
    if records.len() > 0 {
        assert(records.last() == records[records.len() - 1]);
        assert forall|i: int| 0 <= i < records.drop_last().len() implies (#[trigger] records.drop_last()[i]).1.output.wf() by {
            assert(records.drop_last()[i] == records[i]);
        }
        lemma_records_remove(records.drop_last(), key);
        if records.last().0@ != key {
            lemma_records_push(keyed_remove(records.drop_last(), key), records.last());
        }
    }
}

/// What an attached client gets next from an exec: the output it has not
/// seen, run by run with its stream, how many bytes it has now seen, and
/// the exit code once the program has ended.
#[derive(Debug)]
pub struct AttachStep {
    pub chunks: Vec<(Vec<u8>, bool)>,
    pub seen: usize,
    pub exit_code: Option<i32>,
}

/// The execs a daemon runs, by id.
#[derive(Debug)]
pub struct ExecTable {
    records: Vec<(String, ExecRecord)>,
}

impl ExecTable {
    /// The exec kept under `id`.
    pub closed spec fn get(&self, id: Seq<char>) -> Option<ExecRecord> { keyed_lookup(self.records@, id) }

    /// Every exec's output buffer is well formed.
    #[verifier::type_invariant]
    spec fn records_wf(&self) -> bool { records_ok(self.records@) }

    /// A table without execs.
    pub fn new() -> (r: Self)
        ensures
            forall|id: Seq<char>| #[trigger] r.get(id) is None,
    {
        ExecTable { records: Vec::new() }
    }

    /// Keep a new exec under `id`, with no output and no exit code yet.
    pub fn insert_new(&mut self, id: String)
        ensures
            final(self).get(id@) matches Some(x) && x.output.wf() && x.output.bytes().len() == 0
                && x.output.run_list().len() == 0 && x.exit_code is None,
            forall|q: Seq<char>| q != id@ ==> #[trigger] final(self).get(q) == old(self).get(q),
    {
        proof { use_type_invariant(&*self); }
        let mut records: Vec<(String, ExecRecord)> = Vec::new();
        std::mem::swap(&mut records, &mut self.records);
        let ghost all = records@;
        let _ = take_keyed(&mut records, id.as_str());
        let ghost rest = records@;
        let ghost key = id@;
        records.push((id, ExecRecord { output: ExecBuffer::new(), exit_code: None }));
        proof {
            lemma_records_remove(all, key);
            lemma_records_push(rest, records@.last());
            assert(records@ =~= rest.push(records@.last()));
            assert(records@.drop_last() =~= rest);
            assert forall|q: Seq<char>| q != key implies #[trigger] keyed_lookup(records@, q) == keyed_lookup(all, q) by {
                lemma_keyed_remove(all, key, q);
            }
        }
        self.records = records;
    }

    /// Add output from one stream to exec `id` (see [`ExecBuffer::append`]);
    /// whether the exec is kept.
    pub fn output(&mut self, id: &str, data: &[u8], is_stdout: bool) -> (r: bool)
        requires
            data@.len() <= EXEC_BUFFER_BYTES,
        ensures
            r == old(self).get(id@) is Some,
            match old(self).get(id@) {
                Some(x) => final(self).get(id@) matches Some(y) && y.exit_code == x.exit_code
                    && buffer_appended(x.output, y.output, data@, is_stdout),
                None => final(self).get(id@) is None,
            },
            forall|q: Seq<char>| q != id@ ==> #[trigger] final(self).get(q) == old(self).get(q),
    {
        proof { use_type_invariant(&*self); }
        let mut records: Vec<(String, ExecRecord)> = Vec::new();
        std::mem::swap(&mut records, &mut self.records);
        let ghost all = records@;
        proof {
            lemma_records_lookup(all, id@);
            lemma_records_remove(all, id@);
            assert forall|q: Seq<char>| #[trigger] keyed_lookup(keyed_remove(all, id@), q) == (if q == id@ { None } else { keyed_lookup(all, q) }) by {
                lemma_keyed_remove(all, id@, q);
            }
        }
        match take_keyed(&mut records, id) {
            None => {
                self.records = records;
                false
            },
            Some(mut record) => {
                let ghost rest = records@;
                record.output.append(data, is_stdout);
                records.push((to_owned(id), record));
                proof {
                    lemma_records_push(rest, records@.last());
                    assert(records@ =~= rest.push(records@.last()));
                    assert(records@.drop_last() =~= rest);
                    assert forall|q: Seq<char>| q != id@ implies #[trigger] keyed_lookup(records@, q) == keyed_lookup(all, q) by {
                        assert(keyed_lookup(records@, q) == keyed_lookup(rest, q));
                    }
                }
                self.records = records;
                true
            },
        }
    }

    /// Record that exec `id` ended with `code`; whether the exec is kept.
    pub fn finish(&mut self, id: &str, code: i32) -> (r: bool)
        ensures
            r == old(self).get(id@) is Some,
            match old(self).get(id@) {
                Some(x) => final(self).get(id@) matches Some(y) && y.output == x.output && y.exit_code == Some(code),
                None => final(self).get(id@) is None,
            },
            forall|q: Seq<char>| q != id@ ==> #[trigger] final(self).get(q) == old(self).get(q),
    {
        proof { use_type_invariant(&*self); }
        let mut records: Vec<(String, ExecRecord)> = Vec::new();
        std::mem::swap(&mut records, &mut self.records);
        let ghost all = records@;
        proof {
            lemma_records_lookup(all, id@);
            lemma_records_remove(all, id@);
            assert forall|q: Seq<char>| #[trigger] keyed_lookup(keyed_remove(all, id@), q) == (if q == id@ { None } else { keyed_lookup(all, q) }) by {
                lemma_keyed_remove(all, id@, q);
            }
        }
        match take_keyed(&mut records, id) {
            None => {
                self.records = records;
                false
            },
            Some(mut record) => {
                let ghost rest = records@;
                record.exit_code = Some(code);
                records.push((to_owned(id), record));
                proof {
                    lemma_records_push(rest, records@.last());
                    assert(records@ =~= rest.push(records@.last()));
                    assert(records@.drop_last() =~= rest);
                    assert forall|q: Seq<char>| q != id@ implies #[trigger] keyed_lookup(records@, q) == keyed_lookup(all, q) by {
                        assert(keyed_lookup(records@, q) == keyed_lookup(rest, q));
                    }
                }
                self.records = records;
                true
            },
        }
    }

    /// Stop keeping exec `id`; whether it was kept.
    pub fn remove(&mut self, id: &str) -> (r: bool)
        ensures
            r == old(self).get(id@) is Some,
            final(self).get(id@) is None,
            forall|q: Seq<char>| q != id@ ==> #[trigger] final(self).get(q) == old(self).get(q),
    {
        proof { use_type_invariant(&*self); }
        let mut records: Vec<(String, ExecRecord)> = Vec::new();
        std::mem::swap(&mut records, &mut self.records);
        let ghost all = records@;
        proof {
            lemma_records_remove(all, id@);
            assert forall|q: Seq<char>| #[trigger] keyed_lookup(keyed_remove(all, id@), q) == (if q == id@ { None } else { keyed_lookup(all, q) }) by {
                lemma_keyed_remove(all, id@, q);
            }
        }
        let r = take_keyed(&mut records, id);
        self.records = records;
        r.is_some()
    }

    /// What a client attached to exec `id` gets next, having seen `offset`
    /// bytes of its output (see [`spec_chunks`]); nothing when no exec is
    /// kept under `id`.
    pub fn attach(&self, id: &str, offset: usize) -> (r: Option<AttachStep>)
        ensures
            attach_result(self.get(id@), offset, r),
    {
        proof {
            use_type_invariant(self);
            lemma_records_lookup(self.records@, id@);
        }
        match find_keyed(&self.records, id) {
            None => None,
            Some(i) => {
                let record = &self.records[i].1;
                let chunks = record.output.chunks_from(offset);
                Some(AttachStep { chunks, seen: record.output.contents().len(), exit_code: record.exit_code })
            },
        }
    }
}

/// What attaching to the exec `record` (none when unknown) after `offset`
/// bytes gives: for a known exec, its unseen output run by run (see
/// [`spec_chunks`]), the length of its output, and its exit code.
pub open spec fn attach_result(record: Option<ExecRecord>, offset: usize, r: Option<AttachStep>) -> bool {
    match record {
        None => r is None,
        Some(x) => r matches Some(a) && a.seen == x.output.bytes().len() && a.exit_code == x.exit_code
            && a.chunks@.len() == spec_chunks(x.output.run_list(), x.output.bytes(), 0, offset as int).len()
            && forall|i: int| 0 <= i < a.chunks@.len() ==>
                (#[trigger] a.chunks@[i]).0@ == spec_chunks(x.output.run_list(), x.output.bytes(), 0, offset as int)[i].0
                && a.chunks@[i].1 == spec_chunks(x.output.run_list(), x.output.bytes(), 0, offset as int)[i].1,
    }
}

/// The daemon's in-memory state: registered simulators, sessions being
/// booted, sessions this daemon booted with their emulator session ids,
/// the exec counter and the execs it runs.
#[derive(Debug)]
pub struct DaemonState {
    simulators: Vec<(String, SimulatorInfo)>,
    emulator_sessions: Vec<(String, String)>,
    pending: Vec<(String, PendingSession)>,
    booted: Vec<(String, String)>,
    next_exec_id: u64,
    execs: ExecTable,
}

impl DaemonState {
    /// The simulator registered under `name`.
    pub closed spec fn simulator(&self, name: Seq<char>) -> Option<SimulatorInfo> { keyed_lookup(self.simulators@, name) }
    /// The registered simulators, in the order kept.
    pub closed spec fn simulator_list(&self) -> Seq<(String, SimulatorInfo)> { self.simulators@ }
    /// The session being booted under `name`.
    pub closed spec fn pending(&self, name: Seq<char>) -> Option<PendingSession> { keyed_lookup(self.pending@, name) }
    /// The sessions being booted, in the order kept.
    pub closed spec fn pending_list(&self) -> Seq<(String, PendingSession)> { self.pending@ }
    /// Whether this daemon booted session `name`.
    pub closed spec fn booted(&self, name: Seq<char>) -> bool { keyed_lookup(self.booted@, name) is Some }
    /// The emulator session id of session `name`.
    pub closed spec fn emulator_session(&self, name: Seq<char>) -> Option<String> { keyed_lookup(self.emulator_sessions@, name) }
    /// The number the next exec gets.
    pub closed spec fn next_exec(&self) -> u64 { self.next_exec_id }
    /// The exec kept under `id`.
    pub closed spec fn exec(&self, id: Seq<char>) -> Option<ExecRecord> { self.execs.get(id) }

    /// The state of a fresh daemon: the built-in simulators, nothing else;
    /// execs are numbered from 1.
    pub fn new() -> (r: Self)
        ensures
            r.simulator("rocjitsu"@) is Some,
            r.simulator_list().len() == 1,
            forall|n: Seq<char>| #[trigger] r.pending(n) is None && !r.booted(n) && r.emulator_session(n) is None,
            r.pending_list().len() == 0,
            r.next_exec() == 1,
            forall|id: Seq<char>| #[trigger] r.exec(id) is None,
    {
        let r = DaemonState {
            simulators: builtin_simulators(),
            emulator_sessions: Vec::new(),
            pending: Vec::new(),
            booted: Vec::new(),
            next_exec_id: 1,
            execs: ExecTable::new(),
        };
        proof {
            assert(r.simulators@.len() == 1);
            assert(r.simulators@.last().0@ == "rocjitsu"@);
        }
        r
    }

    /// The simulator registered under `name`.
    pub fn simulator_named(&self, name: &str) -> (r: Option<&SimulatorInfo>)
        ensures
            match r {
                Some(s) => self.simulator(name@) == Some(*s),
                None => self.simulator(name@) is None,
            },
    {
        match find_keyed(&self.simulators, name) {
            Some(i) => Some(&self.simulators[i].1),
            None => None,
        }
    }

    /// Register a simulator (replacing one of the same name); a blank name
    /// is refused.
    pub fn register_sim(&mut self, info: SimulatorInfo) -> (r: Result<(), Refusal>)
        ensures
            spec_is_blank(info.name@) ==> (r matches Err(m) && m@ == "simulator name must not be empty"@)
                && final(self).simulator_list() == old(self).simulator_list(),
            !spec_is_blank(info.name@) ==> r is Ok && final(self).simulator(info.name@) == Some(info)
                && forall|n: Seq<char>| n != info.name@ ==> #[trigger] final(self).simulator(n) == old(self).simulator(n),
            forall|n: Seq<char>| #[trigger] final(self).pending(n) == old(self).pending(n),
            forall|n: Seq<char>| #[trigger] final(self).booted(n) == old(self).booted(n),
            final(self).next_exec() == old(self).next_exec(),
            forall|id: Seq<char>| #[trigger] final(self).exec(id) == old(self).exec(id),
    {
        if is_blank(info.name.as_str()) {
            return Err(to_owned("simulator name must not be empty"));
        }
        let _ = take_keyed(&mut self.simulators, info.name.as_str());
        let ghost before = self.simulators@;
        let key = info.name.clone();
        self.simulators.push((key, info));
        proof {
            assert(self.simulators@.drop_last() =~= before);
            assert forall|n: Seq<char>| n != info.name@ implies #[trigger] keyed_lookup(self.simulators@, n) == old(self).simulator(n) by {
                lemma_keyed_remove(old(self).simulators@, info.name@, n);
            }
        }
        Ok(())
    }

    /// Record session `name` as booting: pulling `image`, with a progress
    /// message saying so.
    pub fn begin_boot(&mut self, name: &str, profile: &str, simulator: &str, image: &str)
        ensures
            final(self).pending(name@) matches Some(p) && p.profile@ == profile@ && p.simulator@ == simulator@
                && p.image@ == image@ && p.phase == SessionPhase::Pulling
                && (p.progress_message matches Some(m) && m@ == "pulling image "@ + image@) && p.error_message is None,
            forall|n: Seq<char>| n != name@ ==> #[trigger] final(self).pending(n) == old(self).pending(n),
            forall|n: Seq<char>| #[trigger] final(self).booted(n) == old(self).booted(n),
            forall|n: Seq<char>| #[trigger] final(self).simulator(n) == old(self).simulator(n),
            final(self).next_exec() == old(self).next_exec(),
            forall|id: Seq<char>| #[trigger] final(self).exec(id) == old(self).exec(id),
    {
        let mut message = to_owned("pulling image ");
        push_str(&mut message, image);
        let entry = PendingSession {
            profile: to_owned(profile),
            simulator: to_owned(simulator),
            image: to_owned(image),
            phase: SessionPhase::Pulling,
            progress_message: Some(message),
            error_message: None,
        };
        let _ = take_keyed(&mut self.pending, name);
        let ghost before = self.pending@;
        self.pending.push((to_owned(name), entry));
        proof {
            assert(self.pending@.drop_last() =~= before);
            assert forall|n: Seq<char>| n != name@ implies #[trigger] keyed_lookup(self.pending@, n) == old(self).pending(n) by {
                lemma_keyed_remove(old(self).pending@, name@, n);
            }
        }
    }

    /// Update a booting session's record with `update` applied to it
    /// (nothing happens when it is not booting).
    fn update_pending(&mut self, name: &str, phase: Option<SessionPhase>, progress: Option<Option<String>>, error: Option<Option<String>>)
        ensures
            match old(self).pending(name@) {
                None => final(self).pending(name@) is None,
                Some(p) => final(self).pending(name@) == Some(PendingSession {
                    phase: match phase { Some(x) => x, None => p.phase },
                    progress_message: match progress { Some(x) => x, None => p.progress_message },
                    error_message: match error { Some(x) => x, None => p.error_message },
                    ..p
                }),
            },
            forall|n: Seq<char>| n != name@ ==> #[trigger] final(self).pending(n) == old(self).pending(n),
            forall|n: Seq<char>| #[trigger] final(self).booted(n) == old(self).booted(n),
            forall|n: Seq<char>| #[trigger] final(self).simulator(n) == old(self).simulator(n),
            forall|n: Seq<char>| #[trigger] final(self).emulator_session(n) == old(self).emulator_session(n),
            final(self).next_exec() == old(self).next_exec(),
            forall|id: Seq<char>| #[trigger] final(self).exec(id) == old(self).exec(id),
    {
        if let Some(i) = find_keyed(&self.pending, name) {
            let ghost before = self.pending@;
            let (key, mut p) = self.pending.remove(i);
            if let Some(x) = phase { p.phase = x; }
            if let Some(x) = progress { p.progress_message = x; }
            if let Some(x) = error { p.error_message = x; }
            let ghost updated = p;
            self.pending.insert(i, (key, p));
            proof {
                assert(self.pending@ =~= before.update(i as int, (before[i as int].0, updated)));
                lemma_keyed_update_all(before, i as int, updated);
            }
        }
    }

    /// Show `message` as a booting session's progress.
    pub fn set_progress(&mut self, name: &str, message: String)
        ensures
            match old(self).pending(name@) {
                None => final(self).pending(name@) is None,
                Some(p) => final(self).pending(name@) == Some(PendingSession { progress_message: Some(message), ..p }),
            },
            forall|n: Seq<char>| n != name@ ==> #[trigger] final(self).pending(n) == old(self).pending(n),
            forall|n: Seq<char>| #[trigger] final(self).booted(n) == old(self).booted(n),
            forall|id: Seq<char>| #[trigger] final(self).exec(id) == old(self).exec(id),
    {
        self.update_pending(name, None, Some(Some(message)), None);
    }

    /// A booting session moves on to starting its containers.
    pub fn mark_starting(&mut self, name: &str)
        ensures
            match old(self).pending(name@) {
                None => final(self).pending(name@) is None,
                Some(p) => final(self).pending(name@) matches Some(q) && q.phase == SessionPhase::Starting
                    && (q.progress_message matches Some(m) && m@ == "starting containers"@)
                    && q.profile == p.profile && q.simulator == p.simulator && q.image == p.image && q.error_message == p.error_message,
            },
            forall|n: Seq<char>| n != name@ ==> #[trigger] final(self).pending(n) == old(self).pending(n),
            forall|n: Seq<char>| #[trigger] final(self).booted(n) == old(self).booted(n),
            forall|id: Seq<char>| #[trigger] final(self).exec(id) == old(self).exec(id),
    {
        self.update_pending(name, Some(SessionPhase::Starting), Some(Some(to_owned("starting containers"))), None);
    }

    /// A boot failed: the session stays listed, failed, with `message`.
    pub fn boot_failed(&mut self, name: &str, message: String)
        ensures
            match old(self).pending(name@) {
                None => final(self).pending(name@) is None,
                Some(p) => final(self).pending(name@) == Some(PendingSession {
                    phase: SessionPhase::Failed, progress_message: None, error_message: Some(message), ..p
                }),
            },
            forall|n: Seq<char>| n != name@ ==> #[trigger] final(self).pending(n) == old(self).pending(n),
            forall|n: Seq<char>| #[trigger] final(self).booted(n) == old(self).booted(n),
            forall|id: Seq<char>| #[trigger] final(self).exec(id) == old(self).exec(id),
    {
        self.update_pending(name, Some(SessionPhase::Failed), Some(None), Some(Some(message)));
    }

    /// A boot succeeded: the session is no longer booting, it is booted by
    /// this daemon, with its emulator session id.
    pub fn boot_succeeded(&mut self, name: &str, emulator_session: String)
        ensures
            final(self).pending(name@) is None,
            final(self).booted(name@),
            final(self).emulator_session(name@) == Some(emulator_session),
            forall|n: Seq<char>| n != name@ ==> #[trigger] final(self).pending(n) == old(self).pending(n),
            forall|n: Seq<char>| n != name@ ==> #[trigger] final(self).booted(n) == old(self).booted(n),
            forall|n: Seq<char>| n != name@ ==> #[trigger] final(self).emulator_session(n) == old(self).emulator_session(n),
            forall|n: Seq<char>| #[trigger] final(self).simulator(n) == old(self).simulator(n),
            final(self).next_exec() == old(self).next_exec(),
            forall|id: Seq<char>| #[trigger] final(self).exec(id) == old(self).exec(id),
    {
        let _ = take_keyed(&mut self.emulator_sessions, name);
        let ghost e0 = self.emulator_sessions@;
        self.emulator_sessions.push((to_owned(name), emulator_session));
        let _ = take_keyed(&mut self.pending, name);
        let _ = take_keyed(&mut self.booted, name);
        let ghost b0 = self.booted@;
        self.booted.push((to_owned(name), String::new()));
        proof {
            assert(self.emulator_sessions@.drop_last() =~= e0);
            assert(self.booted@.drop_last() =~= b0);
            assert forall|n: Seq<char>| n != name@ implies #[trigger] keyed_lookup(self.emulator_sessions@, n) == old(self).emulator_session(n) by {
                lemma_keyed_remove(old(self).emulator_sessions@, name@, n);
            }
            assert forall|n: Seq<char>| #[trigger] keyed_lookup(self.pending@, n) == (if n == name@ { None } else { old(self).pending(n) }) by {
                lemma_keyed_remove(old(self).pending@, name@, n);
            }
            assert forall|n: Seq<char>| n != name@ implies #[trigger] (keyed_lookup(self.booted@, n) is Some) == old(self).booted(n) by {
                lemma_keyed_remove(old(self).booted@, name@, n);
            }
        }
    }

    /// Drop a booting session's record; whether there was one.
    pub fn remove_pending(&mut self, name: &str) -> (r: bool)
        ensures
            r == old(self).pending(name@) is Some,
            final(self).pending(name@) is None,
            forall|n: Seq<char>| n != name@ ==> #[trigger] final(self).pending(n) == old(self).pending(n),
            forall|n: Seq<char>| #[trigger] final(self).booted(n) == old(self).booted(n),
            forall|n: Seq<char>| #[trigger] final(self).emulator_session(n) == old(self).emulator_session(n),
            forall|n: Seq<char>| #[trigger] final(self).simulator(n) == old(self).simulator(n),
            final(self).next_exec() == old(self).next_exec(),
            forall|id: Seq<char>| #[trigger] final(self).exec(id) == old(self).exec(id),
    {
        let r = take_keyed(&mut self.pending, name);
        proof {
            assert forall|n: Seq<char>| #[trigger] keyed_lookup(self.pending@, n) == (if n == name@ { None } else { old(self).pending(n) }) by {
                lemma_keyed_remove(old(self).pending@, name@, n);
            }
        }
        r.is_some()
    }

    /// Forget that this daemon booted session `name` and its emulator
    /// session.
    pub fn forget_session(&mut self, name: &str)
        ensures
            !final(self).booted(name@),
            final(self).emulator_session(name@) is None,
            forall|n: Seq<char>| n != name@ ==> #[trigger] final(self).booted(n) == old(self).booted(n),
            forall|n: Seq<char>| n != name@ ==> #[trigger] final(self).emulator_session(n) == old(self).emulator_session(n),
            forall|n: Seq<char>| #[trigger] final(self).pending(n) == old(self).pending(n),
            forall|n: Seq<char>| #[trigger] final(self).simulator(n) == old(self).simulator(n),
            final(self).next_exec() == old(self).next_exec(),
            forall|id: Seq<char>| #[trigger] final(self).exec(id) == old(self).exec(id),
    {
        let _ = take_keyed(&mut self.emulator_sessions, name);
        let _ = take_keyed(&mut self.booted, name);
        proof {
            assert forall|n: Seq<char>| #[trigger] keyed_lookup(self.emulator_sessions@, n) == (if n == name@ { None } else { old(self).emulator_session(n) }) by {
                lemma_keyed_remove(old(self).emulator_sessions@, name@, n);
            }
            assert forall|n: Seq<char>| #[trigger] (keyed_lookup(self.booted@, n) is Some) == (if n == name@ { false } else { old(self).booted(n) }) by {
                lemma_keyed_remove(old(self).booted@, name@, n);
            }
        }
    }

    /// Take the next exec number (the counter moves on, wrapping as an
    /// atomic fetch-and-add does).
    pub fn take_exec_number(&mut self) -> (r: u64)
        ensures
            r == old(self).next_exec(),
            final(self).next_exec() == (if old(self).next_exec() == u64::MAX { 0 } else { (old(self).next_exec() + 1) as u64 }),
            forall|n: Seq<char>| #[trigger] final(self).pending(n) == old(self).pending(n),
            forall|n: Seq<char>| #[trigger] final(self).booted(n) == old(self).booted(n),
            forall|n: Seq<char>| #[trigger] final(self).simulator(n) == old(self).simulator(n),
            forall|n: Seq<char>| #[trigger] final(self).emulator_session(n) == old(self).emulator_session(n),
            forall|id: Seq<char>| #[trigger] final(self).exec(id) == old(self).exec(id),
    {
        let r = self.next_exec_id;
        self.next_exec_id = self.next_exec_id.wrapping_add(1);
        r
    }

    /// Clear everything but the simulators (for tests that reuse a daemon).
    pub fn reset(&mut self)
        ensures
            forall|n: Seq<char>| #[trigger] final(self).pending(n) is None && !final(self).booted(n) && final(self).emulator_session(n) is None,
            forall|id: Seq<char>| #[trigger] final(self).exec(id) is None,
            final(self).pending_list().len() == 0,
            forall|n: Seq<char>| #[trigger] final(self).simulator(n) == old(self).simulator(n),
            final(self).next_exec() == old(self).next_exec(),
    {
        self.emulator_sessions = Vec::new();
        self.pending = Vec::new();
        self.booted = Vec::new();
        self.execs = ExecTable::new();
    }

    /// Start keeping the next exec of `session`: it takes the next exec
    /// number, its id is `session/SESSION/exec/N`, and it has no output and
    /// no exit code yet.
    pub fn start_exec(&mut self, session: &str) -> (r: String)
        ensures
            r@ == spec_exec_id(session@, old(self).next_exec()),
            final(self).next_exec() == (if old(self).next_exec() == u64::MAX { 0 } else { (old(self).next_exec() + 1) as u64 }),
            final(self).exec(r@) matches Some(x) && x.output.wf() && x.output.bytes().len() == 0
                && x.output.run_list().len() == 0 && x.exit_code is None,
            forall|id: Seq<char>| id != r@ ==> #[trigger] final(self).exec(id) == old(self).exec(id),
            forall|n: Seq<char>| #[trigger] final(self).pending(n) == old(self).pending(n),
            forall|n: Seq<char>| #[trigger] final(self).booted(n) == old(self).booted(n),
            forall|n: Seq<char>| #[trigger] final(self).simulator(n) == old(self).simulator(n),
            forall|n: Seq<char>| #[trigger] final(self).emulator_session(n) == old(self).emulator_session(n),
    {
        let n = self.take_exec_number();
        let ghost mid = *self;
        let id = make_exec_id(session, n);
        self.execs.insert_new(id.clone());
        proof {
            assert forall|q: Seq<char>| q != id@ implies #[trigger] self.exec(q) == old(self).exec(q) by {
                assert(mid.exec(q) == old(self).exec(q));
            }
            assert forall|q: Seq<char>| #[trigger] self.pending(q) == old(self).pending(q) by {
                assert(mid.pending(q) == old(self).pending(q));
            }
            assert forall|q: Seq<char>| #[trigger] self.booted(q) == old(self).booted(q) by {
                assert(mid.booted(q) == old(self).booted(q));
            }
            assert forall|q: Seq<char>| #[trigger] self.simulator(q) == old(self).simulator(q) by {
                assert(mid.simulator(q) == old(self).simulator(q));
            }
            assert forall|q: Seq<char>| #[trigger] self.emulator_session(q) == old(self).emulator_session(q) by {
                assert(mid.emulator_session(q) == old(self).emulator_session(q));
            }
        }
        id
    }

    /// Add output from one stream to exec `id` (see [`ExecBuffer::append`]);
    /// whether the exec is kept.
    pub fn exec_output(&mut self, id: &str, data: &[u8], is_stdout: bool) -> (r: bool)
        requires
            data@.len() <= EXEC_BUFFER_BYTES,
        ensures
            r == old(self).exec(id@) is Some,
            match old(self).exec(id@) {
                Some(x) => final(self).exec(id@) matches Some(y) && y.exit_code == x.exit_code
                    && buffer_appended(x.output, y.output, data@, is_stdout),
                None => final(self).exec(id@) is None,
            },
            forall|q: Seq<char>| q != id@ ==> #[trigger] final(self).exec(q) == old(self).exec(q),
            final(self).next_exec() == old(self).next_exec(),
            forall|n: Seq<char>| #[trigger] final(self).pending(n) == old(self).pending(n),
            forall|n: Seq<char>| #[trigger] final(self).booted(n) == old(self).booted(n),
            forall|n: Seq<char>| #[trigger] final(self).simulator(n) == old(self).simulator(n),
            forall|n: Seq<char>| #[trigger] final(self).emulator_session(n) == old(self).emulator_session(n),
    {
        self.execs.output(id, data, is_stdout)
    }

    /// Record that exec `id` ended with `code`; whether the exec is kept.
    pub fn finish_exec(&mut self, id: &str, code: i32) -> (r: bool)
        ensures
            r == old(self).exec(id@) is Some,
            match old(self).exec(id@) {
                Some(x) => final(self).exec(id@) matches Some(y) && y.output == x.output && y.exit_code == Some(code),
                None => final(self).exec(id@) is None,
            },
            forall|q: Seq<char>| q != id@ ==> #[trigger] final(self).exec(q) == old(self).exec(q),
            final(self).next_exec() == old(self).next_exec(),
            forall|n: Seq<char>| #[trigger] final(self).pending(n) == old(self).pending(n),
            forall|n: Seq<char>| #[trigger] final(self).booted(n) == old(self).booted(n),
            forall|n: Seq<char>| #[trigger] final(self).simulator(n) == old(self).simulator(n),
            forall|n: Seq<char>| #[trigger] final(self).emulator_session(n) == old(self).emulator_session(n),
    {
        self.execs.finish(id, code)
    }

    /// Stop keeping exec `id`; whether it was kept.
    pub fn remove_exec(&mut self, id: &str) -> (r: bool)
        ensures
            r == old(self).exec(id@) is Some,
            final(self).exec(id@) is None,
            forall|q: Seq<char>| q != id@ ==> #[trigger] final(self).exec(q) == old(self).exec(q),
            final(self).next_exec() == old(self).next_exec(),
            forall|n: Seq<char>| #[trigger] final(self).pending(n) == old(self).pending(n),
            forall|n: Seq<char>| #[trigger] final(self).booted(n) == old(self).booted(n),
            forall|n: Seq<char>| #[trigger] final(self).simulator(n) == old(self).simulator(n),
            forall|n: Seq<char>| #[trigger] final(self).emulator_session(n) == old(self).emulator_session(n),
    {
        self.execs.remove(id)
    }

    /// What a client attached to exec `id` gets next, having seen `offset`
    /// bytes of its output (see [`attach_result`]); nothing when no exec
    /// is kept under `id`.
    pub fn attach_step(&self, id: &str, offset: usize) -> (r: Option<AttachStep>)
        ensures
            attach_result(self.exec(id@), offset, r),
    {
        self.execs.attach(id, offset)
    }

    /// Shut session `name` down, given the containers the runtime lists
    /// and whether the session's state directory exists. With nothing to
    /// do (see [`shutdown_refused`]) the session does not exist and nothing
    /// changes, so the same call is refused again. Otherwise its boot
    /// record is dropped, this daemon forgets having booted it, and the plan
    /// stops and removes each of its listed containers, then the network
    /// `mirage-NAME` and the directory; once the runtime lists none of its
    /// containers and the directory is gone, a second shutdown is refused.
    pub fn shutdown(&mut self, name: &str, containers: &Vec<ListedContainer>, dir_exists: bool) -> (r: Result<ShutdownPlan, Refusal>)
        ensures
            shutdown_refused(*old(self), name@, containers@, dir_exists) ==> (r matches Err(m) && m@ == missing_session_message(name@))
                && forall|n: Seq<char>| #[trigger] final(self).pending(n) == old(self).pending(n)
                && forall|n: Seq<char>| #[trigger] final(self).booted(n) == old(self).booted(n),
            r is Err ==> shutdown_refused(*final(self), name@, containers@, dir_exists),
            r is Ok ==> forall|cs: Seq<ListedContainer>, d: bool| #[trigger] shutdown_refused(*final(self), name@, cs, d)
                <==> (session_handles(cs, name@).len() == 0 && !d),
            !shutdown_refused(*old(self), name@, containers@, dir_exists) ==> (r matches Ok(p)
                && p.containers@ == session_handles(containers@, name@) && p.network@ == "mirage-"@ + name@)
                && final(self).pending(name@) is None && !final(self).booted(name@) && final(self).emulator_session(name@) is None
                && forall|n: Seq<char>| n != name@ ==> #[trigger] final(self).pending(n) == old(self).pending(n)
                && forall|n: Seq<char>| n != name@ ==> #[trigger] final(self).booted(n) == old(self).booted(n),
            forall|n: Seq<char>| #[trigger] final(self).simulator(n) == old(self).simulator(n),
            forall|id: Seq<char>| #[trigger] final(self).exec(id) == old(self).exec(id),
            final(self).next_exec() == old(self).next_exec(),
    {
        let handles = session_handle_list(containers, name);
        let pending = self.pending_named(name).is_some();
        let network = shutdown_check(name, handles.len() > 0, pending, dir_exists)?;
        let ghost mid = *self;
        let _ = self.remove_pending(name);
        let ghost mid2 = *self;
        self.forget_session(name);
        proof {
            assert forall|n: Seq<char>| n != name@ implies #[trigger] self.pending(n) == old(self).pending(n) by {
                assert(mid2.pending(n) == old(self).pending(n));
            }
            assert forall|n: Seq<char>| n != name@ implies #[trigger] self.booted(n) == old(self).booted(n) by {
                assert(mid2.booted(n) == old(self).booted(n));
            }
            assert forall|n: Seq<char>| #[trigger] self.simulator(n) == old(self).simulator(n) by {
                assert(mid2.simulator(n) == old(self).simulator(n));
            }
            assert forall|n: Seq<char>| #[trigger] self.exec(n) == old(self).exec(n) by {
                assert(mid2.exec(n) == old(self).exec(n));
            }
        }
        Ok(ShutdownPlan { containers: handles, network })
    }
}

/// What the daemon reports about a session.
#[derive(Debug, Clone, PartialEq, Eq)]
pub struct SessionSummary {
    pub name: Option<String>,
    pub profile: Option<String>,
    pub simulator: Option<String>,
    pub image: Option<String>,
    pub health_status: HealthStatus,
    pub phase: SessionPhase,
    pub progress_message: Option<String>,
}

/// The contents of an optional string.
pub open spec fn opt_view(o: Option<String>) -> Option<Seq<char>> {
    match o {
        Some(s) => Some(s@),
        None => None,
    }
}

/// A session summary as plain values: name, profile, simulator, image,
/// health, phase, progress message.
pub type SummaryView = (Seq<char>, Option<Seq<char>>, Option<Seq<char>>, Option<Seq<char>>, HealthStatus, SessionPhase, Option<Seq<char>>);

/// The plain values of a summary (a missing name reads as empty).
pub open spec fn summary_view(s: SessionSummary) -> SummaryView {
    (match s.name { Some(n) => n@, None => seq![] }, opt_view(s.profile), opt_view(s.simulator), opt_view(s.image),
        s.health_status, s.phase, opt_view(s.progress_message))
}

/// The progress message of a session whose containers this daemon did not
/// boot.
pub open spec fn stale_containers_message() -> Seq<char> {
    "session containers running but not registered with this daemon instance; shut down and re-boot to resume"@
}

/// The progress message of a session known only from its state directory.
pub open spec fn stale_directory_message() -> Seq<char> {
    "state directory present but no running container"@
}

/// The summary of session `name` from one of its containers: running and
/// healthy when this daemon booted it, stale otherwise.
pub open spec fn container_summary(c: ListedContainer, name: Seq<char>, booted: bool) -> SummaryView {
    (name, label_of(c, LABEL_PROFILE@), label_of(c, LABEL_SIMULATOR@), label_of(c, LABEL_IMAGE@),
        if booted { HealthStatus::Healthy } else { HealthStatus::Unknown },
        if booted { SessionPhase::Running } else { SessionPhase::Stale },
        if booted { None } else { Some(stale_containers_message()) })
}

/// The summary of a booting (or failed) session.
pub open spec fn pending_summary(name: Seq<char>, p: PendingSession) -> SummaryView {
    (name, Some(p.profile@), Some(p.simulator@), Some(p.image@),
        if p.phase == SessionPhase::Failed { HealthStatus::Unhealthy } else { HealthStatus::Unknown },
        p.phase, opt_view(p.progress_message))
}

/// The summary of a session known only from its state directory.
pub open spec fn directory_summary(name: Seq<char>) -> SummaryView {
    (name, None, None, None, HealthStatus::Unknown, SessionPhase::Stale, Some(stale_directory_message()))
}

/// `acc` with `s` added unless a summary of the same session is there.
pub open spec fn add_if_absent(acc: Seq<SummaryView>, s: SummaryView) -> Seq<SummaryView> {
    if exists|i: int| 0 <= i < acc.len() && #[trigger] acc[i].0 == s.0 { acc } else { acc.push(s) }
}

/// The summaries contributed by listed containers (those with a session
/// label and, with a profile filter, that profile), first container of a
/// session first.
pub open spec fn summaries_from_containers(
    acc: Seq<SummaryView>,
    cs: Seq<ListedContainer>,
    booted: spec_fn(Seq<char>) -> bool,
    filter: Option<Seq<char>>,
) -> Seq<SummaryView>
    decreases cs.len(),
{
    if cs.len() == 0 {
        acc
    } else {
        let before = summaries_from_containers(acc, cs.drop_last(), booted, filter);
        let c = cs.last();
        match label_of(c, LABEL_SESSION@) {
            None => before,
            Some(name) => if (match filter { Some(f) => label_of(c, LABEL_PROFILE@) != Some(f), None => false }) {
                before
            } else {
                add_if_absent(before, container_summary(c, name, booted(name)))
            },
        }
    }
}

/// The summaries contributed by booting sessions (with a profile filter,
/// only those of that profile).
pub open spec fn summaries_from_pending(acc: Seq<SummaryView>, ps: Seq<(String, PendingSession)>, filter: Option<Seq<char>>) -> Seq<SummaryView>
    decreases ps.len(),
{
    if ps.len() == 0 {
        acc
    } else {
        let before = summaries_from_pending(acc, ps.drop_last(), filter);
        let (name, p) = ps.last();
        if (match filter { Some(f) => p.profile@ != f, None => false }) {
            before
        } else {
            add_if_absent(before, pending_summary(name@, p))
        }
    }
}

/// The summaries contributed by state directories.
pub open spec fn summaries_from_dirs(acc: Seq<SummaryView>, dirs: Seq<String>) -> Seq<SummaryView>
    decreases dirs.len(),
{
    if dirs.len() == 0 {
        acc
    } else {
        add_if_absent(summaries_from_dirs(acc, dirs.drop_last()), directory_summary(dirs.last()@))
    }
}

/// `sorted` with `x` put after every summary whose name does not sort
/// after its name.
pub open spec fn insert_by_name(sorted: Seq<SummaryView>, x: SummaryView) -> Seq<SummaryView>
    decreases sorted.len(),
{
    if sorted.len() == 0 {
        seq![x]
    } else if text_less(x.0, sorted.last().0) {
        insert_by_name(sorted.drop_last(), x).push(sorted.last())
    } else {
        sorted.push(x)
    }
}

/// Summaries sorted by session name.
pub open spec fn sort_by_name(s: Seq<SummaryView>) -> Seq<SummaryView>
    decreases s.len(),
{
    if s.len() == 0 { seq![] } else { insert_by_name(sort_by_name(s.drop_last()), s.last()) }
}

/// The sessions the daemon lists: those with containers, then those
/// booting, then (without a profile filter) those with only a state
/// directory, each session once (the first source wins), by name.
pub open spec fn spec_list_sessions(
    containers: Seq<ListedContainer>,
    state: DaemonState,
    dirs: Seq<String>,
    filter: Option<Seq<char>>,
) -> Seq<SummaryView> {
    let a = summaries_from_containers(seq![], containers, booted_fn(state), filter);
    let b = summaries_from_pending(a, state.pending_list(), filter);
    let c = if filter is None { summaries_from_dirs(b, dirs) } else { b };
    sort_by_name(c)
}

/// The contents of a list of summaries.
pub open spec fn summaries_view(v: Seq<SessionSummary>) -> Seq<SummaryView> {
    Seq::new(v.len(), |i: int| summary_view(v[i]))
}

fn add_summary(acc: &mut Vec<SessionSummary>, s: SessionSummary)
    ensures
        summaries_view(final(acc)@) == add_if_absent(summaries_view(old(acc)@), summary_view(s)),
{
    let name = name_text(&s);
    let mut i: usize = 0;
    while i < acc.len()
        invariant
            name@ == summary_view(s).0,
            0 <= i <= acc@.len(),
            acc@ == old(acc)@,
            forall|j: int| 0 <= j < i ==> #[trigger] summaries_view(acc@)[j].0 != summary_view(s).0,
        decreases acc@.len() - i,
    {
        let same = match &acc[i].name {
            Some(n) => crate::protocol::str_eq(n.as_str(), name),
            None => name.unicode_len() == 0,
        };
        if same {
            proof {
                assert(summaries_view(old(acc)@)[i as int].0 == summary_view(s).0);
            }
            return;
        }
        i += 1;
    }
    let ghost before = acc@;
    acc.push(s);
    assert(summaries_view(acc@) =~= summaries_view(before).push(summary_view(s)));
}

fn clone_opt(o: &Option<String>) -> (r: Option<String>)
    ensures
        r == *o,
{
    match o {
        Some(s) => Some(s.clone()),
        None => None,
    }
}

proof fn lemma_insert_by_name_at(s: Seq<SummaryView>, x: SummaryView, p: int)
    requires
        0 <= p <= s.len(),
        forall|j: int| p <= j < s.len() ==> text_less(x.0, #[trigger] s[j].0),
        p > 0 ==> !text_less(x.0, s[p - 1].0),
    ensures
        insert_by_name(s, x) == s.insert(p, x),
    decreases s.len(),
{
    if s.len() == 0 {
        assert(s.insert(p, x) =~= seq![x]);
    } else if p == s.len() {
        assert(s.insert(p, x) =~= s.push(x));
    } else {
        assert(text_less(x.0, s[s.len() - 1].0));
        lemma_insert_by_name_at(s.drop_last(), x, p);
        assert(s.insert(p, x) =~= s.drop_last().insert(p, x).push(s.last()));
    }
}

fn name_text(s: &SessionSummary) -> (r: &str)
    ensures
        r@ == summary_view(*s).0,
{
    match &s.name {
        Some(n) => n.as_str(),
        None => {
            let e = "";
            proof { reveal_strlit(""); }
            e
        },
    }
}

fn sort_summaries(v: Vec<SessionSummary>) -> (r: Vec<SessionSummary>)
    ensures
        summaries_view(r@) == sort_by_name(summaries_view(v@)),
{
    let mut out: Vec<SessionSummary> = Vec::new();
    let mut rest = v;
    let ghost all = rest@;
    let ghost mut done: int = 0;
    assert(summaries_view(out@) =~= seq![]);
    while rest.len() > 0
        invariant
            0 <= done <= all.len(),
            rest@ == all.skip(done),
            summaries_view(out@) == sort_by_name(summaries_view(all.take(done))),
        decreases rest@.len(),
    {
        let x = rest.remove(0);
        proof {
            assert(all[done] == x);
            assert(summaries_view(all.take(done + 1)).drop_last() =~= summaries_view(all.take(done)));
            assert(summaries_view(all.take(done + 1)).last() == summary_view(x));
            assert(all.skip(done + 1) =~= all.skip(done).drop_first());
        }
        let mut p = out.len();
        while p > 0 && text_less_exec(name_text(&x), name_text(&out[p - 1]))
            invariant
                0 <= p <= out@.len(),
                forall|j: int| p <= j < out@.len() ==> text_less(summary_view(x).0, #[trigger] summary_view(out@[j]).0),
            decreases p,
        {
            p -= 1;
        }
        proof {
            let sv = summaries_view(out@);
            assert forall|j: int| p <= j < sv.len() implies text_less(summary_view(x).0, #[trigger] sv[j].0) by {
                assert(sv[j] == summary_view(out@[j]));
            }
            if p > 0 {
                assert(sv[p - 1] == summary_view(out@[p - 1]));
            }
            lemma_insert_by_name_at(sv, summary_view(x), p as int);
        }
        let ghost before = out@;
        out.insert(p, x);
        proof {
            assert(summaries_view(out@) =~= summaries_view(before).insert(p as int, summary_view(x)));
            done = done + 1;
        }
    }
    assert(all.take(done) =~= all);
    out
}

/// Whether this daemon booted a session, as a function of its name.
pub open spec fn booted_fn(state: DaemonState) -> spec_fn(Seq<char>) -> bool {
    |n: Seq<char>| state.booted(n)
}

impl DaemonState {
    /// Whether this daemon booted session `name`.
    pub fn is_booted(&self, name: &str) -> (r: bool)
        ensures
            r == self.booted(name@),
    {
        find_keyed(&self.booted, name).is_some()
    }

    /// The record of the booting session `name`.
    pub fn pending_named(&self, name: &str) -> (r: Option<&PendingSession>)
        ensures
            match r {
                Some(p) => self.pending(name@) == Some(*p),
                None => self.pending(name@) is None,
            },
    {
        match find_keyed(&self.pending, name) {
            Some(i) => Some(&self.pending[i].1),
            None => None,
        }
    }

    /// The booting sessions, in the order kept.
    pub fn pending_entries(&self) -> (r: &Vec<(String, PendingSession)>)
        ensures
            r@ == self.pending_list(),
    {
        &self.pending
    }

    /// The registered simulators, in the order kept.
    pub fn simulator_entries(&self) -> (r: &Vec<(String, SimulatorInfo)>)
        ensures
            r@ == self.simulator_list(),
    {
        &self.simulators
    }
}

fn summary_of_container(c: &ListedContainer, name: String, booted: bool) -> (r: SessionSummary)
    ensures
        summary_view(r) == container_summary(*c, name@, booted),
{
    let r = SessionSummary {
        name: Some(name),
        profile: label_value(c, LABEL_PROFILE),
        simulator: label_value(c, LABEL_SIMULATOR),
        image: label_value(c, LABEL_IMAGE),
        health_status: if booted { HealthStatus::Healthy } else { HealthStatus::Unknown },
        phase: if booted { SessionPhase::Running } else { SessionPhase::Stale },
        progress_message: if booted { None } else { Some(to_owned("session containers running but not registered with this daemon instance; shut down and re-boot to resume")) },
    };
    r
}

/// The sessions the daemon lists (see [`spec_list_sessions`]), from the
/// managed containers the runtime lists, the state, the session state
/// directories found on disk, and an optional profile filter.
pub fn list_sessions(
    containers: &Vec<ListedContainer>,
    state: &DaemonState,
    dirs: &Vec<String>,
    filter: Option<&str>,
) -> (r: Vec<SessionSummary>)
    ensures
        summaries_view(r@) == spec_list_sessions(containers@, *state, dirs@, match filter { Some(f) => Some(f@), None => None }),
        crate::listing::strictly_sorted_by_name(summaries_view(r@)),
        filter matches Some(f) ==> forall|i: int| 0 <= i < r@.len() ==> (#[trigger] summaries_view(r@)[i]).1 == Some(f@),
{
    let ghost fv: Option<Seq<char>> = match filter { Some(f) => Some(f@), None => None };
    let mut acc: Vec<SessionSummary> = Vec::new();
    assert(summaries_view(acc@) =~= seq![]);
    let mut i: usize = 0;
    while i < containers.len()
        invariant
            0 <= i <= containers@.len(),
            fv == (match filter { Some(f) => Some(f@), None => None::<Seq<char>> }),
            summaries_view(acc@) == summaries_from_containers(seq![], containers@.take(i as int), booted_fn(*state), fv),
        decreases containers@.len() - i,
    {
        proof {
            assert(containers@.take(i + 1).drop_last() =~= containers@.take(i as int));
            assert(containers@.take(i + 1).last() == containers@[i as int]);
        }
        let c = &containers[i];
        if let Some(name) = label_value(c, LABEL_SESSION) {
            let skip = match filter {
                Some(f) => match label_value(c, LABEL_PROFILE) {
                    Some(p) => !crate::protocol::str_eq(p.as_str(), f),
                    None => true,
                },
                None => false,
            };
            if !skip {
                let booted = state.is_booted(name.as_str());
                add_summary(&mut acc, summary_of_container(c, name, booted));
            }
        }
        i += 1;
    }
    assert(containers@.take(i as int) =~= containers@);
    let pending = state.pending_entries();
    let ghost a = summaries_view(acc@);
    let mut k: usize = 0;
    while k < pending.len()
        invariant
            0 <= k <= pending@.len(),
            pending@ == state.pending_list(),
            fv == (match filter { Some(f) => Some(f@), None => None::<Seq<char>> }),
            summaries_view(acc@) == summaries_from_pending(a, pending@.take(k as int), fv),
        decreases pending@.len() - k,
    {
        proof {
            assert(pending@.take(k + 1).drop_last() =~= pending@.take(k as int));
            assert(pending@.take(k + 1).last() == pending@[k as int]);
        }
        let (name, p) = (&pending[k].0, &pending[k].1);
        let skip = match filter {
            Some(f) => !crate::protocol::str_eq(p.profile.as_str(), f),
            None => false,
        };
        if !skip {
            let s = SessionSummary {
                name: Some(name.clone()),
                profile: Some(p.profile.clone()),
                simulator: Some(p.simulator.clone()),
                image: Some(p.image.clone()),
                health_status: if p.phase == SessionPhase::Failed { HealthStatus::Unhealthy } else { HealthStatus::Unknown },
                phase: p.phase,
                progress_message: clone_opt(&p.progress_message),
            };
            add_summary(&mut acc, s);
        }
        k += 1;
    }
    assert(pending@.take(k as int) =~= pending@);
    if filter.is_none() {
        let ghost b = summaries_view(acc@);
        let mut j: usize = 0;
        while j < dirs.len()
            invariant
                0 <= j <= dirs@.len(),
                summaries_view(acc@) == summaries_from_dirs(b, dirs@.take(j as int)),
            decreases dirs@.len() - j,
        {
            proof {
                assert(dirs@.take(j + 1).drop_last() =~= dirs@.take(j as int));
                assert(dirs@.take(j + 1).last() == dirs@[j as int]);
            }
            let s = SessionSummary {
                name: Some(dirs[j].clone()),
                profile: None,
                simulator: None,
                image: None,
                health_status: HealthStatus::Unknown,
                phase: SessionPhase::Stale,
                progress_message: Some(to_owned("state directory present but no running container")),
            };
            add_summary(&mut acc, s);
            j += 1;
        }
        assert(dirs@.take(j as int) =~= dirs@);
    }
    proof {
        crate::listing::lemma_list_sessions_sorted(containers@, *state, dirs@, fv);
        if let Some(f) = fv {
            crate::listing::lemma_list_sessions_filter(containers@, *state, dirs@, f);
        }
    }
    sort_summaries(acc)
}

/// The first listed container of session `name`, by position.
pub fn first_session_container(containers: &Vec<ListedContainer>, name: &str) -> (r: Option<usize>)
    ensures
        match r {
            Some(i) => i < containers@.len() && has_label(containers@[i as int], LABEL_SESSION@, name@)
                && forall|j: int| 0 <= j < i ==> !has_label(#[trigger] containers@[j], LABEL_SESSION@, name@),
            None => forall|j: int| 0 <= j < containers@.len() ==> !has_label(#[trigger] containers@[j], LABEL_SESSION@, name@),
        },
{
    let mut i: usize = 0;
    while i < containers.len()
        invariant
            0 <= i <= containers@.len(),
            forall|j: int| 0 <= j < i ==> !has_label(#[trigger] containers@[j], LABEL_SESSION@, name@),
        decreases containers@.len() - i,
    {
        if label_is(&containers[i], LABEL_SESSION, name) {
            return Some(i);
        }
        i += 1;
    }
    None
}

/// What the daemon reports about one session; `profile` names the profile
/// whose definition the report carries.
#[derive(Debug, Clone, PartialEq, Eq)]
pub struct SessionStatus {
    pub name: String,
    pub profile: Option<String>,
    pub simulator: Option<String>,
    pub image: Option<String>,
    pub health: HealthStatus,
    pub error_message: Option<String>,
    pub phase: SessionPhase,
    pub progress_message: Option<String>,
}

/// The report on session `name`: a booting session reports its record;
/// otherwise its first container reports it running (healthy) when this
/// daemon booted it and stale otherwise; with no container, a leftover
/// state directory reports it stale, and without one the session does not
/// exist.
pub open spec fn status_result(
    name: Seq<char>,
    state: DaemonState,
    containers: Seq<ListedContainer>,
    dir_exists: bool,
    r: Result<SessionStatus, Refusal>,
) -> bool {
    match state.pending(name) {
        Some(p) => r matches Ok(s) && s.name@ == name && opt_view(s.profile) == Some(p.profile@)
            && opt_view(s.simulator) == Some(p.simulator@) && opt_view(s.image) == Some(p.image@)
            && s.health == (if p.phase == SessionPhase::Failed { HealthStatus::Unhealthy } else { HealthStatus::Unknown })
            && s.error_message == p.error_message && s.phase == p.phase && s.progress_message == p.progress_message,
        None => if forall|j: int| 0 <= j < containers.len() ==> !has_label(#[trigger] containers[j], LABEL_SESSION@, name) {
            if dir_exists {
                r matches Ok(s) && s.name@ == name && s.profile is None && s.simulator is None && s.image is None
                    && s.health == HealthStatus::Unknown && s.error_message is None && s.phase == SessionPhase::Stale
                    && opt_view(s.progress_message) == Some(stale_directory_message())
            } else {
                r matches Err(m) && m@ == missing_session_message(name)
            }
        } else {
            exists|i: int| 0 <= i < containers.len() && has_label(#[trigger] containers[i], LABEL_SESSION@, name)
                && (forall|j: int| 0 <= j < i ==> !has_label(#[trigger] containers[j], LABEL_SESSION@, name))
                && {
                    let c = containers[i];
                    let booted = state.booted(name);
                    r matches Ok(s) && s.name@ == name && opt_view(s.profile) == label_of(c, LABEL_PROFILE@)
                        && opt_view(s.simulator) == label_of(c, LABEL_SIMULATOR@) && opt_view(s.image) == label_of(c, LABEL_IMAGE@)
                        && s.health == (if booted { HealthStatus::Healthy } else { HealthStatus::Unknown })
                        && s.error_message is None
                        && s.phase == (if booted { SessionPhase::Running } else { SessionPhase::Stale })
                        && opt_view(s.progress_message) == (if booted { None } else { Some(stale_containers_message()) })
                }
        },
    }
}

/// The report on session `name` (see [`status_result`]), from the state,
/// the managed containers the runtime lists and whether the session's
/// state directory exists.
pub fn session_status(name: &str, state: &DaemonState, containers: &Vec<ListedContainer>, dir_exists: bool) -> (r: Result<SessionStatus, Refusal>)
    ensures
        status_result(name@, *state, containers@, dir_exists, r),
{
    if let Some(p) = state.pending_named(name) {
        return Ok(SessionStatus {
            name: to_owned(name),
            profile: Some(p.profile.clone()),
            simulator: Some(p.simulator.clone()),
            image: Some(p.image.clone()),
            health: if p.phase == SessionPhase::Failed { HealthStatus::Unhealthy } else { HealthStatus::Unknown },
            error_message: clone_opt(&p.error_message),
            phase: p.phase,
            progress_message: clone_opt(&p.progress_message),
        });
    }
    match first_session_container(containers, name) {
        None => {
            if dir_exists {
                Ok(SessionStatus {
                    name: to_owned(name),
                    profile: None,
                    simulator: None,
                    image: None,
                    health: HealthStatus::Unknown,
                    error_message: None,
                    phase: SessionPhase::Stale,
                    progress_message: Some(to_owned("state directory present but no running container")),
                })
            } else {
                Err(surround("session '", name, "' does not exist"))
            }
        },
        Some(i) => {
            let c = &containers[i];
            let booted = state.is_booted(name);
            let r = SessionStatus {
                name: to_owned(name),
                profile: label_value(c, LABEL_PROFILE),
                simulator: label_value(c, LABEL_SIMULATOR),
                image: label_value(c, LABEL_IMAGE),
                health: if booted { HealthStatus::Healthy } else { HealthStatus::Unknown },
                error_message: None,
                phase: if booted { SessionPhase::Running } else { SessionPhase::Stale },
                progress_message: if booted { None } else {
                    Some(to_owned("session containers running but not registered with this daemon instance; shut down and re-boot to resume"))
                },
            };
            proof {
                assert(has_label(containers@[i as int], LABEL_SESSION@, name@));
            }
            Ok(r)
        },
    }
}

/// Whether shutting a session down has anything to do: its containers, a
/// boot record, or a state directory; the network to remove is
/// `mirage-NAME`.
pub fn shutdown_check(name: &str, has_containers: bool, was_pending: bool, was_stale: bool) -> (r: Result<String, Refusal>)
    ensures
        (!has_containers && !was_pending && !was_stale) ==> (r matches Err(m) && m@ == missing_session_message(name@)),
        (has_containers || was_pending || was_stale) ==> (r matches Ok(net) && net@ == "mirage-"@ + name@),
{
    if !has_containers && !was_pending && !was_stale {
        return Err(surround("session '", name, "' does not exist"));
    }
    let mut net = to_owned("mirage-");
    push_str(&mut net, name);
    Ok(net)
}

/// How many seconds each container of a session being shut down is given
/// to stop before it is force-removed.
pub const SHUTDOWN_STOP_SECS: u32 = 10;

/// The handles of the containers labelled as belonging to session `name`,
/// in the order listed.
pub open spec fn session_handles(containers: Seq<ListedContainer>, name: Seq<char>) -> Seq<ContainerHandle>
    decreases containers.len(),
{
    if containers.len() == 0 {
        seq![]
    } else {
        session_handles(containers.drop_last(), name) + if has_label(containers.last(), LABEL_SESSION@, name) {
            seq![containers.last().handle]
        } else {
            seq![]
        }
    }
}

/// What shutting a session down does: stop (giving each
/// [`SHUTDOWN_STOP_SECS`] seconds) and force-remove each of `containers`
/// in order, then remove the session network `network` and the session's
/// state directory.
#[derive(Debug, PartialEq, Eq)]
pub struct ShutdownPlan {
    pub containers: Vec<ContainerHandle>,
    pub network: String,
}

fn session_handle_list(containers: &Vec<ListedContainer>, name: &str) -> (r: Vec<ContainerHandle>)
    ensures
        r@ == session_handles(containers@, name@),
{
    let mut out: Vec<ContainerHandle> = Vec::new();
    let mut i: usize = 0;
    while i < containers.len()
        invariant
            0 <= i <= containers@.len(),
            out@ == session_handles(containers@.take(i as int), name@),
        decreases containers@.len() - i,
    {
        let c = &containers[i];
        proof {
            assert(containers@.take(i + 1).drop_last() =~= containers@.take(i as int));
            assert(containers@.take(i + 1).last() == containers@[i as int]);
        }
        if label_is(c, LABEL_SESSION, name) {
            out.push(ContainerHandle { id: c.handle.id.clone(), name: c.handle.name.clone() });
            assert(out@ =~= session_handles(containers@.take(i + 1), name@));
        } else {
            assert(out@ =~= session_handles(containers@.take(i + 1), name@));
        }
        i += 1;
    }
    assert(containers@.take(i as int) =~= containers@);
    out
}

/// A shutdown of session `name` has nothing to do: the runtime lists no
/// container of it, it is not booting and it has no state directory.
pub open spec fn shutdown_refused(state: DaemonState, name: Seq<char>, containers: Seq<ListedContainer>, dir_exists: bool) -> bool {
    session_handles(containers, name).len() == 0 && state.pending(name) is None && !dir_exists
}

/// The node index a container's label gives (0 when missing or not a
/// number).
pub open spec fn node_index_of(c: ListedContainer) -> nat {
    match label_of(c, LABEL_NODE_INDEX@) {
        Some(v) => match crate::text::spec_parse_unsigned(v, u32::MAX as nat) { Some(n) => n, None => 0 },
        None => 0,
    }
}

/// Whether container `c` is node `node` of session `session`.
pub open spec fn is_exec_target(c: ListedContainer, session: Seq<char>, node: u32) -> bool {
    has_label(c, LABEL_SESSION@, session) && node_index_of(c) == node
}

/// The container an exec in node `node` of `session` runs in: the first
/// listed one that is that node (the message says there is none).
pub fn exec_target(containers: &Vec<ListedContainer>, session: &str, node: u32) -> (r: Result<usize, Refusal>)
    ensures
        match r {
            Ok(i) => i < containers@.len() && is_exec_target(containers@[i as int], session@, node)
                && forall|j: int| 0 <= j < i ==> !is_exec_target(#[trigger] containers@[j], session@, node),
            Err(m) => m@ == "session '"@ + session@ + "' has no node "@ + decimal(node as nat)
                && forall|j: int| 0 <= j < containers@.len() ==> !is_exec_target(#[trigger] containers@[j], session@, node),
        },
{
    let mut i: usize = 0;
    while i < containers.len()
        invariant
            0 <= i <= containers@.len(),
            forall|j: int| 0 <= j < i ==> !is_exec_target(#[trigger] containers@[j], session@, node),
        decreases containers@.len() - i,
    {
        let c = &containers[i];
        if label_is(c, LABEL_SESSION, session) {
            let index: u64 = match label_value(c, LABEL_NODE_INDEX) {
                Some(v) => match crate::text::parse_u32(v.as_str()) { Some(n) => n as u64, None => 0 },
                None => 0,
            };
            if index == node as u64 {
                return Ok(i);
            }
        }
        i += 1;
    }
    let mut m = surround("session '", session, "' has no node ");
    push_str(&mut m, u64_to_string(node as u64).as_str());
    Err(m)
}

/// The program an exec runs: the command line split into program and
/// arguments, with the interceptor settings the container's labels name
/// (`mirage.interceptor_path` as `LD_PRELOAD`, `mirage.emulator_socket`
/// as `MIRAGE_INTERCEPTOR_SOCKET`).
pub fn exec_program(target: &ListedContainer, command: Vec<String>) -> (r: Result<ExecArgs, Refusal>)
    ensures
        command@.len() == 0 ==> (r matches Err(m) && m@ == "no command provided"@),
        command@.len() > 0 ==> (r matches Ok(e) && e.command == command@[0] && e.args@ == command@.drop_first()
            && env_view(e.env@) == (match label_of(*target, "mirage.interceptor_path"@) {
                Some(v) => seq![("LD_PRELOAD"@, v)], None => seq![] })
              + (match label_of(*target, "mirage.emulator_socket"@) {
                Some(v) => seq![("MIRAGE_INTERCEPTOR_SOCKET"@, v)], None => seq![] })),
{
    let mut args = exec_from_command(command)?;
    let ghost start = env_view(args.env@);
    assert(start =~= seq![]);
    let ghost a = (match label_of(*target, "mirage.interceptor_path"@) { Some(v) => seq![("LD_PRELOAD"@, v)], None => seq![] });
    if let Some(so) = label_value(target, "mirage.interceptor_path") {
        push_env(&mut args.env, "LD_PRELOAD", so.as_str());
    }
    assert(env_view(args.env@) =~= start + a);
    let ghost mid = env_view(args.env@);
    if let Some(sock) = label_value(target, "mirage.emulator_socket") {
        push_env(&mut args.env, "MIRAGE_INTERCEPTOR_SOCKET", sock.as_str());
        assert(env_view(args.env@) =~= mid + seq![("MIRAGE_INTERCEPTOR_SOCKET"@, sock@)]);
    } else {
        assert(env_view(args.env@) =~= mid + seq![]);
    }
    Ok(args)
}

/// The `docker` arguments that run an exec interactively in a container:
/// `exec -it ID`, each variable as `-e KEY=VALUE`, then the command and
/// its arguments.
pub fn docker_exec_args(container_id: &str, program: &ExecArgs) -> (r: Vec<String>)
    ensures
        strings_view(r@) == seq!["exec"@, "-it"@, container_id@]
            + crate::docker::flagged("-e"@, crate::docker::env_strings(program.env@))
            + seq![program.command@] + strings_view(program.args@),
{
    let mut v: Vec<String> = Vec::new();
    v.push(to_owned("exec"));
    v.push(to_owned("-it"));
    v.push(to_owned(container_id));
    assert(strings_view(v@) =~= seq!["exec"@, "-it"@, container_id@]);
    let env = crate::docker::env_values(&program.env);
    crate::docker::push_flagged(&mut v, "-e", &env);
    let ghost mid = strings_view(v@);
    v.push(to_owned(program.command.as_str()));
    assert(strings_view(v@) =~= mid + seq![program.command@]);
    crate::docker::push_all(&mut v, &program.args);
    v
}

/// What waiting for a boot has come to: running once the boot record is
/// gone, failed when the boot failed, the current phase when the wait
/// timed out, and nothing yet otherwise.
pub fn boot_wait_outcome(pending: Option<&PendingSession>, timed_out: bool) -> (r: Option<SessionPhase>)
    ensures
        match pending {
            None => r == Some(SessionPhase::Running),
            Some(p) => if p.phase == SessionPhase::Failed {
                r == Some(SessionPhase::Failed)
            } else if timed_out {
                r == Some(p.phase)
            } else {
                r is None
            },
        },
{
    match pending {
        None => Some(SessionPhase::Running),
        Some(p) => {
            if p.phase == SessionPhase::Failed {
                Some(SessionPhase::Failed)
            } else if timed_out {
                Some(p.phase)
            } else {
                None
            }
        },
    }
}

/// The most output an exec keeps (older output is dropped first).
pub const EXEC_BUFFER_BYTES: usize = 262144;

/// `n` copies of `stream`.
pub open spec fn repeat_tag(stream: bool, n: nat) -> Seq<bool> {
    Seq::new(n, |i: int| stream)
}

/// The stream of each byte described by a run list (length, from stdout).
pub open spec fn stream_tags(runs: Seq<(usize, bool)>) -> Seq<bool>
    decreases runs.len(),
{
    if runs.len() == 0 {
        seq![]
    } else {
        repeat_tag(runs[0].1, runs[0].0 as nat) + stream_tags(runs.drop_first())
    }
}

proof fn lemma_tags_push(runs: Seq<(usize, bool)>, x: (usize, bool))
    ensures
        stream_tags(runs.push(x)) == stream_tags(runs) + repeat_tag(x.1, x.0 as nat),
    decreases runs.len(),
{
    if runs.len() == 0 {
        assert(runs.push(x).drop_first() =~= seq![]);
        assert(stream_tags(runs.push(x).drop_first()) =~= seq![]);
        assert(stream_tags(runs.push(x)) =~= repeat_tag(x.1, x.0 as nat));
        assert(stream_tags(runs) =~= seq![]);
    } else {
        assert(runs.push(x).drop_first() =~= runs.drop_first().push(x));
        lemma_tags_push(runs.drop_first(), x);
        assert(stream_tags(runs.push(x)) =~= stream_tags(runs) + repeat_tag(x.1, x.0 as nat));
    }
}

proof fn lemma_last_run_bounded(runs: Seq<(usize, bool)>)
    requires
        runs.len() > 0,
    ensures
        runs.last().0 <= stream_tags(runs).len(),
    decreases runs.len(),
{
    if runs.len() > 1 {
        assert(runs.drop_first().last() == runs.last());
        lemma_last_run_bounded(runs.drop_first());
    }
}

proof fn lemma_tags_grow_last(runs: Seq<(usize, bool)>, n: usize)
    requires
        runs.len() > 0,
        runs.last().0 + n <= usize::MAX,
    ensures
        stream_tags(runs.update(runs.len() - 1, ((runs.last().0 + n) as usize, runs.last().1)))
            == stream_tags(runs) + repeat_tag(runs.last().1, n as nat),
{
    let last = runs.last();
    let grown = runs.update(runs.len() - 1, ((last.0 + n) as usize, last.1));
    assert(grown =~= runs.drop_last().push(((last.0 + n) as usize, last.1)));
    assert(runs =~= runs.drop_last().push(last));
    lemma_tags_push(runs.drop_last(), ((last.0 + n) as usize, last.1));
    lemma_tags_push(runs.drop_last(), last);
    assert(repeat_tag(last.1, (last.0 + n) as nat) =~= repeat_tag(last.1, last.0 as nat) + repeat_tag(last.1, n as nat));
}

/// The runs left after the first `d` bytes are dropped: whole runs that
/// fit are removed, the run the cut falls in is shortened.
pub open spec fn trim_runs(runs: Seq<(usize, bool)>, d: nat) -> Seq<(usize, bool)>
    decreases runs.len(),
{
    if runs.len() == 0 {
        seq![]
    } else if runs[0].0 <= d {
        trim_runs(runs.drop_first(), (d - runs[0].0) as nat)
    } else {
        seq![((runs[0].0 - d) as usize, runs[0].1)] + runs.drop_first()
    }
}

proof fn lemma_trim_tags(runs: Seq<(usize, bool)>, d: nat)
    requires
        d <= stream_tags(runs).len(),
    ensures
        stream_tags(trim_runs(runs, d)) == stream_tags(runs).skip(d as int),
    decreases runs.len(),
{
    if runs.len() == 0 {
        assert(stream_tags(runs).skip(d as int) =~= seq![]);
    } else if runs[0].0 <= d {
        lemma_trim_tags(runs.drop_first(), (d - runs[0].0) as nat);
        assert(stream_tags(runs).skip(d as int) =~= stream_tags(runs.drop_first()).skip(d - runs[0].0));
    } else {
        let first = ((runs[0].0 - d) as usize, runs[0].1);
        assert((seq![first] + runs.drop_first()).drop_first() =~= runs.drop_first());
        assert(stream_tags(seq![first] + runs.drop_first()) =~= repeat_tag(first.1, first.0 as nat) + stream_tags(runs.drop_first()));
        assert(stream_tags(runs).skip(d as int) =~= repeat_tag(first.1, first.0 as nat) + stream_tags(runs.drop_first()));
    }
}

/// Whether neighbouring runs come from different streams.
pub open spec fn runs_alternate(runs: Seq<(usize, bool)>) -> bool {
    forall|i: int| 0 <= i < runs.len() - 1 ==> #[trigger] runs[i].1 != runs[i + 1].1
}

proof fn lemma_trim_alternates(runs: Seq<(usize, bool)>, d: nat)
    requires
        runs_alternate(runs),
    ensures
        runs_alternate(trim_runs(runs, d)),
        trim_runs(runs, d).len() <= runs.len(),
        trim_runs(runs, d).len() > 0 ==> trim_runs(runs, d).last().1 == runs.last().1,
    decreases runs.len(),
{
    if runs.len() > 0 {
        if runs[0].0 <= d {
            assert(runs_alternate(runs.drop_first())) by {
                assert forall|i: int| 0 <= i < runs.drop_first().len() - 1 implies #[trigger] runs.drop_first()[i].1 != runs.drop_first()[i + 1].1 by {
                    assert(runs[i + 1].1 != runs[i + 2].1);
                }
            }
            lemma_trim_alternates(runs.drop_first(), (d - runs[0].0) as nat);
        } else {
            let t = seq![((runs[0].0 - d) as usize, runs[0].1)] + runs.drop_first();
            assert forall|i: int| 0 <= i < t.len() - 1 implies #[trigger] t[i].1 != t[i + 1].1 by {
                assert(runs[i].1 != runs[i + 1].1);
            }
        }
    }
}

/// The runs after a chunk of `n` bytes from stream `stdout` is added: the
/// newest run grows when it is from the same stream; otherwise a new run
/// starts.
pub open spec fn add_run(runs: Seq<(usize, bool)>, n: usize, stdout: bool) -> Seq<(usize, bool)> {
    if runs.len() > 0 && runs.last().1 == stdout {
        runs.update(runs.len() - 1, ((runs.last().0 + n) as usize, stdout))
    } else {
        runs.push((n, stdout))
    }
}

/// How many of the oldest bytes go when `incoming` bytes join `kept`.
pub open spec fn overflow(kept: nat, incoming: nat) -> nat {
    if kept + incoming > EXEC_BUFFER_BYTES { (kept + incoming - EXEC_BUFFER_BYTES) as nat } else { 0 }
}

/// Whether `after` is `before` once `data` from stream `stdout` is added:
/// the bytes and their streams are the old ones followed by the new ones,
/// less the oldest beyond [`EXEC_BUFFER_BYTES`]; the runs are the old
/// runs, cut by as much, with the chunk added to them (see [`add_run`]).
pub open spec fn buffer_appended(before: ExecBuffer, after: ExecBuffer, data: Seq<u8>, stdout: bool) -> bool {
    let d = overflow(before.bytes().len(), data.len());
    &&& after.wf()
    &&& after.bytes() == (before.bytes() + data).skip(d as int)
    &&& after.tags() == (before.tags() + repeat_tag(stdout, data.len())).skip(d as int)
    &&& after.run_list() == add_run(
        if d > 0 { trim_runs(before.run_list(), d) } else { before.run_list() }, data.len() as usize, stdout)
}

/// An exec's rolling output: the bytes kept and the runs of bytes from the
/// same stream.
#[derive(Debug)]
pub struct ExecBuffer {
    buffer: Vec<u8>,
    runs: Vec<(usize, bool)>,
}

impl ExecBuffer {
    /// The bytes kept.
    pub closed spec fn bytes(&self) -> Seq<u8> {
        self.buffer@
    }

    /// For each byte kept, whether it came from stdout.
    pub closed spec fn tags(&self) -> Seq<bool> {
        stream_tags(self.runs@)
    }

    /// The runs of the buffer.
    pub closed spec fn run_list(&self) -> Seq<(usize, bool)> {
        self.runs@
    }

    /// The buffer's invariant: each byte has a stream, at most
    /// [`EXEC_BUFFER_BYTES`] are kept, and neighbouring runs come from
    /// different streams.
    pub closed spec fn wf(&self) -> bool {
        &&& self.buffer@.len() == stream_tags(self.runs@).len()
        &&& self.buffer@.len() <= EXEC_BUFFER_BYTES
        &&& runs_alternate(self.runs@)
    }

    /// An empty buffer.
    pub fn new() -> (r: Self)
        ensures
            r.wf(),
            r.bytes().len() == 0,
            r.tags().len() == 0,
            r.run_list().len() == 0,
    {
        ExecBuffer { buffer: Vec::new(), runs: Vec::new() }
    }

    /// The bytes kept.
    pub fn contents(&self) -> (r: &Vec<u8>)
        ensures
            r@ == self.bytes(),
    {
        &self.buffer
    }

    /// The runs of the buffer.
    pub fn runs(&self) -> (r: &Vec<(usize, bool)>)
        ensures
            r@ == self.run_list(),
    {
        &self.runs
    }

    /// Append output from one stream; when more than
    /// [`EXEC_BUFFER_BYTES`] would be kept, the oldest bytes are dropped.
    /// A chunk from the same stream as the newest run extends it.
    pub fn append(&mut self, data: &[u8], is_stdout: bool)
        requires
            old(self).wf(),
            data@.len() <= EXEC_BUFFER_BYTES,
        ensures
            buffer_appended(*old(self), *final(self), data@, is_stdout),
            final(self).run_list().len() > 0,
            final(self).run_list().last().1 == is_stdout,
            final(self).run_list().last().0 >= data@.len(),
    {
        let incoming = data.len();
        let current = self.buffer.len();
        let ghost all = self.buffer@ + data@;
        let drop: usize = if current + incoming > EXEC_BUFFER_BYTES { current + incoming - EXEC_BUFFER_BYTES } else { 0 };
        let kept = keep_from(&self.buffer, data, drop);
        let mut runs: Vec<(usize, bool)> = Vec::new();
        std::mem::swap(&mut runs, &mut self.runs);
        let ghost old_runs = runs@;
        let mut runs = if drop > 0 { trimmed_runs(&runs, drop) } else { runs };
        proof {
            if drop > 0 {
                lemma_trim_tags(old_runs, drop as nat);
                lemma_trim_alternates(old_runs, drop as nat);
            } else {
                assert(stream_tags(old_runs).skip(0) =~= stream_tags(old_runs));
            }
        }
        // Here: runs describe the old bytes after the cut.
        let ghost cut_tags = stream_tags(runs@);
        let n = runs.len();
        if n > 0 && runs[n - 1].1 == is_stdout {
            let (len, s) = runs[n - 1];
            proof {
                lemma_last_run_bounded(runs@);
                lemma_tags_grow_last(runs@, incoming);
            }
            runs.set(n - 1, (len + incoming, s));
        } else {
            proof {
                lemma_tags_push(runs@, (incoming, is_stdout));
            }
            runs.push((incoming, is_stdout));
        }
        proof {
            let d = drop as int;
            let old_tags = stream_tags(old_runs);
            assert(cut_tags == old_tags.skip(if d <= old_tags.len() { d } else { old_tags.len() as int }));
            assert((old_tags + repeat_tag(is_stdout, incoming as nat)).skip(d) =~= cut_tags + repeat_tag(is_stdout, incoming as nat)) by {
                if d > old_tags.len() {
                }
            }
        }
        self.buffer = kept;
        self.runs = runs;
    }
}

/// The bytes of `old` followed by `data`, without the first `drop`.
fn keep_from(old: &Vec<u8>, data: &[u8], drop: usize) -> (r: Vec<u8>)
    requires
        drop <= old@.len() + data@.len(),
        old@.len() + data@.len() <= 2 * EXEC_BUFFER_BYTES,
    ensures
        r@ == (old@ + data@).skip(drop as int),
{
    let current = old.len();
    let incoming = data.len();
    let ghost all = old@ + data@;
    let mut kept: Vec<u8> = Vec::new();
    let mut i: usize = drop;
    while i < current + incoming
        invariant
            drop <= i <= current + incoming,
            current + incoming <= 2 * EXEC_BUFFER_BYTES,
            current == old@.len(),
            incoming == data@.len(),
            all == old@ + data@,
            kept@ == all.subrange(drop as int, i as int),
        decreases current + incoming - i,
    {
        let b = if i < current { old[i] } else { data[i - current] };
        kept.push(b);
        i += 1;
        assert(kept@ =~= all.subrange(drop as int, i as int));
    }
    assert(all.skip(drop as int) =~= all.subrange(drop as int, (current + incoming) as int));
    kept
}

/// The runs left after the first `drop` bytes are dropped.
fn trimmed_runs(runs: &Vec<(usize, bool)>, drop: usize) -> (r: Vec<(usize, bool)>)
    ensures
        r@ == trim_runs(runs@, drop as nat),
{
    let mut k: usize = 0;
    let mut left: usize = drop;
    assert(runs@.skip(0) =~= runs@);
    while k < runs.len()
        invariant
            0 <= k <= runs@.len(),
            trim_runs(runs@, drop as nat) == trim_runs(runs@.skip(k as int), left as nat),
        decreases runs@.len() - k,
    {
        let (len, s) = runs[k];
        proof {
            assert(runs@.skip(k as int).drop_first() =~= runs@.skip(k + 1));
            assert(runs@.skip(k as int)[0] == runs@[k as int]);
        }
        if len <= left {
            left = left - len;
            k += 1;
        } else {
            let mut out: Vec<(usize, bool)> = Vec::new();
            out.push((len - left, s));
            let mut j = k + 1;
            while j < runs.len()
                invariant
                    k + 1 <= j <= runs@.len(),
                    out@ == seq![((len - left) as usize, s)] + runs@.subrange(k + 1, j as int),
                decreases runs@.len() - j,
            {
                out.push(runs[j]);
                j += 1;
                assert(out@ =~= seq![((len - left) as usize, s)] + runs@.subrange(k + 1, j as int));
            }
            assert(runs@.skip(k as int).drop_first() =~= runs@.subrange(k + 1, j as int));
            return out;
        }
    }
    assert(runs@.skip(k as int) =~= seq![]);
    Vec::new()
}

/// The total length of a run list.
pub open spec fn runs_total(runs: Seq<(usize, bool)>) -> nat
    decreases runs.len(),
{
    if runs.len() == 0 { 0 } else { runs[0].0 as nat + runs_total(runs.drop_first()) }
}

proof fn lemma_runs_total_tags(runs: Seq<(usize, bool)>)
    ensures
        runs_total(runs) == stream_tags(runs).len(),
    decreases runs.len(),
{
    if runs.len() > 0 {
        lemma_runs_total_tags(runs.drop_first());
    }
}

/// The output an attached client has not seen yet: for each run that ends
/// past `offset` (runs counted from byte `pos`), its bytes from `offset`
/// on, with its stream.
pub open spec fn spec_chunks(runs: Seq<(usize, bool)>, bytes: Seq<u8>, pos: int, offset: int) -> Seq<(Seq<u8>, bool)>
    decreases runs.len(),
{
    if runs.len() == 0 {
        seq![]
    } else {
        let end = pos + runs[0].0;
        let rest = spec_chunks(runs.drop_first(), bytes, end, offset);
        if end > offset {
            let start = if pos < offset { offset } else { pos };
            seq![(bytes.subrange(start, end), runs[0].1)] + rest
        } else {
            rest
        }
    }
}

/// All the bytes of a list of chunks, in order.
pub open spec fn flatten_chunks(chunks: Seq<(Seq<u8>, bool)>) -> Seq<u8>
    decreases chunks.len(),
{
    if chunks.len() == 0 { seq![] } else { chunks[0].0 + flatten_chunks(chunks.drop_first()) }
}

proof fn lemma_chunks_cover(runs: Seq<(usize, bool)>, bytes: Seq<u8>, pos: int, offset: int)
    requires
        0 <= pos,
        0 <= offset,
        pos + runs_total(runs) <= bytes.len(),
        offset <= pos + runs_total(runs),
    ensures
        flatten_chunks(spec_chunks(runs, bytes, pos, offset))
            == bytes.subrange(if pos < offset { offset } else { pos }, pos + runs_total(runs)),
    decreases runs.len(),
{
    if runs.len() == 0 {
        assert(bytes.subrange(if pos < offset { offset } else { pos }, pos) =~= seq![]);
    } else {
        let end = pos + runs[0].0;
        lemma_chunks_cover(runs.drop_first(), bytes, end, offset);
        let rest = spec_chunks(runs.drop_first(), bytes, end, offset);
        if end > offset {
            let start = if pos < offset { offset } else { pos };
            let c = seq![(bytes.subrange(start, end), runs[0].1)] + rest;
            assert(c.drop_first() =~= rest);
            assert(bytes.subrange(start, pos + runs_total(runs)) =~= bytes.subrange(start, end) + bytes.subrange(end, pos + runs_total(runs)));
        }
    }
}

impl ExecBuffer {
    /// The output from byte `offset` on, run by run with its stream (what
    /// an attached client is sent next).
    pub fn chunks_from(&self, offset: usize) -> (r: Vec<(Vec<u8>, bool)>)
        requires
            self.wf(),
        ensures
            r@.len() == spec_chunks(self.run_list(), self.bytes(), 0, offset as int).len(),
            forall|i: int| 0 <= i < r@.len() ==> (#[trigger] r@[i]).0@ == spec_chunks(self.run_list(), self.bytes(), 0, offset as int)[i].0
                && r@[i].1 == spec_chunks(self.run_list(), self.bytes(), 0, offset as int)[i].1,
    {
        let ghost runs = self.runs@;
        let ghost bytes = self.buffer@;
        proof { lemma_runs_total_tags(runs); }
        let mut out: Vec<(Vec<u8>, bool)> = Vec::new();
        let mut pos: usize = 0;
        let mut k: usize = 0;
        proof { assert(runs.skip(0) =~= runs); }
        while k < self.runs.len()
            invariant
                self.wf(),
                runs == self.runs@,
                bytes == self.buffer@,
                runs_total(runs) == bytes.len(),
                0 <= k <= runs.len(),
                pos + runs_total(runs.skip(k as int)) == runs_total(runs),
                out@.len() + spec_chunks(runs.skip(k as int), bytes, pos as int, offset as int).len()
                    == spec_chunks(runs, bytes, 0, offset as int).len(),
                forall|i: int| 0 <= i < out@.len() ==> (#[trigger] out@[i]).0@ == spec_chunks(runs, bytes, 0, offset as int)[i].0
                    && out@[i].1 == spec_chunks(runs, bytes, 0, offset as int)[i].1,
                forall|i: int| 0 <= i < spec_chunks(runs.skip(k as int), bytes, pos as int, offset as int).len() ==>
                    #[trigger] spec_chunks(runs.skip(k as int), bytes, pos as int, offset as int)[i]
                        == spec_chunks(runs, bytes, 0, offset as int)[out@.len() + i],
            decreases runs.len() - k,
        {
            let (len, s) = self.runs[k];
            proof {
                assert(runs.skip(k as int).drop_first() =~= runs.skip(k + 1));
                assert(runs.skip(k as int)[0] == runs[k as int]);
            }
            let end = pos + len;
            if end > offset {
                let start = if pos < offset { offset } else { pos };
                let mut slice: Vec<u8> = Vec::new();
                let mut b = start;
                while b < end
                    invariant
                        start <= b <= end,
                        end <= self.buffer@.len(),
                        bytes == self.buffer@,
                        slice@ == bytes.subrange(start as int, b as int),
                    decreases end - b,
                {
                    slice.push(self.buffer[b]);
                    b += 1;
                    assert(slice@ =~= bytes.subrange(start as int, b as int));
                }
                let ghost tail = spec_chunks(runs.skip(k + 1), bytes, end as int, offset as int);
                proof {
                    let cur = spec_chunks(runs.skip(k as int), bytes, pos as int, offset as int);
                    assert(cur =~= seq![(bytes.subrange(start as int, end as int), s)] + tail);
                    assert(cur[0] == spec_chunks(runs, bytes, 0, offset as int)[out@.len() as int]);
                    assert forall|i: int| 0 <= i < tail.len() implies #[trigger] tail[i] == spec_chunks(runs, bytes, 0, offset as int)[out@.len() + 1 + i] by {
                        assert(tail[i] == cur[i + 1]);
                    }
                }
                out.push((slice, s));
            }
            pos = end;
            k += 1;
        }
        out
    }
}

/// What an attached client receives from `offset` on is exactly the
/// buffered output from `offset` on, in order.
pub proof fn lemma_attach_sees_output(buf: ExecBuffer, offset: nat)
    requires
        buf.wf(),
        offset <= buf.bytes().len(),
    ensures
        flatten_chunks(spec_chunks(buf.run_list(), buf.bytes(), 0, offset as int)) == buf.bytes().skip(offset as int),
{
    lemma_runs_total_tags(buf.run_list());
    lemma_chunks_cover(buf.run_list(), buf.bytes(), 0, offset as int);
    assert(buf.bytes().subrange(offset as int, buf.bytes().len() as int) =~= buf.bytes().skip(offset as int));
}

/// `names` with `n` added unless it is there.
pub open spec fn add_name(names: Seq<Seq<char>>, n: Seq<char>) -> Seq<Seq<char>> {
    if names.contains(n) { names } else { names.push(n) }
}

/// The distinct session names of listed containers (by their session
/// label), in order of first appearance after `acc`.
pub open spec fn names_from_containers(acc: Seq<Seq<char>>, cs: Seq<ListedContainer>) -> Seq<Seq<char>>
    decreases cs.len(),
{
    if cs.len() == 0 {
        acc
    } else {
        let before = names_from_containers(acc, cs.drop_last());
        match label_of(cs.last(), LABEL_SESSION@) {
            Some(n) => add_name(before, n),
            None => before,
        }
    }
}

/// The distinct names of `more` after `acc`.
pub open spec fn add_names(acc: Seq<Seq<char>>, more: Seq<Seq<char>>) -> Seq<Seq<char>>
    decreases more.len(),
{
    if more.len() == 0 { acc } else { add_name(add_names(acc, more.drop_last()), more.last()) }
}

/// The names of booting sessions.
pub open spec fn pending_names(ps: Seq<(String, PendingSession)>) -> Seq<Seq<char>> {
    Seq::new(ps.len(), |i: int| ps[i].0@)
}

/// The names of a list of strings.
pub open spec fn names_of(v: Seq<String>) -> Seq<Seq<char>> {
    Seq::new(v.len(), |i: int| v[i]@)
}

/// How many sessions the daemon knows: distinct names among container
/// session labels, booting sessions and state directories.
pub open spec fn spec_session_count(containers: Seq<ListedContainer>, state: DaemonState, dirs: Seq<String>) -> nat {
    add_names(add_names(names_from_containers(seq![], containers), pending_names(state.pending_list())), names_of(dirs)).len()
}

fn push_name(names: &mut Vec<String>, n: String)
    ensures
        names_of(final(names)@) == add_name(names_of(old(names)@), n@),
{
    let mut i: usize = 0;
    while i < names.len()
        invariant
            0 <= i <= names@.len(),
            names@ == old(names)@,
            forall|j: int| 0 <= j < i ==> #[trigger] names@[j]@ != n@,
        decreases names@.len() - i,
    {
        if crate::protocol::str_eq(names[i].as_str(), n.as_str()) {
            proof {
                assert(names_of(old(names)@)[i as int] == n@);
            }
            return;
        }
        i += 1;
    }
    proof {
        assert(!names_of(old(names)@).contains(n@)) by {
            if names_of(old(names)@).contains(n@) {
                let j = choose|j: int| 0 <= j < names_of(old(names)@).len() && names_of(old(names)@)[j] == n@;
                assert(names@[j]@ != n@);
            }
        }
    }
    let ghost before = names@;
    names.push(n);
    assert(names_of(names@) =~= names_of(before).push(n@));
}

/// How many sessions the daemon knows (see [`spec_session_count`]).
pub fn session_count(containers: &Vec<ListedContainer>, state: &DaemonState, dirs: &Vec<String>) -> (r: usize)
    ensures
        r == spec_session_count(containers@, *state, dirs@),
{
    let mut names: Vec<String> = Vec::new();
    assert(names_of(names@) =~= seq![]);
    let mut i: usize = 0;
    while i < containers.len()
        invariant
            0 <= i <= containers@.len(),
            names_of(names@) == names_from_containers(seq![], containers@.take(i as int)),
        decreases containers@.len() - i,
    {
        proof {
            assert(containers@.take(i + 1).drop_last() =~= containers@.take(i as int));
            assert(containers@.take(i + 1).last() == containers@[i as int]);
        }
        if let Some(n) = label_value(&containers[i], LABEL_SESSION) {
            push_name(&mut names, n);
        }
        i += 1;
    }
    assert(containers@.take(i as int) =~= containers@);
    let pending = state.pending_entries();
    let ghost a = names_of(names@);
    let mut k: usize = 0;
    while k < pending.len()
        invariant
            0 <= k <= pending@.len(),
            names_of(names@) == add_names(a, pending_names(pending@).take(k as int)),
        decreases pending@.len() - k,
    {
        proof {
            assert(pending_names(pending@).take(k + 1).drop_last() =~= pending_names(pending@).take(k as int));
        }
        push_name(&mut names, pending[k].0.clone());
        k += 1;
    }
    assert(pending_names(pending@).take(k as int) =~= pending_names(pending@));
    let ghost b = names_of(names@);
    let mut j: usize = 0;
    while j < dirs.len()
        invariant
            0 <= j <= dirs@.len(),
            names_of(names@) == add_names(b, names_of(dirs@).take(j as int)),
        decreases dirs@.len() - j,
    {
        proof {
            assert(names_of(dirs@).take(j + 1).drop_last() =~= names_of(dirs@).take(j as int));
        }
        push_name(&mut names, dirs[j].clone());
        j += 1;
    }
    assert(names_of(dirs@).take(j as int) =~= names_of(dirs@));
    names.len()
}

/// How many listed containers run on simulator `name`.
pub open spec fn spec_active_count(containers: Seq<ListedContainer>, name: Seq<char>) -> nat
    decreases containers.len(),
{
    if containers.len() == 0 {
        0
    } else {
        spec_active_count(containers.drop_last(), name) + if has_label(containers.last(), LABEL_SIMULATOR@, name) { 1nat } else { 0nat }
    }
}

/// How many listed containers run on simulator `name`.
pub fn active_count(containers: &Vec<ListedContainer>, name: &str) -> (r: usize)
    ensures
        r == spec_active_count(containers@, name@),
{
    let mut count: usize = 0;
    let mut i: usize = 0;
    while i < containers.len()
        invariant
            0 <= i <= containers@.len(),
            count == spec_active_count(containers@.take(i as int), name@),
            count <= i,
        decreases containers@.len() - i,
    {
        proof {
            assert(containers@.take(i + 1).drop_last() =~= containers@.take(i as int));
            assert(containers@.take(i + 1).last() == containers@[i as int]);
        }
        if label_is(&containers[i], LABEL_SIMULATOR, name) {
            count += 1;
        }
        i += 1;
    }
    assert(containers@.take(i as int) =~= containers@);
    count
}

/// What the daemon reports about a simulator.
#[derive(Debug, Clone, PartialEq, Eq)]
pub struct SimulatorSummary {
    pub name: Option<String>,
    pub version: Option<String>,
    pub description: Option<String>,
    pub supported_gpus: Vec<GpuDef>,
    pub supports_custom_gpus: bool,
    pub supported_modes: Vec<SimulatorMode>,
    pub active_session_count: u32,
}

fn clone_gpus(v: &Vec<GpuDef>) -> (r: Vec<GpuDef>)
    ensures
        r@ == v@,
{
    let mut out: Vec<GpuDef> = Vec::new();
    let mut i: usize = 0;
    while i < v.len()
        invariant
            0 <= i <= v@.len(),
            out@ == v@.take(i as int),
        decreases v@.len() - i,
    {
        let g = &v[i];
        out.push(GpuDef { name: g.name.clone(), arch: g.arch.clone(), family: g.family, description: clone_opt(&g.description) });
        i += 1;
        assert(out@ =~= v@.take(i as int));
    }
    assert(v@.take(i as int) =~= v@);
    out
}

fn clone_modes(v: &Vec<SimulatorMode>) -> (r: Vec<SimulatorMode>)
    ensures
        r@ == v@,
{
    let mut out: Vec<SimulatorMode> = Vec::new();
    let mut i: usize = 0;
    while i < v.len()
        invariant
            0 <= i <= v@.len(),
            out@ == v@.take(i as int),
        decreases v@.len() - i,
    {
        out.push(v[i]);
        i += 1;
        assert(out@ =~= v@.take(i as int));
    }
    assert(v@.take(i as int) =~= v@);
    out
}

/// The summary of a simulator with `active` sessions.
pub fn simulator_summary(info: &SimulatorInfo, active: u32) -> (r: SimulatorSummary)
    ensures
        r.name == Some(info.name) && r.version == Some(info.version) && r.description == info.description,
        r.supported_gpus@ == info.supported_gpus@,
        r.supports_custom_gpus == info.supports_custom_gpus,
        r.supported_modes@ == info.supported_modes@,
        r.active_session_count == active,
{
    SimulatorSummary {
        name: Some(info.name.clone()),
        version: Some(info.version.clone()),
        description: clone_opt(&info.description),
        supported_gpus: clone_gpus(&info.supported_gpus),
        supports_custom_gpus: info.supports_custom_gpus,
        supported_modes: clone_modes(&info.supported_modes),
        active_session_count: active,
    }
}

/// The name a simulator summary is listed by (empty without one).
pub open spec fn sim_key(s: SimulatorSummary) -> Seq<char> {
    match s.name {
        Some(n) => n@,
        None => seq![],
    }
}

/// `sorted` with `x` put after every summary whose name does not sort
/// after its name.
pub open spec fn insert_sim(sorted: Seq<SimulatorSummary>, x: SimulatorSummary) -> Seq<SimulatorSummary>
    decreases sorted.len(),
{
    if sorted.len() == 0 {
        seq![x]
    } else if text_less(sim_key(x), sim_key(sorted.last())) {
        insert_sim(sorted.drop_last(), x).push(sorted.last())
    } else {
        sorted.push(x)
    }
}

/// Simulator summaries sorted by name (equal names keep their order).
pub open spec fn sort_sims(s: Seq<SimulatorSummary>) -> Seq<SimulatorSummary>
    decreases s.len(),
{
    if s.len() == 0 { seq![] } else { insert_sim(sort_sims(s.drop_last()), s.last()) }
}

/// Whether `out` summarises `info` with `active` running containers.
pub open spec fn summarises(out: SimulatorSummary, info: SimulatorInfo, active: nat) -> bool {
    &&& out.name == Some(info.name)
    &&& out.version == Some(info.version)
    &&& out.description == info.description
    &&& out.supported_gpus@ == info.supported_gpus@
    &&& out.supports_custom_gpus == info.supports_custom_gpus
    &&& out.supported_modes@ == info.supported_modes@
    &&& out.active_session_count == active as u32
}

proof fn lemma_insert_sim_at(s: Seq<SimulatorSummary>, x: SimulatorSummary, p: int)
    requires
        0 <= p <= s.len(),
        forall|j: int| p <= j < s.len() ==> text_less(sim_key(x), #[trigger] sim_key(s[j])),
        p > 0 ==> !text_less(sim_key(x), sim_key(s[p - 1])),
    ensures
        insert_sim(s, x) == s.insert(p, x),
    decreases s.len(),
{
    if s.len() == 0 {
        assert(s.insert(p, x) =~= seq![x]);
    } else if p == s.len() {
        assert(s.insert(p, x) =~= s.push(x));
    } else {
        assert(text_less(sim_key(x), sim_key(s[s.len() - 1])));
        lemma_insert_sim_at(s.drop_last(), x, p);
        assert(s.insert(p, x) =~= s.drop_last().insert(p, x).push(s.last()));
    }
}

fn sim_name(s: &SimulatorSummary) -> (r: &str)
    ensures
        r@ == sim_key(*s),
{
    match &s.name {
        Some(n) => n.as_str(),
        None => {
            let e = "";
            proof { reveal_strlit(""); }
            e
        },
    }
}

fn sort_simulator_summaries(v: Vec<SimulatorSummary>) -> (r: Vec<SimulatorSummary>)
    ensures
        r@ == sort_sims(v@),
{
    let mut out: Vec<SimulatorSummary> = Vec::new();
    let mut rest = v;
    let ghost all = rest@;
    let ghost mut done: int = 0;
    while rest.len() > 0
        invariant
            0 <= done <= all.len(),
            rest@ == all.skip(done),
            out@ == sort_sims(all.take(done)),
        decreases rest@.len(),
    {
        let x = rest.remove(0);
        proof {
            assert(all[done] == x);
            assert(all.take(done + 1).drop_last() =~= all.take(done));
            assert(all.skip(done + 1) =~= all.skip(done).drop_first());
        }
        let mut p = out.len();
        while p > 0 && text_less_exec(sim_name(&x), sim_name(&out[p - 1]))
            invariant
                0 <= p <= out@.len(),
                forall|j: int| p <= j < out@.len() ==> text_less(sim_key(x), #[trigger] sim_key(out@[j])),
            decreases p,
        {
            p -= 1;
        }
        proof {
            lemma_insert_sim_at(out@, x, p as int);
        }
        out.insert(p, x);
        proof {
            done = done + 1;
        }
    }
    assert(all.take(done) =~= all);
    out
}

/// The summary of each registered simulator, with how many listed
/// containers run on it (the count as a `u32`), in name order.
pub fn list_simulators(state: &DaemonState, containers: &Vec<ListedContainer>) -> (r: Vec<SimulatorSummary>)
    ensures
        exists|unsorted: Seq<SimulatorSummary>| {
            &&& r@ == sort_sims(unsorted)
            &&& unsorted.len() == state.simulator_list().len()
            &&& forall|i: int| 0 <= i < unsorted.len() ==> summarises(#[trigger] unsorted[i], state.simulator_list()[i].1,
                spec_active_count(containers@, state.simulator_list()[i].1.name@))
        },
{
    let sims = state.simulator_entries();
    let mut out: Vec<SimulatorSummary> = Vec::new();
    let mut i: usize = 0;
    while i < sims.len()
        invariant
            0 <= i <= sims@.len(),
            sims@ == state.simulator_list(),
            out@.len() == i,
            forall|j: int| 0 <= j < i ==> summarises(#[trigger] out@[j], sims@[j].1, spec_active_count(containers@, sims@[j].1.name@)),
        decreases sims@.len() - i,
    {
        let info = &sims[i].1;
        let active = active_count(containers, info.name.as_str()) as u32;
        out.push(simulator_summary(info, active));
        i += 1;
    }
    let ghost unsorted = out@;
    let r = sort_simulator_summaries(out);
    assert(r@ == sort_sims(unsorted));
    r
}

} // verus!
