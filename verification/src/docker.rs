//! The docker command-line runtime: the exact argument lists it passes to
//! `docker` for each operation, the checks a request must pass first, and
//! how the program's output is turned into results and errors.

use vstd::prelude::*;

use crate::container::{
    BindMount, ContainerHandle, ContainerLogs, ContainerRuntimeError, ContainerRuntimeEvent,
    ContainerRuntimeOperation, ErrorKind, EventView, ExecRequest, ExecResult, InjectedFile,
    PortMapping, Protocol, SetEnv, StartContainerRequest, appended, chunk_events, emit_status,
    emit_stderr, emit_stdout, error_view, lemma_appended_twice, log_view, make_error, status_event,
};
use crate::text::{
    decimal, is_blank, join, push_str, spec_is_blank, spec_join, strings_view, to_owned, u64_to_string,
};

verus! {

/// Whether `path` is absolute (begins with `/`).
pub open spec fn spec_is_absolute(path: Seq<char>) -> bool {
    path.len() > 0 && path[0] == '/'
}

/// Whether `path` is absolute.
pub fn is_absolute(path: &str) -> (r: bool)
    ensures
        r == spec_is_absolute(path@),
{
    path.unicode_len() > 0 && path.get_char(0) == '/'
}

/// The message for a relative host path.
pub open spec fn host_path_message(path: Seq<char>) -> Seq<char> {
    "host path '"@ + path + "' must be absolute"@
}

/// The message for a relative container path.
pub open spec fn container_path_message(path: Seq<char>) -> Seq<char> {
    "container path '"@ + path + "' must be absolute"@
}

/// `before`, then `middle`, then `after`, as one string.
pub fn surround(before: &str, middle: &str, after: &str) -> (r: String)
    ensures
        r@ == before@ + middle@ + after@,
{
    let mut r = to_owned(before);
    push_str(&mut r, middle);
    push_str(&mut r, after);
    r
}

/// A host path must be absolute.
pub fn validate_host_path(path: &str) -> (r: Result<(), ContainerRuntimeError>)
    ensures
        spec_is_absolute(path@) ==> r is Ok,
        !spec_is_absolute(path@) ==> (r matches Err(e) && error_view(e) == (ErrorKind::InvalidRequest, host_path_message(path@))),
{
    if is_absolute(path) {
        Ok(())
    } else {
        Err(ContainerRuntimeError::InvalidRequest(surround("host path '", path, "' must be absolute")))
    }
}

/// A container path must be absolute.
pub fn validate_container_path(path: &str) -> (r: Result<(), ContainerRuntimeError>)
    ensures
        spec_is_absolute(path@) ==> r is Ok,
        !spec_is_absolute(path@) ==> (r matches Err(e) && error_view(e) == (ErrorKind::InvalidRequest, container_path_message(path@))),
{
    if is_absolute(path) {
        Ok(())
    } else {
        Err(ContainerRuntimeError::InvalidRequest(surround("container path '", path, "' must be absolute")))
    }
}

/// The name docker uses for a protocol.
pub open spec fn spec_protocol_name(protocol: Protocol) -> Seq<char> {
    match protocol {
        Protocol::Tcp => "tcp"@,
        Protocol::Udp => "udp"@,
    }
}

/// The name docker uses for a protocol.
pub fn protocol_name(protocol: Protocol) -> (r: &'static str)
    ensures
        r@ == spec_protocol_name(protocol),
{
    match protocol {
        Protocol::Tcp => "tcp",
        Protocol::Udp => "udp",
    }
}

/// Append `s` to a list of strings.
fn push_owned(v: &mut Vec<String>, s: &str)
    ensures
        strings_view(final(v)@) == strings_view(old(v)@).push(s@),
{
    v.push(to_owned(s));
    assert(strings_view(v@) =~= strings_view(old(v)@).push(s@));
}

/// The command line of `program` with `args`, words separated by spaces.
pub open spec fn spec_format_command(program: Seq<char>, args: Seq<Seq<char>>) -> Seq<char> {
    spec_join(seq![program] + args, " "@)
}

/// The command line of `program` with `args`, for messages.
pub fn format_command(program: &str, args: &Vec<String>) -> (r: String)
    ensures
        r@ == spec_format_command(program@, strings_view(args@)),
{
    let mut words: Vec<String> = Vec::new();
    push_owned(&mut words, program);
    let mut i: usize = 0;
    while i < args.len()
        invariant
            0 <= i <= args@.len(),
            strings_view(words@) == seq![program@] + strings_view(args@).take(i as int),
        decreases args@.len() - i,
    {
        push_owned(&mut words, args[i].as_str());
        i += 1;
        assert(strings_view(words@) =~= seq![program@] + strings_view(args@).take(i as int));
    }
    assert(strings_view(args@).take(i as int) =~= strings_view(args@));
    join(&words, " ")
}

/// Each value of `values` preceded by `flag`.
pub open spec fn flagged(flag: Seq<char>, values: Seq<Seq<char>>) -> Seq<Seq<char>>
    decreases values.len(),
{
    if values.len() == 0 {
        seq![]
    } else {
        flagged(flag, values.drop_last()) + seq![flag, values.last()]
    }
}

/// Append each value of `values` preceded by `flag`.
pub(crate) fn push_flagged(args: &mut Vec<String>, flag: &str, values: &Vec<String>)
    ensures
        strings_view(final(args)@) == strings_view(old(args)@) + flagged(flag@, strings_view(values@)),
{
    let mut i: usize = 0;
    while i < values.len()
        invariant
            0 <= i <= values@.len(),
            strings_view(args@) == strings_view(old(args)@) + flagged(flag@, strings_view(values@).take(i as int)),
        decreases values@.len() - i,
    {
        proof {
            assert(strings_view(values@).take(i + 1).drop_last() =~= strings_view(values@).take(i as int));
        }
        push_owned(args, flag);
        push_owned(args, values[i].as_str());
        i += 1;
        assert(strings_view(args@) =~= strings_view(old(args)@) + flagged(flag@, strings_view(values@).take(i as int)));
    }
    assert(strings_view(values@).take(i as int) =~= strings_view(values@));
}

/// Append all of `tail`.
pub(crate) fn push_all(args: &mut Vec<String>, tail: &Vec<String>)
    ensures
        strings_view(final(args)@) == strings_view(old(args)@) + strings_view(tail@),
{
    let mut i: usize = 0;
    while i < tail.len()
        invariant
            0 <= i <= tail@.len(),
            strings_view(args@) == strings_view(old(args)@) + strings_view(tail@).take(i as int),
        decreases tail@.len() - i,
    {
        push_owned(args, tail[i].as_str());
        i += 1;
        assert(strings_view(args@) =~= strings_view(old(args)@) + strings_view(tail@).take(i as int));
    }
    assert(strings_view(tail@).take(i as int) =~= strings_view(tail@));
}

/// The docker volume argument `host:container:ro|rw`.
pub open spec fn volume_spec(host: Seq<char>, container: Seq<char>, readonly: bool) -> Seq<char> {
    host + ":"@ + container + ":"@ + (if readonly { "ro"@ } else { "rw"@ })
}

fn volume_arg(host: &str, container: &str, readonly: bool) -> (r: String)
    ensures
        r@ == volume_spec(host@, container@, readonly),
{
    let mut r = to_owned(host);
    push_str(&mut r, ":");
    push_str(&mut r, container);
    push_str(&mut r, ":");
    push_str(&mut r, if readonly { "ro" } else { "rw" });
    r
}

/// The volume arguments of bind mounts.
pub open spec fn mount_specs(mounts: Seq<BindMount>) -> Seq<Seq<char>>
    decreases mounts.len(),
{
    if mounts.len() == 0 {
        seq![]
    } else {
        let m = mounts.last();
        mount_specs(mounts.drop_last()).push(volume_spec(m.host_path@, m.container_path@, m.readonly))
    }
}

/// The message of the first bind mount with a relative host or container
/// path (the host path checked first).
pub open spec fn mount_error(mounts: Seq<BindMount>) -> Option<Seq<char>>
    decreases mounts.len(),
{
    if mounts.len() == 0 {
        None
    } else {
        match mount_error(mounts.drop_last()) {
            Some(m) => Some(m),
            None => {
                let last = mounts.last();
                if !spec_is_absolute(last.host_path@) {
                    Some(host_path_message(last.host_path@))
                } else if !spec_is_absolute(last.container_path@) {
                    Some(container_path_message(last.container_path@))
                } else {
                    None
                }
            },
        }
    }
}

proof fn lemma_mount_error_prefix(mounts: Seq<BindMount>, i: int)
    requires
        0 <= i <= mounts.len(),
        mount_error(mounts.take(i)) is Some,
    ensures
        mount_error(mounts) == mount_error(mounts.take(i)),
    decreases mounts.len() - i,
{
    if i < mounts.len() {
        assert(mounts.take(i + 1).drop_last() =~= mounts.take(i));
        lemma_mount_error_prefix(mounts, i + 1);
    } else {
        assert(mounts.take(i) =~= mounts);
    }
}

/// The volume arguments of all bind mounts, or the message of the first
/// invalid one.
fn mount_values(mounts: &Vec<BindMount>) -> (r: Result<Vec<String>, ContainerRuntimeError>)
    ensures
        match mount_error(mounts@) {
            Some(m) => r matches Err(e) && error_view(e) == (ErrorKind::InvalidRequest, m),
            None => r matches Ok(v) && strings_view(v@) == mount_specs(mounts@),
        },
{
    let mut out: Vec<String> = Vec::new();
    let mut i: usize = 0;
    while i < mounts.len()
        invariant
            0 <= i <= mounts@.len(),
            mount_error(mounts@.take(i as int)) is None,
            strings_view(out@) == mount_specs(mounts@.take(i as int)),
        decreases mounts@.len() - i,
    {
        let m = &mounts[i];
        proof {
            assert(mounts@.take(i + 1).drop_last() =~= mounts@.take(i as int));
            assert(mounts@.take(i + 1).last() == mounts@[i as int]);
        }
        if let Err(e) = validate_host_path(m.host_path.as_str()) {
            proof { lemma_mount_error_prefix(mounts@, i + 1); }
            return Err(e);
        }
        if let Err(e) = validate_container_path(m.container_path.as_str()) {
            proof { lemma_mount_error_prefix(mounts@, i + 1); }
            return Err(e);
        }
        let ghost before = out@;
        let v = volume_arg(m.host_path.as_str(), m.container_path.as_str(), m.readonly);
        out.push(v);
        assert(strings_view(out@) =~= strings_view(before).push(v@));
        i += 1;
    }
    assert(mounts@.take(i as int) =~= mounts@);
    Ok(out)
}

/// `dir` joined with the relative file name `name`, as `Path::join` does:
/// a `/` is put between them unless `dir` is empty or already ends with
/// one.
pub open spec fn spec_path_join(dir: Seq<char>, name: Seq<char>) -> Seq<char> {
    if dir.len() == 0 || dir.last() == '/' { dir + name } else { dir + "/"@ + name }
}

/// The staging directory named for the `k`-th start (by a runtime's
/// count) of container `name` at `nanos`, under `root`:
/// `mirage-container-NAME-NANOS-K`.
pub open spec fn staging_dir(root: Seq<char>, name: Seq<char>, nanos: u64, k: u64) -> Seq<char> {
    spec_path_join(root, "mirage-container-"@ + name + "-"@ + decimal(nanos as nat) + "-"@ + decimal(k as nat))
}

proof fn lemma_dash_suffix(y1: Seq<char>, d1: Seq<char>, y2: Seq<char>, d2: Seq<char>)
    requires
        crate::text::all_digits(d1),
        crate::text::all_digits(d2),
        y1 + "-"@ + d1 == y2 + "-"@ + d2,
    ensures
        d1 == d2,
{
    reveal_strlit("-");
    let s = y1 + "-"@ + d1;
    let t = y2 + "-"@ + d2;
    if d1.len() < d2.len() {
        let p = s.len() - d1.len() - 1;
        assert(s[p] == '-');
        assert(t[p] == d2[p - (t.len() - d2.len())]);
        assert(crate::text::is_digit(d2[p - (t.len() - d2.len())]));
    } else if d2.len() < d1.len() {
        let p = t.len() - d2.len() - 1;
        assert(t[p] == '-');
        assert(s[p] == d1[p - (s.len() - d1.len())]);
        assert(crate::text::is_digit(d1[p - (s.len() - d1.len())]));
    } else {
        assert(d1 =~= s.subrange(s.len() - d1.len(), s.len() as int));
        assert(d2 =~= t.subrange(t.len() - d2.len(), t.len() as int));
    }
}

/// Staging directories named under one root for different counts are
/// different, whatever the container names and times.
pub proof fn lemma_staging_dirs_distinct(root: Seq<char>, name1: Seq<char>, nanos1: u64, k1: u64, name2: Seq<char>, nanos2: u64, k2: u64)
    requires
        k1 != k2,
    ensures
        staging_dir(root, name1, nanos1, k1) != staging_dir(root, name2, nanos2, k2),
{
    let pre = if root.len() == 0 || root.last() == '/' { root } else { root + "/"@ };
    let y1 = pre + "mirage-container-"@ + name1 + "-"@ + decimal(nanos1 as nat);
    let y2 = pre + "mirage-container-"@ + name2 + "-"@ + decimal(nanos2 as nat);
    let d1 = decimal(k1 as nat);
    let d2 = decimal(k2 as nat);
    assert(staging_dir(root, name1, nanos1, k1) =~= y1 + "-"@ + d1);
    assert(staging_dir(root, name2, nanos2, k2) =~= y2 + "-"@ + d2);
    crate::text::lemma_decimal_digits(k1 as nat);
    crate::text::lemma_decimal_digits(k2 as nat);
    if staging_dir(root, name1, nanos1, k1) == staging_dir(root, name2, nanos2, k2) {
        lemma_dash_suffix(y1, d1, y2, d2);
        assert(k1 as nat == k2 as nat);
    }
}

/// The count a runtime's staging directories reach after `n` more are
/// named from count `start` (see [`DockerCli::unique_temp_dir`], which
/// wraps at the end of `u64`).
pub open spec fn count_after(start: u64, n: nat) -> u64
    decreases n,
{
    if n == 0 {
        start
    } else {
        let k = count_after(start, (n - 1) as nat);
        if k == u64::MAX { 0 } else { (k + 1) as u64 }
    }
}

proof fn lemma_count_after_fresh(n: nat)
    requires
        n <= u64::MAX,
    ensures
        count_after(0, n) == n,
    decreases n,
{
    if n > 0 {
        lemma_count_after_fresh((n - 1) as nat);
    }
}

/// On a runtime that has named no staging directory yet, the `i`-th and
/// the `j`-th directory it names are different, whatever the container
/// names and times (for the first `u64::MAX` directories).
pub proof fn lemma_successive_staging_dirs_distinct(
    root: Seq<char>,
    name1: Seq<char>,
    nanos1: u64,
    i: nat,
    name2: Seq<char>,
    nanos2: u64,
    j: nat,
)
    requires
        1 <= i < j <= u64::MAX,
    ensures
        staging_dir(root, name1, nanos1, count_after(0, i)) != staging_dir(root, name2, nanos2, count_after(0, j)),
{
    lemma_count_after_fresh(i);
    lemma_count_after_fresh(j);
    lemma_staging_dirs_distinct(root, name1, nanos1, count_after(0, i), name2, nanos2, count_after(0, j));
}

pub(crate) fn path_join(dir: &str, name: &str) -> (r: String)
    ensures
        r@ == spec_path_join(dir@, name@),
{
    let n = dir.unicode_len();
    let mut r = to_owned(dir);
    if n == 0 || dir.get_char(n - 1) == '/' {
        push_str(&mut r, name);
    } else {
        push_str(&mut r, "/");
        push_str(&mut r, name);
    }
    r
}

/// The host file an injected file with position `index` is staged in.
pub open spec fn injected_file_path(dir: Seq<char>, index: nat) -> Seq<char> {
    spec_path_join(dir, "injected-"@ + decimal(index))
}

/// The host file an injected file with position `index` is staged in.
pub fn injected_path(dir: &str, index: usize) -> (r: String)
    ensures
        r@ == injected_file_path(dir@, index as nat),
{
    let mut name = to_owned("injected-");
    push_str(&mut name, u64_to_string(index as u64).as_str());
    path_join(dir, name.as_str())
}

/// The volume arguments of injected files staged under `dir`.
pub open spec fn injected_specs(dir: Seq<char>, files: Seq<InjectedFile>) -> Seq<Seq<char>>
    decreases files.len(),
{
    if files.len() == 0 {
        seq![]
    } else {
        let f = files.last();
        injected_specs(dir, files.drop_last()).push(
            volume_spec(injected_file_path(dir, (files.len() - 1) as nat), f.container_path@, f.readonly),
        )
    }
}

fn injected_values(dir: &str, files: &Vec<InjectedFile>) -> (r: Vec<String>)
    ensures
        strings_view(r@) == injected_specs(dir@, files@),
{
    let mut out: Vec<String> = Vec::new();
    let mut i: usize = 0;
    while i < files.len()
        invariant
            0 <= i <= files@.len(),
            strings_view(out@) == injected_specs(dir@, files@.take(i as int)),
        decreases files@.len() - i,
    {
        let path = injected_path(dir, i);
        let ghost before = out@;
        let v = volume_arg(path.as_str(), files[i].container_path.as_str(), files[i].readonly);
        out.push(v);
        assert(strings_view(out@) =~= strings_view(before).push(v@));
        assert(files@.take(i + 1).drop_last() =~= files@.take(i as int));
        i += 1;
    }
    assert(files@.take(i as int) =~= files@);
    out
}

/// The `KEY=VALUE` words of an environment.
pub open spec fn env_strings(env: Seq<SetEnv>) -> Seq<Seq<char>>
    decreases env.len(),
{
    if env.len() == 0 {
        seq![]
    } else {
        env_strings(env.drop_last()).push(env.last().key@ + "="@ + env.last().value@)
    }
}

pub(crate) fn env_values(env: &Vec<SetEnv>) -> (r: Vec<String>)
    ensures
        strings_view(r@) == env_strings(env@),
{
    let mut out: Vec<String> = Vec::new();
    let mut i: usize = 0;
    while i < env.len()
        invariant
            0 <= i <= env@.len(),
            strings_view(out@) == env_strings(env@.take(i as int)),
        decreases env@.len() - i,
    {
        let ghost before = out@;
        let v = surround(env[i].key.as_str(), "=", env[i].value.as_str());
        out.push(v);
        assert(strings_view(out@) =~= strings_view(before).push(v@));
        assert(env@.take(i + 1).drop_last() =~= env@.take(i as int));
        i += 1;
    }
    assert(env@.take(i as int) =~= env@);
    out
}

/// The `-p` word of a published port: `container/proto` when the runtime
/// picks the host port, else `host:container/proto`.
pub open spec fn port_spec(p: PortMapping) -> Seq<char> {
    if p.host_port == 0 {
        decimal(p.container_port as nat) + "/"@ + spec_protocol_name(p.protocol)
    } else {
        decimal(p.host_port as nat) + ":"@ + decimal(p.container_port as nat) + "/"@ + spec_protocol_name(p.protocol)
    }
}

/// The `-p` word of a published port.
pub fn port_arg(p: &PortMapping) -> (r: String)
    ensures
        r@ == port_spec(*p),
{
    let container = u64_to_string(p.container_port as u64);
    let proto = protocol_name(p.protocol);
    if p.host_port == 0 {
        surround(container.as_str(), "/", proto)
    } else {
        let host = u64_to_string(p.host_port as u64);
        let mut r = surround(host.as_str(), ":", container.as_str());
        push_str(&mut r, "/");
        push_str(&mut r, proto);
        r
    }
}

/// The `-p` words of published ports.
pub open spec fn port_strings(ports: Seq<PortMapping>) -> Seq<Seq<char>>
    decreases ports.len(),
{
    if ports.len() == 0 {
        seq![]
    } else {
        port_strings(ports.drop_last()).push(port_spec(ports.last()))
    }
}

fn port_values(ports: &Vec<PortMapping>) -> (r: Vec<String>)
    ensures
        strings_view(r@) == port_strings(ports@),
{
    let mut out: Vec<String> = Vec::new();
    let mut i: usize = 0;
    while i < ports.len()
        invariant
            0 <= i <= ports@.len(),
            strings_view(out@) == port_strings(ports@.take(i as int)),
        decreases ports@.len() - i,
    {
        let ghost before = out@;
        let v = port_arg(&ports[i]);
        out.push(v);
        assert(strings_view(out@) =~= strings_view(before).push(v@));
        assert(ports@.take(i + 1).drop_last() =~= ports@.take(i as int));
        i += 1;
    }
    assert(ports@.take(i as int) =~= ports@);
    out
}

/// A JSON value as serde_json parsed it: its kind, with a boolean's value,
/// a number's text and a string's contents.
#[derive(Debug, Clone, PartialEq, Eq)]
pub enum JsonKind {
    Null,
    Bool(bool),
    Number(String),
    Text(String),
    Array,
    Object,
}

/// What serde_json makes of the JSON text `json`: the kind of its value,
/// or its error message.
pub uninterp spec fn json_document_of(json: Seq<char>) -> Result<JsonKind, String>;

/// Parse `json` with `serde_json::from_str` into a `serde_json::Value` and
/// tell its kind (a number by its `Display` text), or give the error's
/// message. Claimed: the result depends on `json` alone. Not claimed:
/// which texts parse, or the text serde_json produces.
#[verifier::external_body]
fn json_document(json: &str) -> (r: Result<JsonKind, String>)
    ensures
        r == json_document_of(json@),
{
    match serde_json::from_str::<serde_json::Value>(json) {
        Err(error) => Err(error.to_string()),
        Ok(serde_json::Value::Null) => Ok(JsonKind::Null),
        Ok(serde_json::Value::Bool(b)) => Ok(JsonKind::Bool(b)),
        Ok(serde_json::Value::Number(n)) => Ok(JsonKind::Number(n.to_string())),
        Ok(serde_json::Value::String(s)) => Ok(JsonKind::Text(s)),
        Ok(serde_json::Value::Array(_)) => Ok(JsonKind::Array),
        Ok(serde_json::Value::Object(_)) => Ok(JsonKind::Object),
    }
}

/// What serde_json finds under `key` in the JSON object `json`.
pub uninterp spec fn json_member_of(json: Seq<char>, key: Seq<char>) -> Option<JsonKind>;

/// Parse the JSON object `json` with `serde_json::from_str` and read
/// member `key` with `serde_json::Map::get`, telling its kind as
/// [`json_document`] does. Claimed: the result depends on `json` and `key`
/// alone. Not claimed: which member a key finds (serde_json keeps the last
/// of duplicate keys), or the text of a number.
#[verifier::external_body]
fn json_member(json: &str, key: &str) -> (r: Option<JsonKind>)
    requires
        json_document_of(json@) == Ok::<JsonKind, String>(JsonKind::Object),
    ensures
        r == json_member_of(json@, key@),
{
    match serde_json::from_str::<serde_json::Value>(json) {
        Ok(serde_json::Value::Object(map)) => match map.get(key) {
            None => None,
            Some(serde_json::Value::Null) => Some(JsonKind::Null),
            Some(serde_json::Value::Bool(b)) => Some(JsonKind::Bool(*b)),
            Some(serde_json::Value::Number(n)) => Some(JsonKind::Number(n.to_string())),
            Some(serde_json::Value::String(s)) => Some(JsonKind::Text(s.clone())),
            Some(serde_json::Value::Array(_)) => Some(JsonKind::Array),
            Some(serde_json::Value::Object(_)) => Some(JsonKind::Object),
        },
        _ => None,
    }
}

/// The message for a resource-limit document that is not an object.
pub open spec fn not_object_message() -> Seq<char> {
    "resource_limits_json must be a JSON object"@
}

/// The message for a resource limit of the wrong type.
pub open spec fn limit_type_message(key: Seq<char>) -> Seq<char> {
    "resource limit '"@ + key + "' must be a string or number"@
}

/// The arguments one resource-limit member gives: nothing when absent; the
/// flag and the value when it is a string (its contents) or a number (its
/// text); any other kind is an invalid request.
pub open spec fn member_args(m: Option<JsonKind>, flag: Seq<char>, key: Seq<char>) -> Result<Seq<Seq<char>>, (ErrorKind, Seq<char>)> {
    match m {
        None => Ok(seq![]),
        Some(JsonKind::Text(text)) => Ok(seq![flag, text@]),
        Some(JsonKind::Number(text)) => Ok(seq![flag, text@]),
        Some(_) => Err((ErrorKind::InvalidRequest, limit_type_message(key))),
    }
}

/// The `--cpus` and `--memory` arguments for the members `cpu` and
/// `memory` of a resource-limit object, in that order.
pub open spec fn spec_limit_args(cpu: Option<JsonKind>, memory: Option<JsonKind>) -> Result<Seq<Seq<char>>, (ErrorKind, Seq<char>)> {
    match member_args(cpu, "--cpus"@, "cpu"@) {
        Err(e) => Err(e),
        Ok(a) => match member_args(memory, "--memory"@, "memory"@) {
            Err(e) => Err(e),
            Ok(b) => Ok(a + b),
        },
    }
}

/// Whether a result holding strings agrees with a result of their
/// contents.
pub open spec fn args_agree(r: Result<Vec<String>, ContainerRuntimeError>, s: Result<Seq<Seq<char>>, (ErrorKind, Seq<char>)>) -> bool {
    match s {
        Ok(a) => r matches Ok(v) && strings_view(v@) == a,
        Err(e) => r matches Err(x) && error_view(x) == e,
    }
}

fn push_member(args: &mut Vec<String>, m: Option<JsonKind>, flag: &str, key: &str) -> (r: Result<(), ContainerRuntimeError>)
    ensures
        match member_args(m, flag@, key@) {
            Ok(a) => r is Ok && strings_view(final(args)@) == strings_view(old(args)@) + a,
            Err(e) => r matches Err(x) && error_view(x) == e,
        },
{
    match m {
        None => {
            assert(strings_view(args@) =~= strings_view(old(args)@) + seq![]);
            Ok(())
        },
        Some(JsonKind::Text(text)) => {
            push_owned(args, flag);
            push_owned(args, text.as_str());
            assert(strings_view(args@) =~= strings_view(old(args)@) + seq![flag@, text@]);
            Ok(())
        },
        Some(JsonKind::Number(text)) => {
            push_owned(args, flag);
            push_owned(args, text.as_str());
            assert(strings_view(args@) =~= strings_view(old(args)@) + seq![flag@, text@]);
            Ok(())
        },
        Some(_) => Err(ContainerRuntimeError::InvalidRequest(surround("resource limit '", key, "' must be a string or number"))),
    }
}

/// The resource-limit arguments for the members `cpu` and `memory` that
/// serde_json found in a resource-limit object.
pub fn limit_args(cpu: Option<JsonKind>, memory: Option<JsonKind>) -> (r: Result<Vec<String>, ContainerRuntimeError>)
    ensures
        args_agree(r, spec_limit_args(cpu, memory)),
{
    let mut args: Vec<String> = Vec::new();
    push_member(&mut args, cpu, "--cpus", "cpu")?;
    push_member(&mut args, memory, "--memory", "memory")?;
    Ok(args)
}

/// The resource-limit arguments of a JSON document of the given kind (its
/// parse error message when it does not parse) whose `cpu` and `memory`
/// members are as given: a parse failure is a parse error, a document
/// that is not an object an invalid request, and an object gives the
/// arguments of its members.
pub open spec fn document_limit_args(
    document: Result<JsonKind, String>,
    cpu: Option<JsonKind>,
    memory: Option<JsonKind>,
) -> Result<Seq<Seq<char>>, (ErrorKind, Seq<char>)> {
    match document {
        Err(message) => Err((ErrorKind::Parse, message@)),
        Ok(JsonKind::Object) => spec_limit_args(cpu, memory),
        Ok(_) => Err((ErrorKind::InvalidRequest, not_object_message())),
    }
}

/// The resource-limit arguments of an optional JSON document: none without
/// one; otherwise as [`document_limit_args`] says of it.
pub open spec fn spec_resource_limit_args(json: Option<String>) -> Result<Seq<Seq<char>>, (ErrorKind, Seq<char>)> {
    match json {
        None => Ok(seq![]),
        Some(j) => document_limit_args(json_document_of(j@), json_member_of(j@, "cpu"@), json_member_of(j@, "memory"@)),
    }
}

/// The resource-limit arguments of an optional JSON document.
pub fn resource_limit_args(json: &Option<String>) -> (r: Result<Vec<String>, ContainerRuntimeError>)
    ensures
        args_agree(r, spec_resource_limit_args(*json)),
{
    match json {
        None => {
            let v: Vec<String> = Vec::new();
            assert(strings_view(v@) =~= seq![]);
            Ok(v)
        },
        Some(j) => match json_document(j.as_str()) {
            Err(message) => Err(ContainerRuntimeError::Parse(message)),
            Ok(JsonKind::Object) => {
                let cpu = json_member(j.as_str(), "cpu");
                let memory = json_member(j.as_str(), "memory");
                limit_args(cpu, memory)
            },
            Ok(_) => Err(ContainerRuntimeError::InvalidRequest(to_owned("resource_limits_json must be a JSON object"))),
        },
    }
}

/// The `docker run` arguments for a start request, where `dir` is the
/// directory its injected files were staged in (if any) and `limits` the
/// resource-limit arguments of its JSON document. The name, image and
/// entrypoint command must not be blank, the working directory and every
/// mount path must be absolute; the first violation (in that order, with
/// the resource limits checked after the working directory and before the
/// mounts) is the error.
pub open spec fn spec_run_args(
    request: StartContainerRequest,
    dir: Option<Seq<char>>,
    limits: Result<Seq<Seq<char>>, (ErrorKind, Seq<char>)>,
) -> Result<Seq<Seq<char>>, (ErrorKind, Seq<char>)> {
    let c = request.container;
    if spec_is_blank(request.name@) {
        Err((ErrorKind::InvalidRequest, "container name must not be empty"@))
    } else if spec_is_blank(c.image@) {
        Err((ErrorKind::InvalidRequest, "container image must not be empty"@))
    } else if spec_is_blank(c.entrypoint.command@) {
        Err((ErrorKind::InvalidRequest, "container entrypoint command must not be empty"@))
    } else {
        let workdir_ok = match c.working_dir { Some(w) => spec_is_absolute(w@), None => true };
        if !workdir_ok {
            Err((ErrorKind::InvalidRequest, container_path_message(c.working_dir->0@)))
        } else {
            match limits {
                Err(e) => Err(e),
                Ok(l) => match mount_error(c.mounts@) {
                    Some(m) => Err((ErrorKind::InvalidRequest, m)),
                    None => Ok(
                        seq!["run"@, "-d"@, "--name"@, request.name@, "--label"@, "mirage.managed=true"@]
                        + (if c.privileged { seq!["--privileged"@] } else { seq![] })
                        + flagged("--device"@, strings_view(c.devices@))
                        + (match c.working_dir { Some(w) => seq!["--workdir"@, w@], None => seq![] })
                        + l
                        + flagged("-v"@, mount_specs(c.mounts@))
                        + (match dir { Some(d) => flagged("-v"@, injected_specs(d, c.injected_files@)), None => seq![] })
                        + flagged("-e"@, env_strings(c.entrypoint.env@))
                        + flagged("-p"@, port_strings(c.ports@))
                        + (match c.network { Some(n) => seq!["--network"@, n@], None => seq![] })
                        + seq!["--entrypoint"@, c.entrypoint.command@, c.image@]
                        + strings_view(c.entrypoint.args@),
                    ),
                },
            }
        }
    }
}

proof fn lemma_flagged(flag: Seq<char>, values: Seq<Seq<char>>)
    ensures
        flagged(flag, values).len() == 2 * values.len(),
        forall|k: int| 0 <= k < 2 * values.len() && k % 2 == 0 ==> #[trigger] flagged(flag, values)[k] == flag,
        forall|i: int| 0 <= i < values.len() ==> flagged(flag, values)[2 * i + 1] == #[trigger] values[i],
    decreases values.len(),
{
    if values.len() > 0 {
        let front = values.drop_last();
        lemma_flagged(flag, front);
        let p = flagged(flag, front);
        let r = flagged(flag, values);
        assert(r == p + seq![flag, values.last()]);
        assert forall|k: int| 0 <= k < 2 * values.len() && k % 2 == 0 implies #[trigger] r[k] == flag by {
            if k < p.len() {
                assert(r[k] == p[k]);
            } else {
                assert(k == p.len());
            }
        }
        assert forall|i: int| 0 <= i < values.len() implies r[2 * i + 1] == #[trigger] values[i] by {
            if i < values.len() - 1 {
                assert(front[i] == values[i]);
                assert(r[2 * i + 1] == p[2 * i + 1]);
            } else {
                assert(r[2 * i + 1] == values.last());
            }
        }
    }
}

proof fn lemma_env_strings(env: Seq<SetEnv>)
    ensures
        env_strings(env).len() == env.len(),
        forall|i: int| 0 <= i < env.len() ==> env_strings(env)[i] == (#[trigger] env[i]).key@ + "="@ + env[i].value@,
    decreases env.len(),
{
    if env.len() > 0 {
        lemma_env_strings(env.drop_last());
        assert forall|i: int| 0 <= i < env.len() implies env_strings(env)[i] == (#[trigger] env[i]).key@ + "="@ + env[i].value@ by {
            if i < env.len() - 1 {
                assert(env.drop_last()[i] == env[i]);
            }
        }
    }
}

/// A started container gets its entrypoint's environment: for each
/// variable `KEY` with value `VALUE`, the `docker run` arguments hold `-e`
/// immediately followed by `KEY=VALUE`.
pub proof fn lemma_run_args_pass_env(
    request: StartContainerRequest,
    dir: Option<Seq<char>>,
    limits: Result<Seq<Seq<char>>, (ErrorKind, Seq<char>)>,
)
    ensures
        spec_run_args(request, dir, limits) matches Ok(args) ==> forall|i: int| 0 <= i < request.container.entrypoint.env@.len()
            ==> exists|j: int| #![trigger args[j]] 0 <= j && j + 1 < args.len() && args[j] == "-e"@
                && args[j + 1] == (#[trigger] request.container.entrypoint.env@[i]).key@ + "="@ + request.container.entrypoint.env@[i].value@,
{
    let c = request.container;
    let env = c.entrypoint.env@;
    if let Ok(args) = spec_run_args(request, dir, limits) {
        let l = match limits { Ok(l) => l, Err(_) => seq![] };
        let x = seq!["run"@, "-d"@, "--name"@, request.name@, "--label"@, "mirage.managed=true"@]
            + (if c.privileged { seq!["--privileged"@] } else { seq![] })
            + flagged("--device"@, strings_view(c.devices@))
            + (match c.working_dir { Some(w) => seq!["--workdir"@, w@], None => seq![] })
            + l
            + flagged("-v"@, mount_specs(c.mounts@))
            + (match dir { Some(d) => flagged("-v"@, injected_specs(d, c.injected_files@)), None => seq![] });
        let e = flagged("-e"@, env_strings(env));
        let y = flagged("-p"@, port_strings(c.ports@))
            + (match c.network { Some(n) => seq!["--network"@, n@], None => seq![] })
            + seq!["--entrypoint"@, c.entrypoint.command@, c.image@]
            + strings_view(c.entrypoint.args@);
        assert(args =~= x + e + y);
        lemma_flagged("-e"@, env_strings(env));
        lemma_env_strings(env);
        assert forall|i: int| 0 <= i < env.len() implies exists|j: int| #![trigger args[j]] 0 <= j && j + 1 < args.len() && args[j] == "-e"@
            && args[j + 1] == (#[trigger] env[i]).key@ + "="@ + env[i].value@ by {
            let j = x.len() + 2 * i;
            assert(env_strings(env)[i] == env[i].key@ + "="@ + env[i].value@);
            assert(e[2 * i] == "-e"@ && e[2 * i + 1] == env_strings(env)[i]);
            assert(args[j] == e[2 * i]);
            assert(args[j + 1] == e[2 * i + 1]);
        }
    }
}

/// The `docker run` arguments for a start request whose injected files
/// were staged in `injection_dir`.
pub fn build_run_args(request: &StartContainerRequest, injection_dir: Option<&str>) -> (r: Result<Vec<String>, ContainerRuntimeError>)
    ensures
        args_agree(r, spec_run_args(*request, match injection_dir { Some(d) => Some(d@), None => None },
            spec_resource_limit_args(request.container.resource_limits_json))),
        r matches Ok(v) ==> forall|i: int| 0 <= i < request.container.entrypoint.env@.len()
            ==> exists|j: int| #![trigger strings_view(v@)[j]] 0 <= j && j + 1 < strings_view(v@).len() && strings_view(v@)[j] == "-e"@
                && strings_view(v@)[j + 1] == (#[trigger] request.container.entrypoint.env@[i]).key@ + "="@
                    + request.container.entrypoint.env@[i].value@,
{
    let r = run_args(request, injection_dir);
    proof {
        lemma_run_args_pass_env(*request, match injection_dir { Some(d) => Some(d@), None => None },
            spec_resource_limit_args(request.container.resource_limits_json));
    }
    r
}

fn run_args(request: &StartContainerRequest, injection_dir: Option<&str>) -> (r: Result<Vec<String>, ContainerRuntimeError>)
    ensures
        args_agree(r, spec_run_args(*request, match injection_dir { Some(d) => Some(d@), None => None },
            spec_resource_limit_args(request.container.resource_limits_json))),
{
    let c = &request.container;
    if is_blank(request.name.as_str()) {
        return Err(ContainerRuntimeError::InvalidRequest(to_owned("container name must not be empty")));
    }
    if is_blank(c.image.as_str()) {
        return Err(ContainerRuntimeError::InvalidRequest(to_owned("container image must not be empty")));
    }
    if is_blank(c.entrypoint.command.as_str()) {
        return Err(ContainerRuntimeError::InvalidRequest(to_owned("container entrypoint command must not be empty")));
    }
    let mut args: Vec<String> = Vec::new();
    push_owned(&mut args, "run");
    push_owned(&mut args, "-d");
    push_owned(&mut args, "--name");
    push_owned(&mut args, request.name.as_str());
    push_owned(&mut args, "--label");
    push_owned(&mut args, "mirage.managed=true");
    let ghost head = strings_view(args@);
    assert(head =~= seq!["run"@, "-d"@, "--name"@, request.name@, "--label"@, "mirage.managed=true"@]);
    if c.privileged {
        push_owned(&mut args, "--privileged");
    }
    assert(strings_view(args@) =~= head + (if c.privileged { seq!["--privileged"@] } else { seq![] }));
    push_flagged(&mut args, "--device", &c.devices);
    let ghost before_workdir = strings_view(args@);
    match &c.working_dir {
        Some(w) => {
            validate_container_path(w.as_str())?;
            push_owned(&mut args, "--workdir");
            push_owned(&mut args, w.as_str());
            assert(strings_view(args@) =~= before_workdir + seq!["--workdir"@, w@]);
        },
        None => {
            assert(strings_view(args@) =~= before_workdir + seq![]);
        },
    }
    let limits = resource_limit_args(&c.resource_limits_json)?;
    push_all(&mut args, &limits);
    let mounts = mount_values(&c.mounts)?;
    push_flagged(&mut args, "-v", &mounts);
    let ghost before_injected = strings_view(args@);
    match injection_dir {
        Some(d) => {
            let injected = injected_values(d, &c.injected_files);
            push_flagged(&mut args, "-v", &injected);
        },
        None => {
            assert(strings_view(args@) =~= before_injected + seq![]);
        },
    }
    let env = env_values(&c.entrypoint.env);
    push_flagged(&mut args, "-e", &env);
    let ports = port_values(&c.ports);
    push_flagged(&mut args, "-p", &ports);
    let ghost before_network = strings_view(args@);
    match &c.network {
        Some(n) => {
            push_owned(&mut args, "--network");
            push_owned(&mut args, n.as_str());
            assert(strings_view(args@) =~= before_network + seq!["--network"@, n@]);
        },
        None => {
            assert(strings_view(args@) =~= before_network + seq![]);
        },
    }
    let ghost before_tail = strings_view(args@);
    push_owned(&mut args, "--entrypoint");
    push_owned(&mut args, c.entrypoint.command.as_str());
    push_owned(&mut args, c.image.as_str());
    assert(strings_view(args@) =~= before_tail + seq!["--entrypoint"@, c.entrypoint.command@, c.image@]);
    push_all(&mut args, &c.entrypoint.args);
    Ok(args)
}

/// The text `String::from_utf8_lossy` makes of `bytes` that are not valid
/// UTF-8 (with replacement characters).
pub uninterp spec fn utf8_replaced(bytes: Seq<u8>) -> Seq<char>;

/// The text `String::from_utf8_lossy` makes of `bytes`: the text they
/// encode when they are valid UTF-8.
pub open spec fn utf8_lossy(bytes: Seq<u8>) -> Seq<char> {
    if vstd::utf8::valid_utf8(bytes) { vstd::utf8::decode_utf8(bytes) } else { utf8_replaced(bytes) }
}

/// `String::from_utf8_lossy(bytes)` as an owned string. Claimed, as std
/// documents: valid UTF-8 comes back as the text it encodes; otherwise the
/// text depends on the bytes alone.
#[verifier::external_body]
fn lossy_string(bytes: &[u8]) -> (r: String)
    ensures
        vstd::utf8::valid_utf8(bytes@) ==> r@ == vstd::utf8::decode_utf8(bytes@),
        !vstd::utf8::valid_utf8(bytes@) ==> r@ == utf8_replaced(bytes@),
{
    String::from_utf8_lossy(bytes).into_owned()
}

/// The message of the error `s.parse::<u16>()` gives.
pub uninterp spec fn parse_u16_message(s: Seq<char>) -> Seq<char>;

/// `s.parse::<u16>()`, the error as its message. Claimed, as the standard
/// library documents for unsigned integers: the text parses exactly when
/// it is an optional `+` followed by decimal digits whose value fits; the
/// message depends on the text alone.
#[verifier::external_body]
fn parse_u16_std(s: &str) -> (r: Result<u16, String>)
    ensures
        match crate::text::spec_parse_unsigned(s@, u16::MAX as nat) {
            Some(v) => r == Ok::<u16, String>(v as u16),
            None => r matches Err(m) && m@ == parse_u16_message(s@),
        },
{
    s.parse::<u16>().map_err(|error| error.to_string())
}

/// What running a program printed and how it exited (`None` when killed
/// by a signal).
#[derive(Debug, Clone, PartialEq, Eq)]
pub struct CommandOutput {
    pub status: Option<i32>,
    pub stdout: Vec<u8>,
    pub stderr: Vec<u8>,
}

/// Why a program could not be run: whether it was not found, and the
/// system's message.
#[derive(Debug, Clone, PartialEq, Eq)]
pub struct RunFailure {
    pub not_found: bool,
    pub message: String,
}

/// Runs a program with arguments for one runtime operation.
pub trait CommandRunner {
    fn run(&self, program: &str, args: &Vec<String>, operation: crate::container::ContainerRuntimeOperation) -> Result<CommandOutput, RunFailure>;
}

/// The message for a runtime program that is not installed.
pub open spec fn unavailable_message(program: Seq<char>) -> Seq<char> {
    program + " is not installed or not on PATH"@
}

/// Whether `r` is the outcome of running `program` when the runner gave
/// `output`: its output when it ran; a program that cannot be found makes
/// the runtime unavailable, any other failure to run it is an I/O error.
pub open spec fn outcome_of(program: Seq<char>, output: Result<CommandOutput, RunFailure>, r: Result<CommandOutput, ContainerRuntimeError>) -> bool {
    match output {
        Ok(o) => r == Ok::<CommandOutput, ContainerRuntimeError>(o),
        Err(f) => r matches Err(e) && if f.not_found {
            error_view(e) == (ErrorKind::RuntimeUnavailable, unavailable_message(program))
        } else {
            error_view(e) == (ErrorKind::Io, f.message@)
        },
    }
}

/// Whether `output` is something `runner` gave, by its own account, when
/// asked to run `program` with `args` for `operation`.
pub open spec fn runner_gave<R: CommandRunner>(
    runner: R,
    program: Seq<char>,
    args: Seq<Seq<char>>,
    operation: crate::container::ContainerRuntimeOperation,
    output: Result<CommandOutput, RunFailure>,
) -> bool {
    exists|p: &str, a: &Vec<String>| #[trigger] call_ensures(R::run, (&runner, p, a, operation), output)
        && p@ == program && strings_view(a@) == args
}

/// The outcome of running the runtime program, whatever the program did
/// (see [`outcome_of`]).
pub fn run_outcome(program: &str, output: Result<CommandOutput, RunFailure>) -> (r: Result<CommandOutput, ContainerRuntimeError>)
    ensures
        outcome_of(program@, output, r),
{
    match output {
        Ok(o) => Ok(o),
        Err(f) => {
            if f.not_found {
                let mut m = to_owned(program);
                push_str(&mut m, " is not installed or not on PATH");
                Err(ContainerRuntimeError::RuntimeUnavailable(m))
            } else {
                Err(ContainerRuntimeError::Io(f.message))
            }
        },
    }
}

/// Whether trimmed error output says the container or object is missing.
pub open spec fn says_missing(stderr: Seq<char>) -> bool {
    crate::text::spec_contains(stderr, "No such container"@) || crate::text::spec_contains(stderr, "No such object"@)
}

/// The outcome of a command that must succeed: exit status 0 is success;
/// otherwise its trimmed error output names a missing container or object
/// (not found) or the command failed, with its command line, status and
/// trimmed output.
pub open spec fn checked_result(program: Seq<char>, args: Seq<Seq<char>>, output: CommandOutput, r: Result<CommandOutput, ContainerRuntimeError>) -> bool {
    let stderr = crate::text::spec_trim(utf8_lossy(output.stderr@));
    if output.status == Some(0i32) {
        r == Ok::<CommandOutput, ContainerRuntimeError>(output)
    } else if says_missing(stderr) {
        r matches Err(e) && error_view(e) == (ErrorKind::NotFound, stderr)
    } else {
        r matches Err(ContainerRuntimeError::CommandFailed { command, status, stdout, stderr: err }) && {
            &&& command@ == spec_format_command(program, args)
            &&& status == output.status
            &&& stdout@ == crate::text::spec_trim(utf8_lossy(output.stdout@))
            &&& err@ == stderr
        }
    }
}

/// The outcome of a command that must succeed.
pub fn check_output(program: &str, args: &Vec<String>, output: CommandOutput) -> (r: Result<CommandOutput, ContainerRuntimeError>)
    ensures
        checked_result(program@, strings_view(args@), output, r),
{
    if output.status == Some(0i32) {
        return Ok(output);
    }
    let stderr = crate::text::trim(lossy_string(output.stderr.as_slice()).as_str());
    if crate::text::contains(stderr.as_str(), "No such container") || crate::text::contains(stderr.as_str(), "No such object") {
        return Err(ContainerRuntimeError::NotFound(stderr));
    }
    let stdout = crate::text::trim(lossy_string(output.stdout.as_slice()).as_str());
    Err(ContainerRuntimeError::CommandFailed {
        command: format_command(program, args),
        status: output.status,
        stdout,
        stderr,
    })
}

/// A list of two words.
fn words2(a: &str, b: &str) -> (r: Vec<String>)
    ensures
        strings_view(r@) == seq![a@, b@],
{
    let mut v: Vec<String> = Vec::new();
    push_owned(&mut v, a);
    push_owned(&mut v, b);
    v
}

/// The message for a blank image.
pub open spec fn blank_image_message() -> Seq<char> {
    "container image must not be empty"@
}

/// `docker pull IMAGE`, for an image that is not blank.
pub fn pull_args(image: &str) -> (r: Result<Vec<String>, ContainerRuntimeError>)
    ensures
        args_agree(r, if spec_is_blank(image@) { Err((ErrorKind::InvalidRequest, blank_image_message())) } else { Ok(seq!["pull"@, image@]) }),
{
    if is_blank(image) {
        return Err(ContainerRuntimeError::InvalidRequest(to_owned("container image must not be empty")));
    }
    Ok(words2("pull", image))
}

/// `docker inspect ID`.
pub fn inspect_args(id: &str) -> (r: Vec<String>)
    ensures
        strings_view(r@) == seq!["inspect"@, id@],
{
    words2("inspect", id)
}

/// `docker logs ID`.
pub fn logs_args(id: &str) -> (r: Vec<String>)
    ensures
        strings_view(r@) == seq!["logs"@, id@],
{
    words2("logs", id)
}

/// `docker stop --time SECONDS ID`.
pub fn stop_args(id: &str, timeout_secs: u32) -> (r: Vec<String>)
    ensures
        strings_view(r@) == seq!["stop"@, "--time"@, decimal(timeout_secs as nat), id@],
{
    let mut v = words2("stop", "--time");
    let t = u64_to_string(timeout_secs as u64);
    push_owned(&mut v, t.as_str());
    push_owned(&mut v, id);
    v
}

/// `docker rm [-f] ID`.
pub fn remove_args(id: &str, force: bool) -> (r: Vec<String>)
    ensures
        strings_view(r@) == seq!["rm"@] + (if force { seq!["-f"@] } else { seq![] }) + seq![id@],
{
    let mut v: Vec<String> = Vec::new();
    push_owned(&mut v, "rm");
    if force {
        push_owned(&mut v, "-f");
    }
    push_owned(&mut v, id);
    v
}

/// The message for a blank network name.
pub open spec fn blank_network_message() -> Seq<char> {
    "network name must not be empty"@
}

/// `docker network ACTION NAME` (`create` or `rm`), for a name that is
/// not blank.
pub fn network_args(action: &str, name: &str) -> (r: Result<Vec<String>, ContainerRuntimeError>)
    ensures
        args_agree(r, if spec_is_blank(name@) { Err((ErrorKind::InvalidRequest, blank_network_message())) } else { Ok(seq!["network"@, action@, name@]) }),
{
    if is_blank(name) {
        return Err(ContainerRuntimeError::InvalidRequest(to_owned("network name must not be empty")));
    }
    let mut v = words2("network", action);
    push_owned(&mut v, name);
    assert(strings_view(v@) =~= seq!["network"@, action@, name@]);
    Ok(v)
}

/// The `docker exec` arguments for running a program in a container: the
/// command must not be blank and a working directory must be absolute.
pub open spec fn spec_exec_args(request: crate::container::ExecRequest) -> Result<Seq<Seq<char>>, (ErrorKind, Seq<char>)> {
    if spec_is_blank(request.program.command@) {
        Err((ErrorKind::InvalidRequest, "exec command must not be empty"@))
    } else {
        match request.working_dir {
            Some(w) => if !spec_is_absolute(w@) {
                Err((ErrorKind::InvalidRequest, container_path_message(w@)))
            } else {
                Ok(seq!["exec"@, "--workdir"@, w@] + flagged("-e"@, env_strings(request.program.env@))
                    + seq![request.container.id@, request.program.command@] + strings_view(request.program.args@))
            },
            None => Ok(seq!["exec"@] + flagged("-e"@, env_strings(request.program.env@))
                + seq![request.container.id@, request.program.command@] + strings_view(request.program.args@)),
        }
    }
}

/// The `docker exec` arguments for running a program in a container.
pub fn exec_args(request: &crate::container::ExecRequest) -> (r: Result<Vec<String>, ContainerRuntimeError>)
    ensures
        args_agree(r, spec_exec_args(*request)),
{
    if is_blank(request.program.command.as_str()) {
        return Err(ContainerRuntimeError::InvalidRequest(to_owned("exec command must not be empty")));
    }
    let mut args: Vec<String> = Vec::new();
    push_owned(&mut args, "exec");
    let ghost start = strings_view(args@);
    match &request.working_dir {
        Some(w) => {
            validate_container_path(w.as_str())?;
            push_owned(&mut args, "--workdir");
            push_owned(&mut args, w.as_str());
            assert(strings_view(args@) =~= seq!["exec"@, "--workdir"@, w@]);
        },
        None => {
            assert(strings_view(args@) =~= seq!["exec"@]);
        },
    }
    let env = env_values(&request.program.env);
    push_flagged(&mut args, "-e", &env);
    let ghost before_tail = strings_view(args@);
    push_owned(&mut args, request.container.id.as_str());
    push_owned(&mut args, request.program.command.as_str());
    assert(strings_view(args@) =~= before_tail + seq![request.container.id@, request.program.command@]);
    push_all(&mut args, &request.program.args);
    Ok(args)
}

/// Whether `r` is what an exec comes to when the program gave `output`:
/// error output naming a missing container means it was not found;
/// otherwise the exit status (0 when killed) and both outputs.
pub open spec fn exec_outcome_of(output: CommandOutput, r: Result<crate::container::ExecResult, ContainerRuntimeError>) -> bool {
    if crate::text::spec_contains(utf8_lossy(output.stderr@), "No such container"@) {
        r matches Err(e) && error_view(e) == (ErrorKind::NotFound, crate::text::spec_trim(utf8_lossy(output.stderr@)))
    } else {
        r matches Ok(x) && x.exit_code == (match output.status { Some(s) => s, None => 0 })
            && x.stdout@ == output.stdout@ && x.stderr@ == output.stderr@
    }
}

/// The result of a program run in a container, from the runtime's output
/// (whatever its status): error output naming a missing container means
/// not found (with the trimmed text); otherwise the status (0 when killed
/// by a signal) and both outputs.
pub fn exec_outcome(output: CommandOutput) -> (r: Result<crate::container::ExecResult, ContainerRuntimeError>)
    ensures
        exec_outcome_of(output, r),
{
    let text = lossy_string(output.stderr.as_slice());
    if crate::text::contains(text.as_str(), "No such container") {
        return Err(ContainerRuntimeError::NotFound(crate::text::trim(text.as_str())));
    }
    let exit_code = match output.status { Some(s) => s, None => 0 };
    Ok(crate::container::ExecResult { exit_code, stdout: output.stdout, stderr: output.stderr })
}

/// Whether `r` is the container id `docker run` printed: its trimmed
/// output, which must not be empty.
pub open spec fn container_id_of(output: CommandOutput, r: Result<String, ContainerRuntimeError>) -> bool {
    let id = crate::text::spec_trim(utf8_lossy(output.stdout@));
    if id.len() == 0 {
        r matches Err(e) && error_view(e) == (ErrorKind::Parse, "docker run did not return a container id"@)
    } else {
        r matches Ok(s) && s@ == id
    }
}

/// The container id `docker run` printed: its trimmed output, which must
/// not be empty.
pub fn container_id_from(output: &CommandOutput) -> (r: Result<String, ContainerRuntimeError>)
    ensures
        container_id_of(*output, r),
{
    let id = crate::text::trim(lossy_string(output.stdout.as_slice()).as_str());
    if id.unicode_len() == 0 {
        return Err(ContainerRuntimeError::Parse(to_owned("docker run did not return a container id")));
    }
    Ok(id)
}

/// The position of the first `c` in `s`, or -1.
pub open spec fn first_index(s: Seq<char>, c: char) -> int
    decreases s.len(),
{
    if s.len() == 0 {
        -1
    } else if s[0] == c {
        0
    } else {
        let k = first_index(s.drop_first(), c);
        if k < 0 { -1 } else { k + 1 }
    }
}

pub(crate) proof fn lemma_first_index(s: Seq<char>, c: char, i: int)
    requires
        0 <= i <= s.len(),
        forall|j: int| 0 <= j < i ==> s[j] != c,
    ensures
        i < s.len() && s[i] == c ==> first_index(s, c) == i,
        i == s.len() ==> first_index(s, c) == -1,
    decreases i,
{
    if i > 0 {
        lemma_first_index(s.drop_first(), c, i - 1);
    }
}

/// The message for a port key without a protocol.
pub open spec fn port_key_message(key: Seq<char>) -> Seq<char> {
    "invalid port mapping key '"@ + key + "'"@
}

/// The message for an unknown protocol.
pub open spec fn protocol_message(protocol: Seq<char>) -> Seq<char> {
    "unsupported protocol '"@ + protocol + "'"@
}

/// The container port and protocol of a docker port key `PORT/PROTO`:
/// split at the first `/`, the port a `u16`, the protocol `tcp` or `udp`.
pub open spec fn spec_parse_port_key(key: Seq<char>) -> Result<(u16, Protocol), (ErrorKind, Seq<char>)> {
    let i = first_index(key, '/');
    if i < 0 {
        Err((ErrorKind::Parse, port_key_message(key)))
    } else {
        let port = key.subrange(0, i);
        let proto = key.subrange(i + 1, key.len() as int);
        match crate::text::spec_parse_unsigned(port, u16::MAX as nat) {
            None => Err((ErrorKind::Parse, parse_u16_message(port))),
            Some(p) => if proto == "tcp"@ {
                Ok((p as u16, Protocol::Tcp))
            } else if proto == "udp"@ {
                Ok((p as u16, Protocol::Udp))
            } else {
                Err((ErrorKind::Parse, protocol_message(proto)))
            },
        }
    }
}

/// A port key printed as `PORT/PROTO` parses back to that port and
/// protocol.
pub proof fn lemma_port_key_round_trip(port: u16, protocol: Protocol)
    ensures
        spec_parse_port_key(decimal(port as nat) + "/"@ + spec_protocol_name(protocol))
            == Ok::<(u16, Protocol), (ErrorKind, Seq<char>)>((port, protocol)),
{
    reveal_strlit("/");
    reveal_strlit("tcp");
    reveal_strlit("udp");
    let d = decimal(port as nat);
    crate::text::lemma_decimal_digits(port as nat);
    let name = spec_protocol_name(protocol);
    let key = d + "/"@ + name;
    assert forall|j: int| 0 <= j < d.len() implies key[j] != '/' by {
        assert(key[j] == d[j]);
        assert(crate::text::is_digit(d[j]));
    }
    assert(key[d.len() as int] == '/');
    lemma_first_index(key, '/', d.len() as int);
    assert(key.subrange(0, d.len() as int) =~= d);
    assert(key.subrange(d.len() as int + 1, key.len() as int) =~= name);
    assert(crate::text::is_digit(d[0]));
    assert(crate::text::unsigned_digits(d) == d);
    assert(crate::text::spec_parse_unsigned(d, u16::MAX as nat) == Some(port as nat));
    assert(first_index(key, '/') == d.len());
    assert(key.subrange(0, first_index(key, '/')) == d);
    assert(key.subrange(first_index(key, '/') + 1, key.len() as int) == name);
    match protocol {
        Protocol::Tcp => assert(name == "tcp"@),
        Protocol::Udp => {
            assert("udp"@[0] != "tcp"@[0]);
            assert(name == "udp"@ && name != "tcp"@);
        },
    }
    assert((port as nat) as u16 == port);
}

/// Whether a result agrees with a spec result of the same values.
pub open spec fn result_agrees<T>(r: Result<T, ContainerRuntimeError>, s: Result<T, (ErrorKind, Seq<char>)>) -> bool {
    match s {
        Ok(v) => r matches Ok(x) && x == v,
        Err(e) => r matches Err(x) && error_view(x) == e,
    }
}

/// The container port and protocol of a docker port key.
pub fn parse_port_key(key: &str) -> (r: Result<(u16, Protocol), ContainerRuntimeError>)
    ensures
        result_agrees(r, spec_parse_port_key(key@)),
{
    let n = key.unicode_len();
    let mut i: usize = 0;
    while i < n && key.get_char(i) != '/'
        invariant
            0 <= i <= n,
            n == key@.len(),
            forall|j: int| 0 <= j < i ==> key@[j] != '/',
        decreases n - i,
    {
        i += 1;
    }
    proof { lemma_first_index(key@, '/', i as int); }
    if i == n {
        return Err(ContainerRuntimeError::Parse(surround("invalid port mapping key '", key, "'")));
    }
    let port_text = key.substring_char(0, i);
    let proto = key.substring_char(i + 1, n);
    let port = match parse_u16_std(port_text) {
        Ok(p) => p,
        Err(m) => return Err(ContainerRuntimeError::Parse(m)),
    };
    if crate::protocol::str_eq(proto, "tcp") {
        Ok((port, Protocol::Tcp))
    } else if crate::protocol::str_eq(proto, "udp") {
        Ok((port, Protocol::Udp))
    } else {
        Err(ContainerRuntimeError::Parse(surround("unsupported protocol '", proto, "'")))
    }
}

/// The container state docker reports as `status`.
pub open spec fn spec_parse_state(status: Seq<char>) -> Result<crate::container::ContainerState, (ErrorKind, Seq<char>)> {
    if status == "created"@ {
        Ok(crate::container::ContainerState::Created)
    } else if status == "running"@ {
        Ok(crate::container::ContainerState::Running)
    } else if status == "exited"@ {
        Ok(crate::container::ContainerState::Exited)
    } else if status == "dead"@ {
        Ok(crate::container::ContainerState::Dead)
    } else {
        Err((ErrorKind::Parse, "unsupported docker container state '"@ + status + "'"@))
    }
}

/// The container state docker reports as `status`.
pub fn parse_state(status: &str) -> (r: Result<crate::container::ContainerState, ContainerRuntimeError>)
    ensures
        result_agrees(r, spec_parse_state(status@)),
{
    if crate::protocol::str_eq(status, "created") {
        Ok(crate::container::ContainerState::Created)
    } else if crate::protocol::str_eq(status, "running") {
        Ok(crate::container::ContainerState::Running)
    } else if crate::protocol::str_eq(status, "exited") {
        Ok(crate::container::ContainerState::Exited)
    } else if crate::protocol::str_eq(status, "dead") {
        Ok(crate::container::ContainerState::Dead)
    } else {
        Err(ContainerRuntimeError::Parse(surround("unsupported docker container state '", status, "'")))
    }
}

/// The label a request gave a published port.
#[derive(Debug, Clone, PartialEq, Eq)]
pub struct PortLabel {
    pub container_port: u16,
    pub protocol: Protocol,
    pub label: Option<String>,
}

/// The labels of a request's published ports, in order.
pub open spec fn spec_port_labels(ports: Seq<PortMapping>) -> Seq<PortLabel>
    decreases ports.len(),
{
    if ports.len() == 0 {
        seq![]
    } else {
        let p = ports.last();
        spec_port_labels(ports.drop_last()).push(PortLabel { container_port: p.container_port, protocol: p.protocol, label: p.label })
    }
}

/// The label recorded for a port: the last record for it wins; none when
/// there is no record or it has no label.
pub open spec fn label_for(labels: Seq<PortLabel>, port: u16, protocol: Protocol) -> Option<String>
    decreases labels.len(),
{
    if labels.len() == 0 {
        None
    } else if labels.last().container_port == port && labels.last().protocol == protocol {
        labels.last().label
    } else {
        label_for(labels.drop_last(), port, protocol)
    }
}

fn clone_label(label: &Option<String>) -> (r: Option<String>)
    ensures
        r == *label,
{
    match label {
        Some(s) => Some(s.clone()),
        None => None,
    }
}

fn find_label(labels: &Vec<PortLabel>, port: u16, protocol: Protocol) -> (r: Option<String>)
    ensures
        r == label_for(labels@, port, protocol),
{
    let mut i = labels.len();
    assert(labels@.take(i as int) =~= labels@);
    while i > 0
        invariant
            0 <= i <= labels@.len(),
            label_for(labels@, port, protocol) == label_for(labels@.take(i as int), port, protocol),
        decreases i,
    {
        assert(labels@.take(i as int).drop_last() =~= labels@.take(i - 1));
        let l = &labels[i - 1];
        if l.container_port == port && l.protocol == protocol {
            return clone_label(&l.label);
        }
        i -= 1;
    }
    None
}

/// A port key and its first host binding, as `docker inspect` lists them.
#[derive(Debug, Clone, PartialEq, Eq)]
pub struct DockerPortEntry {
    pub key: String,
    pub host_port: Option<String>,
}

/// The fields of a `docker inspect` entry the runtime reads.
#[derive(Debug, Clone, PartialEq, Eq)]
pub struct DockerInspectEntry {
    pub id: String,
    pub name: String,
    pub image: String,
    pub status: String,
    pub exit_code: i32,
    pub ports: Vec<DockerPortEntry>,
}

/// The resolved mapping of one inspected port, labelled from `labels`.
pub open spec fn spec_resolve_port(e: DockerPortEntry, labels: Seq<PortLabel>) -> Result<crate::container::ResolvedPortMapping, (ErrorKind, Seq<char>)> {
    match spec_parse_port_key(e.key@) {
        Err(x) => Err(x),
        Ok((port, protocol)) => {
            let host: Result<Option<u16>, (ErrorKind, Seq<char>)> = match e.host_port {
                None => Ok(None),
                Some(h) => match crate::text::spec_parse_unsigned(h@, u16::MAX as nat) {
                    Some(v) => Ok(Some(v as u16)),
                    None => Err((ErrorKind::Parse, parse_u16_message(h@))),
                },
            };
            match host {
                Err(x) => Err(x),
                Ok(host_port) => Ok(crate::container::ResolvedPortMapping {
                    container_port: port,
                    host_port,
                    protocol,
                    label: label_for(labels, port, protocol),
                }),
            }
        },
    }
}

/// The resolved mappings of inspected ports in order, or the first error.
pub open spec fn spec_resolve_ports(entries: Seq<DockerPortEntry>, labels: Seq<PortLabel>) -> Result<Seq<crate::container::ResolvedPortMapping>, (ErrorKind, Seq<char>)>
    decreases entries.len(),
{
    if entries.len() == 0 {
        Ok(seq![])
    } else {
        match spec_resolve_ports(entries.drop_last(), labels) {
            Err(x) => Err(x),
            Ok(done) => match spec_resolve_port(entries.last(), labels) {
                Err(x) => Err(x),
                Ok(p) => Ok(done.push(p)),
            },
        }
    }
}

proof fn lemma_resolve_prefix_err(entries: Seq<DockerPortEntry>, labels: Seq<PortLabel>, i: int)
    requires
        0 <= i <= entries.len(),
        spec_resolve_ports(entries.take(i), labels) is Err,
    ensures
        spec_resolve_ports(entries, labels) == spec_resolve_ports(entries.take(i), labels),
    decreases entries.len() - i,
{
    if i < entries.len() {
        assert(entries.take(i + 1).drop_last() =~= entries.take(i));
        lemma_resolve_prefix_err(entries, labels, i + 1);
    } else {
        assert(entries.take(i) =~= entries);
    }
}

fn resolve_port(e: &DockerPortEntry, labels: &Vec<PortLabel>) -> (r: Result<crate::container::ResolvedPortMapping, ContainerRuntimeError>)
    ensures
        result_agrees(r, spec_resolve_port(*e, labels@)),
{
    let (port, protocol) = parse_port_key(e.key.as_str())?;
    let host_port = match &e.host_port {
        None => None,
        Some(h) => match parse_u16_std(h.as_str()) {
            Ok(v) => Some(v),
            Err(m) => return Err(ContainerRuntimeError::Parse(m)),
        },
    };
    Ok(crate::container::ResolvedPortMapping { container_port: port, host_port, protocol, label: find_label(labels, port, protocol) })
}

/// Whether port `a` sorts before port `b`: by container port, then by
/// protocol name (`tcp` before `udp`).
pub open spec fn port_before(a: crate::container::ResolvedPortMapping, b: crate::container::ResolvedPortMapping) -> bool {
    a.container_port < b.container_port
        || (a.container_port == b.container_port && a.protocol == Protocol::Tcp && b.protocol == Protocol::Udp)
}

/// `sorted` with `x` inserted after every element that does not sort
/// after it.
pub open spec fn insert_sorted(sorted: Seq<crate::container::ResolvedPortMapping>, x: crate::container::ResolvedPortMapping) -> Seq<crate::container::ResolvedPortMapping>
    decreases sorted.len(),
{
    if sorted.len() == 0 {
        seq![x]
    } else if port_before(x, sorted.last()) {
        insert_sorted(sorted.drop_last(), x).push(sorted.last())
    } else {
        sorted.push(x)
    }
}

/// `ports` stably sorted by [`port_before`] (what `sort_by` with that
/// order gives).
pub open spec fn sort_ports(ports: Seq<crate::container::ResolvedPortMapping>) -> Seq<crate::container::ResolvedPortMapping>
    decreases ports.len(),
{
    if ports.len() == 0 {
        seq![]
    } else {
        insert_sorted(sort_ports(ports.drop_last()), ports.last())
    }
}

proof fn lemma_insert_at(s: Seq<crate::container::ResolvedPortMapping>, x: crate::container::ResolvedPortMapping, p: int)
    requires
        0 <= p <= s.len(),
        forall|j: int| p <= j < s.len() ==> port_before(x, #[trigger] s[j]),
        p > 0 ==> !port_before(x, s[p - 1]),
    ensures
        insert_sorted(s, x) == s.insert(p, x),
    decreases s.len(),
{
    if s.len() == 0 {
        assert(s.insert(p, x) =~= seq![x]);
    } else if p == s.len() {
        assert(s.insert(p, x) =~= s.push(x));
    } else {
        assert(port_before(x, s[s.len() - 1]));
        lemma_insert_at(s.drop_last(), x, p);
        assert(s.insert(p, x) =~= s.drop_last().insert(p, x).push(s.last()));
    }
}

fn port_before_exec(a: &crate::container::ResolvedPortMapping, b: &crate::container::ResolvedPortMapping) -> (r: bool)
    ensures
        r == port_before(*a, *b),
{
    a.container_port < b.container_port
        || (a.container_port == b.container_port && a.protocol == Protocol::Tcp && b.protocol == Protocol::Udp)
}

fn sort_resolved(ports: Vec<crate::container::ResolvedPortMapping>) -> (r: Vec<crate::container::ResolvedPortMapping>)
    ensures
        r@ == sort_ports(ports@),
{
    let mut out: Vec<crate::container::ResolvedPortMapping> = Vec::new();
    let mut rest = ports;
    let ghost all = rest@;
    let ghost mut done: int = 0;
    while rest.len() > 0
        invariant
            0 <= done <= all.len(),
            rest@ == all.skip(done),
            out@ == sort_ports(all.take(done)),
        decreases rest@.len(),
    {
        let x = rest.remove(0);
        proof {
            assert(all[done] == x);
            assert(all.take(done + 1).drop_last() =~= all.take(done));
            assert(all.skip(done + 1) =~= all.skip(done).drop_first());
        }
        let mut p = out.len();
        while p > 0 && port_before_exec(&x, &out[p - 1])
            invariant
                0 <= p <= out@.len(),
                forall|j: int| p <= j < out@.len() ==> port_before(x, #[trigger] out@[j]),
            decreases p,
        {
            p -= 1;
        }
        proof { lemma_insert_at(out@, x, p as int); }
        out.insert(p, x);
        proof { done = done + 1; }
    }
    assert(all.take(done) =~= all);
    out
}

/// Whether `name` has no leading `/`.
pub open spec fn spec_strip_slashes(name: Seq<char>) -> Seq<char>
    decreases name.len(),
{
    if name.len() > 0 && name[0] == '/' { spec_strip_slashes(name.drop_first()) } else { name }
}

fn strip_slashes(name: &str) -> (r: String)
    ensures
        r@ == spec_strip_slashes(name@),
{
    let n = name.unicode_len();
    let mut i: usize = 0;
    assert(name@.subrange(0, n as int) =~= name@);
    while i < n && name.get_char(i) == '/'
        invariant
            0 <= i <= n,
            n == name@.len(),
            spec_strip_slashes(name@) == spec_strip_slashes(name@.subrange(i as int, n as int)),
        decreases n - i,
    {
        assert(name@.subrange(i as int, n as int).drop_first() =~= name@.subrange(i + 1, n as int));
        i += 1;
    }
    to_owned(name.substring_char(i, n))
}

/// What a `docker inspect` reply says of a container, given the port
/// labels recorded for it: its first entry (an empty reply is a parse
/// error), the name without leading slashes, the ports resolved in order
/// and then sorted, and the state (port errors come first).
pub open spec fn inspection_result(entries: Seq<DockerInspectEntry>, labels: Seq<PortLabel>, r: Result<crate::container::ContainerInspection, ContainerRuntimeError>) -> bool {
    if entries.len() == 0 {
        r matches Err(e) && error_view(e) == (ErrorKind::Parse, "docker inspect returned an empty response"@)
    } else {
        let entry = entries[0];
        match spec_resolve_ports(entry.ports@, labels) {
            Err(x) => r matches Err(e) && error_view(e) == x,
            Ok(ports) => match spec_parse_state(entry.status@) {
                Err(x) => r matches Err(e) && error_view(e) == x,
                Ok(state) => r matches Ok(i) && {
                    &&& i.handle.id@ == entry.id@
                    &&& i.handle.name@ == spec_strip_slashes(entry.name@)
                    &&& i.image@ == entry.image@
                    &&& i.state == state
                    &&& i.exit_code == Some(entry.exit_code)
                    &&& i.ports@ == sort_ports(ports)
                },
            },
        }
    }
}

/// What a `docker inspect` reply says of a container whose ports carry
/// the labels `labels`.
pub fn inspection_from(entries: Vec<DockerInspectEntry>, labels: &Vec<PortLabel>) -> (r: Result<crate::container::ContainerInspection, ContainerRuntimeError>)
    ensures
        inspection_result(entries@, labels@, r),
{
    if entries.len() == 0 {
        return Err(ContainerRuntimeError::Parse(to_owned("docker inspect returned an empty response")));
    }
    let entry = &entries[0];
    let mut ports: Vec<crate::container::ResolvedPortMapping> = Vec::new();
    let mut i: usize = 0;
    while i < entry.ports.len()
        invariant
            entries@.len() > 0,
            *entry == entries@[0],
            0 <= i <= entry.ports@.len(),
            spec_resolve_ports(entry.ports@.take(i as int), labels@) == Ok::<Seq<crate::container::ResolvedPortMapping>, (ErrorKind, Seq<char>)>(ports@),
        decreases entry.ports@.len() - i,
    {
        proof {
            assert(entry.ports@.take(i + 1).drop_last() =~= entry.ports@.take(i as int));
            assert(entry.ports@.take(i + 1).last() == entry.ports@[i as int]);
        }
        match resolve_port(&entry.ports[i], labels) {
            Ok(p) => ports.push(p),
            Err(e) => {
                proof {
                    lemma_resolve_prefix_err(entry.ports@, labels@, i + 1);
                }
                return Err(e);
            },
        }
        i += 1;
    }
    assert(entry.ports@.take(i as int) =~= entry.ports@);
    let state = parse_state(entry.status.as_str())?;
    Ok(crate::container::ContainerInspection {
        handle: crate::container::ContainerHandle { id: to_owned(entry.id.as_str()), name: strip_slashes(entry.name.as_str()) },
        image: to_owned(entry.image.as_str()),
        state,
        exit_code: Some(entry.exit_code),
        ports: sort_resolved(ports),
    })
}

/// What the runtime remembers of a container it started: where its
/// injected files were staged and the labels of its ports.
#[derive(Debug, Clone, PartialEq, Eq)]
pub struct ManagedContainer {
    pub injection_dir: Option<String>,
    pub port_labels: Vec<PortLabel>,
}

/// The record kept for container `id` among `entries`: the latest one.
pub open spec fn managed_lookup(entries: Seq<(String, ManagedContainer)>, id: Seq<char>) -> Option<ManagedContainer>
    decreases entries.len(),
{
    if entries.len() == 0 {
        None
    } else if entries.last().0@ == id {
        Some(entries.last().1)
    } else {
        managed_lookup(entries.drop_last(), id)
    }
}

/// The files to stage for a start request: the directory, each file's
/// host path and contents, and the error that stops staging (the files
/// before the first injected file with a relative container path are
/// still written).
#[derive(Debug, PartialEq, Eq)]
pub struct StagePlan {
    pub dir: String,
    pub files: Vec<(String, Vec<u8>)>,
    pub error: Option<ContainerRuntimeError>,
}

/// The text of an exit status: its number, or `unknown` when the program
/// was killed by a signal.
pub open spec fn status_text(status: Option<i32>) -> Seq<char> {
    match status {
        Some(n) => crate::text::signed_decimal(n as int),
        None => "unknown"@,
    }
}

fn status_string(status: Option<i32>) -> (r: String)
    ensures
        r@ == status_text(status),
{
    match status {
        Some(n) => crate::text::i64_to_string(n as i64),
        None => to_owned("unknown"),
    }
}

/// The progress events of running `command` for `operation` with outcome
/// `outcome`: the `running` line, then, when the program ran, its
/// non-empty outputs and the `exited` line.
pub open spec fn run_events(command: Seq<char>, operation: ContainerRuntimeOperation, outcome: Result<CommandOutput, ContainerRuntimeError>) -> Seq<EventView> {
    seq![status_event(operation, "running "@ + command)] + match outcome {
        Ok(o) => chunk_events(operation, o.stdout@, o.stderr@)
            + seq![status_event(operation, command + " exited with "@ + status_text(o.status))],
        Err(_) => Seq::empty(),
    }
}

/// Whether running `program` with `args` for `operation` through
/// `runner` took the progress log from `before` to `after` and, held to
/// exit status 0 (see [`checked_result`]), came to `checked`.
pub open spec fn checked_run<R: CommandRunner>(
    runner: R,
    program: Seq<char>,
    args: Seq<Seq<char>>,
    operation: ContainerRuntimeOperation,
    before: Option<Vec<ContainerRuntimeEvent>>,
    after: Option<Vec<ContainerRuntimeEvent>>,
    checked: Result<CommandOutput, ContainerRuntimeError>,
) -> bool {
    exists|output: Result<CommandOutput, RunFailure>, ran: Result<CommandOutput, ContainerRuntimeError>|
        #![trigger runner_gave(runner, program, args, operation, output), outcome_of(program, output, ran)]
        runner_gave(runner, program, args, operation, output) && outcome_of(program, output, ran)
        && log_view(after) == appended(log_view(before), run_events(spec_format_command(program, args), operation, ran))
        && match ran {
            Ok(o) => checked_result(program, args, o, checked),
            Err(e) => checked == Err::<CommandOutput, ContainerRuntimeError>(e),
        }
}

/// Whether running `program` with `args` for `operation` through
/// `runner` took the progress log from `before` to `after` and came to
/// `ran` (see [`outcome_of`]), whatever the exit status.
pub open spec fn unchecked_run<R: CommandRunner>(
    runner: R,
    program: Seq<char>,
    args: Seq<Seq<char>>,
    operation: ContainerRuntimeOperation,
    before: Option<Vec<ContainerRuntimeEvent>>,
    after: Option<Vec<ContainerRuntimeEvent>>,
    ran: Result<CommandOutput, ContainerRuntimeError>,
) -> bool {
    &&& exists|output: Result<CommandOutput, RunFailure>| #[trigger] runner_gave(runner, program, args, operation, output)
        && outcome_of(program, output, ran)
    &&& log_view(after) == appended(log_view(before), run_events(spec_format_command(program, args), operation, ran))
}

/// Whether `r` passes on a checked run's success or error.
pub open spec fn unit_of(checked: Result<CommandOutput, ContainerRuntimeError>, r: Result<(), ContainerRuntimeError>) -> bool {
    match checked {
        Ok(_) => r is Ok,
        Err(e) => r == Err::<(), ContainerRuntimeError>(e),
    }
}

/// A checked run (see [`checked_run`]) whose success or error `r` passes on.
pub open spec fn checked_unit<R: CommandRunner>(
    runner: R,
    program: Seq<char>,
    args: Seq<Seq<char>>,
    operation: ContainerRuntimeOperation,
    before: Option<Vec<ContainerRuntimeEvent>>,
    after: Option<Vec<ContainerRuntimeEvent>>,
    r: Result<(), ContainerRuntimeError>,
) -> bool {
    exists|c: Result<CommandOutput, ContainerRuntimeError>| #[trigger] checked_run(runner, program, args, operation, before, after, c)
        && unit_of(c, r)
}

/// A checked run of `docker logs` whose outputs, or error, `r` passes on.
pub open spec fn checked_logs<R: CommandRunner>(
    runner: R,
    program: Seq<char>,
    args: Seq<Seq<char>>,
    before: Option<Vec<ContainerRuntimeEvent>>,
    after: Option<Vec<ContainerRuntimeEvent>>,
    r: Result<ContainerLogs, ContainerRuntimeError>,
) -> bool {
    exists|c: Result<CommandOutput, ContainerRuntimeError>| #[trigger] checked_run(runner, program, args,
        ContainerRuntimeOperation::ReadLogs, before, after, c)
        && match c {
            Ok(o) => r matches Ok(l) && l.stdout@ == o.stdout@ && l.stderr@ == o.stderr@,
            Err(e) => r == Err::<ContainerLogs, ContainerRuntimeError>(e),
        }
}

/// A checked run of `docker run` that came to the container id it printed
/// (see [`container_id_of`]) or to its error.
pub open spec fn checked_start<R: CommandRunner>(
    runner: R,
    program: Seq<char>,
    args: Seq<Seq<char>>,
    before: Option<Vec<ContainerRuntimeEvent>>,
    after: Option<Vec<ContainerRuntimeEvent>>,
    r: Result<String, ContainerRuntimeError>,
) -> bool {
    exists|c: Result<CommandOutput, ContainerRuntimeError>| #[trigger] checked_run(runner, program, args,
        ContainerRuntimeOperation::StartContainer, before, after, c)
        && match c {
            Ok(o) => container_id_of(o, r),
            Err(e) => r == Err::<String, ContainerRuntimeError>(e),
        }
}

/// What removing container `id` reports when `docker rm` came to
/// `checked`: success; a missing container, reported by its id; or the
/// error.
pub open spec fn removal_of(checked: Result<CommandOutput, ContainerRuntimeError>, id: Seq<char>, result: Result<(), ContainerRuntimeError>) -> bool {
    match checked {
        Ok(_) => result is Ok,
        Err(ContainerRuntimeError::NotFound(_)) => result matches Err(ContainerRuntimeError::NotFound(m)) && m@ == id,
        Err(e) => result == Err::<(), ContainerRuntimeError>(e),
    }
}

/// A checked run of `docker rm` for container `id` whose result `result`
/// reports (see [`removal_of`]).
pub open spec fn checked_removal<R: CommandRunner>(
    runner: R,
    program: Seq<char>,
    args: Seq<Seq<char>>,
    before: Option<Vec<ContainerRuntimeEvent>>,
    after: Option<Vec<ContainerRuntimeEvent>>,
    id: Seq<char>,
    result: Result<(), ContainerRuntimeError>,
) -> bool {
    exists|c: Result<CommandOutput, ContainerRuntimeError>| #[trigger] checked_run(runner, program, args,
        ContainerRuntimeOperation::RemoveContainer, before, after, c)
        && removal_of(c, id, result)
}

/// A run of `docker exec` (see [`unchecked_run`]) that came to `r` (see
/// [`exec_outcome_of`]) or to the error that kept it from running.
pub open spec fn exec_run<R: CommandRunner>(
    runner: R,
    program: Seq<char>,
    args: Seq<Seq<char>>,
    before: Option<Vec<ContainerRuntimeEvent>>,
    after: Option<Vec<ContainerRuntimeEvent>>,
    r: Result<crate::container::ExecResult, ContainerRuntimeError>,
) -> bool {
    exists|ran: Result<CommandOutput, ContainerRuntimeError>| #[trigger] unchecked_run(runner, program, args,
        ContainerRuntimeOperation::Exec, before, after, ran)
        && match ran {
            Ok(o) => exec_outcome_of(o, r),
            Err(e) => r == Err::<crate::container::ExecResult, ContainerRuntimeError>(e),
        }
}

/// A docker command-line runtime: the program it runs (through `runner`),
/// where it stages injected files, and what it remembers of the containers
/// it started.
pub struct DockerCli<R> {
    program: String,
    runner: R,
    temp_root: String,
    unique_id: u64,
    managed: Vec<(String, ManagedContainer)>,
}

impl<R: CommandRunner> DockerCli<R> {
    /// The program this runtime runs.
    pub closed spec fn spec_program(&self) -> Seq<char> {
        self.program@
    }

    /// The directory injected files are staged under.
    pub closed spec fn spec_temp_root(&self) -> Seq<char> {
        self.temp_root@
    }

    /// How many staging directories have been named.
    pub closed spec fn spec_unique_id(&self) -> u64 {
        self.unique_id
    }

    /// The record kept for container `id`.
    pub closed spec fn managed(&self, id: Seq<char>) -> Option<ManagedContainer> {
        managed_lookup(self.managed@, id)
    }

    /// A runtime that runs `program` through `runner` and stages files
    /// under `temp_root`, remembering no container yet.
    pub fn with_program_runner_and_temp_root(program: &str, runner: R, temp_root: &str) -> (r: Self)
        ensures
            r.spec_program() == program@,
            r.spec_runner() == runner,
            r.spec_temp_root() == temp_root@,
            r.spec_unique_id() == 0,
            forall|id: Seq<char>| #[trigger] r.managed(id) is None,
    {
        DockerCli {
            program: to_owned(program),
            runner,
            temp_root: to_owned(temp_root),
            unique_id: 0,
            managed: Vec::new(),
        }
    }

    /// A runtime that runs `docker` through `runner`, staging files under
    /// `temp_root`.
    pub fn with_runner(runner: R, temp_root: &str) -> (r: Self)
        ensures
            r.spec_program() == "docker"@,
            r.spec_runner() == runner,
            r.spec_temp_root() == temp_root@,
            r.spec_unique_id() == 0,
            forall|id: Seq<char>| #[trigger] r.managed(id) is None,
    {
        Self::with_program_runner_and_temp_root("docker", runner, temp_root)
    }

    /// The program this runtime runs.
    pub fn program(&self) -> (r: &str)
        ensures
            r@ == self.spec_program(),
    {
        self.program.as_str()
    }

    /// The runner that runs the program.
    pub closed spec fn spec_runner(&self) -> R {
        self.runner
    }

    /// The runner that runs the program.
    pub fn runner(&self) -> (r: &R)
        ensures
            *r == self.spec_runner(),
    {
        &self.runner
    }

    /// Run the program with `args` and take its outcome (see
    /// [`run_outcome`]); what the program does is the runner's. A progress
    /// log, if given, gets the line `running COMMAND`, then, when the
    /// program ran, its non-empty outputs and `COMMAND exited with STATUS`.
    pub fn run_unchecked(
        &self,
        args: &Vec<String>,
        operation: ContainerRuntimeOperation,
        progress: &mut Option<Vec<ContainerRuntimeEvent>>,
    ) -> (r: Result<CommandOutput, ContainerRuntimeError>)
        ensures
            unchecked_run(self.spec_runner(), self.spec_program(), strings_view(args@), operation, *old(progress), *final(progress), r),
    {
        let command = format_command(self.program.as_str(), args);
        let mut running = to_owned("running ");
        push_str(&mut running, command.as_str());
        emit_status(progress, operation, running);
        let ghost after_running = log_view(*progress);
        let output = self.runner.run(self.program.as_str(), args, operation);
        let outcome = run_outcome(self.program.as_str(), output);
        assert(runner_gave(self.spec_runner(), self.spec_program(), strings_view(args@), operation, output));
        match outcome {
            Ok(o) => {
                if progress.is_some() {
                    emit_stdout(progress, operation, o.stdout.as_slice());
                    emit_stderr(progress, operation, o.stderr.as_slice());
                    proof {
                        lemma_appended_twice(after_running, chunk_events(operation, o.stdout@, Seq::empty()),
                            chunk_events(operation, Seq::empty(), o.stderr@));
                        assert(chunk_events(operation, o.stdout@, Seq::empty()) + chunk_events(operation, Seq::empty(), o.stderr@)
                            =~= chunk_events(operation, o.stdout@, o.stderr@));
                    }
                }
                let ghost after_chunks = log_view(*progress);
                let mut exited = to_owned(command.as_str());
                push_str(&mut exited, " exited with ");
                let status = status_string(o.status);
                push_str(&mut exited, status.as_str());
                emit_status(progress, operation, exited);
                proof {
                    let running_ev = seq![status_event(operation, "running "@ + spec_format_command(self.spec_program(), strings_view(args@)))];
                    lemma_appended_twice(log_view(*old(progress)), running_ev, chunk_events(operation, o.stdout@, o.stderr@));
                    lemma_appended_twice(after_chunks, Seq::empty(), seq![status_event(operation, exited@)]);
                    lemma_appended_twice(log_view(*old(progress)), running_ev + chunk_events(operation, o.stdout@, o.stderr@),
                        seq![status_event(operation, exited@)]);
                    assert(running_ev + chunk_events(operation, o.stdout@, o.stderr@) + seq![status_event(operation, exited@)]
                        =~= run_events(spec_format_command(self.spec_program(), strings_view(args@)), operation, Ok(o)));
                }
                Ok(o)
            },
            Err(e) => {
                proof {
                    assert(seq![status_event(operation, "running "@ + spec_format_command(self.spec_program(), strings_view(args@)))]
                        =~= run_events(spec_format_command(self.spec_program(), strings_view(args@)), operation, Err::<CommandOutput, ContainerRuntimeError>(e)));
                }
                Err(e)
            },
        }
    }

    /// Run the program with `args`, which must succeed (see
    /// [`check_output`]); the progress log is kept as for
    /// [`DockerCli::run_unchecked`].
    pub fn run_checked(
        &self,
        args: &Vec<String>,
        operation: ContainerRuntimeOperation,
        progress: &mut Option<Vec<ContainerRuntimeEvent>>,
    ) -> (r: Result<CommandOutput, ContainerRuntimeError>)
        ensures
            r matches Ok(o) ==> o.status == Some(0i32),
            checked_run(self.spec_runner(), self.spec_program(), strings_view(args@), operation, *old(progress), *final(progress), r),
    {
        let ran = self.run_unchecked(args, operation, progress);
        match ran {
            Ok(o) => {
                let ghost og = o;
                let r = check_output(self.program.as_str(), args, o);
                assert(checked_result(self.spec_program(), strings_view(args@), og, r));
                r
            },
            Err(e) => Err(e),
        }
    }

    /// Pull `image`; a blank image name is refused before anything runs.
    pub fn pull_image(&self, image: &str, progress: &mut Option<Vec<ContainerRuntimeEvent>>) -> (r: Result<(), ContainerRuntimeError>)
        ensures
            spec_is_blank(image@) ==> (r matches Err(e) && error_view(e) == (ErrorKind::InvalidRequest, blank_image_message()))
                && log_view(*final(progress)) == log_view(*old(progress)),
            !spec_is_blank(image@) ==> checked_unit(self.spec_runner(), self.spec_program(), seq!["pull"@, image@], ContainerRuntimeOperation::PullImage, *old(progress), *final(progress), r),
    {
        let args = pull_args(image)?;
        self.run_checked(&args, ContainerRuntimeOperation::PullImage, progress)?;
        Ok(())
    }

    /// The output of `docker inspect` for `handle` (to be read with
    /// [`DockerCli::parse_inspection`]).
    pub fn inspect_output(&self, handle: &ContainerHandle, progress: &mut Option<Vec<ContainerRuntimeEvent>>) -> (r: Result<CommandOutput, ContainerRuntimeError>)
        ensures
            r matches Ok(o) ==> o.status == Some(0i32),
            checked_run(self.spec_runner(), self.spec_program(), seq!["inspect"@, handle.id@], ContainerRuntimeOperation::InspectContainer,
                *old(progress), *final(progress), r),
    {
        let args = inspect_args(handle.id.as_str());
        self.run_checked(&args, ContainerRuntimeOperation::InspectContainer, progress)
    }

    /// The logs of `handle`'s container: both outputs of `docker logs`.
    pub fn read_logs(&self, handle: &ContainerHandle, progress: &mut Option<Vec<ContainerRuntimeEvent>>) -> (r: Result<ContainerLogs, ContainerRuntimeError>)
        ensures
            checked_logs(self.spec_runner(), self.spec_program(), seq!["logs"@, handle.id@], *old(progress), *final(progress), r),
    {
        let args = logs_args(handle.id.as_str());
        let output = self.run_checked(&args, ContainerRuntimeOperation::ReadLogs, progress)?;
        Ok(ContainerLogs { stdout: output.stdout, stderr: output.stderr })
    }

    /// Run a program in a container (see [`exec_args`] for the checks and
    /// [`exec_outcome`] for the result); a non-zero exit is a result, not
    /// an error.
    pub fn exec(&self, request: &ExecRequest, progress: &mut Option<Vec<ContainerRuntimeEvent>>) -> (r: Result<ExecResult, ContainerRuntimeError>)
        ensures
            spec_exec_args(*request) matches Err(x) ==> (r matches Err(e) && error_view(e) == x)
                && log_view(*final(progress)) == log_view(*old(progress)),
            spec_exec_args(*request) matches Ok(args) ==> exec_run(self.spec_runner(), self.spec_program(), args, *old(progress),
                *final(progress), r),
    {
        let args = exec_args(request)?;
        let output = self.run_unchecked(&args, ContainerRuntimeOperation::Exec, progress)?;
        exec_outcome(output)
    }

    /// Stop `handle`'s container, giving it `timeout_secs` seconds.
    pub fn stop_container(&self, handle: &ContainerHandle, timeout_secs: u32, progress: &mut Option<Vec<ContainerRuntimeEvent>>) -> (r: Result<(), ContainerRuntimeError>)
        ensures
            checked_unit(self.spec_runner(), self.spec_program(), seq!["stop"@, "--time"@, decimal(timeout_secs as nat), handle.id@], ContainerRuntimeOperation::StopContainer, *old(progress), *final(progress), r),
    {
        let args = stop_args(handle.id.as_str(), timeout_secs);
        self.run_checked(&args, ContainerRuntimeOperation::StopContainer, progress)?;
        Ok(())
    }

    /// Run `docker network ACTION NAME` for `operation`; a blank name is
    /// refused before anything runs.
    fn network_command(&self, action: &str, name: &str, operation: ContainerRuntimeOperation, progress: &mut Option<Vec<ContainerRuntimeEvent>>) -> (r: Result<(), ContainerRuntimeError>)
        ensures
            spec_is_blank(name@) ==> (r matches Err(e) && error_view(e) == (ErrorKind::InvalidRequest, blank_network_message()))
                && log_view(*final(progress)) == log_view(*old(progress)),
            !spec_is_blank(name@) ==> checked_unit(self.spec_runner(), self.spec_program(), seq!["network"@, action@, name@], operation, *old(progress), *final(progress), r),
    {
        let args = network_args(action, name)?;
        self.run_checked(&args, operation, progress)?;
        Ok(())
    }

    /// Create the network `name`.
    pub fn create_network(&self, name: &str, progress: &mut Option<Vec<ContainerRuntimeEvent>>) -> (r: Result<(), ContainerRuntimeError>)
        ensures
            spec_is_blank(name@) ==> (r matches Err(e) && error_view(e) == (ErrorKind::InvalidRequest, blank_network_message()))
                && log_view(*final(progress)) == log_view(*old(progress)),
            !spec_is_blank(name@) ==> checked_unit(self.spec_runner(), self.spec_program(), seq!["network"@, "create"@, name@], ContainerRuntimeOperation::CreateNetwork, *old(progress), *final(progress), r),
    {
        self.network_command("create", name, ContainerRuntimeOperation::CreateNetwork, progress)
    }

    /// Remove the network `name`.
    pub fn remove_network(&self, name: &str, progress: &mut Option<Vec<ContainerRuntimeEvent>>) -> (r: Result<(), ContainerRuntimeError>)
        ensures
            spec_is_blank(name@) ==> (r matches Err(e) && error_view(e) == (ErrorKind::InvalidRequest, blank_network_message()))
                && log_view(*final(progress)) == log_view(*old(progress)),
            !spec_is_blank(name@) ==> checked_unit(self.spec_runner(), self.spec_program(), seq!["network"@, "rm"@, name@], ContainerRuntimeOperation::RemoveNetwork, *old(progress), *final(progress), r),
    {
        self.network_command("rm", name, ContainerRuntimeOperation::RemoveNetwork, progress)
    }

    /// Start a container for `request`, whose injected files were staged
    /// in `injection_dir`: build the `docker run` arguments, run them and
    /// remember the new container under the id the command printed. On
    /// failure nothing is remembered (the caller removes the staged
    /// directory).
    pub fn start_staged(
        &mut self,
        request: &StartContainerRequest,
        injection_dir: Option<String>,
        progress: &mut Option<Vec<ContainerRuntimeEvent>>,
    ) -> (r: Result<String, ContainerRuntimeError>)
        ensures
            final(self).spec_program() == old(self).spec_program(),
            final(self).spec_runner() == old(self).spec_runner(),
            final(self).spec_temp_root() == old(self).spec_temp_root(),
            final(self).spec_unique_id() == old(self).spec_unique_id(),
            spec_run_args(*request, match injection_dir { Some(d) => Some(d@), None => None },
                spec_resource_limit_args(request.container.resource_limits_json)) matches Err(x) ==> (r matches Err(e)
                && error_view(e) == x) && log_view(*final(progress)) == log_view(*old(progress)),
            spec_run_args(*request, match injection_dir { Some(d) => Some(d@), None => None },
                spec_resource_limit_args(request.container.resource_limits_json)) matches Ok(args) ==> checked_start(
                old(self).spec_runner(), old(self).spec_program(), args, *old(progress), *final(progress), r),
            r is Err ==> forall|id: Seq<char>| #[trigger] final(self).managed(id) == old(self).managed(id),
            r matches Ok(id) ==> {
                &&& id@.len() > 0
                &&& final(self).managed(id@) matches Some(m) && m.injection_dir == injection_dir
                    && m.port_labels@ == spec_port_labels(request.container.ports@)
                &&& forall|other: Seq<char>| other != id@ ==> #[trigger] final(self).managed(other) == old(self).managed(other)
            },
    {
        let args = match &injection_dir {
            Some(d) => build_run_args(request, Some(d.as_str())),
            None => build_run_args(request, None),
        };
        let args = args?;
        let output = self.run_checked(&args, ContainerRuntimeOperation::StartContainer, progress)?;
        let id = container_id_from(&output)?;
        self.record_container(id.as_str(), injection_dir, request);
        Ok(id)
    }

    /// Remove `handle`'s container. When `docker rm` succeeds or finds no
    /// such container, the container is forgotten and its staging
    /// directory (if any) is handed back for deletion; a missing container
    /// is reported by its id. Any other failure is returned and the
    /// container stays remembered.
    pub fn remove_container(
        &mut self,
        handle: &ContainerHandle,
        force: bool,
        progress: &mut Option<Vec<ContainerRuntimeEvent>>,
    ) -> (r: Removal)
        ensures
            final(self).spec_program() == old(self).spec_program(),
            final(self).spec_runner() == old(self).spec_runner(),
            final(self).spec_temp_root() == old(self).spec_temp_root(),
            final(self).spec_unique_id() == old(self).spec_unique_id(),
            checked_removal(old(self).spec_runner(), old(self).spec_program(),
                seq!["rm"@] + (if force { seq!["-f"@] } else { seq![] }) + seq![handle.id@], *old(progress), *final(progress),
                handle.id@, r.result),
            removal_cleans_up(r.result, handle.id@) ==> {
                &&& final(self).managed(handle.id@) is None
                &&& r.staged_dir == (match old(self).managed(handle.id@) { Some(m) => m.injection_dir, None => None })
                &&& forall|other: Seq<char>| other != handle.id@ ==> #[trigger] final(self).managed(other) == old(self).managed(other)
            },
            !removal_cleans_up(r.result, handle.id@) ==> {
                &&& r.staged_dir is None
                &&& forall|id: Seq<char>| #[trigger] final(self).managed(id) == old(self).managed(id)
            },
    {
        let args = remove_args(handle.id.as_str(), force);
        let outcome = self.run_checked(&args, ContainerRuntimeOperation::RemoveContainer, progress);
        match removal_step(outcome) {
            RemovalStep::CleanUp => {
                let dir = self.injection_dir_of(handle.id.as_str());
                self.forget_container(handle.id.as_str());
                Removal { result: Ok(()), staged_dir: dir }
            },
            RemovalStep::CleanUpNotFound => {
                let dir = self.injection_dir_of(handle.id.as_str());
                self.forget_container(handle.id.as_str());
                Removal { result: Err(ContainerRuntimeError::NotFound(handle.id.clone())), staged_dir: dir }
            },
            RemovalStep::Fail(e) => {
                proof {
                    assert(!(e is NotFound));
                }
                Removal { result: Err(e), staged_dir: None }
            },
        }
    }

    /// Name a fresh staging directory for container `name`: under the
    /// temporary root, `mirage-container-NAME-NANOS-N` where N counts the
    /// directories named so far (wrapping at the end of `u64`).
    pub fn unique_temp_dir(&mut self, name: &str, nanos: u64) -> (r: String)
        ensures
            final(self).spec_unique_id() == (if old(self).spec_unique_id() == u64::MAX { 0 } else { (old(self).spec_unique_id() + 1) as u64 }),
            final(self).spec_unique_id() == count_after(old(self).spec_unique_id(), 1),
            r@ == staging_dir(old(self).spec_temp_root(), name@, nanos, final(self).spec_unique_id()),
            final(self).spec_program() == old(self).spec_program(),
            final(self).spec_runner() == old(self).spec_runner(),
            final(self).spec_temp_root() == old(self).spec_temp_root(),
            forall|id: Seq<char>| #[trigger] final(self).managed(id) == old(self).managed(id),
    {
        self.unique_id = self.unique_id.wrapping_add(1);
        proof {
            reveal_with_fuel(count_after, 2);
        }
        let mut leaf = to_owned("mirage-container-");
        push_str(&mut leaf, name);
        push_str(&mut leaf, "-");
        push_str(&mut leaf, u64_to_string(nanos).as_str());
        push_str(&mut leaf, "-");
        push_str(&mut leaf, u64_to_string(self.unique_id).as_str());
        path_join(self.temp_root.as_str(), leaf.as_str())
    }

    /// Plan the staging of a request's injected files: nothing without
    /// files; otherwise a fresh directory and, in order, each file as
    /// `injected-INDEX` in it, stopping at the first file whose container
    /// path is relative.
    pub fn stage_plan(&mut self, name: &str, files: &Vec<InjectedFile>, nanos: u64) -> (r: Option<StagePlan>)
        ensures
            files@.len() == 0 ==> r is None && *final(self) == *old(self),
            files@.len() > 0 ==> (r matches Some(plan) && {
                &&& plan.dir@ == staging_dir(old(self).spec_temp_root(), name@, nanos, final(self).spec_unique_id())
                &&& forall|i: int| 0 <= i < plan.files@.len() ==> (#[trigger] plan.files@[i]).0@ == injected_file_path(plan.dir@, i as nat)
                    && plan.files@[i].1@ == files@[i].content@
                &&& forall|i: int| 0 <= i < plan.files@.len() ==> spec_is_absolute(#[trigger] files@[i].container_path@)
                &&& match plan.error {
                    None => plan.files@.len() == files@.len(),
                    Some(e) => plan.files@.len() < files@.len()
                        && !spec_is_absolute(files@[plan.files@.len() as int].container_path@)
                        && error_view(e) == (ErrorKind::InvalidRequest, container_path_message(files@[plan.files@.len() as int].container_path@)),
                }
            }),
            files@.len() > 0 ==> final(self).spec_unique_id() == (if old(self).spec_unique_id() == u64::MAX { 0 } else { (old(self).spec_unique_id() + 1) as u64 }),
            final(self).spec_program() == old(self).spec_program(),
            final(self).spec_runner() == old(self).spec_runner(),
            final(self).spec_temp_root() == old(self).spec_temp_root(),
            forall|id: Seq<char>| #[trigger] final(self).managed(id) == old(self).managed(id),
    {
        if files.len() == 0 {
            return None;
        }
        let dir = self.unique_temp_dir(name, nanos);
        let mut out: Vec<(String, Vec<u8>)> = Vec::new();
        let mut i: usize = 0;
        while i < files.len()
            invariant
                files@.len() > 0,
                dir@ == spec_path_join(old(self).spec_temp_root(),
                    "mirage-container-"@ + name@ + "-"@ + decimal(nanos as nat) + "-"@ + decimal(self.spec_unique_id() as nat)),
                self.spec_unique_id() == (if old(self).spec_unique_id() == u64::MAX { 0 } else { (old(self).spec_unique_id() + 1) as u64 }),
                self.spec_program() == old(self).spec_program(),
                self.spec_runner() == old(self).spec_runner(),
                self.spec_temp_root() == old(self).spec_temp_root(),
                forall|id: Seq<char>| #[trigger] self.managed(id) == old(self).managed(id),
                0 <= i <= files@.len(),
                out@.len() == i,
                forall|j: int| 0 <= j < i ==> (#[trigger] out@[j]).0@ == injected_file_path(dir@, j as nat) && out@[j].1@ == files@[j].content@,
                forall|j: int| 0 <= j < i ==> spec_is_absolute(#[trigger] files@[j].container_path@),
            decreases files@.len() - i,
        {
            if let Err(e) = validate_container_path(files[i].container_path.as_str()) {
                return Some(StagePlan { dir, files: out, error: Some(e) });
            }
            let path = injected_path(dir.as_str(), i);
            out.push((path, crate::text::copy_bytes(files[i].content.as_slice())));
            i += 1;
        }
        Some(StagePlan { dir, files: out, error: None })
    }

    /// The `docker run` arguments for a start request whose injected files
    /// were staged in `injection_dir`.
    pub fn build_run_args(&self, request: &StartContainerRequest, injection_dir: Option<&str>) -> (r: Result<Vec<String>, ContainerRuntimeError>)
        ensures
            args_agree(r, spec_run_args(*request, match injection_dir { Some(d) => Some(d@), None => None },
                spec_resource_limit_args(request.container.resource_limits_json))),
            r matches Ok(v) ==> forall|i: int| 0 <= i < request.container.entrypoint.env@.len()
                ==> exists|j: int| #![trigger strings_view(v@)[j]] 0 <= j && j + 1 < strings_view(v@).len() && strings_view(v@)[j] == "-e"@
                    && strings_view(v@)[j + 1] == (#[trigger] request.container.entrypoint.env@[i]).key@ + "="@
                        + request.container.entrypoint.env@[i].value@,
    {
        build_run_args(request, injection_dir)
    }

    /// The labels of a request's published ports.
    pub fn managed_port_labels(request: &StartContainerRequest) -> (r: Vec<PortLabel>)
        ensures
            r@ == spec_port_labels(request.container.ports@),
    {
        let ports = &request.container.ports;
        let mut out: Vec<PortLabel> = Vec::new();
        let mut i: usize = 0;
        while i < ports.len()
            invariant
                0 <= i <= ports@.len(),
                out@ == spec_port_labels(ports@.take(i as int)),
            decreases ports@.len() - i,
        {
            assert(ports@.take(i + 1).drop_last() =~= ports@.take(i as int));
            let p = &ports[i];
            out.push(PortLabel { container_port: p.container_port, protocol: p.protocol, label: clone_label(&p.label) });
            i += 1;
        }
        assert(ports@.take(i as int) =~= ports@);
        out
    }

    /// Remember a started container: where its files were staged and its
    /// port labels.
    pub fn record_container(&mut self, id: &str, injection_dir: Option<String>, request: &StartContainerRequest)
        ensures
            final(self).managed(id@) == Some(ManagedContainer {
                injection_dir,
                port_labels: final(self).managed(id@)->0.port_labels,
            }),
            final(self).managed(id@)->0.port_labels@ == spec_port_labels(request.container.ports@),
            forall|other: Seq<char>| other != id@ ==> #[trigger] final(self).managed(other) == old(self).managed(other),
            final(self).spec_program() == old(self).spec_program(),
            final(self).spec_runner() == old(self).spec_runner(),
            final(self).spec_temp_root() == old(self).spec_temp_root(),
            final(self).spec_unique_id() == old(self).spec_unique_id(),
    {
        let labels = Self::managed_port_labels(request);
        let ghost before = self.managed@;
        self.managed.push((to_owned(id), ManagedContainer { injection_dir, port_labels: labels }));
        assert(self.managed@.drop_last() =~= before);
    }

    /// The labels recorded for container `id`'s ports (none when it is
    /// not remembered).
    pub fn port_labels_of(&self, id: &str) -> (r: Vec<PortLabel>)
        ensures
            match self.managed(id@) {
                Some(m) => r@ == m.port_labels@,
                None => r@.len() == 0,
            },
    {
        match self.lookup(id) {
            Some(i) => {
                let mut out: Vec<PortLabel> = Vec::new();
                let labels = &self.managed[i].1.port_labels;
                let mut j: usize = 0;
                while j < labels.len()
                    invariant
                        0 <= j <= labels@.len(),
                        out@ == labels@.take(j as int),
                    decreases labels@.len() - j,
                {
                    let l = &labels[j];
                    out.push(PortLabel { container_port: l.container_port, protocol: l.protocol, label: clone_label(&l.label) });
                    j += 1;
                    assert(out@ =~= labels@.take(j as int));
                }
                assert(labels@.take(j as int) =~= labels@);
                out
            },
            None => Vec::new(),
        }
    }

    /// Where container `id`'s injected files were staged, if anywhere.
    pub fn injection_dir_of(&self, id: &str) -> (r: Option<String>)
        ensures
            r == (match self.managed(id@) { Some(m) => m.injection_dir, None => None }),
    {
        match self.lookup(id) {
            Some(i) => clone_label(&self.managed[i].1.injection_dir),
            None => None,
        }
    }

    /// The position of the record kept for `id`.
    fn lookup(&self, id: &str) -> (r: Option<usize>)
        ensures
            match r {
                Some(i) => i < self.managed@.len() && self.managed(id@) == Some(self.managed@[i as int].1),
                None => self.managed(id@) is None,
            },
    {
        let mut i = self.managed.len();
        assert(self.managed@.take(i as int) =~= self.managed@);
        while i > 0
            invariant
                0 <= i <= self.managed@.len(),
                managed_lookup(self.managed@, id@) == managed_lookup(self.managed@.take(i as int), id@),
            decreases i,
        {
            assert(self.managed@.take(i as int).drop_last() =~= self.managed@.take(i - 1));
            if crate::protocol::str_eq(self.managed[i - 1].0.as_str(), id) {
                return Some(i - 1);
            }
            i -= 1;
        }
        None
    }

    /// Forget container `id`.
    pub fn forget_container(&mut self, id: &str)
        ensures
            final(self).managed(id@) is None,
            forall|other: Seq<char>| other != id@ ==> #[trigger] final(self).managed(other) == old(self).managed(other),
            final(self).spec_program() == old(self).spec_program(),
            final(self).spec_runner() == old(self).spec_runner(),
            final(self).spec_temp_root() == old(self).spec_temp_root(),
            final(self).spec_unique_id() == old(self).spec_unique_id(),
    {
        let mut kept: Vec<(String, ManagedContainer)> = Vec::new();
        let mut rest: Vec<(String, ManagedContainer)> = Vec::new();
        std::mem::swap(&mut rest, &mut self.managed);
        let ghost all = rest@;
        let ghost mut taken: int = 0;
        while rest.len() > 0
            invariant
                0 <= taken <= all.len(),
                rest@ == all.skip(taken),
                forall|q: Seq<char>| #[trigger] managed_lookup(kept@, q) == (if q == id@ { None } else { managed_lookup(all.take(taken), q) }),
            decreases rest@.len(),
        {
            let e = rest.remove(0);
            proof {
                assert(all[taken] == e);
                assert(all.take(taken + 1).drop_last() =~= all.take(taken));
                assert(all.skip(taken + 1) =~= all.skip(taken).drop_first());
            }
            let ghost before = kept@;
            let ghost eg = e;
            if !crate::protocol::str_eq(e.0.as_str(), id) {
                kept.push(e);
                assert(kept@.drop_last() =~= before);
            }
            proof {
                assert forall|q: Seq<char>| #[trigger] managed_lookup(kept@, q) == (if q == id@ { None } else { managed_lookup(all.take(taken + 1), q) }) by {
                    assert(managed_lookup(before, q) == (if q == id@ { None } else { managed_lookup(all.take(taken), q) }));
                    assert(all.take(taken + 1).last() == eg);
                }
                taken = taken + 1;
            }
        }
        assert(all.take(taken) =~= all);
        self.managed = kept;
    }

    /// What a `docker inspect` reply says of container `handle_id`, with
    /// the port labels recorded for it.
    pub fn parse_inspection(&self, handle_id: &str, entries: Vec<DockerInspectEntry>) -> (r: Result<crate::container::ContainerInspection, ContainerRuntimeError>)
        ensures
            inspection_result(entries@, match self.managed(handle_id@) { Some(m) => m.port_labels@, None => seq![] }, r),
    {
        let labels = self.port_labels_of(handle_id);
        proof {
            if self.managed(handle_id@) is None {
                assert(labels@ =~= seq![]);
            }
        }
        inspection_from(entries, &labels)
    }
}

/// The outcome of removing a container, and the staging directory left
/// for the caller to delete.
#[derive(Debug, PartialEq, Eq)]
pub struct Removal {
    pub result: Result<(), ContainerRuntimeError>,
    pub staged_dir: Option<String>,
}

/// Whether a removal's result is one after which the container is
/// cleaned up: success, or not found (reported by its id).
pub open spec fn removal_cleans_up(result: Result<(), ContainerRuntimeError>, id: Seq<char>) -> bool {
    match result {
        Ok(_) => true,
        Err(ContainerRuntimeError::NotFound(m)) => m@ == id,
        Err(_) => false,
    }
}

/// What removing a container leads to.
#[derive(Debug, PartialEq, Eq)]
pub enum RemovalStep {
    /// Clean up the container's staged files and record, then succeed.
    CleanUp,
    /// Clean up, then report the container as not found (by its id).
    CleanUpNotFound,
    /// Fail with this error.
    Fail(ContainerRuntimeError),
}

/// What the outcome of `docker rm` leads to: success and a missing
/// container both clean up; any other error is returned.
pub fn removal_step(outcome: Result<CommandOutput, ContainerRuntimeError>) -> (r: RemovalStep)
    ensures
        match outcome {
            Ok(_) => r == RemovalStep::CleanUp,
            Err(ContainerRuntimeError::NotFound(_)) => r == RemovalStep::CleanUpNotFound,
            Err(e) => r == RemovalStep::Fail(e),
        },
{
    match outcome {
        Ok(_) => RemovalStep::CleanUp,
        Err(ContainerRuntimeError::NotFound(_)) => RemovalStep::CleanUpNotFound,
        Err(e) => RemovalStep::Fail(e),
    }
}

} // verus!
