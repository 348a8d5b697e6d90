use std::cell::RefCell;
use std::collections::VecDeque;

use mirage::container::{
    emit_status, emit_stderr, emit_stdout, BindMount, ContainerDef, ContainerHandle, ContainerLogs,
    ContainerRuntimeError, ContainerRuntimeEvent, ContainerRuntimeOperation, ContainerState, ExecArgs,
    ExecRequest, ExecResult, InjectedFile, PortMapping, Protocol, SetEnv, StartContainerRequest,
};
use mirage::docker::{
    build_run_args, container_id_from, exec_outcome, format_command, parse_port_key, parse_state,
    protocol_name, resource_limit_args, validate_container_path, validate_host_path, CommandOutput,
    CommandRunner, DockerCli, DockerInspectEntry, DockerPortEntry, RunFailure,
};
use mirage::docker::{limit_args, JsonKind};
use mirage::mock::MockContainerRuntime;

/// Answers each run with the next queued response and records every call.
#[derive(Default)]
struct FakeRunner {
    responses: RefCell<VecDeque<Result<CommandOutput, RunFailure>>>,
    calls: RefCell<Vec<(String, Vec<String>)>>,
}

impl FakeRunner {
    fn push_response(&self, response: Result<CommandOutput, RunFailure>) {
        self.responses.borrow_mut().push_back(response);
    }

    fn calls(&self) -> Vec<(String, Vec<String>)> {
        self.calls.borrow().clone()
    }
}

impl CommandRunner for FakeRunner {
    fn run(&self, program: &str, args: &Vec<String>, _operation: ContainerRuntimeOperation) -> Result<CommandOutput, RunFailure> {
        self.calls.borrow_mut().push((program.to_string(), args.clone()));
        self.responses.borrow_mut().pop_front().unwrap_or_else(|| {
            Ok(CommandOutput { status: Some(0), stdout: Vec::new(), stderr: Vec::new() })
        })
    }
}

fn ok_output(stdout: &[u8], stderr: &[u8]) -> Result<CommandOutput, RunFailure> {
    Ok(CommandOutput { status: Some(0), stdout: stdout.to_vec(), stderr: stderr.to_vec() })
}

fn complex_request() -> StartContainerRequest {
    StartContainerRequest {
        name: "session-a-node0".to_string(),
        container: ContainerDef {
            image: "ghcr.io/example/runtime:latest".to_string(),
            mounts: vec![BindMount {
                host_path: "/opt/rocjitsu/lib".to_string(),
                container_path: "/usr/lib/rocjitsu".to_string(),
                readonly: true,
            }],
            injected_files: vec![InjectedFile {
                container_path: "/etc/mirage/config.json".to_string(),
                content: br#"{"mode":"functional"}"#.to_vec(),
                readonly: true,
                label: Some("config".to_string()),
            }],
            entrypoint: ExecArgs {
                command: "/bin/mirage".to_string(),
                args: vec!["--serve".to_string(), "--foreground".to_string()],
                env: vec![SetEnv { key: "ROCJITSU_MODE".to_string(), value: "functional".to_string() }],
            },
            working_dir: Some("/workspace".to_string()),
            ports: vec![
                PortMapping { container_port: 8080, host_port: 0, protocol: Protocol::Tcp, label: Some("http".to_string()) },
                PortMapping { container_port: 9000, host_port: 19000, protocol: Protocol::Udp, label: Some("metrics".to_string()) },
            ],
            privileged: true,
            devices: vec![],
            resource_limits_json: Some("{\"cpu\":\"4\",\"memory\":\"16Gi\"}".to_string()),
            network: None,
            labels: vec![],
        },
    }
}

/// The `docker inspect` reply for the started container, as read from its JSON.
fn inspect_entries(status: &str, exit_code: i32, ports: Vec<DockerPortEntry>) -> Vec<DockerInspectEntry> {
    vec![DockerInspectEntry {
        id: "container-123".to_string(),
        name: "/session-a-node0".to_string(),
        image: "ghcr.io/example/runtime:latest".to_string(),
        status: status.to_string(),
        exit_code,
        ports,
    }]
}

fn running_ports() -> Vec<DockerPortEntry> {
    vec![
        DockerPortEntry { key: "8080/tcp".to_string(), host_port: Some("32768".to_string()) },
        DockerPortEntry { key: "9000/udp".to_string(), host_port: Some("19000".to_string()) },
    ]
}

fn handle(id: &str, name: &str) -> ContainerHandle {
    ContainerHandle { id: id.to_string(), name: name.to_string() }
}

#[test]
fn docker_cli_builds_expected_run_exec_and_lifecycle_commands() {
    let runner = FakeRunner::default();
    runner.push_response(ok_output(b"container-123\n", b""));
    runner.push_response(ok_output(b"[]", b""));
    runner.push_response(ok_output(b"out", b"err"));
    runner.push_response(ok_output(b"", b""));
    runner.push_response(ok_output(b"", b""));
    let mut runtime = DockerCli::with_program_runner_and_temp_root("docker", runner, "/tmp/mirage-run-lifecycle");
    let request = complex_request();
    let mut progress = None;

    let plan = runtime.stage_plan(&request.name, &request.container.injected_files, 7).unwrap();
    assert!(plan.error.is_none());
    assert_eq!(plan.files.len(), 1);
    assert!(plan.files[0].0.ends_with("/injected-0"));
    let id = runtime.start_staged(&request, Some(plan.dir.clone()), &mut progress).unwrap();
    let started_handle = handle(&id, &request.name);
    runtime.inspect_output(&started_handle, &mut progress).unwrap();
    let inspection = runtime.parse_inspection(&id, inspect_entries("running", 0, running_ports())).unwrap();
    assert_eq!(inspection.handle.id, "container-123");
    assert_eq!(inspection.handle.name, "session-a-node0");
    assert_eq!(inspection.state, ContainerState::Running);
    assert_eq!(inspection.ports[0].container_port, 8080);
    assert_eq!(inspection.ports[0].host_port, Some(32768));
    assert_eq!(inspection.ports[0].label.as_deref(), Some("http"));
    assert_eq!(inspection.ports[1].host_port, Some(19000));

    let exec = runtime
        .exec(
            &ExecRequest {
                container: inspection.handle.clone(),
                program: ExecArgs {
                    command: "/bin/check".to_string(),
                    args: vec!["--status".to_string()],
                    env: vec![SetEnv { key: "MODE".to_string(), value: "check".to_string() }],
                },
                working_dir: Some("/tmp".to_string()),
            },
            &mut progress,
        )
        .unwrap();
    assert_eq!(exec.exit_code, 0);
    assert_eq!(exec.stdout, b"out");
    assert_eq!(exec.stderr, b"err");

    runtime.stop_container(&inspection.handle, 9, &mut progress).unwrap();
    let removal = runtime.remove_container(&inspection.handle, true, &mut progress);
    assert_eq!(removal.result, Ok(()));
    assert_eq!(removal.staged_dir, Some(plan.dir.clone()));

    let calls = runtime.runner().calls();
    assert_eq!(calls.len(), 5);
    assert_eq!(calls[0].0, "docker");
    assert_eq!(calls[0].1[0], "run");
    assert!(calls[0].1.contains(&"--privileged".to_string()));
    assert!(calls[0].1.contains(&"--cpus".to_string()));
    assert!(calls[0].1.contains(&"4".to_string()));
    assert!(calls[0].1.contains(&"--memory".to_string()));
    assert!(calls[0].1.contains(&"16Gi".to_string()));
    assert!(calls[0].1.contains(&"--entrypoint".to_string()));
    assert!(calls[0].1.contains(&"/bin/mirage".to_string()));
    assert!(calls[0].1.contains(&"ghcr.io/example/runtime:latest".to_string()));
    assert!(calls[0].1.iter().any(|arg| arg == "/workspace"));
    assert!(calls[0].1.iter().any(|arg| arg.contains("/opt/rocjitsu/lib:/usr/lib/rocjitsu:ro")));
    assert!(calls[0].1.iter().any(|arg| arg.ends_with(":/etc/mirage/config.json:ro")));
    assert!(calls[0].1.iter().any(|arg| arg == "8080/tcp"));
    assert!(calls[0].1.iter().any(|arg| arg == "19000:9000/udp"));

    assert_eq!(calls[1].1, vec!["inspect".to_string(), "container-123".to_string()]);
    assert_eq!(calls[2].1[0], "exec");
    assert!(calls[2].1.contains(&"--workdir".to_string()));
    assert!(calls[2].1.contains(&"/tmp".to_string()));
    assert!(calls[2].1.contains(&"MODE=check".to_string()));
    assert!(calls[2].1.contains(&"/bin/check".to_string()));
    assert_eq!(calls[3].1, vec!["stop".to_string(), "--time".to_string(), "9".to_string(), "container-123".to_string()]);
    assert_eq!(calls[4].1, vec!["rm".to_string(), "-f".to_string(), "container-123".to_string()]);
}

#[test]
fn docker_cli_reads_logs_and_cleans_injected_files_on_remove() {
    let runner = FakeRunner::default();
    runner.push_response(ok_output(b"container-123\n", b""));
    runner.push_response(ok_output(b"stdout", b"stderr"));
    runner.push_response(ok_output(b"", b""));
    let mut runtime = DockerCli::with_program_runner_and_temp_root("docker", runner, "/tmp/mirage-logs-cleanup");
    let request = complex_request();
    let mut progress = None;

    let plan = runtime.stage_plan(&request.name, &request.container.injected_files, 11).unwrap();
    assert!(plan.dir.starts_with("/tmp/mirage-logs-cleanup/mirage-container-session-a-node0-11-"));
    assert_eq!(plan.files[0].0, format!("{}/injected-0", plan.dir));
    let id = runtime.start_staged(&request, Some(plan.dir.clone()), &mut progress).unwrap();
    let started = handle(&id, &request.name);

    let logs = runtime.read_logs(&started, &mut progress).unwrap();
    assert_eq!(logs.stdout, b"stdout");
    assert_eq!(logs.stderr, b"stderr");

    let removal = runtime.remove_container(&started, true, &mut progress);
    assert_eq!(removal.result, Ok(()));
    assert_eq!(removal.staged_dir, Some(plan.dir));
    // Nothing is left to clean up a second time.
    assert_eq!(runtime.injection_dir_of(&id), None);
}

#[test]
fn docker_cli_reports_invalid_requests_and_runtime_errors() {
    let runner = FakeRunner::default();
    let mut runtime = DockerCli::with_program_runner_and_temp_root("docker", runner, "/tmp/mirage-errors");
    let mut progress = None;

    let mut request = complex_request();
    request.container.resource_limits_json = Some("[]".to_string());
    let error = runtime.start_staged(&request, None, &mut progress).unwrap_err();
    assert!(matches!(error, ContainerRuntimeError::InvalidRequest(_)));

    let mut request = complex_request();
    request.container.mounts[0].host_path = "relative/path".to_string();
    let error = runtime.start_staged(&request, None, &mut progress).unwrap_err();
    assert!(matches!(error, ContainerRuntimeError::InvalidRequest(_)));
    assert!(runtime.runner().calls().is_empty());

    runtime.runner().push_response(Ok(CommandOutput {
        status: Some(1),
        stdout: Vec::new(),
        stderr: b"No such container: container-404".to_vec(),
    }));
    let error = runtime.read_logs(&handle("container-404", "missing"), &mut progress).unwrap_err();
    assert!(matches!(error, ContainerRuntimeError::NotFound(_)));

    let unavailable_runner = FakeRunner::default();
    unavailable_runner.push_response(Err(RunFailure { not_found: true, message: "docker not found".to_string() }));
    let unavailable = DockerCli::with_program_runner_and_temp_root("docker", unavailable_runner, "/tmp/mirage-errors");
    let error = unavailable.pull_image("ghcr.io/example/runtime:latest", &mut progress).unwrap_err();
    assert_eq!(error, ContainerRuntimeError::RuntimeUnavailable("docker is not installed or not on PATH".to_string()));
}

#[test]
fn docker_cli_parses_exited_state_and_exec_non_zero_exit_codes() {
    let runner = FakeRunner::default();
    runner.push_response(Ok(CommandOutput { status: Some(17), stdout: b"partial".to_vec(), stderr: b"failure".to_vec() }));
    let runtime = DockerCli::with_program_runner_and_temp_root("docker", runner, "/tmp/mirage-inspect-exit");
    let mut progress = None;

    let mut entries = inspect_entries("exited", 42, vec![]);
    entries[0].id = "container-7".to_string();
    let inspection = runtime.parse_inspection("container-7", entries).unwrap();
    assert_eq!(inspection.state, ContainerState::Exited);
    assert_eq!(inspection.exit_code, Some(42));

    let exec = runtime
        .exec(
            &ExecRequest {
                container: inspection.handle,
                program: ExecArgs { command: "/bin/check".to_string(), args: Vec::new(), env: Vec::new() },
                working_dir: None,
            },
            &mut progress,
        )
        .unwrap();
    assert_eq!(exec.exit_code, 17);
    assert_eq!(exec.stdout, b"partial");
    assert_eq!(exec.stderr, b"failure");
}

#[test]
fn docker_cli_streams_pull_progress_events() {
    let runner = FakeRunner::default();
    runner.push_response(ok_output(b"layer-1\nlayer-2\n", b"digest-check\n"));
    let runtime = DockerCli::with_program_runner_and_temp_root("docker", runner, "/tmp/mirage-pull-progress");
    let mut progress = Some(Vec::new());

    runtime.pull_image("ghcr.io/example/runtime:latest", &mut progress).unwrap();

    let events = progress.unwrap();
    assert!(events.iter().any(|event| matches!(
        event,
        ContainerRuntimeEvent::Status { operation: ContainerRuntimeOperation::PullImage, message }
            if message.contains("running docker pull ghcr.io/example/runtime:latest")
    )));
    assert!(events.iter().any(|event| matches!(
        event,
        ContainerRuntimeEvent::Stdout { operation: ContainerRuntimeOperation::PullImage, chunk }
            if chunk == b"layer-1\nlayer-2\n"
    )));
    assert!(events.iter().any(|event| matches!(
        event,
        ContainerRuntimeEvent::Stderr { operation: ContainerRuntimeOperation::PullImage, chunk }
            if chunk == b"digest-check\n"
    )));
    assert_eq!(
        events.last(),
        Some(&ContainerRuntimeEvent::Status {
            operation: ContainerRuntimeOperation::PullImage,
            message: "docker pull ghcr.io/example/runtime:latest exited with 0".to_string(),
        })
    );
}

#[test]
fn failed_command_reports_its_command_line() {
    let runner = FakeRunner::default();
    runner.push_response(Ok(CommandOutput { status: Some(2), stdout: b" partial \n".to_vec(), stderr: b"  boom \n".to_vec() }));
    let runtime = DockerCli::with_program_runner_and_temp_root("docker", runner, "/tmp/x");
    let error = runtime.stop_container(&handle("abc", "n"), 3, &mut None).unwrap_err();
    assert_eq!(
        error,
        ContainerRuntimeError::CommandFailed {
            command: "docker stop --time 3 abc".to_string(),
            status: Some(2),
            stdout: "partial".to_string(),
            stderr: "boom".to_string(),
        }
    );
}

#[test]
fn removing_a_missing_container_still_cleans_up() {
    let runner = FakeRunner::default();
    runner.push_response(ok_output(b"c-1\n", b""));
    runner.push_response(Ok(CommandOutput { status: Some(1), stdout: vec![], stderr: b"Error: No such container: c-1".to_vec() }));
    let mut runtime = DockerCli::with_runner(runner, "/tmp/root");
    assert_eq!(runtime.program(), "docker");
    let request = complex_request();
    let id = runtime.start_staged(&request, Some("/tmp/root/dir".to_string()), &mut None).unwrap();
    assert_eq!(id, "c-1");
    let removal = runtime.remove_container(&handle("c-1", "x"), false, &mut None);
    assert_eq!(removal.result, Err(ContainerRuntimeError::NotFound("c-1".to_string())));
    assert_eq!(removal.staged_dir, Some("/tmp/root/dir".to_string()));
    assert_eq!(runtime.runner().calls()[1].1, vec!["rm".to_string(), "c-1".to_string()]);
}

#[test]
fn networks_need_a_name() {
    let runner = FakeRunner::default();
    let runtime = DockerCli::with_runner(runner, "/tmp/root");
    assert!(matches!(runtime.create_network("  ", &mut None), Err(ContainerRuntimeError::InvalidRequest(_))));
    runtime.create_network("mirage-net", &mut None).unwrap();
    runtime.remove_network("mirage-net", &mut None).unwrap();
    let calls = runtime.runner().calls();
    assert_eq!(calls[0].1, vec!["network".to_string(), "create".to_string(), "mirage-net".to_string()]);
    assert_eq!(calls[1].1, vec!["network".to_string(), "rm".to_string(), "mirage-net".to_string()]);
}

#[test]
fn empty_run_output_is_a_parse_error() {
    let output = CommandOutput { status: Some(0), stdout: b"  \n".to_vec(), stderr: vec![] };
    assert_eq!(
        container_id_from(&output),
        Err(ContainerRuntimeError::Parse("docker run did not return a container id".to_string()))
    );
    let exec = exec_outcome(CommandOutput { status: None, stdout: vec![1], stderr: vec![] }).unwrap();
    assert_eq!(exec.exit_code, 0);
    let missing = exec_outcome(CommandOutput { status: Some(1), stdout: vec![], stderr: b"No such container: x\n".to_vec() });
    assert_eq!(missing, Err(ContainerRuntimeError::NotFound("No such container: x".to_string())));
}

#[test]
fn paths_ports_and_states_are_checked() {
    assert!(validate_host_path("/opt").is_ok());
    assert_eq!(
        validate_host_path("opt"),
        Err(ContainerRuntimeError::InvalidRequest("host path 'opt' must be absolute".to_string()))
    );
    assert!(validate_container_path("relative").is_err());
    assert_eq!(parse_port_key("8080/tcp"), Ok((8080, Protocol::Tcp)));
    assert_eq!(parse_port_key("53/udp"), Ok((53, Protocol::Udp)));
    assert!(parse_port_key("80/sctp").is_err());
    assert!(parse_port_key("eighty/tcp").is_err());
    assert_eq!(parse_state("running"), Ok(ContainerState::Running));
    assert_eq!(parse_state("created"), Ok(ContainerState::Created));
    assert_eq!(parse_state("exited"), Ok(ContainerState::Exited));
    assert!(parse_state("paused").is_err());
    assert_eq!(protocol_name(Protocol::Udp), "udp");
    assert_eq!(format_command("docker", &vec!["ps".to_string(), "-a".to_string()]), "docker ps -a");
}

#[test]
fn resource_limits_come_from_json() {
    assert_eq!(resource_limit_args(&None), Ok(vec![]));
    assert_eq!(
        resource_limit_args(&Some("{\"cpu\":4,\"memory\":\"8Gi\"}".to_string())),
        Ok(vec!["--cpus".to_string(), "4".to_string(), "--memory".to_string(), "8Gi".to_string()])
    );
    assert!(matches!(resource_limit_args(&Some("[]".to_string())), Err(ContainerRuntimeError::InvalidRequest(_))));
    assert!(matches!(resource_limit_args(&Some("not json".to_string())), Err(ContainerRuntimeError::Parse(_))));
    let args = build_run_args(&complex_request(), None).unwrap();
    assert_eq!(args[0], "run");
    assert_eq!(args[1], "-d");
}

fn container_request() -> StartContainerRequest {
    StartContainerRequest {
        name: "session-a-node0".to_string(),
        container: ContainerDef {
            image: "ghcr.io/example/runtime:latest".to_string(),
            mounts: Vec::new(),
            injected_files: Vec::new(),
            entrypoint: ExecArgs { command: "/bin/app".to_string(), args: vec!["--serve".to_string()], env: Vec::new() },
            working_dir: None,
            ports: vec![
                PortMapping { container_port: 8080, host_port: 0, protocol: Protocol::Tcp, label: Some("http".to_string()) },
                PortMapping { container_port: 9000, host_port: 9000, protocol: Protocol::Udp, label: Some("metrics".to_string()) },
            ],
            privileged: false,
            devices: vec![],
            resource_limits_json: None,
            network: None,
            labels: vec![],
        },
    }
}

#[test]
fn mock_runtime_exercises_full_lifecycle() {
    let mut runtime = MockContainerRuntime::new();
    runtime.pull_image("ghcr.io/example/runtime:latest", &mut None).unwrap();

    let started = runtime.start_container(container_request(), &mut None).unwrap();
    assert_eq!(started.inspection.handle.id, "mock-1");
    assert_eq!(started.inspection.state, ContainerState::Running);
    assert_eq!(started.inspection.ports[0].host_port, Some(40_000));
    assert_eq!(started.inspection.ports[1].host_port, Some(9000));

    runtime.set_logs(&started.inspection.handle, ContainerLogs { stdout: b"hello".to_vec(), stderr: b"warn".to_vec() });
    runtime.queue_exec_result(
        &started.inspection.handle,
        ExecResult { exit_code: 12, stdout: b"done".to_vec(), stderr: b"oops".to_vec() },
    );

    let inspection = runtime.inspect_container(&started.inspection.handle, &mut None).unwrap();
    assert_eq!(inspection, started.inspection);

    let logs = runtime.read_logs(&started.inspection.handle, &mut None).unwrap();
    assert_eq!(logs.stdout, b"hello");
    assert_eq!(logs.stderr, b"warn");

    let exec = runtime
        .exec(
            ExecRequest {
                container: started.inspection.handle.clone(),
                program: ExecArgs { command: "/bin/check".to_string(), args: vec!["--verbose".to_string()], env: Vec::new() },
                working_dir: Some("/work".to_string()),
            },
            &mut None,
        )
        .unwrap();
    assert_eq!(exec.exit_code, 12);
    assert_eq!(exec.stdout, b"done");
    assert_eq!(exec.stderr, b"oops");

    runtime.stop_container(&started.inspection.handle, 15, &mut None).unwrap();
    let inspection = runtime.inspect_container(&started.inspection.handle, &mut None).unwrap();
    assert_eq!(inspection.state, ContainerState::Exited);
    assert_eq!(inspection.exit_code, Some(0));

    runtime.remove_container(&started.inspection.handle, true, &mut None).unwrap();
    let error = runtime.inspect_container(&started.inspection.handle, &mut None).unwrap_err();
    assert!(matches!(error, ContainerRuntimeError::NotFound(_)));

    assert_eq!(runtime.pulled_images(), vec!["ghcr.io/example/runtime:latest".to_string()]);
    assert_eq!(runtime.start_requests().len(), 1);
    assert_eq!(runtime.exec_requests().len(), 1);
}

#[test]
fn mock_runtime_supports_failure_injection() {
    let mut runtime = MockContainerRuntime::new();
    runtime.fail_next_pull("registry down".to_string());
    let error = runtime.pull_image("ghcr.io/example/runtime:latest", &mut None).unwrap_err();
    assert!(matches!(error, ContainerRuntimeError::CommandFailed { .. }));

    runtime.fail_next_start("cannot launch".to_string());
    let error = runtime.start_container(container_request(), &mut None).unwrap_err();
    assert!(matches!(error, ContainerRuntimeError::CommandFailed { .. }));

    let started = runtime.start_container(container_request(), &mut None).unwrap();
    runtime.fail_next_logs(&started.inspection.handle, "logs unavailable".to_string());
    let error = runtime.read_logs(&started.inspection.handle, &mut None).unwrap_err();
    assert!(matches!(error, ContainerRuntimeError::CommandFailed { .. }));

    runtime.fail_next_exec(&started.inspection.handle, "exec unavailable".to_string());
    let error = runtime
        .exec(
            ExecRequest {
                container: started.inspection.handle.clone(),
                program: ExecArgs { command: "/bin/echo".to_string(), args: vec!["hi".to_string()], env: Vec::new() },
                working_dir: None,
            },
            &mut None,
        )
        .unwrap_err();
    assert!(matches!(error, ContainerRuntimeError::CommandFailed { .. }));
    // Each injected failure is reported once.
    assert!(runtime.read_logs(&started.inspection.handle, &mut None).is_ok());
}

#[test]
fn mock_runtime_emits_progress_events() {
    let mut runtime = MockContainerRuntime::new();
    let mut progress = Some(Vec::new());
    runtime.pull_image("ghcr.io/example/runtime:latest", &mut progress).unwrap();
    let started = runtime.start_container(container_request(), &mut progress).unwrap();
    runtime.set_logs(&started.inspection.handle, ContainerLogs { stdout: b"hello".to_vec(), stderr: b"warn".to_vec() });
    runtime.read_logs(&started.inspection.handle, &mut progress).unwrap();
    runtime
        .exec(
            ExecRequest {
                container: started.inspection.handle.clone(),
                program: ExecArgs { command: "/bin/echo".to_string(), args: vec!["hi".to_string()], env: Vec::new() },
                working_dir: None,
            },
            &mut progress,
        )
        .unwrap();

    let events = progress.unwrap();
    assert!(events.iter().any(|event| matches!(
        event,
        ContainerRuntimeEvent::Status { operation: ContainerRuntimeOperation::PullImage, .. }
    )));
    assert!(events.iter().any(|event| matches!(
        event,
        ContainerRuntimeEvent::Status { operation: ContainerRuntimeOperation::StartContainer, .. }
    )));
    assert!(events.iter().any(|event| matches!(
        event,
        ContainerRuntimeEvent::Stdout { operation: ContainerRuntimeOperation::ReadLogs, chunk } if chunk == b"hello"
    )));
    assert!(events.iter().any(|event| matches!(
        event,
        ContainerRuntimeEvent::Stderr { operation: ContainerRuntimeOperation::ReadLogs, chunk } if chunk == b"warn"
    )));
    assert!(events.iter().any(|event| matches!(
        event,
        ContainerRuntimeEvent::Status { operation: ContainerRuntimeOperation::Exec, message }
            if message == "executing /bin/echo in mock-1"
    )));
}

#[test]
fn mock_networks_are_recorded_and_removed() {
    let mut runtime = MockContainerRuntime::new();
    runtime.create_network("a", &mut None);
    runtime.create_network("b", &mut None);
    runtime.create_network("a", &mut None);
    runtime.remove_network("a", &mut None);
    assert_eq!(runtime.networks(), vec!["b".to_string()]);
}

#[test]
fn progress_is_reported_only_to_a_log() {
    let mut log = Some(Vec::new());
    emit_status(&mut log, ContainerRuntimeOperation::Exec, "hi".to_string());
    emit_stdout(&mut log, ContainerRuntimeOperation::Exec, b"");
    emit_stderr(&mut log, ContainerRuntimeOperation::Exec, b"x");
    assert_eq!(log.as_ref().map(|l| l.len()), Some(2));
    let mut none: Option<Vec<ContainerRuntimeEvent>> = None;
    emit_status(&mut none, ContainerRuntimeOperation::Exec, "hi".to_string());
    assert!(none.is_none());
}

#[test]
fn mock_runtime_records_requests_as_received() {
    let mut runtime = MockContainerRuntime::new();
    let request = container_request();
    runtime.start_container(request.clone(), &mut None).unwrap();
    let exec = ExecRequest {
        container: ContainerHandle { id: "mock-1".to_string(), name: request.name.clone() },
        program: ExecArgs { command: "/bin/check".to_string(), args: vec!["--fast".to_string()], env: Vec::new() },
        working_dir: None,
    };
    let _ = runtime.exec(exec.clone(), &mut None);
    assert_eq!(runtime.start_requests(), vec![request]);
    assert_eq!(runtime.exec_requests(), vec![exec]);
}

#[test]
fn resource_limits_take_strings_and_numbers_only() {
    assert_eq!(
        limit_args(Some(JsonKind::Number("4".to_string())), Some(JsonKind::Text("8Gi".to_string()))),
        Ok(vec!["--cpus".to_string(), "4".to_string(), "--memory".to_string(), "8Gi".to_string()])
    );
    assert_eq!(limit_args(None, None), Ok(vec![]));
    assert!(matches!(limit_args(Some(JsonKind::Bool(true)), None), Err(ContainerRuntimeError::InvalidRequest(_))));
    assert!(matches!(limit_args(None, Some(JsonKind::Array)), Err(ContainerRuntimeError::InvalidRequest(_))));
    assert!(matches!(resource_limit_args(&Some("{\"cpu\":[1]}".to_string())), Err(ContainerRuntimeError::InvalidRequest(_))));
    assert!(matches!(resource_limit_args(&Some("4".to_string())), Err(ContainerRuntimeError::InvalidRequest(_))));
}

#[test]
fn staging_directories_of_successive_starts_differ() {
    let mut runtime = DockerCli::with_program_runner_and_temp_root("docker", FakeRunner::default(), "/tmp/root");
    let first = runtime.unique_temp_dir("app", 7);
    let second = runtime.unique_temp_dir("app", 7);
    assert_eq!(first, "/tmp/root/mirage-container-app-7-1");
    assert_eq!(second, "/tmp/root/mirage-container-app-7-2");
    assert_ne!(first, second);
}

#[test]
fn queued_exec_results_come_back_in_order() {
    let mut runtime = MockContainerRuntime::new();
    let handle = runtime.start_container(container_request(), &mut None).unwrap().inspection.handle;
    for code in [1, 2, 3] {
        runtime.queue_exec_result(&handle, ExecResult { exit_code: code, stdout: Vec::new(), stderr: Vec::new() });
    }
    let request = ExecRequest {
        container: handle.clone(),
        program: ExecArgs { command: "/bin/true".to_string(), args: Vec::new(), env: Vec::new() },
        working_dir: None,
    };
    let codes: Vec<i32> = (0..4).map(|_| runtime.exec(request.clone(), &mut None).unwrap().exit_code).collect();
    assert_eq!(codes, vec![1, 2, 3, 0]);
    assert_eq!(runtime.exec_requests().len(), 4);
}
