use mirage::boot::{boot_reply, BootAction, BootEvent, BootTask};
use mirage::container::{ContainerHandle, ContainerState, ExecArgs, ListedContainer, SetEnv};
use mirage::mock::MockContainerRuntime;
use mirage::daemon::{
    active_count, boot_plan, boot_wait_outcome, builtin_simulators, check_boot, check_new_profile,
    check_new_workload, check_session_exists, docker_exec_args, emulator_session_id, exec_from_command,
    exec_program, exec_target, list_sessions, list_simulators, make_exec_id, parse_csv_exec, parse_volume,
    profile_from_request, session_count, session_labels, session_status, shutdown_check,
    simulator_supports_gpu, simulator_supports_mode, workload_from_request, CleanupPolicy,
    CreateProfileRequest, CreateWorkloadRequest, DaemonDef, DaemonState, ExecBuffer, HealthStatus,
    InterceptorSetup, PendingSession, ProfileDef, SessionPhase, SimulatorInfo, SimulatorMode, WorkloadDef,
    simulator_summary, EXEC_BUFFER_BYTES, LABEL_SESSION,
};

fn mi300x_profile() -> ProfileDef {
    ProfileDef {
        name: "mi300x".to_string(),
        simulator: "rocjitsu".to_string(),
        mode: SimulatorMode::Functional,
        gpu: "MI300X".to_string(),
        num_gpus: 1,
        num_nodes: 1,
    }
}

fn check_profile(state: &DaemonState, profile: &ProfileDef, exists: bool) -> Result<(), String> {
    check_new_profile(profile, exists, state.simulator_named(&profile.simulator))
}

/// A container the runtime lists for node `node` of `session`.
fn listed(id: &str, session: &str, profile: &str, image: &str, node: u32) -> ListedContainer {
    ListedContainer {
        handle: ContainerHandle { id: id.to_string(), name: format!("mirage-{session}") },
        image: image.to_string(),
        state: ContainerState::Running,
        labels: session_labels(session, profile, "rocjitsu", image, "emu-1", node),
    }
}

#[test]
fn creates_profile_only_for_registered_simulator() {
    let state = DaemonState::new();
    let mut custom = mi300x_profile();
    custom.name = "custom".to_string();
    custom.simulator = "nonexistent".to_string();
    assert_eq!(check_profile(&state, &custom, false), Err("simulator 'nonexistent' is not registered".to_string()));
    assert_eq!(check_profile(&state, &mi300x_profile(), false), Ok(()));
}

#[test]
fn rocjitsu_is_registered_at_startup() {
    let state = DaemonState::new();
    let info = state.simulator_named("rocjitsu").expect("rocjitsu should be registered");
    let sim = simulator_summary(info, active_count(&vec![], "rocjitsu") as u32);
    assert_eq!(sim.name.as_deref(), Some("rocjitsu"));
    assert_eq!(sim.version.as_deref(), Some("0.5.0"));
    assert!(!sim.supports_custom_gpus);
    assert_eq!(sim.active_session_count, 0);
    let gpu_names: Vec<_> = sim.supported_gpus.iter().map(|g| &g.name).collect();
    assert!(gpu_names.contains(&&"MI300X".to_string()));
    assert!(gpu_names.contains(&&"MI325X".to_string()));
    assert!(gpu_names.contains(&&"MI350X".to_string()));
}

#[test]
fn rocjitsu_gpus_have_correct_architectures() {
    let sims = builtin_simulators();
    let gpus = &sims[0].1.supported_gpus;
    let archs: Vec<(&str, &str)> = gpus.iter().map(|g| (g.name.as_str(), g.arch.as_str())).collect();
    assert_eq!(archs, vec![("MI300X", "gfx942"), ("MI325X", "gfx942"), ("MI350X", "gfx950")]);
}

#[test]
fn rocjitsu_supports_functional_mode() {
    let sims = builtin_simulators();
    assert!(simulator_supports_mode(&sims[0].1, SimulatorMode::Functional));
    assert!(!simulator_supports_mode(&sims[0].1, SimulatorMode::CycleAccurate));
    assert!(simulator_supports_gpu(&sims[0].1, "MI350X"));
    assert!(!simulator_supports_gpu(&sims[0].1, "H100"));
}

#[test]
fn rocjitsu_rejects_unsupported_mode() {
    let state = DaemonState::new();
    let mut p = mi300x_profile();
    p.mode = SimulatorMode::CycleAccurate;
    assert_eq!(
        check_profile(&state, &p, false),
        Err("mode 'CycleAccurate' is not supported by simulator 'rocjitsu'".to_string())
    );
}

#[test]
fn rocjitsu_rejects_unsupported_gpu() {
    let state = DaemonState::new();
    let mut p = mi300x_profile();
    p.gpu = "H100".to_string();
    assert_eq!(check_profile(&state, &p, false), Err("gpu 'H100' is not supported by simulator 'rocjitsu'".to_string()));
}

#[test]
fn profile_validation_edge_cases() {
    let state = DaemonState::new();
    let mut p = mi300x_profile();
    p.name = "  ".to_string();
    assert_eq!(check_profile(&state, &p, false), Err("profile name must not be empty".to_string()));
    let mut p = mi300x_profile();
    p.num_gpus = 0;
    assert_eq!(check_profile(&state, &p, false), Err("gpus per node must be greater than zero".to_string()));
    let mut p = mi300x_profile();
    p.num_nodes = 0;
    assert_eq!(check_profile(&state, &p, false), Err("node count must be greater than zero".to_string()));
    assert_eq!(check_profile(&state, &mi300x_profile(), true), Err("profile 'mi300x' already exists".to_string()));
}

#[test]
fn profile_request_maps_fields() {
    let profile = profile_from_request(CreateProfileRequest {
        name: "mi300x".to_string(),
        simulator: "rocjitsu".to_string(),
        gpu: "MI300X".to_string(),
        mode: SimulatorMode::Functional,
        gpus_per_node: 1,
        nodes: 1,
    });
    assert_eq!(profile, mi300x_profile());
    let config = DaemonDef { profiles: vec![profile] };
    assert_eq!(config.profiles.len(), 1);
}

#[test]
fn register_simulator_with_empty_name_fails() {
    let mut state = DaemonState::new();
    let mut info: SimulatorInfo = builtin_simulators().remove(0).1;
    info.name = "".to_string();
    assert_eq!(state.register_sim(info), Err("simulator name must not be empty".to_string()));
    let mut custom: SimulatorInfo = builtin_simulators().remove(0).1;
    custom.name = "custom-sim".to_string();
    assert_eq!(state.register_sim(custom), Ok(()));
    assert!(state.simulator_named("custom-sim").is_some());
    assert_eq!(state.simulator_entries().len(), 2);
}

fn workload(name: &str, execs: Vec<ExecArgs>) -> WorkloadDef {
    WorkloadDef {
        name: name.to_string(),
        profile: "mi300x".to_string(),
        image: "img:latest".to_string(),
        startup: None,
        execs,
        cleanup: CleanupPolicy::Always,
    }
}

fn step(cmd: &str) -> ExecArgs {
    ExecArgs { command: cmd.to_string(), args: vec![], env: vec![] }
}

#[test]
fn workload_create_rejects_empty_name() {
    assert_eq!(check_new_workload(&workload("", vec![step("true")]), false, true), Err("workload name must not be empty".to_string()));
}

#[test]
fn workload_create_rejects_empty_execs() {
    assert_eq!(
        check_new_workload(&workload("w", vec![]), false, true),
        Err("workload must contain at least one exec step".to_string())
    );
}

#[test]
fn workload_create_rejects_missing_profile() {
    assert_eq!(check_new_workload(&workload("w", vec![step("true")]), false, false), Err("profile 'mi300x' does not exist".to_string()));
}

#[test]
fn workload_create_rejects_duplicate_name() {
    assert_eq!(check_new_workload(&workload("w", vec![step("true")]), true, true), Err("workload 'w' already exists".to_string()));
    assert_eq!(check_new_workload(&workload("w", vec![step("true")]), false, true), Ok(()));
}

#[test]
fn workload_create_with_startup() {
    let w = workload_from_request(CreateWorkloadRequest {
        name: "train".to_string(),
        profile: "mi300x".to_string(),
        image: "img:latest".to_string(),
        startup: Some("pip,install,-r,requirements.txt".to_string()),
        execs: vec!["python,train.py,--epochs,1".to_string(), "true".to_string()],
        cleanup: CleanupPolicy::Always,
    });
    let startup = w.startup.unwrap();
    assert_eq!(startup.command, "pip");
    assert_eq!(startup.args, vec!["install", "-r", "requirements.txt"]);
    assert_eq!(w.execs.len(), 2);
    assert_eq!(w.execs[0].command, "python");
    assert_eq!(w.execs[0].args, vec!["train.py", "--epochs", "1"]);
    assert!(w.execs[1].args.is_empty());
    let e = parse_csv_exec("a,,b,");
    assert_eq!(e.command, "a");
    assert_eq!(e.args, vec!["", "b", ""]);
}

#[test]
fn boot_rejects_missing_profile() {
    assert_eq!(
        check_boot("test", "nonexistent", &vec![], false, false, None, true, true),
        Err("profile 'nonexistent' does not exist".to_string())
    );
}

#[test]
fn boot_rejects_empty_session_name() {
    let p = mi300x_profile();
    assert_eq!(check_boot(" ", "mi300x", &vec![], false, false, Some(&p), true, true), Err("session name must not be empty".to_string()));
}

#[test]
fn boot_rejects_duplicate_session_name() {
    let p = mi300x_profile();
    assert_eq!(
        check_boot("dup", "mi300x", &vec![], true, false, Some(&p), true, true),
        Err("session 'dup' already exists".to_string())
    );
    assert_eq!(
        check_boot("dup", "mi300x", &vec![], false, true, Some(&p), true, true),
        Err("session 'dup' already exists".to_string())
    );
}

#[test]
fn boot_without_container_runtime_fails() {
    let p = mi300x_profile();
    assert_eq!(check_boot("s", "mi300x", &vec![], false, false, Some(&p), true, false), Err("no container runtime configured".to_string()));
    assert_eq!(check_boot("s", "mi300x", &vec![], false, false, Some(&p), true, true), Ok(()));
}

#[test]
fn boot_rejects_bad_volume() {
    let p = mi300x_profile();
    assert_eq!(
        check_boot("s", "mi300x", &vec!["/data:/data".to_string(), "nocolon".to_string()], false, false, Some(&p), true, true),
        Err("invalid volume spec 'nocolon': expected host:container[:ro]".to_string())
    );
    let m = parse_volume("/host:/ctr:ro").unwrap();
    assert_eq!((m.host_path.as_str(), m.container_path.as_str(), m.readonly), ("/host", "/ctr", true));
    let m = parse_volume("/host:/ctr").unwrap();
    assert!(!m.readonly);
    assert!(parse_volume("/host").is_none());
}

#[test]
fn boot_uses_sleep_infinity_entrypoint() {
    let plan = boot_plan("vllm-test", "mi300x", &mi300x_profile(), "ghcr.io/rocm/vllm:latest", "emu-vllm-test-1", &None, &vec![]);
    assert_eq!(plan.containers.len(), 1);
    assert!(plan.network.is_none());
    let c = &plan.containers[0];
    assert_eq!(c.name, "mirage-vllm-test");
    assert_eq!(c.container.entrypoint.command, "sleep");
    assert_eq!(c.container.entrypoint.args, vec!["infinity".to_string()]);
}

#[test]
fn boot_uses_correct_image() {
    let plan = boot_plan("s", "mi300x", &mi300x_profile(), "ghcr.io/rocm/vllm:latest", "emu", &None, &vec![]);
    assert_eq!(plan.containers[0].container.image, "ghcr.io/rocm/vllm:latest");
}

#[test]
fn boot_sets_mirage_session_env() {
    let setup = Some(InterceptorSetup {
        library_path: "/usr/lib/libmirage_interceptor.so".to_string(),
        socket_path: "/run/mirage/emu.sock".to_string(),
        topology_dir: None,
    });
    let plan = boot_plan("s1", "mi300x", &mi300x_profile(), "img", "emu", &setup, &vec!["/d:/d:ro".to_string()]);
    let c = &plan.containers[0].container;
    assert_eq!(
        c.entrypoint.env,
        vec![
            SetEnv { key: "MIRAGE_SESSION".to_string(), value: "s1".to_string() },
            SetEnv { key: "LD_PRELOAD".to_string(), value: "/opt/mirage/libmirage_interceptor.so".to_string() },
            SetEnv { key: "MIRAGE_INTERCEPTOR_SOCKET".to_string(), value: "/opt/mirage/emulator.sock".to_string() },
        ]
    );
    assert_eq!(c.mounts.len(), 3);
    assert_eq!(c.mounts[0].host_path, "/usr/lib/libmirage_interceptor.so");
    assert_eq!(c.mounts[2].container_path, "/d");
    assert!(c.labels.contains(&(LABEL_SESSION.to_string(), "s1".to_string())));
}

#[test]
fn boot_multinode_starts_multiple_containers_with_network() {
    let mut profile = mi300x_profile();
    profile.name = "mi300x-2node".to_string();
    profile.num_gpus = 8;
    profile.num_nodes = 2;
    let mut mock = MockContainerRuntime::new();
    let plan = boot_plan("multi-test", "mi300x-2node", &profile, "ghcr.io/rocm/vllm:latest", "emu", &None, &vec![]);
    let (mut task, mut action) = BootTask::new(plan, "ghcr.io/rocm/vllm:latest".to_string(), "emu".to_string());
    let outcome = loop {
        let event = match action {
            BootAction::PullImage(image) => {
                mock.pull_image(&image, &mut None).unwrap();
                BootEvent::PullDone
            }
            BootAction::CreateNetwork(name) => {
                mock.create_network(&name, &mut None);
                BootEvent::NetworkCreated(Ok(()))
            }
            BootAction::StartContainer(request) => BootEvent::ContainerStarted(
                mock.start_container(request, &mut None).map(|s| s.inspection.handle).map_err(|e| format!("{e:?}")),
            ),
            BootAction::Finish(result) => break result,
            other => panic!("unexpected cleanup step {other:?}"),
        };
        action = task.step(event);
    };
    assert_eq!(boot_reply(outcome).container_ids.len(), 2);

    let starts = mock.start_requests();
    assert_eq!(starts.len(), 2, "should have 2 containers");
    assert_eq!(starts[0].name, "mirage-multi-test-node0");
    assert_eq!(starts[1].name, "mirage-multi-test-node1");
    assert_eq!(starts[0].container.network.as_deref(), Some("mirage-multi-test"));
    assert_eq!(starts[1].container.network.as_deref(), Some("mirage-multi-test"));
    assert_eq!(mock.networks(), vec!["mirage-multi-test".to_string()]);

    let find_env = |envs: &[SetEnv], key: &str| -> Option<String> { envs.iter().find(|e| e.key == key).map(|e| e.value.clone()) };
    let head_env = &starts[0].container.entrypoint.env;
    assert_eq!(find_env(head_env, "MIRAGE_NUM_NODES"), Some("2".to_string()));
    assert_eq!(find_env(head_env, "MIRAGE_NODE_RANK"), Some("0".to_string()));
    assert_eq!(find_env(head_env, "MIRAGE_HEAD_ADDR"), Some("mirage-multi-test-node0".to_string()));
    assert_eq!(find_env(head_env, "MIRAGE_HEAD_PORT"), Some("29500".to_string()));
    let worker_env = &starts[1].container.entrypoint.env;
    assert_eq!(find_env(worker_env, "MIRAGE_NUM_NODES"), Some("2".to_string()));
    assert_eq!(find_env(worker_env, "MIRAGE_NODE_RANK"), Some("1".to_string()));
    assert_eq!(find_env(worker_env, "MIRAGE_HEAD_ADDR"), Some("mirage-multi-test-node0".to_string()));
    assert_eq!(find_env(worker_env, "MIRAGE_HEAD_PORT"), Some("29500".to_string()));
}

#[test]
fn boots_and_lists_sessions() {
    let mut state = DaemonState::new();
    state.begin_boot("session-a", "mi300x", "rocjitsu", "img:latest");
    let listed_while_pulling = list_sessions(&vec![], &state, &vec![], None);
    assert_eq!(listed_while_pulling.len(), 1);
    assert_eq!(listed_while_pulling[0].phase, SessionPhase::Pulling);
    state.boot_succeeded("session-a", "emu-1".to_string());
    let containers = vec![listed("c1", "session-a", "mi300x", "img:latest", 0)];
    let sessions = list_sessions(&containers, &state, &vec![], None);
    assert_eq!(sessions.len(), 1);
    assert_eq!(sessions[0].name.as_deref(), Some("session-a"));
    assert_eq!(sessions[0].phase, SessionPhase::Running);
    assert_eq!(sessions[0].health_status, HealthStatus::Healthy);
    assert!(state.is_booted("session-a"));
}

#[test]
fn stale_session_on_disk_is_listed_as_stale() {
    let state = DaemonState::new();
    let sessions = list_sessions(&vec![], &state, &vec!["old-session".to_string()], None);
    assert_eq!(sessions.len(), 1);
    assert_eq!(sessions[0].name.as_deref(), Some("old-session"));
    assert_eq!(sessions[0].phase, SessionPhase::Stale);
    // Containers of a session this daemon did not boot are stale too.
    let containers = vec![listed("c9", "orphan", "mi300x", "img", 0)];
    let sessions = list_sessions(&containers, &state, &vec![], None);
    assert_eq!(sessions[0].phase, SessionPhase::Stale);
}

#[test]
fn session_filter_by_profile() {
    let mut state = DaemonState::new();
    state.boot_succeeded("a", "emu-a".to_string());
    state.boot_succeeded("b", "emu-b".to_string());
    let containers = vec![listed("c1", "a", "mi300x", "img", 0), listed("c2", "b", "mi350x", "img", 0)];
    let sessions = list_sessions(&containers, &state, &vec![], Some("mi350x"));
    assert_eq!(sessions.len(), 1);
    assert_eq!(sessions[0].name.as_deref(), Some("b"));
    let all = list_sessions(&containers, &state, &vec![], None);
    assert_eq!(all.len(), 2);
}

#[test]
fn stale_session_status_reports_stale_phase() {
    let state = DaemonState::new();
    let status = session_status("gone", &state, &vec![], true).unwrap();
    assert_eq!(status.phase, SessionPhase::Stale);
    assert!(session_status("nothing", &state, &vec![], false).is_err());
}

#[test]
fn shutdown_nonexistent_session_fails() {
    assert_eq!(shutdown_check("ghost", false, false, false), Err("session 'ghost' does not exist".to_string()));
    assert_eq!(shutdown_check("s", true, false, false), Ok("mirage-s".to_string()));
    assert_eq!(shutdown_check("s", false, false, true), Ok("mirage-s".to_string()));
}

#[test]
fn exec_runs_command_in_booted_session() {
    let mut containers = vec![listed("c1", "s", "mi300x", "img", 0), listed("c2", "s", "mi300x", "img", 1)];
    containers[1].labels.push(("mirage.interceptor_path".to_string(), "/opt/mirage/libmirage_interceptor.so".to_string()));
    assert_eq!(exec_target(&containers, "s", 1), Ok(1));
    assert_eq!(exec_target(&containers, "s", 0), Ok(0));
    assert_eq!(exec_target(&containers, "s", 5), Err("session 's' has no node 5".to_string()));
    let program = exec_program(&containers[1], vec!["python".to_string(), "-V".to_string()]).unwrap();
    assert_eq!(program.command, "python");
    assert_eq!(program.env, vec![SetEnv { key: "LD_PRELOAD".to_string(), value: "/opt/mirage/libmirage_interceptor.so".to_string() }]);
    let args = docker_exec_args("c2", &program);
    assert_eq!(
        args,
        vec!["exec", "-it", "c2", "-e", "LD_PRELOAD=/opt/mirage/libmirage_interceptor.so", "python", "-V"]
    );
    assert_eq!(exec_from_command(vec![]), Err("no command provided".to_string()));
}

#[test]
fn exec_fails_for_non_booted_session() {
    assert_eq!(check_session_exists(&vec![], "nope"), Err("session 'nope' does not exist".to_string()));
    assert_eq!(check_session_exists(&vec![listed("c", "yes", "p", "i", 0)], "yes"), Ok(()));
}

#[test]
fn exec_ids_count_up() {
    let mut state = DaemonState::new();
    let first = state.take_exec_number();
    let second = state.take_exec_number();
    assert_eq!((first, second), (1, 2));
    assert_eq!(make_exec_id("s", first), "session/s/exec/1");
    assert_eq!(emulator_session_id("s", 1700), "emu-s-1700");
}

#[test]
fn boot_progress_is_tracked_until_it_finishes() {
    let mut state = DaemonState::new();
    state.begin_boot("s", "p", "rocjitsu", "img");
    assert_eq!(state.pending_named("s").unwrap().progress_message.as_deref(), Some("pulling image img"));
    assert_eq!(boot_wait_outcome(state.pending_named("s"), false), None);
    assert_eq!(boot_wait_outcome(state.pending_named("s"), true), Some(SessionPhase::Pulling));
    state.mark_starting("s");
    assert_eq!(state.pending_named("s").unwrap().phase, SessionPhase::Starting);
    state.boot_failed("s", "container failed".to_string());
    let failed: &PendingSession = state.pending_named("s").unwrap();
    assert_eq!(failed.phase, SessionPhase::Failed);
    assert_eq!(boot_wait_outcome(state.pending_named("s"), false), Some(SessionPhase::Failed));
    assert!(state.remove_pending("s"));
    assert_eq!(boot_wait_outcome(state.pending_named("s"), false), Some(SessionPhase::Running));
}

#[test]
fn active_session_count_tracks_sessions() {
    let mut state = DaemonState::new();
    state.boot_succeeded("a", "emu".to_string());
    let containers = vec![
        listed("c1", "a", "mi300x", "img", 0),
        listed("c2", "a", "mi300x", "img", 1),
        listed("c3", "b", "mi300x", "img", 0),
    ];
    assert_eq!(active_count(&containers, "rocjitsu"), 3);
    assert_eq!(session_count(&containers, &state, &vec![]), 2);
    let sims = list_simulators(&state, &containers);
    assert_eq!(sims.len(), 1);
    assert_eq!(sims[0].name.as_deref(), Some("rocjitsu"));
    assert_eq!(sims[0].active_session_count, 3);
}

#[test]
fn exec_output_buffer_keeps_the_newest_bytes() {
    let mut buffer = ExecBuffer::new();
    buffer.append(b"hello ", true);
    buffer.append(b"world", true);
    buffer.append(b"oops", false);
    assert_eq!(buffer.contents(), &b"hello worldoops".to_vec());
    assert_eq!(buffer.runs(), &vec![(11usize, true), (4usize, false)]);
    let chunks = buffer.chunks_from(6);
    assert_eq!(chunks, vec![(b"world".to_vec(), true), (b"oops".to_vec(), false)]);
    let big = vec![7u8; EXEC_BUFFER_BYTES];
    buffer.append(&big, false);
    assert_eq!(buffer.contents().len(), EXEC_BUFFER_BYTES);
    assert_eq!(buffer.runs(), &vec![(EXEC_BUFFER_BYTES, false)]);
}

#[test]
fn an_exec_is_kept_under_its_id_for_attach() {
    let mut state = DaemonState::new();
    let id = state.start_exec("s");
    assert_eq!(id, "session/s/exec/1");
    assert_eq!(state.start_exec("s"), "session/s/exec/2");
    assert!(state.exec_output(&id, b"hello ", true));
    assert!(state.exec_output(&id, b"world", true));
    assert!(state.exec_output(&id, b"oops", false));
    let step = state.attach_step(&id, 0).unwrap();
    assert_eq!(step.chunks, vec![(b"hello world".to_vec(), true), (b"oops".to_vec(), false)]);
    assert_eq!(step.seen, 15);
    assert_eq!(step.exit_code, None);
    let later = state.attach_step(&id, 15).unwrap();
    assert!(later.chunks.is_empty());
    assert!(state.finish_exec(&id, 3));
    assert_eq!(state.attach_step(&id, 15).unwrap().exit_code, Some(3));
    assert!(state.attach_step("session/s/exec/9", 0).is_none());
    assert!(!state.exec_output("session/s/exec/9", b"x", true));
    assert!(state.remove_exec(&id));
    assert!(state.attach_step(&id, 0).is_none());
}

#[test]
fn exec_buffer_runs_end_with_the_appended_stream() {
    let mut buffer = ExecBuffer::new();
    buffer.append(b"ab", true);
    buffer.append(b"cd", false);
    buffer.append(b"e", false);
    assert_eq!(buffer.runs(), &vec![(2, true), (3, false)]);
}

#[test]
fn shutdown_stops_every_container_of_the_session_and_is_refused_after() {
    let mut state = DaemonState::new();
    let containers = vec![listed("c0", "s", "p", "img", 0), listed("x", "other", "p", "img", 0), listed("c1", "s", "p", "img", 1)];
    let plan = state.shutdown("s", &containers, true).unwrap();
    assert_eq!(plan.containers.iter().map(|h| h.id.clone()).collect::<Vec<_>>(), vec!["c0".to_string(), "c1".to_string()]);
    assert_eq!(plan.network, "mirage-s");
    assert_eq!(state.shutdown("s", &vec![], false), Err("session 's' does not exist".to_string()));
}

#[test]
fn a_second_shutdown_is_refused_once_the_session_is_gone() {
    let mut state = DaemonState::new();
    state.begin_boot("s", "p", "rocjitsu", "img");
    let plan = state.shutdown("s", &vec![], false).unwrap();
    assert!(plan.containers.is_empty());
    assert_eq!(state.shutdown("s", &vec![], false), Err("session 's' does not exist".to_string()));
}
