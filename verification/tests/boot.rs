use mirage::boot::{boot_reply, progress_message, BootAction, BootEvent, BootReply, BootStage, BootSuccess, BootTask};
use mirage::container::{ContainerHandle, ContainerRuntimeEvent, ContainerRuntimeOperation};
use mirage::daemon::{boot_plan, ProfileDef, SimulatorMode};

fn profile(nodes: u32) -> ProfileDef {
    ProfileDef {
        name: "mi300x".to_string(),
        simulator: "rocjitsu".to_string(),
        mode: SimulatorMode::Functional,
        gpu: "MI300X".to_string(),
        num_gpus: 1,
        num_nodes: nodes,
    }
}

fn task(nodes: u32) -> (BootTask, BootAction) {
    let plan = boot_plan("s", "mi300x", &profile(nodes), "img:1", "emu-s-1", &None, &vec![]);
    BootTask::new(plan, "img:1".to_string(), "emu-s-1".to_string())
}

fn handle(id: &str) -> ContainerHandle {
    ContainerHandle { id: id.to_string(), name: id.to_string() }
}

fn started_name(action: &BootAction) -> String {
    match action {
        BootAction::StartContainer(request) => request.name.clone(),
        other => panic!("expected a container start, got {other:?}"),
    }
}

#[test]
fn single_node_boot_pulls_then_starts_then_finishes() {
    let (mut task, first) = task(1);
    assert_eq!(first, BootAction::PullImage("img:1".to_string()));
    let start = task.step(BootEvent::PullDone);
    assert_eq!(started_name(&start), "mirage-s");
    let done = task.step(BootEvent::ContainerStarted(Ok(handle("c1"))));
    assert_eq!(
        done,
        BootAction::Finish(Ok(BootSuccess { emulator_session: "emu-s-1".to_string(), container_ids: vec!["c1".to_string()] }))
    );
}

#[test]
fn multi_node_boot_creates_the_network_first() {
    let (mut task, _) = task(2);
    assert_eq!(task.step(BootEvent::PullDone), BootAction::CreateNetwork("mirage-s".to_string()));
    let first = task.step(BootEvent::NetworkCreated(Ok(())));
    assert_eq!(started_name(&first), "mirage-s-node0");
    let second = task.step(BootEvent::ContainerStarted(Ok(handle("c0"))));
    assert_eq!(started_name(&second), "mirage-s-node1");
    let done = task.step(BootEvent::ContainerStarted(Ok(handle("c1"))));
    let success = BootSuccess { emulator_session: "emu-s-1".to_string(), container_ids: vec!["c0".to_string(), "c1".to_string()] };
    assert_eq!(done, BootAction::Finish(Ok(BootSuccess { emulator_session: "emu-s-1".to_string(), container_ids: vec!["c0".to_string(), "c1".to_string()] })));
    let reply = boot_reply(Ok(success));
    assert!(reply.ok);
    assert_eq!(reply.container_ids.len(), 2);
    assert_eq!(reply.container_id, Some("c0".to_string()));
}

#[test]
fn network_failure_fails_the_boot() {
    let (mut task, _) = task(3);
    task.step(BootEvent::PullDone);
    assert_eq!(
        task.step(BootEvent::NetworkCreated(Err("denied".to_string()))),
        BootAction::Finish(Err("failed to create network: denied".to_string()))
    );
}

#[test]
fn boot_handles_start_container_failure() {
    let (mut task, _) = task(3);
    task.step(BootEvent::PullDone);
    task.step(BootEvent::NetworkCreated(Ok(())));
    task.step(BootEvent::ContainerStarted(Ok(handle("c0"))));
    task.step(BootEvent::ContainerStarted(Ok(handle("c1"))));
    // The third container fails: the two started ones go, then the network.
    assert_eq!(task.step(BootEvent::ContainerStarted(Err("no space".to_string()))), BootAction::RemoveNode(handle("c0")));
    assert_eq!(task.step(BootEvent::NodeRemoved), BootAction::RemoveNode(handle("c1")));
    assert_eq!(task.step(BootEvent::NodeRemoved), BootAction::RemoveNetwork("mirage-s".to_string()));
    assert_eq!(
        task.step(BootEvent::NetworkRemoved),
        BootAction::Finish(Err("failed to start container: no space".to_string()))
    );
}

#[test]
fn single_node_start_failure_reports_at_once() {
    let (mut task, _) = task(1);
    task.step(BootEvent::PullDone);
    assert_eq!(
        task.step(BootEvent::ContainerStarted(Err("boom".to_string()))),
        BootAction::Finish(Err("failed to start container: boom".to_string()))
    );
    let _ = BootStage::Finished;
}

#[test]
fn pull_progress_becomes_the_session_message() {
    let status = ContainerRuntimeEvent::Status { operation: ContainerRuntimeOperation::PullImage, message: "pulling".to_string() };
    assert_eq!(progress_message(&status), Some("pulling".to_string()));
    let chunk = ContainerRuntimeEvent::Stdout { operation: ContainerRuntimeOperation::PullImage, chunk: b"layer 1\n  layer 2 done \n".to_vec() };
    assert_eq!(progress_message(&chunk), Some("layer 2 done".to_string()));
    let crlf = ContainerRuntimeEvent::Stderr { operation: ContainerRuntimeOperation::PullImage, chunk: b"a\r\nb\r\n".to_vec() };
    assert_eq!(progress_message(&crlf), Some("b".to_string()));
    let blank = ContainerRuntimeEvent::Stdout { operation: ContainerRuntimeOperation::PullImage, chunk: b"x\n   \n".to_vec() };
    assert_eq!(progress_message(&blank), None);
    let binary = ContainerRuntimeEvent::Stdout { operation: ContainerRuntimeOperation::PullImage, chunk: vec![0xff, 0xfe] };
    assert_eq!(progress_message(&binary), None);
    let empty = ContainerRuntimeEvent::Status { operation: ContainerRuntimeOperation::PullImage, message: String::new() };
    assert_eq!(progress_message(&empty), None);
}

#[test]
fn a_failed_boot_replies_with_its_failure() {
    let reply = boot_reply(Err("failed to start container: simulated OOM".to_string()));
    assert_eq!(
        reply,
        BootReply {
            ok: false,
            error: Some("failed to start container: simulated OOM".to_string()),
            container_id: None,
            container_ids: vec![],
        }
    );
    assert!(reply.error.unwrap().contains("failed to start"));
}
