use cdi::log::{ProcessInfo, ProcessStatus};
use cdi::process::{Phase, ProcessAction, ProcessEvent, ProcessMachine};
use cdi::server::{Message, ServerCommand};
use cdi::supervisor::{decide, stragglers, SupervisorDecision};

fn machine(command: &str, cwd: Option<&str>) -> ProcessMachine {
    ProcessMachine::new(ProcessInfo::new("svc".to_string(), command.to_string(), cwd.map(|c| c.to_string())))
}

fn running(command: &str, pid: u32) -> ProcessMachine {
    let mut m = machine(command, None);
    m.start();
    assert!(m.handle(ProcessEvent::Spawned { pid }).is_empty());
    m
}

fn log_text(a: &ProcessAction) -> &str {
    match a {
        ProcessAction::AppendLog { content } => content,
        other => panic!("expected a log line, got {:?}", other),
    }
}

#[test]
fn start_asks_to_spawn_the_parsed_command() {
    let mut m = machine("\"my tool\" --port 80", Some("/srv"));
    let actions = m.start();
    assert_eq!(actions.len(), 1);
    match &actions[0] {
        ProcessAction::Spawn { program, args, cwd } => {
            assert_eq!(program, "my tool");
            assert_eq!(args, &vec!["--port".to_string(), "80".to_string()]);
            assert_eq!(cwd.as_deref(), Some("/srv"));
        },
        other => panic!("unexpected {:?}", other),
    }
    assert_eq!(m.phase(), Phase::Spawning);
}

#[test]
fn empty_command_crashes_without_spawning() {
    let mut m = machine("   ", None);
    let actions = m.start();
    assert_eq!(actions.len(), 2);
    assert_eq!(log_text(&actions[0]), "Process svc has no command to run");
    assert!(matches!(actions[1], ProcessAction::Finish));
    assert_eq!(m.phase(), Phase::Exited);
    assert_eq!(m.info().status, ProcessStatus::Crashed);
}

#[test]
fn spawn_failure_crashes_with_the_error() {
    let mut m = machine("nope", None);
    m.start();
    let actions = m.handle(ProcessEvent::SpawnFailed { error: "No such file or directory".to_string() });
    assert_eq!(log_text(&actions[0]), "Process svc failed to start: No such file or directory");
    assert!(matches!(actions[1], ProcessAction::Finish));
    assert_eq!(m.phase(), Phase::Exited);
    assert_eq!(m.info().status, ProcessStatus::Crashed);
    assert_eq!(m.info().pid, None);
}

#[test]
fn spawned_child_is_running_with_its_pid() {
    let m = running("sleep 10", 4242);
    assert_eq!(m.phase(), Phase::Running);
    assert_eq!(m.info().status, ProcessStatus::Running);
    assert_eq!(m.info().pid, Some(4242));
}

#[test]
fn natural_exit_appends_one_exit_line() {
    let mut m = running("true", 7);
    let actions = m.handle(ProcessEvent::ChildExited { code: Some(0), status: "exit status: 0".to_string() });
    assert_eq!(actions.len(), 2);
    assert_eq!(log_text(&actions[0]), "Process true exited with status: exit status: 0");
    assert!(matches!(actions[1], ProcessAction::Finish));
    assert_eq!(m.phase(), Phase::Exited);
    assert_eq!(m.info().status, ProcessStatus::Stopped);
    assert_eq!(m.info().exit_code, Some(0));
}

#[test]
fn failing_exit_is_a_crash() {
    let mut m = running("false", 7);
    m.handle(ProcessEvent::ChildExited { code: Some(1), status: "exit status: 1".to_string() });
    assert_eq!(m.info().status, ProcessStatus::Crashed);
    assert_eq!(m.info().exit_code, Some(1));
}

#[test]
fn shutdown_signals_the_group_then_exits_stopped() {
    let mut m = running("sleep 100", 300);
    let actions = m.handle(ProcessEvent::Command(ServerCommand::Shutdown));
    assert_eq!(actions.len(), 1);
    assert!(matches!(actions[0], ProcessAction::SignalGroup { pid: 300 }));
    assert_eq!(m.phase(), Phase::Terminating);
    let actions = m.handle(ProcessEvent::ChildExited { code: None, status: "signal: 15 (SIGTERM)".to_string() });
    assert_eq!(log_text(&actions[0]), "Process sleep exited with status: signal: 15 (SIGTERM)");
    assert!(matches!(actions[1], ProcessAction::Finish));
    assert_eq!(m.phase(), Phase::Exited);
    assert_eq!(m.info().status, ProcessStatus::Stopped);
    assert_eq!(m.info().exit_code, None);
}

#[test]
fn grace_elapsed_escalates_to_kill() {
    let mut m = running("sleep 100", 300);
    m.handle(ProcessEvent::Command(ServerCommand::Shutdown));
    let actions = m.handle(ProcessEvent::GraceElapsed);
    assert_eq!(actions.len(), 1);
    assert!(matches!(actions[0], ProcessAction::ForceKill { pid: 300 }));
    assert_eq!(m.phase(), Phase::Terminating);
}

#[test]
fn signal_failure_is_reported_and_escalated() {
    let mut m = running("sleep 100", 300);
    m.handle(ProcessEvent::Command(ServerCommand::Shutdown));
    let actions = m.handle(ProcessEvent::SignalFailed { error: "Operation not permitted".to_string() });
    assert_eq!(log_text(&actions[0]), "Process sleep could not be signalled: Operation not permitted");
    assert!(matches!(actions[1], ProcessAction::ForceKill { pid: 300 }));
    assert_eq!(m.phase(), Phase::Terminating);
}

#[test]
fn exited_process_ignores_everything() {
    let mut m = running("true", 7);
    m.handle(ProcessEvent::ChildExited { code: Some(0), status: "exit status: 0".to_string() });
    assert!(m.handle(ProcessEvent::Command(ServerCommand::Shutdown)).is_empty());
    assert!(m.handle(ProcessEvent::ChildExited { code: Some(3), status: "x".to_string() }).is_empty());
    assert!(m.handle(ProcessEvent::GraceElapsed).is_empty());
    assert_eq!(m.phase(), Phase::Exited);
    assert_eq!(m.info().exit_code, Some(0));
}

#[test]
fn second_shutdown_while_terminating_does_nothing() {
    let mut m = running("sleep 100", 300);
    m.handle(ProcessEvent::Command(ServerCommand::Shutdown));
    assert!(m.handle(ProcessEvent::Command(ServerCommand::Shutdown)).is_empty());
    assert_eq!(m.phase(), Phase::Terminating);
}

#[test]
fn supervisor_fans_out_shutdown_and_stops_on_close() {
    let shutdown = Message::Command(ServerCommand::Shutdown);
    assert_eq!(decide(Some(&shutdown)), SupervisorDecision::FanOutAndStop(ServerCommand::Shutdown));
    let output = Message::ProcessOutput { process_id: 0, line: "hi".to_string() };
    assert_eq!(decide(Some(&output)), SupervisorDecision::Ignore);
    assert_eq!(decide(None), SupervisorDecision::Stop);
}

#[test]
fn unfinished_processes_are_reported_in_order() {
    assert_eq!(stragglers(&vec![10, 20, 30, 40], &vec![true, false, true, false]), vec![20, 40]);
    assert_eq!(stragglers(&vec![1, 2], &vec![true, true]), Vec::<u64>::new());
    assert_eq!(stragglers(&vec![], &vec![]), Vec::<u64>::new());
}
