use std::io::Read;
use std::time::{Duration, Instant};

use together_rs::manager::{
    CreateOptions, CycleOutcome, LoopExit, ProcessAction, ProcessActionResponse,
    ProcessManager, ProcessManagerError,
};
use together_rs::process::{ProcessId, ProcessSignal};

/// Sleeps by waiting out a receive timeout on a channel nobody sends on.
fn pause(ms: u64) {
    let (_tx, rx) = std::sync::mpsc::channel::<()>();
    let _ = rx.recv_timeout(Duration::from_millis(ms));
}

fn no_forwarding(
    child: together_rs::process::SbProcess,
    _sequence: u32,
) -> together_rs::process::SbProcess {
    child
}

fn create(m: &mut ProcessManager, command: &str) -> ProcessId {
    match m.process_message(ProcessAction::Create(command.to_string())) {
        ProcessActionResponse::Created(id) => id,
        other => panic!("expected Created, got {:?}", response_name(&other)),
    }
}

fn list(m: &mut ProcessManager) -> Vec<ProcessId> {
    match m.process_message(ProcessAction::List) {
        ProcessActionResponse::List(ids) => ids,
        other => panic!("expected List, got {:?}", response_name(&other)),
    }
}

fn response_name(r: &ProcessActionResponse) -> &'static str {
    match r {
        ProcessActionResponse::Created(_) => "Created",
        ProcessActionResponse::Waited(_) => "Waited",
        ProcessActionResponse::Killed => "Killed",
        ProcessActionResponse::KilledAll => "KilledAll",
        ProcessActionResponse::List(_) => "List",
        ProcessActionResponse::Error(_) => "Error",
    }
}

/// Runs poll cycles (each waits the 100ms interval) until the table empties
/// or `max_cycles` elapse; reports whether it emptied.
fn drain(m: &mut ProcessManager, max_cycles: usize) -> bool {
    for _ in 0..max_cycles {
        let _ = m.rx_message_cycle(&no_forwarding);
        if list(m).is_empty() {
            return true;
        }
    }
    false
}

#[test]
fn create_assigns_increasing_sequence_numbers() {
    let mut m = ProcessManager::new().with_quit_on_completion(false);
    let a = create(&mut m, "sleep 1");
    let b = create(&mut m, "sleep 1");
    let c = create(&mut m, "sleep 2");
    assert_eq!(a.sequence(), 0);
    assert_eq!(b.sequence(), 1);
    assert_eq!(c.sequence(), 2);
    assert!(a.sequence() < b.sequence() && b.sequence() < c.sequence());
    assert_eq!(a.command(), "sleep 1");
    assert_eq!(b.command(), "sleep 1");
    assert!(a != b);
}

#[test]
fn list_reports_exactly_the_created_ids() {
    let mut m = ProcessManager::new().with_quit_on_completion(false);
    let a = create(&mut m, "sleep 2");
    let b = create(&mut m, "sleep 2");
    let ids = list(&mut m);
    assert_eq!(ids.len(), 2);
    assert!(ids.contains(&a));
    assert!(ids.contains(&b));
}

#[test]
fn kill_on_unknown_id_reports_no_such_process() {
    let mut m = ProcessManager::new().with_quit_on_completion(false);
    let survivor = create(&mut m, "sleep 2");
    let stranger = ProcessId::new(99, "sleep 2".to_string());
    let response = m.process_message(ProcessAction::Kill(stranger));
    assert!(matches!(
        response,
        ProcessActionResponse::Error(ProcessManagerError::NoSuchProcess)
    ));
    // the tracked process was not affected
    let ids = list(&mut m);
    assert_eq!(ids.len(), 1);
    assert!(ids.contains(&survivor));
}

#[test]
fn short_command_is_reaped_after_it_exits() {
    // create "sleep 1"; List has it immediately; after >1s of cycles it is gone
    let mut m = ProcessManager::new().with_quit_on_completion(false);
    let id = create(&mut m, "sleep 1");
    let ids = list(&mut m);
    assert_eq!(ids.len(), 1);
    assert_eq!(ids[0].command(), "sleep 1");
    assert_eq!(ids[0], id);
    assert!(drain(&mut m, 40), "the exited child should leave the table");
}

#[test]
fn killed_command_leaves_the_table() {
    // Kill on a just-spawned "sleep 5" answers Killed; a later List no longer has it
    let started = Instant::now();
    let mut m = ProcessManager::new().with_quit_on_completion(false);
    let id = create(&mut m, "sleep 5");
    let response = m.process_message(ProcessAction::Kill(id));
    assert!(matches!(response, ProcessActionResponse::Killed));
    assert!(drain(&mut m, 40), "the killed child should leave the table");
    assert!(
        started.elapsed().as_secs_f64() < 4.5,
        "the child must not have slept its full five seconds"
    );
}

#[test]
fn kill_with_explicit_signal() {
    let mut m = ProcessManager::new().with_quit_on_completion(false);
    let id = create(&mut m, "sleep 5");
    let response =
        m.process_message(ProcessAction::KillAdvanced(id, ProcessSignal::SIGKILL));
    assert!(matches!(response, ProcessActionResponse::Killed));
    assert!(drain(&mut m, 40));
}

#[test]
fn exit_on_error_takes_every_process_down() {
    // "exit 7" fails fast; the long-running "sleep 5" is force-killed with it
    let started = Instant::now();
    let mut m = ProcessManager::new()
        .with_quit_on_completion(false)
        .with_exit_on_error(true);
    let _failing = create(&mut m, "exit 7");
    let _survivor = create(&mut m, "sleep 5");
    assert!(drain(&mut m, 40), "both children should leave the table");
    assert!(
        started.elapsed().as_secs_f64() < 4.5,
        "the long-running child must have been signalled before its natural end"
    );
}

#[test]
fn reap_report_names_the_nonzero_exit() {
    let mut m = ProcessManager::new()
        .with_quit_on_completion(false)
        .with_exit_on_error(true);
    let failing = create(&mut m, "exit 7");
    let mut cascaded = false;
    let mut reaped: Vec<(ProcessId, i32)> = Vec::new();
    for _ in 0..40 {
        pause(100);
        let report = m.cleanup_dead_processes();
        cascaded = cascaded || report.cascaded;
        reaped.extend(report.reaped);
        if !reaped.is_empty() {
            break;
        }
    }
    assert_eq!(reaped.len(), 1);
    assert_eq!(reaped[0].0, failing);
    assert_eq!(reaped[0].1, 7);
    assert!(cascaded, "a non-zero exit under exit_on_error must cascade");
}

#[test]
fn wait_notifier_fires_when_its_process_exits() {
    let mut m = ProcessManager::new().with_quit_on_completion(false);
    let id = create(&mut m, "sleep 1");
    let receiver = match m.process_message(ProcessAction::Wait(id)) {
        ProcessActionResponse::Waited(receiver) => receiver,
        other => panic!("expected Waited, got {}", response_name(&other)),
    };
    assert!(matches!(receiver.try_recv(), Err(_)), "must not fire before exit");
    assert!(drain(&mut m, 40));
    assert!(receiver.recv().is_ok(), "the notifier must fire at removal");
}

#[test]
fn wait_notifier_never_fires_for_a_different_id() {
    let mut m = ProcessManager::new().with_quit_on_completion(false);
    let watched = create(&mut m, "sleep 4");
    let short_lived = create(&mut m, "sleep 1");
    let _ = short_lived;
    let receiver = match m.process_message(ProcessAction::Wait(watched)) {
        ProcessActionResponse::Waited(receiver) => receiver,
        other => panic!("expected Waited, got {}", response_name(&other)),
    };
    // let the short process exit and be reaped
    for _ in 0..20 {
        let _ = m.rx_message_cycle(&no_forwarding);
        if list(&mut m).len() == 1 {
            break;
        }
    }
    assert_eq!(list(&mut m).len(), 1, "only the short child should be gone");
    assert!(
        matches!(receiver.try_recv(), Err(_)),
        "the other child's exit must not fire this notifier"
    );
    let remaining = list(&mut m).remove(0);
    let kill = m.process_message(ProcessAction::Kill(remaining));
    assert!(matches!(kill, ProcessActionResponse::Killed));
    assert!(drain(&mut m, 40));
    assert!(receiver.recv().is_ok());
}

#[test]
fn wait_on_unknown_id_reports_no_such_process() {
    let mut m = ProcessManager::new().with_quit_on_completion(false);
    let stranger = ProcessId::new(5, "ls".to_string());
    let response = m.process_message(ProcessAction::Wait(stranger));
    assert!(matches!(
        response,
        ProcessActionResponse::Error(ProcessManagerError::NoSuchProcess)
    ));
}

#[test]
fn kill_all_reaches_every_live_process() {
    let started = Instant::now();
    let mut m = ProcessManager::new().with_quit_on_completion(false);
    let _a = create(&mut m, "sleep 5");
    let _b = create(&mut m, "sleep 5");
    let response = m.process_message(ProcessAction::KillAll);
    assert!(matches!(response, ProcessActionResponse::KilledAll));
    // the table drains over the following reap cycles, well before 5s pass
    let mut drained = false;
    for _ in 0..40 {
        match m.rx_message_cycle(&no_forwarding) {
            CycleOutcome::Stop(LoopExit::Drained) => {
                drained = true;
                break;
            }
            _ => {}
        }
    }
    assert!(drained, "the loop must drain after KillAll");
    assert!(started.elapsed().as_secs_f64() < 4.5);
}

#[test]
fn quit_on_completion_stops_the_loop_when_the_table_empties() {
    let mut m = ProcessManager::new().with_quit_on_completion(true);
    let _id = create(&mut m, "sleep 1");
    let mut stopped = false;
    for _ in 0..40 {
        match m.rx_message_cycle(&no_forwarding) {
            CycleOutcome::Stop(LoopExit::AllDone) => {
                stopped = true;
                break;
            }
            CycleOutcome::Stop(_) => panic!("unexpected loop exit"),
            CycleOutcome::Continue => {}
        }
    }
    assert!(stopped, "the loop must ask for program exit once all work is done");
}

#[test]
fn without_quit_on_completion_the_manager_stays_available() {
    let mut m = ProcessManager::new().with_quit_on_completion(false);
    let _id = create(&mut m, "sleep 1");
    assert!(drain(&mut m, 40));
    // a few idle cycles later, new work is still accepted
    for _ in 0..3 {
        assert!(matches!(m.rx_message_cycle(&no_forwarding), CycleOutcome::Continue));
    }
    let again = create(&mut m, "sleep 1");
    assert_eq!(again.command(), "sleep 1");
    assert_eq!(list(&mut m).len(), 1);
    assert!(drain(&mut m, 40));
}

#[test]
fn spawn_failure_reports_spawn_child_failed() {
    let mut m = ProcessManager::new()
        .with_quit_on_completion(false)
        .with_working_directory(Some("/nonexistent-path-for-spawning".to_string()));
    let response = m.process_message(ProcessAction::Create("ls".to_string()));
    assert!(matches!(
        response,
        ProcessActionResponse::Error(ProcessManagerError::SpawnChildFailed(_))
    ));
    assert!(list(&mut m).is_empty());
    // the sequence number was still consumed, as the next create shows
    let mut ok = ProcessManager::new().with_quit_on_completion(false);
    let first = match ok.process_message(ProcessAction::CreateAdvanced(
        "ls".to_string(),
        CreateOptions {
            stdio: None,
            cwd: Some("/also-not-a-real-directory".to_string()),
        },
    )) {
        ProcessActionResponse::Error(ProcessManagerError::SpawnChildFailed(_)) => (),
        other => panic!("expected SpawnChildFailed, got {}", response_name(&other)),
    };
    let _ = first;
    let next = create(&mut ok, "sleep 1");
    assert_eq!(next.sequence(), 1);
    assert!(drain(&mut ok, 40));
}

#[test]
fn forwarder_is_handed_piped_children() {
    let (tx, rx) = std::sync::mpsc::channel::<String>();
    // the default stdio mode pipes both streams, so the forwarder runs
    let mut m = ProcessManager::new().with_quit_on_completion(false);
    let forward = move |mut child: together_rs::process::SbProcess, sequence: u32| {
        let mut text = String::new();
        if let Some(mut out) = child.popen.stdout.take() {
            let _ = out.read_to_string(&mut text);
        }
        let _ = tx.send(format!("{}:{}", sequence, text));
        child
    };
    let response = m.process_message_with(ProcessAction::Create("echo hi".to_string()), &forward);
    assert!(matches!(response, ProcessActionResponse::Created(_)));
    let seen = rx.try_recv().expect("the forwarder must have run before tracking");
    assert_eq!(seen, "0:hi\n");
    assert!(drain(&mut m, 40));
}

#[test]
fn raw_children_skip_the_forwarder() {
    let (tx, rx) = std::sync::mpsc::channel::<u32>();
    let mut m = ProcessManager::new()
        .with_quit_on_completion(false)
        .with_raw_mode(true);
    let forward = move |child: together_rs::process::SbProcess, sequence: u32| {
        let _ = tx.send(sequence);
        child
    };
    let response = m.process_message_with(ProcessAction::Create("true".to_string()), &forward);
    assert!(matches!(response, ProcessActionResponse::Created(_)));
    assert!(rx.try_recv().is_err(), "a raw child has no streams to forward");
    assert!(drain(&mut m, 40));
}

#[test]
fn stderr_only_option_keeps_the_flag() {
    let opts = CreateOptions::default().with_stderr_only();
    assert!(matches!(
        opts.stdio,
        Some(together_rs::process::ProcessStdio::StderrOnly)
    ));
    assert!(opts.cwd.is_none());
}
