use together_rs::errors::{TogetherError, TogetherInternalError};
use together_rs::manager::{
    classify_created_reply, classify_kill_reply, classify_list_reply, classify_shutdown_reply,
    classify_wait_reply, effective_cwd, effective_stdio, kill_reply, killall_reply,
    process_manager_error_text, reap_decision, ProcessActionResponse, ProcessManagerError,
    ReapAction, ShutdownOutcome,
};
use together_rs::process::{
    classify_kill_outcome, resolve_signal, shell_argv, KillOutcome, ProcessId, ProcessSignal,
    ProcessStdio,
};

fn an_id() -> ProcessId {
    ProcessId::new(4, "sleep 1".to_string())
}

#[test]
fn kill_reply_rule() {
    assert!(matches!(
        classify_kill_reply(ProcessActionResponse::Killed),
        Ok(Some(()))
    ));
    // an id that already vanished is reported as absence, not as an error
    assert!(matches!(
        classify_kill_reply(ProcessActionResponse::Error(ProcessManagerError::NoSuchProcess)),
        Ok(None)
    ));
    assert!(matches!(
        classify_kill_reply(ProcessActionResponse::KilledAll),
        Err(TogetherError::InternalError(TogetherInternalError::UnexpectedResponse))
    ));
    assert!(matches!(
        classify_kill_reply(ProcessActionResponse::Error(ProcessManagerError::Unknown)),
        Err(TogetherError::InternalError(TogetherInternalError::UnexpectedResponse))
    ));
}

#[test]
fn created_reply_rule() {
    let id = an_id();
    match classify_created_reply(ProcessActionResponse::Created(id.clone())) {
        Ok(got) => assert_eq!(got, id),
        Err(_) => panic!("a Created reply must hand the id through"),
    }
    match classify_created_reply(ProcessActionResponse::Error(
        ProcessManagerError::SpawnChildFailed("no such shell".to_string()),
    )) {
        Err(TogetherError::DynError(msg)) => assert_eq!(msg, "no such shell"),
        _ => panic!("a reported spawn failure must carry its text"),
    }
    assert!(matches!(
        classify_created_reply(ProcessActionResponse::Killed),
        Err(TogetherError::InternalError(TogetherInternalError::UnexpectedResponse))
    ));
}

#[test]
fn list_reply_rule() {
    let id = an_id();
    match classify_list_reply(ProcessActionResponse::List(vec![id.clone()])) {
        Ok(ids) => assert_eq!(ids, vec![id]),
        Err(_) => panic!("a List reply must hand the ids through"),
    }
    assert!(matches!(
        classify_list_reply(ProcessActionResponse::Killed),
        Err(TogetherError::InternalError(TogetherInternalError::UnexpectedResponse))
    ));
}

#[test]
fn wait_reply_rule() {
    let (tx, rx) = std::sync::mpsc::channel::<()>();
    let done = classify_wait_reply(ProcessActionResponse::Waited(rx))
        .expect("a Waited reply must hand the notifier through");
    tx.send(()).expect("send");
    assert!(done.recv().is_ok());
    assert!(matches!(
        classify_wait_reply(ProcessActionResponse::Killed),
        Err(TogetherError::InternalError(TogetherInternalError::UnexpectedResponse))
    ));
}

#[test]
fn shutdown_verdict_rule() {
    assert!(matches!(
        classify_shutdown_reply(Ok(ProcessActionResponse::KilledAll)),
        ShutdownOutcome::Acknowledged
    ));
    assert!(matches!(
        classify_shutdown_reply(Ok(ProcessActionResponse::Error(ProcessManagerError::Unknown))),
        ShutdownOutcome::KillFailed
    ));
    assert!(matches!(
        classify_shutdown_reply(Ok(ProcessActionResponse::Killed)),
        ShutdownOutcome::UnexpectedReply
    ));
    // a dead channel means the actor already finished: shutdown is complete
    assert!(matches!(
        classify_shutdown_reply(Err(())),
        ShutdownOutcome::ActorGone
    ));
}

#[test]
fn single_kill_reply_rule() {
    assert!(matches!(kill_reply(Ok(())), ProcessActionResponse::Killed));
    match kill_reply(Err(TogetherError::Io("not permitted".to_string()))) {
        ProcessActionResponse::Error(ProcessManagerError::KillChildFailed(text)) => {
            assert_eq!(text, "not permitted");
        }
        _ => panic!("a failed kill must be reported as KillChildFailed"),
    }
}

#[test]
fn killall_reply_rule() {
    assert!(matches!(killall_reply(&vec![]), ProcessActionResponse::KilledAll));
    assert!(matches!(
        killall_reply(&vec![true, true]),
        ProcessActionResponse::KilledAll
    ));
    assert!(matches!(
        killall_reply(&vec![true, false, true]),
        ProcessActionResponse::Error(ProcessManagerError::Unknown)
    ));
}

#[test]
fn reap_decision_rule() {
    assert!(matches!(reap_decision(Ok(Some(7))), ReapAction::Remove(7)));
    assert!(matches!(reap_decision(Ok(Some(0))), ReapAction::Remove(0)));
    assert!(matches!(reap_decision(Ok(None)), ReapAction::Keep));
    assert!(matches!(
        reap_decision(Err(TogetherError::InternalError(
            TogetherInternalError::ProcessFailedToExit
        ))),
        ReapAction::Defer(_)
    ));
}

#[test]
fn default_signal_is_sigint() {
    assert_eq!(resolve_signal(None), ProcessSignal::SIGINT);
    assert_eq!(
        resolve_signal(Some(&ProcessSignal::SIGTERM)),
        ProcessSignal::SIGTERM
    );
    assert_eq!(
        resolve_signal(Some(&ProcessSignal::SIGKILL)),
        ProcessSignal::SIGKILL
    );
}

#[test]
fn kill_outcome_rule() {
    assert!(matches!(classify_kill_outcome(KillOutcome::Delivered), Ok(())));
    // killing a child that is already gone counts as success
    assert!(matches!(classify_kill_outcome(KillOutcome::AlreadyGone), Ok(())));
    match classify_kill_outcome(KillOutcome::Failed("not permitted".to_string())) {
        Err(TogetherError::Io(msg)) => assert_eq!(msg, "not permitted"),
        _ => panic!("a failed delivery must surface as an IO error"),
    }
}

#[test]
fn spawns_run_through_the_shell() {
    let argv = shell_argv("echo hi && sleep 1");
    assert_eq!(
        argv,
        vec!["sh".to_string(), "-c".to_string(), "echo hi && sleep 1".to_string()]
    );
}

#[test]
fn create_overrides_fall_back_to_the_ambient_policy() {
    assert_eq!(
        effective_stdio(Some(ProcessStdio::StderrOnly), true),
        ProcessStdio::StderrOnly
    );
    assert_eq!(effective_stdio(None, true), ProcessStdio::Raw);
    assert_eq!(effective_stdio(None, false), ProcessStdio::Inherit);
    let ambient = Some("/srv".to_string());
    assert_eq!(
        effective_cwd(Some("/tmp".to_string()), &ambient),
        Some("/tmp".to_string())
    );
    assert_eq!(effective_cwd(None, &ambient), Some("/srv".to_string()));
    assert_eq!(effective_cwd(None, &None), None);
}

#[test]
fn error_texts() {
    assert_eq!(
        process_manager_error_text(&ProcessManagerError::SpawnChildFailed("boom".to_string())),
        "boom"
    );
    assert_eq!(
        process_manager_error_text(&ProcessManagerError::NoSuchProcess),
        "no such process"
    );
    assert_eq!(
        process_manager_error_text(&ProcessManagerError::Unknown),
        "unknown error"
    );
}
