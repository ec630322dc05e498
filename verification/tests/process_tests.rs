use std::io::Read;
use std::time::Duration;

use together_rs::errors::{TogetherError, TogetherInternalError};
use together_rs::process::{
    classify_exit, stdio_piping, PollStatus, ProcessStdio, SbProcess,
};

fn pause(ms: u64) {
    let (_tx, rx) = std::sync::mpsc::channel::<()>();
    let _ = rx.recv_timeout(Duration::from_millis(ms));
}

fn wait_for_exit(child: &mut SbProcess, max_polls: usize) -> Option<i32> {
    for _ in 0..max_polls {
        match child.try_wait() {
            Ok(Some(code)) => return Some(code),
            Ok(None) => pause(50),
            Err(_) => return None,
        }
    }
    None
}

#[test]
fn spawn_and_reap_exit_code() {
    let mut child = SbProcess::spawn("exit 3", None, ProcessStdio::Raw).expect("spawn");
    assert_eq!(wait_for_exit(&mut child, 100), Some(3));
}

#[test]
fn spawn_clean_exit() {
    let mut child = SbProcess::spawn("true", None, ProcessStdio::Raw).expect("spawn");
    assert_eq!(wait_for_exit(&mut child, 100), Some(0));
}

#[test]
fn spawn_respects_working_directory() {
    let mut child =
        SbProcess::spawn("test \"$PWD\" = /tmp", Some("/tmp"), ProcessStdio::Raw).expect("spawn");
    assert_eq!(wait_for_exit(&mut child, 100), Some(0));
}

#[test]
fn spawn_in_missing_directory_fails() {
    let spawned = SbProcess::spawn("true", Some("/surely-not-a-directory"), ProcessStdio::Raw);
    assert!(matches!(spawned, Err(TogetherError::PopenErrorError(_))));
}

#[test]
fn killed_child_reports_signal_exit_as_one() {
    let mut child = SbProcess::spawn("sleep 5", None, ProcessStdio::Raw).expect("spawn");
    assert!(child.try_wait().expect("poll").is_none(), "still running");
    child.kill(None).expect("kill");
    assert_eq!(wait_for_exit(&mut child, 100), Some(1));
}

#[test]
fn killing_an_already_gone_child_is_idempotent() {
    let mut child = SbProcess::spawn("true", None, ProcessStdio::Raw).expect("spawn");
    assert_eq!(wait_for_exit(&mut child, 100), Some(0));
    // the child has been reaped; a second kill still succeeds
    child.kill(None).expect("kill after exit");
    child.kill(None).expect("kill twice");
}

#[test]
fn kill_reaches_the_whole_process_group() {
    // the shell spawns a child of its own; the group signal must reach it
    let mut child =
        SbProcess::spawn("sleep 5 & wait", None, ProcessStdio::Raw).expect("spawn");
    pause(200);
    child.kill(None).expect("kill");
    assert_eq!(wait_for_exit(&mut child, 100), Some(1));
}

#[test]
fn exit_classification_rule() {
    assert!(matches!(classify_exit(None), Ok(None)));
    assert!(matches!(classify_exit(Some(PollStatus::Exited(0))), Ok(Some(0))));
    assert!(matches!(classify_exit(Some(PollStatus::Exited(7))), Ok(Some(7))));
    assert!(matches!(classify_exit(Some(PollStatus::Signaled(9))), Ok(Some(1))));
    assert!(matches!(
        classify_exit(Some(PollStatus::Other(-1))),
        Err(TogetherError::InternalError(TogetherInternalError::ProcessFailedToExit))
    ));
    assert!(matches!(
        classify_exit(Some(PollStatus::Undetermined)),
        Err(TogetherError::InternalError(TogetherInternalError::ProcessFailedToExit))
    ));
}

#[test]
fn stdio_piping_per_mode() {
    assert_eq!(stdio_piping(ProcessStdio::Inherit), (true, true));
    assert_eq!(stdio_piping(ProcessStdio::Raw), (false, false));
    assert_eq!(stdio_piping(ProcessStdio::StderrOnly), (false, true));
}

#[test]
fn stdio_mode_from_raw_flag() {
    assert_eq!(ProcessStdio::from(true), ProcessStdio::Raw);
    assert_eq!(ProcessStdio::from(false), ProcessStdio::Inherit);
}

#[test]
fn piped_output_is_captured_not_inherited() {
    // in the default mode the child's stdout is piped for forwarding
    let mut child = SbProcess::spawn("echo hello", None, ProcessStdio::Inherit).expect("spawn");
    assert_eq!(wait_for_exit(&mut child, 100), Some(0));
    let out = child.popen.stdout.take().expect("stdout pipe must exist");
    let mut text = String::new();
    let mut reader = out;
    reader.read_to_string(&mut text).expect("read");
    assert_eq!(text, "hello\n");
}

#[test]
fn mute_flag_is_shared_and_flips() {
    let child = SbProcess::spawn("true", None, ProcessStdio::Raw).expect("spawn");
    let flag = child.mute.clone();
    assert!(!flag.load(std::sync::atomic::Ordering::Relaxed));
    child.mute();
    assert!(flag.load(std::sync::atomic::Ordering::Relaxed));
    child.unmute();
    assert!(!flag.load(std::sync::atomic::Ordering::Relaxed));
}
