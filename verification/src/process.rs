//! One OS child process: spawning through the platform shell, signal-based
//! killing of its process group, and non-blocking exit polling.
use vstd::prelude::*;
use vstd::string::StringExecFns;

use crate::errors::{TogetherError, TogetherInternalError, TogetherResult};
use crate::text::{dec_digits, decimal_string};

verus! {

/// Immutable identity of one spawned process: a monotonic sequence number and
/// the command text it was started with.
#[derive(Debug, Hash, Eq)]
pub struct ProcessId {
    id: u32,
    command: String,
}

/// The mathematical value of a `ProcessId`.
pub struct ProcessIdView {
    pub sequence: u32,
    pub command: Seq<char>,
}

impl View for ProcessId {
    type V = ProcessIdView;

    closed spec fn view(&self) -> ProcessIdView {
        ProcessIdView { sequence: self.id, command: self.command@ }
    }
}

impl PartialEq for ProcessId {
    fn eq(&self, other: &ProcessId) -> (r: bool) {
        self.id == other.id && self.command == other.command
    }
}

impl vstd::std_specs::cmp::PartialEqSpecImpl for ProcessId {
    open spec fn obeys_eq_spec() -> bool {
        true
    }

    open spec fn eq_spec(&self, other: &ProcessId) -> bool {
        self@ == other@
    }
}

impl Clone for ProcessId {
    fn clone(&self) -> (r: Self)
        ensures
            r@ == self@,
    {
        ProcessId { id: self.id, command: self.command.clone() }
    }
}

/// The display rendering of a process id: `[sequence]: command`.
pub open spec fn spec_id_display(idv: ProcessIdView) -> Seq<char> {
    seq!['['] + dec_digits(idv.sequence as int) + seq![']', ':', ' '] + idv.command
}

impl ProcessId {
    pub fn new(id: u32, command: String) -> (r: Self)
        ensures
            r@.sequence == id,
            r@.command == command@,
    {
        ProcessId { id, command }
    }

    pub fn command(&self) -> (r: &str)
        ensures
            r@ == self@.command,
    {
        self.command.as_str()
    }

    pub fn sequence(&self) -> (r: u32)
        ensures
            r == self@.sequence,
    {
        self.id
    }

    /// The line used wherever the id is shown to the operator.
    pub fn display_string(&self) -> (s: String)
        ensures
            s@ == spec_id_display(self@),
    {
        let mut s = "[".to_owned();
        s.append(decimal_string(self.id).as_str());
        s.append("]: ");
        s.append(self.command.as_str());
        proof {
            reveal_strlit("[");
            reveal_strlit("]: ");
            assert(s@ =~= spec_id_display(self@));
        }
        s
    }
}

/// Signals that a kill request may carry.
#[derive(Debug, Clone, Copy, PartialEq, Eq, Structural)]
pub enum ProcessSignal {
    SIGINT,
    SIGTERM,
    SIGKILL,
}

/// How a child's standard streams are arranged at spawn time.
#[derive(Debug, Clone, Copy, PartialEq, Eq, Structural)]
pub enum ProcessStdio {
    Inherit,
    Raw,
    StderrOnly,
}

impl From<bool> for ProcessStdio {
    fn from(b: bool) -> (r: Self) {
        if b {
            ProcessStdio::Raw
        } else {
            ProcessStdio::Inherit
        }
    }
}

impl vstd::std_specs::convert::FromSpecImpl<bool> for ProcessStdio {
    open spec fn obeys_from_spec() -> bool {
        true
    }

    open spec fn from_spec(b: bool) -> ProcessStdio {
        if b {
            ProcessStdio::Raw
        } else {
            ProcessStdio::Inherit
        }
    }
}

/// Which of the two output streams are piped for forwarding in a given mode.
/// `Raw` inherits both; the default mode pipes both; `StderrOnly` pipes the
/// error stream and leaves standard output inherited.
pub open spec fn spec_piping(stdio: ProcessStdio) -> (bool, bool) {
    match stdio {
        ProcessStdio::Inherit => (true, true),
        ProcessStdio::Raw => (false, false),
        ProcessStdio::StderrOnly => (false, true),
    }
}

pub fn stdio_piping(stdio: ProcessStdio) -> (r: (bool, bool))
    ensures
        r == spec_piping(stdio),
{
    match stdio {
        ProcessStdio::Inherit => (true, true),
        ProcessStdio::Raw => (false, false),
        ProcessStdio::StderrOnly => (false, true),
    }
}

#[verifier::external_type_specification]
#[verifier::external_body]
pub struct ExPopen(subprocess::Popen);

/// What one non-blocking poll of the child reported.
#[derive(Debug, Clone, Copy, PartialEq, Eq, Structural)]
pub enum PollStatus {
    Exited(u32),
    Signaled(u8),
    Other(i32),
    Undetermined,
}

/// What became of an attempt to signal the child's process group.
pub enum KillOutcome {
    Delivered,
    AlreadyGone,
    Failed(String),
}

/// Relies on subprocess::Popen::create: starts `argv` with the given working
/// directory, piping stdout/stderr as requested, in a fresh process group.
#[verifier::external_body]
fn popen_create(
    argv: &Vec<String>,
    cwd: &Option<String>,
    pipe_stdout: bool,
    pipe_stderr: bool,
) -> (r: Result<subprocess::Popen, String>) {
    let pipe = |yes: bool| if yes { subprocess::Redirection::Pipe } else { subprocess::Redirection::None };
    let mut config = subprocess::PopenConfig::default();
    config.stdout = pipe(pipe_stdout);
    config.stderr = pipe(pipe_stderr);
    config.cwd = cwd.as_ref().map(|s| s.into());
    config.setpgid = true;
    match subprocess::Popen::create(argv, config) {
        Ok(p) => Ok(p),
        Err(e) => Err(format!("{}", e)),
    }
}

/// Relies on subprocess::Popen::poll: non-blocking wait, reporting the exit
/// status once the child has finished and `None` while it still runs.
#[verifier::external_body]
fn popen_poll(p: &mut subprocess::Popen) -> (r: Option<PollStatus>) {
    match p.poll() {
        Some(subprocess::ExitStatus::Exited(c)) => Some(PollStatus::Exited(c)),
        Some(subprocess::ExitStatus::Signaled(s)) => Some(PollStatus::Signaled(s)),
        Some(subprocess::ExitStatus::Other(o)) => Some(PollStatus::Other(o)),
        Some(subprocess::ExitStatus::Undetermined) => Some(PollStatus::Undetermined),
        None => None,
    }
}

/// Relies on subprocess::Popen::pid: the child's OS pid while it has not been
/// reaped, and `None` afterwards.
#[verifier::external_body]
fn popen_pid(p: &subprocess::Popen) -> (r: Option<u32>) {
    p.pid()
}

/// Relies on nix::sys::signal::killpg: delivers the signal to the child's
/// whole process group; a group that is already gone reports `AlreadyGone`.
#[verifier::external_body]
fn send_group_signal(pid: u32, signal: ProcessSignal) -> (r: KillOutcome) {
    let sig = match signal {
        ProcessSignal::SIGINT => nix::sys::signal::Signal::SIGINT,
        ProcessSignal::SIGTERM => nix::sys::signal::Signal::SIGTERM,
        ProcessSignal::SIGKILL => nix::sys::signal::Signal::SIGKILL,
    };
    match nix::sys::signal::killpg(nix::unistd::Pid::from_raw(pid as i32), sig) {
        Ok(()) => KillOutcome::Delivered,
        Err(nix::errno::Errno::ESRCH) => KillOutcome::AlreadyGone,
        Err(e) => KillOutcome::Failed(format!("{}", e)),
    }
}

/// The argv every spawn hands to the OS: the command text run through the
/// platform shell as `sh -c command`.
pub fn shell_argv(command: &str) -> (argv: Vec<String>)
    ensures
        argv@.len() == 3,
        argv@[0]@ == "sh"@,
        argv@[1]@ == "-c"@,
        argv@[2]@ == command@,
{
    let mut argv: Vec<String> = Vec::new();
    argv.push("sh".to_owned());
    argv.push("-c".to_owned());
    argv.push(command.to_owned());
    argv
}

/// The signal a kill request resolves to: the one it names, and SIGINT when
/// it names none.
pub fn resolve_signal(signal: Option<&ProcessSignal>) -> (s: ProcessSignal)
    ensures
        s == (match signal {
            Some(chosen) => *chosen,
            None => ProcessSignal::SIGINT,
        }),
{
    match signal {
        Some(chosen) => *chosen,
        None => ProcessSignal::SIGINT,
    }
}

/// The kill bookkeeping rule: a delivered signal succeeds, a group that is
/// already gone counts as success too (killing an exited process is
/// idempotent), and any other failure surfaces as an IO error.
pub open spec fn spec_kill_result(outcome: KillOutcome) -> TogetherResult<()> {
    match outcome {
        KillOutcome::Delivered => Ok(()),
        KillOutcome::AlreadyGone => Ok(()),
        KillOutcome::Failed(msg) => Err(TogetherError::Io(msg)),
    }
}

/// The working directory a spawn runs in, carried over unchanged.
fn owned_cwd(cwd: Option<&str>) -> (r: Option<String>)
    ensures
        (match r {
            Some(c) => (cwd matches Some(given) && c@ == given@),
            None => cwd is None,
        }),
{
    match cwd {
        Some(c) => Some(c.to_owned()),
        None => None,
    }
}

/// Turns the signal-delivery outcome into the supervisor's kill result.
pub fn classify_kill_outcome(outcome: KillOutcome) -> (r: TogetherResult<()>)
    ensures
        r == spec_kill_result(outcome),
{
    match outcome {
        KillOutcome::Delivered => Ok(()),
        KillOutcome::AlreadyGone => Ok(()),
        KillOutcome::Failed(msg) => Err(TogetherError::Io(msg)),
    }
}

/// One spawned child. The handle and the mute flag are public so that the
/// unverified output-forwarding task can take the pipe ends and watch the flag.
pub struct SbProcess {
    pub popen: subprocess::Popen,
    pub mute: std::sync::Arc<core::sync::atomic::AtomicBool>,
}

pub type Process = SbProcess;

/// The exit classification rule: a plain exit keeps its code, death by signal
/// counts as exit code 1, and anything else is an error for this one process.
pub open spec fn spec_classify_exit(status: Option<PollStatus>) -> TogetherResult<Option<i32>> {
    match status {
        None => Ok(None),
        Some(PollStatus::Exited(c)) => Ok(Some(c as i32)),
        Some(PollStatus::Signaled(_)) => Ok(Some(1)),
        Some(PollStatus::Other(_)) => Err(
            TogetherError::InternalError(TogetherInternalError::ProcessFailedToExit),
        ),
        Some(PollStatus::Undetermined) => Err(
            TogetherError::InternalError(TogetherInternalError::ProcessFailedToExit),
        ),
    }
}

/// Turns a raw poll report into the supervisor's exit bookkeeping value.
pub fn classify_exit(status: Option<PollStatus>) -> (r: TogetherResult<Option<i32>>)
    ensures
        r == spec_classify_exit(status),
{
    match status {
        None => Ok(None),
        Some(PollStatus::Exited(c)) => Ok(Some(#[verifier::truncate] (c as i32))),
        Some(PollStatus::Signaled(_)) => Ok(Some(1)),
        Some(PollStatus::Other(_)) => Err(
            TogetherError::InternalError(TogetherInternalError::ProcessFailedToExit),
        ),
        Some(PollStatus::Undetermined) => Err(
            TogetherError::InternalError(TogetherInternalError::ProcessFailedToExit),
        ),
    }
}

impl SbProcess {
    /// Launches `command` through the platform shell (`sh -c`), in its own
    /// process group, with streams piped as the stdio mode asks.
    pub fn spawn(command: &str, cwd: Option<&str>, stdio: ProcessStdio) -> (r: TogetherResult<
        SbProcess,
    >)
        ensures
            r matches Err(e) ==> e is PopenErrorError,
    {
        let (pipe_stdout, pipe_stderr) = stdio_piping(stdio);
        let argv = shell_argv(command);
        let cwd_owned = owned_cwd(cwd);
        match popen_create(&argv, &cwd_owned, pipe_stdout, pipe_stderr) {
            Ok(popen) => Ok(
                SbProcess {
                    popen,
                    mute: std::sync::Arc::new(core::sync::atomic::AtomicBool::new(false)),
                },
            ),
            Err(msg) => Err(TogetherError::PopenErrorError(msg)),
        }
    }

    /// Sends `signal` (SIGINT when none is given) to the child's process
    /// group; a child that is already gone counts as success.
    pub fn kill(&mut self, signal: Option<&ProcessSignal>) -> (r: TogetherResult<()>)
        ensures
            r matches Err(e) ==> e is Io,
    {
        let _ = popen_poll(&mut self.popen);
        let outcome = match popen_pid(&self.popen) {
            // the child has already exited and been reaped: nothing to signal
            None => KillOutcome::AlreadyGone,
            Some(pid) => send_group_signal(pid, resolve_signal(signal)),
        };
        classify_kill_outcome(outcome)
    }

    /// Non-blocking poll for exit, classified by `spec_classify_exit`.
    pub fn try_wait(&mut self) -> (r: TogetherResult<Option<i32>>)
        ensures
            r is Err ==> r == Err::<Option<i32>, TogetherError>(
                TogetherError::InternalError(TogetherInternalError::ProcessFailedToExit),
            ),
    {
        classify_exit(popen_poll(&mut self.popen))
    }

    /// Asks the forwarding task to hold back captured stdout lines.
    pub fn mute(&self) {
        self.mute.store(true, core::sync::atomic::Ordering::Relaxed);
    }

    /// Lets captured stdout lines flow again.
    pub fn unmute(&self) {
        self.mute.store(false, core::sync::atomic::Ordering::Relaxed);
    }
}

} // verus!
