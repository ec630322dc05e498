//! The supervision actor: it owns the table of live children, serves requests
//! one at a time, and periodically reaps finished processes. Every change to
//! the table is specified against the `ManagerView` model.
use vstd::prelude::*;
use vstd::string::StringExecFns;

use crate::errors::{TogetherError, TogetherInternalError, TogetherResult};
use crate::process::{Process, ProcessId, ProcessIdView, ProcessSignal, ProcessStdio, SbProcess};
use crate::process::stdio_piping;
use crate::terminal::Terminal;

verus! {

/// A request to the actor.
pub enum ProcessAction {
    Create(String),
    CreateAdvanced(String, CreateOptions),
    Wait(ProcessId),
    Kill(ProcessId),
    KillAdvanced(ProcessId, ProcessSignal),
    KillAll,
    List,
}

/// The single reply the actor sends back for a request.
pub enum ProcessActionResponse {
    Created(ProcessId),
    Waited(std::sync::mpsc::Receiver<()>),
    Killed,
    KilledAll,
    List(Vec<ProcessId>),
    Error(ProcessManagerError),
}

/// What can go wrong while serving a request.
pub enum ProcessManagerError {
    SpawnChildFailed(String),
    KillChildFailed(String),
    NoSuchProcess,
    Unknown,
}

/// Per-spawn overrides of the manager's ambient stdio mode and directory.
pub struct CreateOptions {
    pub stdio: Option<ProcessStdio>,
    pub cwd: Option<String>,
}

/// The value of an optional owned string.
pub open spec fn opt_str_view(o: Option<String>) -> Option<Seq<char>> {
    match o {
        Some(s) => Some(s@),
        None => None,
    }
}

impl Default for CreateOptions {
    fn default() -> (r: Self)
        ensures
            r.stdio is None,
            r.cwd is None,
    {
        CreateOptions { stdio: None, cwd: None }
    }
}

impl Clone for CreateOptions {
    fn clone(&self) -> (r: Self)
        ensures
            r.stdio == self.stdio,
            opt_str_view(r.cwd) == opt_str_view(self.cwd),
    {
        CreateOptions { stdio: self.stdio, cwd: clone_opt_string(&self.cwd) }
    }
}

impl CreateOptions {
    pub fn with_stderr_only(self) -> (r: Self)
        ensures
            r.stdio == Some(ProcessStdio::StderrOnly),
            r.cwd == self.cwd,
    {
        CreateOptions { stdio: Some(ProcessStdio::StderrOnly), cwd: self.cwd }
    }
}

fn clone_opt_string(o: &Option<String>) -> (r: Option<String>)
    ensures
        opt_str_view(r) == opt_str_view(*o),
{
    match o {
        Some(s) => Some(s.clone()),
        None => None,
    }
}

/// The stdio mode a spawn runs with: the per-call override when one is
/// given, else the manager's ambient mode (`Raw` when raw stdio is on,
/// the piped default otherwise).
pub fn effective_stdio(requested: Option<ProcessStdio>, raw_stdio: bool) -> (s: ProcessStdio)
    ensures
        s == (match requested {
            Some(mode) => mode,
            None => if raw_stdio {
                ProcessStdio::Raw
            } else {
                ProcessStdio::Inherit
            },
        }),
{
    match requested {
        Some(mode) => mode,
        None => ProcessStdio::from(raw_stdio),
    }
}

/// The directory a spawn runs in: the per-call override when one is given,
/// else the manager's ambient working directory.
pub fn effective_cwd(requested: Option<String>, ambient: &Option<String>) -> (r: Option<String>)
    ensures
        opt_str_view(r) == (match requested {
            Some(dir) => Some(dir@),
            None => opt_str_view(*ambient),
        }),
{
    match requested {
        Some(dir) => Some(dir),
        None => clone_opt_string(ambient),
    }
}

/// One request together with the channel on which the reply is owed.
pub struct Message(ProcessAction, std::sync::mpsc::Sender<ProcessActionResponse>);

#[verifier::external_type_specification]
#[verifier::external_body]
#[verifier::reject_recursive_types(T)]
pub struct ExSender<T>(std::sync::mpsc::Sender<T>);

#[verifier::external_type_specification]
#[verifier::external_body]
#[verifier::reject_recursive_types(T)]
pub struct ExReceiver<T>(std::sync::mpsc::Receiver<T>);

/// Relies on std::sync::mpsc::channel: a connected sender/receiver pair.
#[verifier::external_body]
fn new_channel<T>() -> (std::sync::mpsc::Sender<T>, std::sync::mpsc::Receiver<T>) {
    std::sync::mpsc::channel()
}

/// Relies on std::sync::mpsc::Sender::send: enqueues the value, reporting
/// `false` once the receiving end is gone.
#[verifier::external_body]
fn channel_send<T>(s: &std::sync::mpsc::Sender<T>, t: T) -> (ok: bool) {
    match s.send(t) {
        Ok(()) => true,
        Err(_) => false,
    }
}

/// Relies on std::sync::mpsc::Sender::clone: another sender for the channel.
#[verifier::external_body]
fn clone_sender<T>(s: &std::sync::mpsc::Sender<T>) -> std::sync::mpsc::Sender<T> {
    s.clone()
}

/// Relies on std::sync::mpsc::Receiver::recv: blocks for the next value,
/// reporting an error once every sender is gone.
#[verifier::external_body]
fn channel_recv<T>(r: &std::sync::mpsc::Receiver<T>) -> (out: Result<T, ()>) {
    match r.recv() {
        Ok(t) => Ok(t),
        Err(_) => Err(()),
    }
}

/// What one bounded wait on the mailbox produced.
pub enum TimedRecv<T> {
    Received(T),
    TimedOut,
    Disconnected,
}

/// Relies on std::sync::mpsc::Receiver::recv_timeout with a deadline in
/// milliseconds.
#[verifier::external_body]
fn channel_recv_timeout<T>(r: &std::sync::mpsc::Receiver<T>, ms: u64) -> (out: TimedRecv<T>) {
    match r.recv_timeout(std::time::Duration::from_millis(ms)) {
        Ok(t) => TimedRecv::Received(t),
        Err(std::sync::mpsc::RecvTimeoutError::Timeout) => TimedRecv::TimedOut,
        Err(std::sync::mpsc::RecvTimeoutError::Disconnected) => TimedRecv::Disconnected,
    }
}

/// The actor that owns every live child process.
pub struct ProcessManager {
    processes: Vec<(ProcessId, Process)>,
    receiver: std::sync::mpsc::Receiver<Message>,
    sender: std::sync::mpsc::Sender<Message>,
    wait_handles: Vec<(ProcessId, std::sync::mpsc::Sender<()>)>,
    index: u32,
    raw_stdio: bool,
    exit_on_error: bool,
    quit_on_completion: bool,
    killed: bool,
    cwd: Option<String>,
}

/// The model of the actor: which ids are tracked, which are being waited on,
/// the next sequence number, and the policies fixed at construction.
#[verifier::ext_equal]
pub struct ManagerView {
    pub ids: Seq<ProcessIdView>,
    pub waiting: Seq<ProcessIdView>,
    pub index: u32,
    pub raw_stdio: bool,
    pub exit_on_error: bool,
    pub quit_on_completion: bool,
    pub killed: bool,
    pub cwd: Option<Seq<char>>,
}

/// The ids of a table, in table order.
pub open spec fn table_ids(procs: Seq<(ProcessId, Process)>) -> Seq<ProcessIdView> {
    procs.map_values(|p: (ProcessId, Process)| p.0@)
}

/// The ids of the entries holding wait notifiers, in insertion order.
pub open spec fn waiting_ids(handles: Seq<(ProcessId, std::sync::mpsc::Sender<()>)>) -> Seq<
    ProcessIdView,
> {
    handles.map_values(|p: (ProcessId, std::sync::mpsc::Sender<()>)| p.0@)
}

impl View for ProcessManager {
    type V = ManagerView;

    closed spec fn view(&self) -> ManagerView {
        ManagerView {
            ids: table_ids(self.processes@),
            waiting: waiting_ids(self.wait_handles@),
            index: self.index,
            raw_stdio: self.raw_stdio,
            exit_on_error: self.exit_on_error,
            quit_on_completion: self.quit_on_completion,
            killed: self.killed,
            cwd: opt_str_view(self.cwd),
        }
    }
}

/// No two entries share a sequence number.
pub open spec fn distinct_sequences(ids: Seq<ProcessIdView>) -> bool {
    forall|i: int, j: int|
        0 <= i < j < ids.len() ==> (#[trigger] ids[i]).sequence != (#[trigger] ids[j]).sequence
}

/// The actor's invariant: sequence numbers are unique and below the counter,
/// and a wait notifier exists only for a tracked process.
pub open spec fn manager_wf(m: ManagerView) -> bool {
    &&& distinct_sequences(m.ids)
    &&& distinct_sequences(m.waiting)
    &&& forall|i: int| 0 <= i < m.ids.len() ==> (#[trigger] m.ids[i]).sequence < m.index
    &&& forall|i: int| 0 <= i < m.waiting.len() ==> m.ids.contains(#[trigger] m.waiting[i])
}

/// The policies chosen at construction never change afterwards.
pub open spec fn policies_kept(pre: ManagerView, post: ManagerView) -> bool {
    &&& post.raw_stdio == pre.raw_stdio
    &&& post.exit_on_error == pre.exit_on_error
    &&& post.quit_on_completion == pre.quit_on_completion
    &&& post.cwd == pre.cwd
}

/// How a `Create` request changes the model: the counter always advances when
/// room is left, the new id carries the fresh sequence number and the command
/// text, and a failed spawn leaves the table as it was.
pub open spec fn create_step(
    pre: ManagerView,
    post: ManagerView,
    resp: ProcessActionResponse,
    cmd: Seq<char>,
) -> bool {
    &&& policies_kept(pre, post)
    &&& post.killed == pre.killed
    &&& post.waiting == pre.waiting
    &&& match resp {
        ProcessActionResponse::Created(id) => {
            &&& pre.index < u32::MAX
            &&& post.index == pre.index + 1
            &&& id@.sequence == pre.index
            &&& id@.command == cmd
            &&& post.ids == pre.ids.push(id@)
        },
        ProcessActionResponse::Error(ProcessManagerError::SpawnChildFailed(_)) => {
            &&& post.ids == pre.ids
            &&& if pre.index < u32::MAX {
                post.index == pre.index + 1
            } else {
                post.index == pre.index
            }
        },
        _ => false,
    }
}

/// How a `Wait` request changes the model: a notifier is registered exactly
/// when the id is tracked; nothing else moves.
pub open spec fn wait_step(
    pre: ManagerView,
    post: ManagerView,
    resp: ProcessActionResponse,
    id: ProcessIdView,
) -> bool {
    &&& policies_kept(pre, post)
    &&& post.killed == pre.killed
    &&& post.index == pre.index
    &&& post.ids == pre.ids
    &&& match resp {
        ProcessActionResponse::Waited(_) => {
            &&& pre.ids.contains(id)
            &&& post.waiting == if pre.waiting.contains(id) {
                pre.waiting
            } else {
                pre.waiting.push(id)
            }
        },
        ProcessActionResponse::Error(ProcessManagerError::NoSuchProcess) => {
            &&& !pre.ids.contains(id)
            &&& post.waiting == pre.waiting
        },
        _ => false,
    }
}

/// How a `Kill` request changes the model: nothing. The signal is delivered
/// to the group of a tracked process; an id that is not tracked is reported
/// as `NoSuchProcess` and no other process is touched.
pub open spec fn kill_step(
    pre: ManagerView,
    post: ManagerView,
    resp: ProcessActionResponse,
    id: ProcessIdView,
) -> bool {
    &&& post == pre
    &&& match resp {
        ProcessActionResponse::Killed => pre.ids.contains(id),
        ProcessActionResponse::Error(ProcessManagerError::KillChildFailed(_)) => pre.ids.contains(
            id,
        ),
        ProcessActionResponse::Error(ProcessManagerError::NoSuchProcess) => !pre.ids.contains(id),
        _ => false,
    }
}

/// How `KillAll` changes the model: the actor starts draining; the table is
/// only cleared by subsequent reap cycles.
pub open spec fn killall_step(
    pre: ManagerView,
    post: ManagerView,
    resp: ProcessActionResponse,
) -> bool {
    &&& policies_kept(pre, post)
    &&& post.killed == true
    &&& post.index == pre.index
    &&& post.ids == pre.ids
    &&& post.waiting == pre.waiting
    &&& (resp matches ProcessActionResponse::KilledAll || resp matches ProcessActionResponse::Error(
        ProcessManagerError::Unknown,
    ))
}

/// The ids a `List` reply carries.
pub open spec fn ids_of(list: Seq<ProcessId>) -> Seq<ProcessIdView> {
    list.map_values(|p: ProcessId| p@)
}

/// How `List` behaves: a snapshot of exactly the tracked ids, nothing moves.
pub open spec fn list_step(
    pre: ManagerView,
    post: ManagerView,
    resp: ProcessActionResponse,
) -> bool {
    &&& post == pre
    &&& match resp {
        ProcessActionResponse::List(list) => ids_of(list@) == pre.ids,
        _ => false,
    }
}

/// The one statement `process_message` makes, split by request kind.
pub open spec fn message_step(
    pre: ManagerView,
    post: ManagerView,
    action: ProcessAction,
    resp: ProcessActionResponse,
) -> bool {
    match action {
        ProcessAction::Create(cmd) => create_step(pre, post, resp, cmd@),
        ProcessAction::CreateAdvanced(cmd, _options) => create_step(pre, post, resp, cmd@),
        ProcessAction::Wait(id) => wait_step(pre, post, resp, id@),
        ProcessAction::Kill(id) => kill_step(pre, post, resp, id@),
        ProcessAction::KillAdvanced(id, _signal) => kill_step(pre, post, resp, id@),
        ProcessAction::KillAll => killall_step(pre, post, resp),
        ProcessAction::List => list_step(pre, post, resp),
    }
}

fn no_forwarding(child: Process, _sequence: u32) -> Process {
    child
}

impl ProcessManager {
    pub fn new() -> (m: ProcessManager)
        ensures
            manager_wf(m@),
            m@.ids.len() == 0,
            m@.waiting.len() == 0,
            m@.index == 0,
            m@.raw_stdio == false,
            m@.exit_on_error == false,
            m@.quit_on_completion == true,
            m@.killed == false,
            m@.cwd is None,
    {
        let (sender, receiver) = new_channel::<Message>();
        let m = ProcessManager {
            processes: Vec::new(),
            receiver,
            sender,
            wait_handles: Vec::new(),
            index: 0,
            raw_stdio: false,
            exit_on_error: false,
            quit_on_completion: true,
            killed: false,
            cwd: None,
        };
        proof {
            assert(table_ids(m.processes@) =~= Seq::<ProcessIdView>::empty());
            assert(waiting_ids(m.wait_handles@) =~= Seq::<ProcessIdView>::empty());
        }
        m
    }

    pub fn with_raw_mode(self, raw_mode: bool) -> (m: Self)
        ensures
            m@ == (ManagerView { raw_stdio: raw_mode, ..self@ }),
    {
        ProcessManager { raw_stdio: raw_mode, ..self }
    }

    pub fn with_exit_on_error(self, exit_on_error: bool) -> (m: Self)
        ensures
            m@ == (ManagerView { exit_on_error: exit_on_error, ..self@ }),
    {
        ProcessManager { exit_on_error, ..self }
    }

    pub fn with_quit_on_completion(self, quit_on_completion: bool) -> (m: Self)
        ensures
            m@ == (ManagerView { quit_on_completion: quit_on_completion, ..self@ }),
    {
        ProcessManager { quit_on_completion, ..self }
    }

    pub fn with_working_directory(self, working_directory: Option<String>) -> (m: Self)
        ensures
            m@ == (ManagerView { cwd: opt_str_view(working_directory), ..self@ }),
    {
        ProcessManager { cwd: working_directory, ..self }
    }

    /// A fresh front door to this actor's mailbox.
    pub fn handle(&self) -> ProcessManagerHandle {
        ProcessManagerHandle { sender: clone_sender(&self.sender) }
    }

    /// The index of `id` in the table, if it is tracked.
    fn find_process(&self, id: &ProcessId) -> (r: Option<usize>)
        ensures
            match r {
                Some(i) => i < self@.ids.len() && self@.ids[i as int] == id@,
                None => !self@.ids.contains(id@),
            },
    {
        let mut i: usize = 0;
        while i < self.processes.len()
            invariant
                i <= self@.ids.len(),
                self@.ids.len() == self.processes@.len(),
                forall|j: int| 0 <= j < i ==> self@.ids[j] != id@,
            decreases self@.ids.len() - i,
        {
            if self.processes[i].0 == *id {
                assert(self@.ids[i as int] == id@);
                return Some(i);
            }
            assert(self@.ids[i as int] != id@);
            i += 1;
        }
        proof {
            assert(forall|j: int| 0 <= j < self@.ids.len() ==> self@.ids[j] != id@);
        }
        None
    }

    /// Serves one request against the table, with no forwarding of output.
    pub fn process_message(&mut self, action: ProcessAction) -> (resp: ProcessActionResponse)
        requires
            manager_wf(old(self)@),
        ensures
            manager_wf(final(self)@),
            message_step(old(self)@, final(self)@, action, resp),
    {
        self.process_message_with(action, &no_forwarding)
    }

    /// Serves one request against the table. For every spawn whose streams are
    /// piped, `forwarder` is handed the child to start the output-forwarding
    /// task before the child enters the table.
    pub fn process_message_with<F: Fn(Process, u32) -> Process>(
        &mut self,
        action: ProcessAction,
        forwarder: &F,
    ) -> (resp: ProcessActionResponse)
        requires
            manager_wf(old(self)@),
            forall|p: Process, s: u32| #[trigger] call_requires(*forwarder, (p, s)),
        ensures
            manager_wf(final(self)@),
            message_step(old(self)@, final(self)@, action, resp),
    {
        match action {
            ProcessAction::Create(command) => {
                if self.index == u32::MAX {
                    return ProcessActionResponse::Error(
                        ProcessManagerError::SpawnChildFailed("sequence numbers exhausted".to_owned()),
                    );
                }
                let id = self.index;
                self.index = self.index + 1;
                let cwd = clone_opt_string(&self.cwd);
                let stdio = ProcessStdio::from(self.raw_stdio);
                self.start_new_process(command, cwd, stdio, id, forwarder)
            },
            ProcessAction::CreateAdvanced(command, options) => {
                if self.index == u32::MAX {
                    return ProcessActionResponse::Error(
                        ProcessManagerError::SpawnChildFailed("sequence numbers exhausted".to_owned()),
                    );
                }
                let id = self.index;
                self.index = self.index + 1;
                let stdio = effective_stdio(options.stdio, self.raw_stdio);
                let cwd = effective_cwd(options.cwd, &self.cwd);
                self.start_new_process(command, cwd, stdio, id, forwarder)
            },
            ProcessAction::Wait(id) => {
                match self.find_process(&id) {
                    Some(_) => {
                        let (tx, rx) = new_channel::<()>();
                        self.register_wait_handle(id, tx);
                        ProcessActionResponse::Waited(rx)
                    },
                    None => ProcessActionResponse::Error(ProcessManagerError::NoSuchProcess),
                }
            },
            ProcessAction::Kill(id) => self.kill_one(&id, None),
            ProcessAction::KillAdvanced(id, signal) => self.kill_one(&id, Some(signal)),
            ProcessAction::KillAll => {
                self.killed = true;
                let ghost pre = self@;
                let mut outcomes: Vec<bool> = Vec::new();
                let mut i: usize = 0;
                while i < self.processes.len()
                    invariant
                        i <= self.processes@.len(),
                        self@.ids == pre.ids,
                        self@.waiting == pre.waiting,
                        self@.index == pre.index,
                        self@.killed == pre.killed,
                        policies_kept(pre, self@),
                        manager_wf(self@),
                    decreases self.processes@.len() - i,
                {
                    let ghost before = self.processes@;
                    let (pid, mut child) = self.processes.remove(i);
                    let kill_result = child.kill(None);
                    self.processes.insert(i, (pid, child));
                    proof {
                        assert(table_ids(self.processes@) =~= table_ids(before));
                    }
                    match kill_result {
                        Ok(()) => {
                            let mut line = "Killing ".to_owned();
                            line.append(self.processes[i].0.display_string().as_str());
                            Terminal::log(line.as_str());
                            outcomes.push(true);
                        },
                        Err(_) => {
                            outcomes.push(false);
                        },
                    }
                    i += 1;
                }
                killall_reply(&outcomes)
            },
            ProcessAction::List => {
                let mut list: Vec<ProcessId> = Vec::new();
                let mut i: usize = 0;
                while i < self.processes.len()
                    invariant
                        i <= self.processes@.len(),
                        *self == *old(self),
                        list@.len() == i,
                        forall|j: int| 0 <= j < i ==> ids_of(list@)[j] == self@.ids[j],
                    decreases self.processes@.len() - i,
                {
                    let ghost old_list = list@;
                    let entry = self.processes[i].0.clone();
                    proof {
                        assert(self@.ids[i as int] == self.processes@[i as int].0@);
                    }
                    list.push(entry);
                    proof {
                        assert(ids_of(list@) =~= ids_of(old_list).push(entry@));
                    }
                    i += 1;
                }
                proof {
                    assert(ids_of(list@) =~= self@.ids);
                    assert(self@ =~= old(self)@);
                }
                ProcessActionResponse::List(list)
            },
        }
    }

    /// Spawns `command` and, when it succeeds, tracks it under the fresh
    /// sequence number `id`, handing piped children to `forwarder` first.
    pub fn start_new_process<F: Fn(Process, u32) -> Process>(
        &mut self,
        command: String,
        cwd: Option<String>,
        stdio: ProcessStdio,
        id: u32,
        forwarder: &F,
    ) -> (resp: ProcessActionResponse)
        requires
            manager_wf(old(self)@),
            id < old(self)@.index,
            forall|j: int| 0 <= j < old(self)@.ids.len() ==> old(self)@.ids[j].sequence != id,
            forall|p: Process, s: u32| #[trigger] call_requires(*forwarder, (p, s)),
        ensures
            manager_wf(final(self)@),
            policies_kept(old(self)@, final(self)@),
            final(self)@.killed == old(self)@.killed,
            final(self)@.index == old(self)@.index,
            final(self)@.waiting == old(self)@.waiting,
            match resp {
                ProcessActionResponse::Created(pid) => {
                    &&& pid@.sequence == id
                    &&& pid@.command == command@
                    &&& final(self)@.ids == old(self)@.ids.push(pid@)
                },
                ProcessActionResponse::Error(ProcessManagerError::SpawnChildFailed(_)) => {
                    final(self)@.ids == old(self)@.ids
                },
                _ => false,
            },
    {
        let cwd_ref: Option<&str> = match &cwd {
            Some(s) => Some(s.as_str()),
            None => None,
        };
        match SbProcess::spawn(command.as_str(), cwd_ref, stdio) {
            Ok(child) => {
                let pid = ProcessId::new(id, command);
                let (pipe_stdout, pipe_stderr) = stdio_piping(stdio);
                let child = if pipe_stdout || pipe_stderr {
                    (*forwarder)(child, id)
                } else {
                    child
                };
                let ghost before = self.processes@;
                self.processes.push((pid.clone(), child));
                proof {
                    assert(table_ids(self.processes@) =~= table_ids(before).push(pid@));
                    assert forall|w: ProcessIdView|
                        table_ids(before).contains(w) implies table_ids(
                        self.processes@,
                    ).contains(w) by {
                        let k = choose|k: int|
                            0 <= k < table_ids(before).len() && table_ids(before)[k] == w;
                        assert(table_ids(self.processes@)[k] == w);
                    }
                }
                let mut line = "Started  ".to_owned();
                line.append(pid.display_string().as_str());
                Terminal::log(line.as_str());
                ProcessActionResponse::Created(pid)
            },
            Err(e) => {
                let msg = match e {
                    crate::errors::TogetherError::PopenErrorError(m) => m,
                    other => other.describe(),
                };
                ProcessActionResponse::Error(ProcessManagerError::SpawnChildFailed(msg))
            },
        }
    }

    /// Registers (or refreshes) the one-shot notifier for `id`.
    fn register_wait_handle(&mut self, id: ProcessId, tx: std::sync::mpsc::Sender<()>)
        requires
            manager_wf(old(self)@),
            old(self)@.ids.contains(id@),
        ensures
            manager_wf(final(self)@),
            policies_kept(old(self)@, final(self)@),
            final(self)@.killed == old(self)@.killed,
            final(self)@.index == old(self)@.index,
            final(self)@.ids == old(self)@.ids,
            final(self)@.waiting == if old(self)@.waiting.contains(id@) {
                old(self)@.waiting
            } else {
                old(self)@.waiting.push(id@)
            },
    {
        let mut i: usize = 0;
        while i < self.wait_handles.len()
            invariant
                i <= self.wait_handles@.len(),
                *self == *old(self),
                manager_wf(old(self)@),
                old(self)@.ids.contains(id@),
                forall|j: int| 0 <= j < i ==> self@.waiting[j] != id@,
            decreases self.wait_handles@.len() - i,
        {
            if self.wait_handles[i].0 == id {
                let ghost before = self.wait_handles@;
                let _old_entry = self.wait_handles.remove(i);
                self.wait_handles.insert(i, (id, tx));
                proof {
                    assert(waiting_ids(self.wait_handles@) =~= waiting_ids(before));
                    assert(waiting_ids(before)[i as int] == id@);
                    assert(old(self)@.waiting.contains(id@));
                    assert(self@.waiting == old(self)@.waiting);
                    assert(self@.ids == old(self)@.ids);
                    assert(self@ == old(self)@);
                    assert(manager_wf(self@));
                }
                return ;
            }
            assert(self@.waiting[i as int] != id@);
            i += 1;
        }
        proof {
            assert(forall|j: int| 0 <= j < self@.waiting.len() ==> self@.waiting[j] != id@);
            assert(!old(self)@.waiting.contains(id@));
        }
        let ghost before = self.wait_handles@;
        self.wait_handles.push((id, tx));
        proof {
            assert(waiting_ids(self.wait_handles@) =~= waiting_ids(before).push(id@));
            assert forall|w: ProcessIdView|
                waiting_ids(before).contains(w) implies waiting_ids(
                self.wait_handles@,
            ).contains(w) by {
                let k = choose|k: int|
                    0 <= k < waiting_ids(before).len() && waiting_ids(before)[k] == w;
                assert(waiting_ids(self.wait_handles@)[k] == w);
            }
            assert forall|k: int|
                0 <= k < self@.waiting.len() implies self@.ids.contains(
                #[trigger] self@.waiting[k],
            ) by {
                if k < waiting_ids(before).len() {
                    assert(old(self)@.waiting[k] == self@.waiting[k]);
                }
            }
        }
    }

    /// Delivers `signal` to the process group of `id`, if it is tracked.
    fn kill_one(&mut self, id: &ProcessId, signal: Option<ProcessSignal>) -> (resp:
        ProcessActionResponse)
        requires
            manager_wf(old(self)@),
        ensures
            manager_wf(final(self)@),
            kill_step(old(self)@, final(self)@, resp, id@),
    {
        match self.find_process(id) {
            Some(i) => {
                let ghost before = self.processes@;
                let (pid, mut child) = self.processes.remove(i);
                let kill_result = match &signal {
                    Some(s) => child.kill(Some(s)),
                    None => child.kill(None),
                };
                self.processes.insert(i, (pid, child));
                proof {
                    assert(table_ids(self.processes@) =~= table_ids(before));
                    assert(self@ =~= old(self)@);
                    assert(old(self)@.ids.contains(id@));
                }
                if kill_result.is_ok() {
                    let mut line = "Killing ".to_owned();
                    line.append(self.processes[i].0.display_string().as_str());
                    Terminal::log(line.as_str());
                }
                kill_reply(kill_result)
            },
            None => ProcessActionResponse::Error(ProcessManagerError::NoSuchProcess),
        }
    }
}

/// The single-kill reply rule: a kill the OS accepted (or absorbed as
/// already-gone) answers `Killed`; a failed delivery is reported as
/// `KillChildFailed` carrying the failure's text.
pub fn kill_reply(kill_result: TogetherResult<()>) -> (resp: ProcessActionResponse)
    ensures
        match kill_result {
            Ok(()) => resp == ProcessActionResponse::Killed,
            Err(TogetherError::Io(m)) => resp == ProcessActionResponse::Error(
                ProcessManagerError::KillChildFailed(m),
            ),
            Err(_) => resp matches ProcessActionResponse::Error(
                ProcessManagerError::KillChildFailed(_),
            ),
        },
{
    match kill_result {
        Ok(()) => ProcessActionResponse::Killed,
        Err(e) => {
            let text = match e {
                TogetherError::Io(m) => m,
                other => other.describe(),
            };
            ProcessActionResponse::Error(ProcessManagerError::KillChildFailed(text))
        },
    }
}

/// The mass-kill reply rule: `KilledAll` exactly when every individual kill
/// succeeded, and `Unknown` as soon as one of them failed.
pub fn killall_reply(outcomes: &Vec<bool>) -> (resp: ProcessActionResponse)
    ensures
        resp == (if forall|k: int| 0 <= k < outcomes@.len() ==> outcomes@[k] {
            ProcessActionResponse::KilledAll
        } else {
            ProcessActionResponse::Error(ProcessManagerError::Unknown)
        }),
{
    let mut k: usize = 0;
    while k < outcomes.len()
        invariant
            k <= outcomes@.len(),
            forall|j: int| 0 <= j < k ==> outcomes@[j],
        decreases outcomes@.len() - k,
    {
        if !outcomes[k] {
            proof {
                assert(!outcomes@[k as int]);
            }
            return ProcessActionResponse::Error(ProcessManagerError::Unknown);
        }
        k += 1;
    }
    ProcessActionResponse::KilledAll
}

/// What one poll of a tracked process obliges the reap pass to do with it.
pub enum ReapAction {
    /// The child exited with this code: remove it and fire its notifier.
    Remove(i32),
    /// The child still runs: keep it untouched.
    Keep,
    /// The poll itself failed: leave the child for the next pass.
    Defer(TogetherError),
}

/// The reap rule for one poll result: an observed exit obliges removal, a
/// still-running child stays, and an indeterminate status is retried on a
/// later pass rather than crashing the actor.
pub fn reap_decision(polled: TogetherResult<Option<i32>>) -> (d: ReapAction)
    ensures
        d == (match polled {
            Ok(Some(code)) => ReapAction::Remove(code),
            Ok(None) => ReapAction::Keep,
            Err(e) => ReapAction::Defer(e),
        }),
{
    match polled {
        Ok(Some(code)) => ReapAction::Remove(code),
        Ok(None) => ReapAction::Keep,
        Err(e) => ReapAction::Defer(e),
    }
}

/// The ids of a reap report.
pub open spec fn reaped_ids(reaped: Seq<(ProcessId, i32)>) -> Seq<ProcessIdView> {
    reaped.map_values(|p: (ProcessId, i32)| p.0@)
}

/// Removing one entry of a duplicate-free id sequence removes exactly it.
proof fn lemma_distinct_remove(ids: Seq<ProcessIdView>, i: int)
    requires
        0 <= i < ids.len(),
        distinct_sequences(ids),
    ensures
        distinct_sequences(ids.remove(i)),
        !ids.remove(i).contains(ids[i]),
        forall|w: ProcessIdView|
            #[trigger] ids.remove(i).contains(w) <==> ids.contains(w) && w != ids[i],
{
    let r = ids.remove(i);
    assert forall|w: ProcessIdView| #[trigger] r.contains(w) implies ids.contains(w) && w
        != ids[i] by {
        let k = choose|k: int| 0 <= k < r.len() && r[k] == w;
        if k < i {
            assert(ids[k] == w);
        } else {
            assert(ids[k + 1] == w);
        }
    }
    assert forall|w: ProcessIdView| ids.contains(w) && w != ids[i] implies #[trigger] r.contains(
        w,
    ) by {
        let k = choose|k: int| 0 <= k < ids.len() && ids[k] == w;
        if k < i {
            assert(r[k] == w);
        } else {
            assert(r[k - 1] == w);
        }
    }
}

/// What one reap pass produced: each id removed from the table with the exit
/// code it was reaped with, and whether a non-zero exit under `exit_on_error`
/// forced a signal to every process still tracked.
pub struct ReapReport {
    pub reaped: Vec<(ProcessId, i32)>,
    pub cascaded: bool,
}

/// How a reap pass changes the model: reaped ids leave the table, everything
/// else stays; a notifier survives exactly as long as its process; the
/// cascade fires exactly when a reaped process exited non-zero while
/// `exit_on_error` is set.
pub open spec fn reap_step(pre: ManagerView, post: ManagerView, report: ReapReport) -> bool {
    &&& policies_kept(pre, post)
    &&& post.index == pre.index
    &&& post.killed == pre.killed
    &&& forall|w: ProcessIdView|
        #[trigger] post.waiting.contains(w) <==> pre.waiting.contains(w) && post.ids.contains(w)
    &&& forall|w: ProcessIdView| #[trigger] post.ids.contains(w) ==> pre.ids.contains(w)
    &&& forall|k: int|
        0 <= k < report.reaped@.len() ==> pre.ids.contains(
            (#[trigger] report.reaped@[k]).0@,
        ) && !post.ids.contains(report.reaped@[k].0@)
    &&& forall|w: ProcessIdView|
        #[trigger] pre.ids.contains(w) ==> post.ids.contains(w) || reaped_ids(
            report.reaped@,
        ).contains(w)
    &&& report.cascaded == (pre.exit_on_error && exists|k: int|
        0 <= k < report.reaped@.len() && (#[trigger] report.reaped@[k]).1 != 0)
}

impl ProcessManager {
    /// Removes the wait notifier registered for `id`, if any, firing it.
    fn fire_wait_handle(&mut self, id: &ProcessId)
        requires
            distinct_sequences(old(self)@.waiting),
        ensures
            final(self)@ == (ManagerView { waiting: final(self)@.waiting, ..old(self)@ }),
            distinct_sequences(final(self)@.waiting),
            !final(self)@.waiting.contains(id@),
            forall|w: ProcessIdView|
                w != id@ ==> (#[trigger] final(self)@.waiting.contains(w) <==> old(
                    self,
                )@.waiting.contains(w)),
            forall|w: ProcessIdView|
                #[trigger] final(self)@.waiting.contains(w) ==> old(self)@.waiting.contains(w),
    {
        let mut i: usize = 0;
        while i < self.wait_handles.len()
            invariant
                i <= self.wait_handles@.len(),
                *self == *old(self),
                distinct_sequences(old(self)@.waiting),
                forall|j: int| 0 <= j < i ==> self@.waiting[j] != id@,
            decreases self.wait_handles@.len() - i,
        {
            if self.wait_handles[i].0 == *id {
                let ghost before = self@.waiting;
                proof {
                    assert(before[i as int] == id@);
                }
                let (_gone, notifier) = self.wait_handles.remove(i);
                let _delivered = channel_send(&notifier, ());
                proof {
                    assert(self@.waiting =~= before.remove(i as int));
                    lemma_distinct_remove(before, i as int);
                    assert(self@ =~= (ManagerView { waiting: self@.waiting, ..old(self)@ }));
                }
                return ;
            }
            assert(self@.waiting[i as int] != id@);
            i += 1;
        }
        proof {
            assert(forall|j: int| 0 <= j < self@.waiting.len() ==> self@.waiting[j] != id@);
            assert(!self@.waiting.contains(id@));
            assert(self@ =~= (ManagerView { waiting: self@.waiting, ..old(self)@ }));
        }
    }

    /// One reap pass: polls every tracked process once; each one that has
    /// exited leaves the table and its notifier fires; if one of them exited
    /// non-zero while `exit_on_error` is set, every process still tracked is
    /// signalled (their removal is left to later passes).
    pub fn cleanup_dead_processes(&mut self) -> (report: ReapReport)
        requires
            manager_wf(old(self)@),
        ensures
            manager_wf(final(self)@),
            reap_step(old(self)@, final(self)@, report),
    {
        let ghost pre = self@;
        let mut reaped: Vec<(ProcessId, i32)> = Vec::new();
        let mut i: usize = 0;
        while i < self.processes.len()
            invariant
                i <= self.processes@.len(),
                manager_wf(self@),
                manager_wf(pre),
                self@.index == pre.index,
                self@.killed == pre.killed,
                policies_kept(pre, self@),
                forall|w: ProcessIdView| #[trigger] self@.ids.contains(w) ==> pre.ids.contains(w),
                forall|w: ProcessIdView|
                    #[trigger] self@.waiting.contains(w) <==> pre.waiting.contains(w)
                        && self@.ids.contains(w),
                forall|k: int|
                    0 <= k < reaped@.len() ==> pre.ids.contains((#[trigger] reaped@[k]).0@)
                        && !self@.ids.contains(reaped@[k].0@),
                forall|w: ProcessIdView|
                    #[trigger] pre.ids.contains(w) ==> self@.ids.contains(w) || reaped_ids(
                        reaped@,
                    ).contains(w),
            decreases self.processes@.len() - i,
        {
            let ghost before = self.processes@;
            let (pid, mut child) = self.processes.remove(i);
            match reap_decision(child.try_wait()) {
                ReapAction::Remove(status) => {
                    let ghost head = table_ids(before);
                    let ghost head_waiting = self@.waiting;
                    proof {
                        assert(table_ids(self.processes@) =~= head.remove(i as int));
                        assert(head[i as int] == pid@);
                        lemma_distinct_remove(head, i as int);
                    }
                    if status != 0 && self.exit_on_error {
                        let mut line = pid.display_string();
                        line.append(": exited with non-zero status");
                        Terminal::log_error(line.as_str());
                    }
                    self.fire_wait_handle(&pid);
                    let mut line = "Finished ".to_owned();
                    line.append(pid.display_string().as_str());
                    Terminal::log(line.as_str());
                    let ghost reaped_before = reaped@;
                    reaped.push((pid, status));
                    proof {
                        let now = self@.ids;
                        assert(now == head.remove(i as int));
                        assert(head.contains(pid@));
                        assert(reaped_ids(reaped@) =~= reaped_ids(reaped_before).push(pid@));
                        // the table keeps its well-formedness
                        assert forall|k: int|
                            0 <= k < now.len() implies (#[trigger] now[k]).sequence
                            < self@.index by {
                            assert(now.contains(now[k]));
                            assert(head.contains(now[k]));
                            let m = choose|m: int| 0 <= m < head.len() && head[m] == now[k];
                            assert(head[m].sequence < self@.index);
                        }
                        assert forall|k: int|
                            0 <= k < self@.waiting.len() implies now.contains(
                            #[trigger] self@.waiting[k],
                        ) by {
                            let w = self@.waiting[k];
                            assert(self@.waiting.contains(w));
                            assert(head_waiting.contains(w) && w != pid@);
                            assert(head.contains(w));
                        }
                        // every id reaped so far is gone from the table
                        assert forall|k: int|
                            0 <= k < reaped@.len() implies pre.ids.contains(
                            (#[trigger] reaped@[k]).0@,
                        ) && !now.contains(reaped@[k].0@) by {
                            if k < reaped_before.len() {
                                assert(reaped@[k] == reaped_before[k]);
                                assert(!head.contains(reaped_before[k].0@) || reaped_before[k].0@
                                    == pid@);
                            } else {
                                assert(reaped@[k].0@ == pid@);
                            }
                        }
                        // nothing is lost: an id of the old table is either
                        // still tracked or recorded as reaped
                        assert forall|w: ProcessIdView|
                            #[trigger] pre.ids.contains(w) implies now.contains(w) || reaped_ids(
                            reaped@,
                        ).contains(w) by {
                            if !now.contains(w) {
                                if head.contains(w) {
                                    if w == pid@ {
                                        assert(reaped_ids(reaped@)[reaped_ids(reaped@).len() - 1]
                                            == pid@);
                                    }
                                } else {
                                    if reaped_ids(reaped_before).contains(w) {
                                        let k = choose|k: int|
                                            0 <= k < reaped_ids(reaped_before).len() && reaped_ids(
                                                reaped_before,
                                            )[k] == w;
                                        assert(reaped_ids(reaped@)[k] == w);
                                    }
                                }
                            }
                        }
                        // a notifier survives exactly with its process
                        assert forall|w: ProcessIdView| #[trigger]
                            self@.waiting.contains(w) <==> pre.waiting.contains(w) && now.contains(
                            w,
                        ) by {
                            if w == pid@ {
                                assert(!self@.waiting.contains(w));
                                assert(!now.contains(w));
                            } else {
                                assert(self@.waiting.contains(w) == head_waiting.contains(w));
                                if head_waiting.contains(w) {
                                    assert(head.contains(w));
                                    assert(now.contains(w));
                                }
                            }
                        }
                    }
                },
                ReapAction::Keep => {
                    self.processes.insert(i, (pid, child));
                    proof {
                        assert(table_ids(self.processes@) =~= table_ids(before));
                    }
                    i += 1;
                },
                ReapAction::Defer(e) => {
                    self.processes.insert(i, (pid, child));
                    proof {
                        assert(table_ids(self.processes@) =~= table_ids(before));
                    }
                    let mut line = "Failed to check child status: ".to_owned();
                    line.append(e.describe().as_str());
                    Terminal::log_error(line.as_str());
                    i += 1;
                },
            }
        }
        proof {
        }
        let cascaded = self.exit_on_error && any_nonzero(&reaped);
        if cascaded {
            let ghost mid = self@;
            let mut j: usize = 0;
            while j < self.processes.len()
                invariant
                    j <= self.processes@.len(),
                    self@ == mid,
                decreases self.processes@.len() - j,
            {
                let ghost before = self.processes@;
                let (pid, mut child) = self.processes.remove(j);
                let kill_result = child.kill(None);
                self.processes.insert(j, (pid, child));
                proof {
                    assert(table_ids(self.processes@) =~= table_ids(before));
                    assert(self@ =~= mid);
                }
                if let Err(e) = kill_result {
                    let mut line = "Failed to kill ".to_owned();
                    line.append(self.processes[j].0.display_string().as_str());
                    line.append(" => ");
                    line.append(e.describe().as_str());
                    Terminal::log_error(line.as_str());
                }
                j += 1;
            }
        }
        let report = ReapReport { reaped, cascaded };
        proof {
            assert(report.reaped@ == reaped@);
            if cascaded {
                // carry the non-zero-exit witness across the move into the report
                let k0 = choose|k: int| 0 <= k < reaped@.len() && (#[trigger] reaped@[k]).1 != 0;
                assert((#[trigger] report.reaped@[k0]).1 != 0);
            }
            assert(reap_step(pre, self@, report));
        }
        report
    }
}

/// Whether some reaped process exited with a non-zero status.
fn any_nonzero(reaped: &Vec<(ProcessId, i32)>) -> (r: bool)
    ensures
        r == exists|k: int| 0 <= k < reaped@.len() && (#[trigger] reaped@[k]).1 != 0,
{
    let mut k: usize = 0;
    while k < reaped.len()
        invariant
            k <= reaped@.len(),
            forall|j: int| 0 <= j < k ==> (#[trigger] reaped@[j]).1 == 0,
        decreases reaped@.len() - k,
    {
        if reaped[k].1 != 0 {
            return true;
        }
        k += 1;
    }
    false
}

/// Why the actor's control loop came to an end.
pub enum LoopExit {
    /// Every tracked process has exited and `quit_on_completion` is set: the
    /// whole program is meant to terminate now.
    AllDone,
    /// A `KillAll` was served earlier and the table has drained.
    Drained,
    /// Every handle is gone; nobody can ever send a request again.
    Disconnected,
}

/// What one control-loop iteration decided.
pub enum CycleOutcome {
    Continue,
    Stop(LoopExit),
}

/// The quiet-interval rule of the control loop: once the actor is draining
/// and the table is empty, it stops; when a reap pass has just emptied the
/// table under `quit_on_completion`, the whole program is to terminate; in
/// every other case the loop keeps serving.
pub open spec fn spec_cycle_verdict(had_processes: bool, post: ManagerView) -> CycleOutcome {
    if post.killed && post.ids.len() == 0 {
        CycleOutcome::Stop(LoopExit::Drained)
    } else if had_processes && post.ids.len() == 0 && post.quit_on_completion {
        CycleOutcome::Stop(LoopExit::AllDone)
    } else {
        CycleOutcome::Continue
    }
}

impl ProcessManager {
    /// Decides what a quiet interval means for this actor, by
    /// `spec_cycle_verdict`: `had_processes` says whether the table held
    /// anything before the reap pass (an idle manager never quits on its own).
    fn cycle_verdict(&self, had_processes: bool) -> (out: CycleOutcome)
        ensures
            out == spec_cycle_verdict(had_processes, self@),
    {
        if self.killed && self.processes.is_empty() {
            CycleOutcome::Stop(LoopExit::Drained)
        } else if had_processes && self.processes.is_empty() && self.quit_on_completion {
            CycleOutcome::Stop(LoopExit::AllDone)
        } else {
            CycleOutcome::Continue
        }
    }

    /// One iteration of the actor's control loop: waits up to the poll
    /// interval for a request and serves it, or — on a quiet interval — reaps
    /// finished children and rules on the result by `spec_cycle_verdict`. The
    /// caller runs this in a loop on the actor's own thread and performs the
    /// program exit that a `Stop` outcome asks for.
    pub fn rx_message_cycle<F: Fn(Process, u32) -> Process>(&mut self, forwarder: &F) -> (out:
        CycleOutcome)
        requires
            manager_wf(old(self)@),
            forall|p: Process, s: u32| #[trigger] call_requires(*forwarder, (p, s)),
        ensures
            manager_wf(final(self)@),
            policies_kept(old(self)@, final(self)@),
            final(self)@.index >= old(self)@.index,
            old(self)@.killed ==> final(self)@.killed,
            // every state change is a served request or a reap pass
            (exists|action: ProcessAction, resp: ProcessActionResponse|
                message_step(old(self)@, final(self)@, action, resp)) || (exists|
                report: ReapReport,
            |
                reap_step(old(self)@, final(self)@, report)) || final(self)@ == old(self)@,
            out matches CycleOutcome::Stop(LoopExit::AllDone) ==> final(self)@.ids.len() == 0
                && final(self)@.quit_on_completion && old(self)@.ids.len() > 0,
            out matches CycleOutcome::Stop(LoopExit::Drained) ==> final(self)@.ids.len() == 0
                && final(self)@.killed,
            out matches CycleOutcome::Stop(LoopExit::Disconnected) ==> final(self)@ == old(
                self,
            )@,
    {
        match channel_recv_timeout(&self.receiver, 100) {
            TimedRecv::Received(message) => {
                let Message(action, reply) = message;
                let response = self.process_message_with(action, forwarder);
                proof {
                    assert(message_step(old(self)@, self@, action, response));
                    lemma_message_step_monotonic(old(self)@, self@);
                }
                let _delivered = channel_send(&reply, response);
                CycleOutcome::Continue
            },
            TimedRecv::TimedOut => {
                let had_processes = !self.processes.is_empty();
                if had_processes {
                    let _report = self.cleanup_dead_processes();
                }
                let out = self.cycle_verdict(had_processes);
                match &out {
                    CycleOutcome::Stop(LoopExit::AllDone) => {
                        Terminal::log("All processes have exited, stopping...");
                    },
                    CycleOutcome::Continue => {
                        if had_processes && self.processes.is_empty() {
                            Terminal::log(
                                "No more processes running, waiting for new commands...",
                            );
                        }
                    },
                    _ => {},
                }
                out
            },
            TimedRecv::Disconnected => CycleOutcome::Stop(LoopExit::Disconnected),
        }
    }
}

/// No request ever rolls the sequence counter back, clears the draining
/// flag, or touches the policies: whatever the actor serves, `index` only
/// increases over a manager's lifetime, so an id is never reused within one
/// run.
pub proof fn lemma_message_step_monotonic(pre: ManagerView, post: ManagerView)
    requires
        exists|action: ProcessAction, resp: ProcessActionResponse|
            message_step(pre, post, action, resp),
    ensures
        policies_kept(pre, post),
        post.index >= pre.index,
        pre.killed ==> post.killed,
{
    let (action, resp) = choose|action: ProcessAction, resp: ProcessActionResponse|
        message_step(pre, post, action, resp);
    match action {
        ProcessAction::Create(_) => {},
        ProcessAction::CreateAdvanced(_, _) => {},
        ProcessAction::Wait(_) => {},
        ProcessAction::Kill(_) => {},
        ProcessAction::KillAdvanced(_, _) => {},
        ProcessAction::KillAll => {},
        ProcessAction::List => {},
    }
}

/// A cloneable capability to send requests to the actor and receive the one
/// correlated reply.
pub struct ProcessManagerHandle {
    sender: std::sync::mpsc::Sender<Message>,
}

/// How the explicit shutdown handshake ended.
pub enum ShutdownOutcome {
    /// The actor acknowledged `KillAll`; its loop will drain and finish.
    Acknowledged,
    /// The actor reported a failure while signalling its children.
    KillFailed,
    /// The actor replied with something other than a kill-all acknowledgment.
    UnexpectedReply,
    /// The actor was already gone; nothing was left to shut down.
    ActorGone,
}

impl ProcessManagerHandle {
    /// Sends one request and blocks until the one correlated reply arrives.
    pub fn send(&self, action: ProcessAction) -> (r: TogetherResult<ProcessActionResponse>)
        ensures
            r matches Err(e) ==> (e is DynError || e is ChannelRecvError),
    {
        let (tx, rx) = new_channel::<ProcessActionResponse>();
        if !channel_send(&self.sender, Message(action, tx)) {
            return Err(TogetherError::DynError("process manager is gone".to_owned()));
        }
        match channel_recv(&rx) {
            Ok(response) => Ok(response),
            Err(()) => Err(TogetherError::ChannelRecvError),
        }
    }

    /// Another handle to the same actor, without shutdown duties.
    pub fn subscribe(&self) -> ProcessManagerHandle {
        ProcessManagerHandle { sender: clone_sender(&self.sender) }
    }

    /// A snapshot of the ids of every tracked process; the reply is read by
    /// `classify_list_reply`.
    pub fn list(&self) -> (r: TogetherResult<Vec<ProcessId>>)
        ensures
            r matches Err(e) ==> (e is DynError || e is ChannelRecvError || e matches
                TogetherError::InternalError(TogetherInternalError::UnexpectedResponse)),
    {
        match self.send(ProcessAction::List) {
            Ok(resp) => classify_list_reply(resp),
            Err(e) => Err(e),
        }
    }

    /// Starts `command` under the actor's ambient policies; the reply is
    /// read by `classify_created_reply`.
    pub fn spawn(&self, command: &str) -> (r: TogetherResult<ProcessId>)
        ensures
            r matches Err(e) ==> (e is DynError || e is ChannelRecvError || e matches
                TogetherError::InternalError(TogetherInternalError::UnexpectedResponse)),
    {
        match self.send(ProcessAction::Create(command.to_owned())) {
            Ok(resp) => classify_created_reply(resp),
            Err(e) => Err(e),
        }
    }

    /// Starts `command` with per-call stdio and directory overrides; the
    /// reply is read by `classify_created_reply`.
    pub fn spawn_advanced(&self, command: &str, options: &CreateOptions) -> (r: TogetherResult<
        ProcessId,
    >)
        ensures
            r matches Err(e) ==> (e is DynError || e is ChannelRecvError || e matches
                TogetherError::InternalError(TogetherInternalError::UnexpectedResponse)),
    {
        match self.send(ProcessAction::CreateAdvanced(command.to_owned(), options.clone())) {
            Ok(resp) => classify_created_reply(resp),
            Err(e) => Err(e),
        }
    }

    /// Kills the process named by `id`; `Ok(None)` reports that it was no
    /// longer tracked. The reply is read by `classify_kill_reply`.
    pub fn kill(&self, id: ProcessId) -> (r: TogetherResult<Option<()>>)
        ensures
            r matches Err(e) ==> (e is DynError || e is ChannelRecvError || e matches
                TogetherError::InternalError(TogetherInternalError::UnexpectedResponse)),
    {
        match self.send(ProcessAction::Kill(id)) {
            Ok(resp) => classify_kill_reply(resp),
            Err(e) => Err(e),
        }
    }

    /// Kills `id` and spawns `command` in its place; `Ok(None)` reports that
    /// the target had already vanished, and nothing is spawned then.
    pub fn restart(&self, id: ProcessId, command: &str) -> (r: TogetherResult<Option<ProcessId>>)
        ensures
            r matches Err(e) ==> (e is DynError || e is ChannelRecvError || e matches
                TogetherError::InternalError(TogetherInternalError::UnexpectedResponse)),
    {
        match self.kill(id) {
            Ok(Some(())) => {
                match self.spawn(command) {
                    Ok(new_id) => Ok(Some(new_id)),
                    Err(e) => Err(e),
                }
            },
            Ok(None) => Ok(None),
            Err(e) => Err(e),
        }
    }

    /// Blocks until the process named by `id` has been reaped; the reply is
    /// read by `classify_wait_reply` and the notifier then awaited.
    pub fn wait(&self, id: ProcessId) -> (r: TogetherResult<()>)
        ensures
            r matches Err(e) ==> (e is DynError || e is ChannelRecvError || e matches
                TogetherError::InternalError(TogetherInternalError::UnexpectedResponse)),
    {
        let done = match self.send(ProcessAction::Wait(id)) {
            Ok(resp) => match classify_wait_reply(resp) {
                Ok(done) => done,
                Err(e) => {
                    return Err(e);
                },
            },
            Err(e) => {
                return Err(e);
            },
        };
        match channel_recv(&done) {
            Ok(()) => Ok(()),
            Err(()) => Err(TogetherError::ChannelRecvError),
        }
    }

    /// The explicit shutdown handshake of the one owning holder: asks the
    /// actor to kill every child and waits for the acknowledgment, ruled on
    /// by `classify_shutdown_reply`. Exactly one owner calls this, once; an
    /// actor that is already gone counts as a completed shutdown. The caller
    /// joins the actor's thread afterwards.
    pub fn shutdown(&self) -> (o: ShutdownOutcome) {
        let (tx, rx) = new_channel::<ProcessActionResponse>();
        if !channel_send(&self.sender, Message(ProcessAction::KillAll, tx)) {
            return ShutdownOutcome::ActorGone;
        }
        let reply = channel_recv(&rx);
        match &reply {
            Ok(ProcessActionResponse::Error(e)) => {
                let mut line = "Failed to kill all processes: ".to_owned();
                line.append(process_manager_error_text(e).as_str());
                Terminal::log_error(line.as_str());
            },
            Ok(ProcessActionResponse::KilledAll) => {},
            Ok(_) => {
                Terminal::log_error("Received unexpected kill all response");
            },
            Err(()) => {},
        }
        classify_shutdown_reply(reply)
    }
}

/// The text a manager error is reported with.
pub open spec fn spec_error_text(e: ProcessManagerError) -> Seq<char> {
    match e {
        ProcessManagerError::SpawnChildFailed(t) => t@,
        ProcessManagerError::KillChildFailed(t) => t@,
        ProcessManagerError::NoSuchProcess => "no such process"@,
        ProcessManagerError::Unknown => "unknown error"@,
    }
}

/// A short rendering of a manager error for log lines and error payloads.
pub fn process_manager_error_text(e: &ProcessManagerError) -> (s: String)
    ensures
        s@ == spec_error_text(*e),
{
    match e {
        ProcessManagerError::SpawnChildFailed(t) => t.clone(),
        ProcessManagerError::KillChildFailed(t) => t.clone(),
        ProcessManagerError::NoSuchProcess => "no such process".to_owned(),
        ProcessManagerError::Unknown => "unknown error".to_owned(),
    }
}

/// The reply rule for `List`: the listed ids are handed through; any other
/// reply shape is the protocol bug `UnexpectedResponse`.
pub fn classify_list_reply(resp: ProcessActionResponse) -> (r: TogetherResult<Vec<ProcessId>>)
    ensures
        match resp {
            ProcessActionResponse::List(ids) => r == Ok::<Vec<ProcessId>, TogetherError>(ids),
            _ => r == Err::<Vec<ProcessId>, TogetherError>(
                TogetherError::InternalError(TogetherInternalError::UnexpectedResponse),
            ),
        },
{
    match resp {
        ProcessActionResponse::List(ids) => Ok(ids),
        _ => Err(TogetherError::InternalError(TogetherInternalError::UnexpectedResponse)),
    }
}

/// The reply rule for the two create requests: the fresh id is handed
/// through, a reported spawn failure carries that failure's text, and any
/// other reply shape is `UnexpectedResponse`.
pub fn classify_created_reply(resp: ProcessActionResponse) -> (r: TogetherResult<ProcessId>)
    ensures
        match resp {
            ProcessActionResponse::Created(id) => r == Ok::<ProcessId, TogetherError>(id),
            ProcessActionResponse::Error(e) => (r matches Err(TogetherError::DynError(msg))
                && msg@ == spec_error_text(e)),
            _ => r == Err::<ProcessId, TogetherError>(
                TogetherError::InternalError(TogetherInternalError::UnexpectedResponse),
            ),
        },
{
    match resp {
        ProcessActionResponse::Created(id) => Ok(id),
        ProcessActionResponse::Error(e) => Err(
            TogetherError::DynError(process_manager_error_text(&e)),
        ),
        _ => Err(TogetherError::InternalError(TogetherInternalError::UnexpectedResponse)),
    }
}

/// The reply rule for `Kill`: a delivered kill reports `Some(())`, an id that
/// was no longer tracked reports `None` (absence is not an error), and any
/// other reply shape is `UnexpectedResponse`.
pub fn classify_kill_reply(resp: ProcessActionResponse) -> (r: TogetherResult<Option<()>>)
    ensures
        match resp {
            ProcessActionResponse::Killed => r == Ok::<Option<()>, TogetherError>(Some(())),
            ProcessActionResponse::Error(ProcessManagerError::NoSuchProcess) => r == Ok::<
                Option<()>,
                TogetherError,
            >(None),
            _ => r == Err::<Option<()>, TogetherError>(
                TogetherError::InternalError(TogetherInternalError::UnexpectedResponse),
            ),
        },
{
    match resp {
        ProcessActionResponse::Killed => Ok(Some(())),
        ProcessActionResponse::Error(ProcessManagerError::NoSuchProcess) => Ok(None),
        _ => Err(TogetherError::InternalError(TogetherInternalError::UnexpectedResponse)),
    }
}

/// The reply rule for `Wait`: the one-shot notifier is handed through; any
/// other reply shape is `UnexpectedResponse`.
pub fn classify_wait_reply(resp: ProcessActionResponse) -> (r: Result<
    std::sync::mpsc::Receiver<()>,
    TogetherError,
>)
    ensures
        match resp {
            ProcessActionResponse::Waited(done) => r == Ok::<
                std::sync::mpsc::Receiver<()>,
                TogetherError,
            >(done),
            _ => r == Err::<std::sync::mpsc::Receiver<()>, TogetherError>(
                TogetherError::InternalError(TogetherInternalError::UnexpectedResponse),
            ),
        },
{
    match resp {
        ProcessActionResponse::Waited(done) => Ok(done),
        _ => Err(TogetherError::InternalError(TogetherInternalError::UnexpectedResponse)),
    }
}

/// The shutdown verdict rule over the actor's (possibly absent) reply:
/// `KilledAll` acknowledges, a reported error is a kill failure, any other
/// reply is unexpected, and a dead channel means the actor is already gone —
/// which counts as a completed shutdown.
pub fn classify_shutdown_reply(reply: Result<ProcessActionResponse, ()>) -> (o: ShutdownOutcome)
    ensures
        o == (match reply {
            Ok(ProcessActionResponse::KilledAll) => ShutdownOutcome::Acknowledged,
            Ok(ProcessActionResponse::Error(_)) => ShutdownOutcome::KillFailed,
            Ok(_) => ShutdownOutcome::UnexpectedReply,
            Err(()) => ShutdownOutcome::ActorGone,
        }),
{
    match reply {
        Ok(ProcessActionResponse::KilledAll) => ShutdownOutcome::Acknowledged,
        Ok(ProcessActionResponse::Error(_)) => ShutdownOutcome::KillFailed,
        Ok(_) => ShutdownOutcome::UnexpectedReply,
        Err(()) => ShutdownOutcome::ActorGone,
    }
}

/// A run of requests in which every step is one successful `Create`: state
/// `k` turns into state `k + 1` answering `Created(created[k])` for command
/// `commands[k]`.
pub open spec fn creates_trace(
    states: Seq<ManagerView>,
    created: Seq<ProcessId>,
    commands: Seq<Seq<char>>,
) -> bool {
    &&& states.len() == created.len() + 1
    &&& commands.len() == created.len()
    &&& forall|k: int|
        0 <= k < created.len() ==> create_step(
            states[k],
            states[k + 1],
            ProcessActionResponse::Created(#[trigger] created[k]),
            commands[k],
        )
}

/// Along a run of successful creates the sequence counter advances by exactly
/// one per step.
proof fn lemma_trace_index_advances(
    states: Seq<ManagerView>,
    created: Seq<ProcessId>,
    commands: Seq<Seq<char>>,
    a: int,
    b: int,
)
    requires
        creates_trace(states, created, commands),
        0 <= a <= b <= created.len(),
    ensures
        states[b].index == states[a].index + (b - a),
    decreases b - a,
{
    if a < b {
        lemma_trace_index_advances(states, created, commands, a, b - 1);
        assert(create_step(
            states[b - 1],
            states[b],
            ProcessActionResponse::Created(created[b - 1]),
            commands[b - 1],
        ));
    }
}

/// Sequence numbers handed out by `Create` are strictly increasing over one
/// manager lifetime and never repeat, also when the same command text is
/// spawned again.
pub proof fn lemma_create_sequences_strictly_increase(
    states: Seq<ManagerView>,
    created: Seq<ProcessId>,
    commands: Seq<Seq<char>>,
    a: int,
    b: int,
)
    requires
        creates_trace(states, created, commands),
        0 <= a < b < created.len(),
    ensures
        created[a]@.sequence < created[b]@.sequence,
{
    assert(create_step(
        states[a],
        states[a + 1],
        ProcessActionResponse::Created(created[a]),
        commands[a],
    ));
    assert(create_step(
        states[b],
        states[b + 1],
        ProcessActionResponse::Created(created[b]),
        commands[b],
    ));
    lemma_trace_index_advances(states, created, commands, a + 1, b);
}

/// After a run of successful creates the table holds exactly the created ids.
proof fn lemma_trace_table(
    states: Seq<ManagerView>,
    created: Seq<ProcessId>,
    commands: Seq<Seq<char>>,
    k: int,
)
    requires
        creates_trace(states, created, commands),
        0 <= k <= created.len(),
    ensures
        states[k].ids == states[0].ids + ids_of(created.take(k)),
    decreases k,
{
    if k == 0 {
        assert(states[0].ids =~= states[0].ids + ids_of(created.take(0)));
    } else {
        lemma_trace_table(states, created, commands, k - 1);
        assert(create_step(
            states[k - 1],
            states[k],
            ProcessActionResponse::Created(created[k - 1]),
            commands[k - 1],
        ));
        assert(created.take(k).drop_last() =~= created.take(k - 1));
        assert(states[k].ids =~= states[0].ids + ids_of(created.take(k)));
    }
}

/// `List` after N successful creates with nothing reaped reports exactly the
/// N ids those creates returned.
pub proof fn lemma_list_after_creates(
    states: Seq<ManagerView>,
    created: Seq<ProcessId>,
    commands: Seq<Seq<char>>,
    post: ManagerView,
    resp: ProcessActionResponse,
)
    requires
        creates_trace(states, created, commands),
        states[0].ids.len() == 0,
        list_step(states[states.len() - 1], post, resp),
    ensures
        resp matches ProcessActionResponse::List(listed) && ids_of(listed@) == ids_of(created),
{
    lemma_trace_table(states, created, commands, created.len() as int);
    assert(created.take(created.len() as int) =~= created);
    assert(states[created.len() as int].ids =~= ids_of(created));
}

/// `Kill` on an id that is not tracked reports `NoSuchProcess`, does not
/// crash, and leaves every other process exactly as it was.
pub proof fn lemma_kill_unknown_id_changes_nothing(
    pre: ManagerView,
    post: ManagerView,
    resp: ProcessActionResponse,
    id: ProcessIdView,
)
    requires
        kill_step(pre, post, resp, id),
        !pre.ids.contains(id),
    ensures
        resp matches ProcessActionResponse::Error(ProcessManagerError::NoSuchProcess),
        post == pre,
{
}

/// A reaped process takes its wait notifier with it, and a notifier never
/// outlives or precedes its process: after any reap pass the registered ids
/// are exactly the previously registered ones whose process is still tracked.
pub proof fn lemma_wait_notifiers_follow_their_process(
    pre: ManagerView,
    post: ManagerView,
    report: ReapReport,
    id: ProcessIdView,
)
    requires
        reap_step(pre, post, report),
    ensures
        post.waiting.contains(id) <==> pre.waiting.contains(id) && post.ids.contains(id),
        reaped_ids(report.reaped@).contains(id) ==> !post.waiting.contains(id),
{
    if reaped_ids(report.reaped@).contains(id) {
        let k = choose|k: int|
            0 <= k < report.reaped@.len() && reaped_ids(report.reaped@)[k] == id;
        assert(!post.ids.contains(id));
    }
}

} // verus!