//! The process table.
//!
//! The table owns the handle of every worker process that was started and
//! not yet seen to have ended. What the operating system does stands behind
//! two traits, `ProcessHandle` and `Launcher`: nothing is taken for granted
//! of their answers, so every contract here holds whatever they return.

use crate::text::join;
use std::collections::HashMap;
use vstd::prelude::*;
use vstd::std_specs::iter::IteratorSpec;

verus! {

broadcast use vstd::std_specs::hash::group_hash_axioms;

/// Why an operation on a worker process failed.
#[derive(Debug)]
pub enum ProcessError {
    /// The table already holds a process for the tunnel.
    AlreadyRunning,
    /// The table holds no process for the tunnel.
    NotRunning,
    /// The worker executable is not in the data directory.
    ExecutableMissing,
    /// The configuration file of a custom tunnel is not in the data directory.
    ConfigMissing,
    /// The data directory could not be found, or the executable could not be
    /// made ready to run; the reason is the operating system's.
    Environment(String),
    /// The process could not be created.
    SpawnFailed(String),
    /// The termination signal could not be sent.
    KillFailed(String),
    /// A lock around shared state could not be taken.
    LockUnavailable(String),
    /// The monitor could not start a tunnel again.
    RestartFailed(String),
}

/// The words in which it is told that the termination signal could not be
/// sent, for this reason.
pub open spec fn kill_failed_text(reason: Seq<char>) -> Seq<char> {
    "停止进程失败: "@ + reason
}

/// The words in which an error is shown to the user.
pub open spec fn error_text(error: ProcessError) -> Seq<char> {
    match error {
        ProcessError::AlreadyRunning => "该隧道已在运行中"@,
        ProcessError::NotRunning => "该隧道未在运行"@,
        ProcessError::ExecutableMissing => "frpc 未找到，请先下载"@,
        ProcessError::ConfigMissing => "配置文件不存在"@,
        ProcessError::Environment(reason) => reason@,
        ProcessError::SpawnFailed(reason) => "启动 frpc 失败: "@ + reason@,
        ProcessError::KillFailed(reason) => kill_failed_text(reason@),
        ProcessError::LockUnavailable(reason) => "获取进程锁失败: "@ + reason@,
        ProcessError::RestartFailed(reason) => "守护进程重启失败: "@ + reason@,
    }
}

impl ProcessError {
    /// The error in the words in which it is shown to the user.
    pub fn message(&self) -> (text: String)
        ensures
            text@ == error_text(*self),
    {
        match self {
            ProcessError::AlreadyRunning => "该隧道已在运行中".to_owned(),
            ProcessError::NotRunning => "该隧道未在运行".to_owned(),
            ProcessError::ExecutableMissing => "frpc 未找到，请先下载".to_owned(),
            ProcessError::ConfigMissing => "配置文件不存在".to_owned(),
            ProcessError::Environment(reason) => reason.clone(),
            ProcessError::SpawnFailed(reason) => join("启动 frpc 失败: ", reason.as_str()),
            ProcessError::KillFailed(reason) => join("停止进程失败: ", reason.as_str()),
            ProcessError::LockUnavailable(reason) => join("获取进程锁失败: ", reason.as_str()),
            ProcessError::RestartFailed(reason) => join("守护进程重启失败: ", reason.as_str()),
        }
    }
}

/// What a look at a process, without waiting for it, has shown.
#[derive(Clone, Copy, Debug, PartialEq, Eq, Structural)]
pub enum ProbeOutcome {
    /// The process has not ended.
    Running,
    /// The process has ended.
    Exited,
    /// The look itself failed.
    Failed,
}

/// A worker process, as far as the table needs it.
pub trait ProcessHandle {
    /// The identifier that the operating system gave the process.
    fn process_id(&self) -> u32;

    /// Looks whether the process has ended, without waiting for it.
    fn probe(&mut self) -> ProbeOutcome;

    /// Sends the termination signal; on failure, the reason.
    fn kill(&mut self) -> Result<(), String>;

    /// Waits until the process has ended; whether the wait succeeded.
    fn wait(&mut self) -> bool;
}

/// The place where the worker executable lies and processes are made.
pub trait Launcher {
    type Handle: ProcessHandle;

    /// Whether the worker executable is in the data directory.
    fn executable_present(&self) -> bool;

    /// Makes sure that the executable may be run; on failure, the reason.
    fn make_executable(&self) -> Result<(), String>;

    /// Whether a file of this name is in the data directory.
    fn file_present(&self, name: &str) -> bool;

    /// Creates a worker process with these arguments, its working directory
    /// the data directory, its output captured; on failure, the reason.
    fn spawn(&self, arguments: &Vec<String>) -> Result<Self::Handle, String>;
}

/// The running worker processes, by tunnel id.
pub struct FrpcProcesses<H> {
    processes: HashMap<i32, H>,
}

/// `start` refuses a tunnel that the table already holds.
pub open spec fn start_refused(ids: Set<i32>, id: i32) -> bool {
    ids.contains(id)
}

/// The ids in the table after a `start` whose process was or was not created.
pub open spec fn ids_after_start(ids: Set<i32>, id: i32, spawned: bool) -> Set<i32> {
    if !start_refused(ids, id) && spawned {
        ids.insert(id)
    } else {
        ids
    }
}

/// The handles in the table after the outcome of a process creation was
/// filed under a tunnel: a created process is owned by the table from then
/// on, unless the table held the tunnel already; in every other case the
/// table is as it was.
pub open spec fn handles_after_start<H>(
    handles: Map<i32, H>,
    id: i32,
    spawned: Result<H, String>,
) -> Map<i32, H> {
    match spawned {
        Ok(handle) => if handles.contains_key(id) {
            handles
        } else {
            handles.insert(id, handle)
        },
        Err(_) => handles,
    }
}

/// The table keeps what it owned for a tunnel: the same handle, or none as
/// before.
pub open spec fn kept<H>(before: Map<i32, H>, after: Map<i32, H>, id: i32) -> bool {
    &&& before.contains_key(id) == after.contains_key(id)
    &&& before.contains_key(id) ==> after[id] == before[id]
}

/// The ids in the table after a `stop`.
pub open spec fn ids_after_stop(ids: Set<i32>, id: i32) -> Set<i32> {
    ids.remove(id)
}

/// What `is_running` answers when the look at the process showed `outcome`.
pub open spec fn running_after_probe(ids: Set<i32>, id: i32, outcome: ProbeOutcome) -> bool {
    ids.contains(id) && outcome == ProbeOutcome::Running
}

/// The ids in the table after `is_running`: an entry whose process is not
/// seen running is dropped.
pub open spec fn ids_after_probe(ids: Set<i32>, id: i32, outcome: ProbeOutcome) -> Set<i32> {
    if running_after_probe(ids, id, outcome) {
        ids
    } else {
        ids.remove(id)
    }
}

/// After a successful `start` a second `start` of the same tunnel is refused,
/// until the entry is removed; after a `stop` it is not refused.
pub proof fn law_start_once(ids: Set<i32>, id: i32)
    ensures
        start_refused(ids_after_start(ids, id, true), id),
        !start_refused(ids_after_stop(ids, id), id),
        forall|outcome: ProbeOutcome|
            outcome != ProbeOutcome::Running ==> !start_refused(
                #[trigger] ids_after_probe(ids, id, outcome),
                id,
            ),
{
}

/// A start that is refused leaves every handle in the table as it is, the
/// one under the tunnel included; a start after a stop, or after the entry
/// was dropped, makes the table own the new handle under the tunnel.
pub proof fn law_start_owns_new_handle<H>(handles: Map<i32, H>, id: i32, new: H)
    ensures
        handles.contains_key(id) ==> handles_after_start(handles, id, Ok(new)) == handles,
        handles_after_start(handles.remove(id), id, Ok(new)) == handles.remove(id).insert(id, new),
        handles_after_start(handles.remove(id), id, Ok(new))[id] == new,
        forall|reason: String|
            #[trigger] handles_after_start(handles, id, Err(reason)) == handles,
{
}

/// A tunnel that was never started is not running; a started tunnel is
/// running for as long as its process is seen running; and once `is_running`
/// has answered no, the table does not hold the tunnel.
pub proof fn law_probe(ids: Set<i32>, id: i32, outcome: ProbeOutcome)
    ensures
        !ids.contains(id) ==> !running_after_probe(ids, id, outcome),
        running_after_probe(ids_after_start(ids, id, true), id, ProbeOutcome::Running),
        ids_after_probe(ids_after_start(ids, id, true), id, ProbeOutcome::Running).contains(id),
        !running_after_probe(ids, id, outcome) ==> !ids_after_probe(ids, id, outcome).contains(id),
{
}

/// What stopping a process answers, given how sending the signal went:
/// success whenever the signal was sent, however the wait went.
pub fn stop_outcome(killed: Result<(), String>) -> (result: Result<(), ProcessError>)
    ensures
        result == match killed {
            Ok(_) => Ok::<(), ProcessError>(()),
            Err(reason) => Err(ProcessError::KillFailed(reason)),
        },
{
    match killed {
        Ok(_) => Ok(()),
        Err(reason) => Err(ProcessError::KillFailed(reason)),
    }
}

/// What the caller is told of a stop, given how the stop went: the words of
/// success, or the error in the words in which it is shown to the user.
pub open spec fn stop_answer_text(
    outcome: Result<(), ProcessError>,
    stopped_text: Seq<char>,
) -> Result<Seq<char>, Seq<char>> {
    match outcome {
        Ok(_) => Ok(stopped_text),
        Err(error) => Err(error_text(error)),
    }
}

/// Words the answer to the caller of a stop.
pub fn stop_answer(outcome: Result<(), ProcessError>, stopped_text: &str) -> (result: Result<
    String,
    String,
>)
    ensures
        match result {
            Ok(text) => stop_answer_text(outcome, stopped_text@) == Ok::<Seq<char>, Seq<char>>(
                text@,
            ),
            Err(text) => stop_answer_text(outcome, stopped_text@) == Err::<Seq<char>, Seq<char>>(
                text@,
            ),
        },
{
    match outcome {
        Ok(_) => Ok(stopped_text.to_owned()),
        Err(error) => Err(error.message()),
    }
}

/// `result` is what the caller of a stop may be told: the words of success
/// only for a tunnel that the table held; for a tunnel that it did not hold,
/// the `NotRunning` error; for one that it held, else, the `KillFailed` error
/// with the reason for which the signal could not be sent.
pub open spec fn is_stop_answer(
    held: bool,
    stopped_text: Seq<char>,
    result: Result<String, String>,
) -> bool {
    match result {
        Ok(text) => held && text@ == stopped_text,
        Err(text) => if held {
            exists|reason: Seq<char>| text@ == #[trigger] kill_failed_text(reason)
        } else {
            text@ == error_text(ProcessError::NotRunning)
        },
    }
}

/// The answer that is worded from the outcome of `stop` is one that the
/// caller of a stop may be told.
pub proof fn lemma_stop_answer(
    held: bool,
    outcome: Result<(), ProcessError>,
    stopped_text: Seq<char>,
    result: Result<String, String>,
)
    requires
        (outcome == Err::<(), ProcessError>(ProcessError::NotRunning)) == !held,
        outcome matches Err(error) ==> error == ProcessError::NotRunning || error is KillFailed,
        match result {
            Ok(text) => stop_answer_text(outcome, stopped_text) == Ok::<Seq<char>, Seq<char>>(
                text@,
            ),
            Err(text) => stop_answer_text(outcome, stopped_text) == Err::<Seq<char>, Seq<char>>(
                text@,
            ),
        },
    ensures
        is_stop_answer(held, stopped_text, result),
{
    match outcome {
        Err(ProcessError::KillFailed(reason)) => {
            assert(error_text(outcome->Err_0) == kill_failed_text(reason@));
        },
        _ => {},
    }
}

impl<H: ProcessHandle> FrpcProcesses<H> {
    /// The handle that the table owns for each tunnel that it holds.
    pub closed spec fn handles(&self) -> Map<i32, H> {
        self.processes@
    }

    /// The tunnels that the table holds a process for.
    pub open spec fn ids(&self) -> Set<i32> {
        self.handles().dom()
    }

    /// An empty table.
    pub fn new() -> (table: Self)
        ensures
            table.handles() == Map::<i32, H>::empty(),
            table.ids() == Set::<i32>::empty(),
    {
        let table = FrpcProcesses { processes: HashMap::new() };
        assert(table.ids() =~= Set::<i32>::empty());
        table
    }

    /// Whether the table holds a process for the tunnel. No look is taken at
    /// the process.
    pub fn contains(&self, tunnel_id: i32) -> (held: bool)
        ensures
            held == self.ids().contains(tunnel_id),
    {
        self.processes.contains_key(&tunnel_id)
    }

    /// The number of processes in the table.
    pub fn len(&self) -> (count: usize)
        ensures
            count == self.ids().len(),
    {
        self.processes.len()
    }

    /// Files the outcome of a process creation under a tunnel that the table
    /// does not hold yet: the handle is stored and the process identifier
    /// returned, or the failure is passed on.
    pub fn file_spawned(&mut self, tunnel_id: i32, spawned: Result<H, String>) -> (result: Result<
        u32,
        ProcessError,
    >)
        ensures
            final(self).handles() == handles_after_start(old(self).handles(), tunnel_id, spawned),
            final(self).ids() == ids_after_start(old(self).ids(), tunnel_id, spawned is Ok),
            start_refused(old(self).ids(), tunnel_id) ==> result == Err::<u32, ProcessError>(
                ProcessError::AlreadyRunning,
            ),
            !start_refused(old(self).ids(), tunnel_id) ==> match spawned {
                Ok(_) => result is Ok,
                Err(reason) => result == Err::<u32, ProcessError>(
                    ProcessError::SpawnFailed(reason),
                ),
            },
    {
        if self.processes.contains_key(&tunnel_id) {
            return Err(ProcessError::AlreadyRunning);
        }
        match spawned {
            Ok(handle) => {
                let pid = handle.process_id();
                self.processes.insert(tunnel_id, handle);
                assert(self.ids() =~= old(self).ids().insert(tunnel_id));
                Ok(pid)
            },
            Err(reason) => Err(ProcessError::SpawnFailed(reason)),
        }
    }

    /// Starts a worker process for a tunnel: refused where the table already
    /// holds one; else the process is created through `launcher`, its handle
    /// stored, and its process identifier returned.
    pub fn start<L: Launcher<Handle = H>>(
        &mut self,
        tunnel_id: i32,
        launcher: &L,
        arguments: &Vec<String>,
    ) -> (result: Result<u32, ProcessError>)
        ensures
            result is Err ==> final(self).handles() == old(self).handles(),
            result is Ok ==> exists|handle: H| #[trigger]
                old(self).handles().insert(tunnel_id, handle) == final(self).handles(),
            final(self).ids() == ids_after_start(old(self).ids(), tunnel_id, result is Ok),
            (result == Err::<u32, ProcessError>(ProcessError::AlreadyRunning)) == start_refused(
                old(self).ids(),
                tunnel_id,
            ),
            result matches Err(error) ==> error == ProcessError::AlreadyRunning
                || error is SpawnFailed,
    {
        if self.processes.contains_key(&tunnel_id) {
            return Err(ProcessError::AlreadyRunning);
        }
        let spawned = launcher.spawn(arguments);
        self.file_spawned(tunnel_id, spawned)
    }

    /// Stops the process of a tunnel: the entry is removed, the termination
    /// signal sent and the end of the process waited for. It fails where the
    /// table holds no such process, and where the signal could not be sent.
    pub fn stop(&mut self, tunnel_id: i32) -> (result: Result<(), ProcessError>)
        ensures
            final(self).handles() == old(self).handles().remove(tunnel_id),
            final(self).ids() == ids_after_stop(old(self).ids(), tunnel_id),
            (result == Err::<(), ProcessError>(ProcessError::NotRunning)) == !old(self).ids().contains(tunnel_id),
            result matches Err(error) ==> error == ProcessError::NotRunning || error is KillFailed,
    {
        let taken = self.processes.remove(&tunnel_id);
        assert(self.ids() =~= old(self).ids().remove(tunnel_id));
        match taken {
            Some(handle) => {
                let mut handle = handle;
                let killed = handle.kill();
                let _ = handle.wait();
                stop_outcome(killed)
            },
            None => Err(ProcessError::NotRunning),
        }
    }

    /// Files what a look at a process has shown. The handle was taken out of
    /// the table for the look: it is put back where the process was seen
    /// running, and dropped with its entry in any other case.
    pub fn settle_probe(&mut self, tunnel_id: i32, handle: H, outcome: ProbeOutcome) -> (running:
        bool)
        ensures
            running == (outcome == ProbeOutcome::Running),
            final(self).handles() == if running {
                old(self).handles().insert(tunnel_id, handle)
            } else {
                old(self).handles()
            },
            final(self).ids() == if running {
                old(self).ids().insert(tunnel_id)
            } else {
                old(self).ids()
            },
    {
        match outcome {
            ProbeOutcome::Running => {
                self.processes.insert(tunnel_id, handle);
                assert(self.ids() =~= old(self).ids().insert(tunnel_id));
                true
            },
            _ => false,
        }
    }

    /// Looks at the process of a tunnel without waiting for it, and returns
    /// what the look has shown; nothing for a tunnel that the table does not
    /// hold. The entry stays exactly where the process was seen running. What
    /// the table owns for other tunnels stays as it is.
    pub fn look(&mut self, tunnel_id: i32) -> (shown: Option<ProbeOutcome>)
        ensures
            shown is Some == old(self).ids().contains(tunnel_id),
            match shown {
                Some(outcome) => final(self).ids() == ids_after_probe(
                    old(self).ids(),
                    tunnel_id,
                    outcome,
                ),
                None => final(self).handles() == old(self).handles(),
            },
            final(self).handles().remove(tunnel_id) == old(self).handles().remove(tunnel_id),
    {
        let taken = self.processes.remove(&tunnel_id);
        let ghost without = self.handles();
        assert(without == old(self).handles().remove(tunnel_id));
        assert(self.ids() =~= old(self).ids().remove(tunnel_id));
        assert(without.remove(tunnel_id) =~= without);
        match taken {
            Some(handle) => {
                let mut handle = handle;
                let outcome = handle.probe();
                let _ = self.settle_probe(tunnel_id, handle, outcome);
                assert(self.ids() =~= ids_after_probe(old(self).ids(), tunnel_id, outcome));
                assert(self.handles().remove(tunnel_id) =~= without.remove(tunnel_id));
                Some(outcome)
            },
            None => {
                assert(old(self).handles().remove(tunnel_id) =~= old(self).handles());
                None
            },
        }
    }

    /// Whether the process of a tunnel is running: whether a look at it has
    /// shown so. The look does not wait for the process. An entry whose
    /// process has ended, or could not be looked at, is removed. What the
    /// table owns for other tunnels stays as it is.
    pub fn is_running(&mut self, tunnel_id: i32) -> (running: bool)
        ensures
            exists|outcome: ProbeOutcome|
                running == running_after_probe(old(self).ids(), tunnel_id, outcome) && final(self).ids()
                    == #[trigger] ids_after_probe(old(self).ids(), tunnel_id, outcome),
            running ==> final(self).ids() == old(self).ids() && old(self).ids().contains(tunnel_id),
            !running ==> final(self).ids() == old(self).ids().remove(tunnel_id),
            final(self).handles().remove(tunnel_id) == old(self).handles().remove(tunnel_id),
    {
        match self.look(tunnel_id) {
            Some(outcome) => {
                assert(self.ids() == ids_after_probe(old(self).ids(), tunnel_id, outcome));
                outcome == ProbeOutcome::Running
            },
            None => {
                assert(self.ids() =~= ids_after_probe(
                    old(self).ids(),
                    tunnel_id,
                    ProbeOutcome::Exited,
                ));
                false
            },
        }
    }

    /// The tunnels in the table, in no fixed order.
    pub fn tunnel_ids(&self) -> (ids: Vec<i32>)
        ensures
            ids@.no_duplicates(),
            ids@.to_set() == self.ids(),
    {
        let mut ids: Vec<i32> = Vec::new();
        let keys = self.processes.keys();
        let ghost all: Seq<i32> = keys.remaining().unref();
        for key in it: keys
            invariant
                it.seq().unref() == all,
                ids@ == all.take(it.index() as int),
        {
            assert(all[it.index() as int] == *key);
            ids.push(*key);
            assert(all.take(it.index() + 1) =~= all.take(it.index() as int).push(*key));
        }
        assert(all.take(all.len() as int) =~= all);
        ids
    }

    /// The tunnels whose processes are running. Every entry is looked at, and
    /// those whose process is not seen running are removed: what is returned
    /// is what the table holds afterwards.
    pub fn list_running(&mut self) -> (running: Vec<i32>)
        ensures
            running@.no_duplicates(),
            running@.to_set() == final(self).ids(),
            final(self).ids().subset_of(old(self).ids()),
    {
        let ids = self.tunnel_ids();
        let mut running: Vec<i32> = Vec::new();
        let mut i: usize = 0;
        while i < ids.len()
            invariant
                i <= ids.len(),
                ids@.no_duplicates(),
                ids@.to_set() == old(self).ids(),
                self.ids().subset_of(old(self).ids()),
                forall|j: int| i <= j < ids.len() ==> self.ids().contains(#[trigger] ids@[j]),
                forall|j: int|
                    0 <= j < i && self.ids().contains(#[trigger] ids@[j]) ==> running@.contains(
                        ids@[j],
                    ),
                running@.no_duplicates(),
                forall|m: int|
                    0 <= m < running@.len() ==> self.ids().contains(#[trigger] running@[m])
                        && exists|j: int| 0 <= j < i && ids@[j] == running@[m],
            decreases ids.len() - i,
        {
            let id = ids[i];
            let ghost before = running@;
            if self.is_running(id) {
                running.push(id);
                assert forall|j: int|
                    0 <= j < i + 1 && self.ids().contains(
                        #[trigger] ids@[j],
                    ) implies running@.contains(ids@[j]) by {
                    if j < i {
                        let m = choose|m: int| 0 <= m < before.len() && before[m] == ids@[j];
                        assert(running@[m] == ids@[j]);
                    } else {
                        assert(running@[before.len() as int] == id);
                    }
                }
            } else {
                assert forall|j: int|
                    0 <= j < i + 1 && self.ids().contains(
                        #[trigger] ids@[j],
                    ) implies running@.contains(ids@[j]) by {}
            }
            i += 1;
        }
        assert(running@.to_set() =~= self.ids()) by {
            assert forall|id: i32| self.ids().contains(id) implies running@.to_set().contains(
                id,
            ) by {
                assert(ids@.to_set().contains(id));
                let j = choose|j: int| 0 <= j < ids@.len() && ids@[j] == id;
                assert(running@.contains(ids@[j]));
            }
        }
        running
    }
}

/// Stops the worker of a numbered tunnel, and words the answer. A tunnel
/// that the table does not hold gives the `NotRunning` error, and only such a
/// tunnel; a tunnel that it holds gives the words of success, or the
/// `KillFailed` error where the signal could not be sent.
pub fn stop_frpc<H: ProcessHandle>(tunnel_id: i32, processes: &mut FrpcProcesses<H>) -> (result:
    Result<String, String>)
    ensures
        final(processes).handles() == old(processes).handles().remove(tunnel_id),
        final(processes).ids() == ids_after_stop(old(processes).ids(), tunnel_id),
        is_stop_answer(old(processes).ids().contains(tunnel_id), "frpc 已停止"@, result),
{
    let outcome = processes.stop(tunnel_id);
    let ghost went = outcome;
    let result = stop_answer(outcome, "frpc 已停止");
    proof {
        lemma_stop_answer(old(processes).ids().contains(tunnel_id), went, "frpc 已停止"@, result);
    }
    result
}

/// Whether the worker of a numbered tunnel is running. The look does not wait
/// for the process; an entry whose process is not seen running is removed.
/// The handles of other tunnels stay as they are.
pub fn is_frpc_running<H: ProcessHandle>(tunnel_id: i32, processes: &mut FrpcProcesses<H>) -> (running:
    bool)
    ensures
        exists|outcome: ProbeOutcome|
            running == running_after_probe(old(processes).ids(), tunnel_id, outcome) && final(processes).ids()
                == #[trigger] ids_after_probe(old(processes).ids(), tunnel_id, outcome),
        running ==> final(processes).ids() == old(processes).ids() && old(processes).ids().contains(tunnel_id),
        !running ==> final(processes).ids() == old(processes).ids().remove(tunnel_id),
        final(processes).handles().remove(tunnel_id) == old(processes).handles().remove(tunnel_id),
{
    processes.is_running(tunnel_id)
}

/// The tunnels whose workers are running.
pub fn get_running_tunnels<H: ProcessHandle>(processes: &mut FrpcProcesses<H>) -> (running: Vec<
    i32,
>)
    ensures
        running@.no_duplicates(),
        running@.to_set() == final(processes).ids(),
        final(processes).ids().subset_of(old(processes).ids()),
{
    processes.list_running()
}

} // verus!
