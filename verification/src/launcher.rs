//! Starting and stopping tunnels, and what is done with the lines that a
//! worker writes.

use crate::custom_tunnel::{config_file_name, custom_prefix, custom_tunnel_key, key_of};
use crate::models::{LogMessage, ProcessGuardInfo, TunnelType};
use crate::outside::{ansi_stripped, strip_ansi};
use crate::process::{
    handles_after_start, ids_after_probe, ids_after_stop, is_stop_answer, lemma_stop_answer,
    running_after_probe, start_refused, stop_answer, FrpcProcesses, Launcher, ProbeOutcome,
    ProcessError, ProcessHandle,
};
use crate::process_guard::{
    add_guarded_custom_tunnel, add_guarded_process, armed, check_log_and_stop_guard, disarmed,
    guard_stopped_text, is_first_pattern_of, line_has_pattern, remove_guarded_process, stamped,
    stop_guard_pattern_text, ProcessGuardState, STOP_GUARD_PATTERN_COUNT,
};
use crate::text::{
    decimal, decimal_string, join, join3, signed_decimal, signed_decimal_string, texts,
};
use crate::utils::{sanitize_log, sanitized};
use vstd::prelude::*;

verus! {

/// What a successful launch hands back.
pub struct ProcessReport {
    /// The identifier that the operating system gave the process.
    pub pid: u32,
    /// The answer for the caller.
    pub answer: String,
    /// The line that tells the observer of the start.
    pub started: LogMessage,
}

/// The arguments of the worker of a numbered tunnel.
pub open spec fn api_arguments_text(user_token: Seq<char>, tunnel_id: i32) -> Seq<Seq<char>> {
    seq!["-u"@, user_token, "-p"@, signed_decimal(tunnel_id as int)]
}

/// The arguments of the worker of a custom tunnel.
pub open spec fn custom_arguments_text(tunnel_id: Seq<char>) -> Seq<Seq<char>> {
    seq!["-c"@, tunnel_id + ".ini"@]
}

/// The arguments of the worker of a numbered tunnel: the account's token and
/// the tunnel's number.
pub fn api_arguments(user_token: &str, tunnel_id: i32) -> (arguments: Vec<String>)
    ensures
        texts(arguments@) == api_arguments_text(user_token@, tunnel_id),
{
    let mut arguments: Vec<String> = Vec::new();
    arguments.push("-u".to_owned());
    arguments.push(user_token.to_owned());
    arguments.push("-p".to_owned());
    arguments.push(signed_decimal_string(tunnel_id));
    assert(texts(arguments@) =~= api_arguments_text(user_token@, tunnel_id));
    arguments
}

/// The arguments of the worker of a custom tunnel: its configuration file.
pub fn custom_arguments(tunnel_id: &str) -> (arguments: Vec<String>)
    ensures
        texts(arguments@) == custom_arguments_text(tunnel_id@),
{
    let mut arguments: Vec<String> = Vec::new();
    arguments.push("-c".to_owned());
    arguments.push(config_file_name(tunnel_id));
    assert(texts(arguments@) =~= custom_arguments_text(tunnel_id@));
    arguments
}

/// The line that tells the observer that a numbered tunnel's worker started.
pub open spec fn api_started_text(pid: u32) -> Seq<char> {
    "frpc 进程已启动 (PID: "@ + decimal(pid as nat) + "), 开始连接服务器..."@
}

/// The answer to the caller who started a numbered tunnel.
pub open spec fn api_answer_text(pid: u32) -> Seq<char> {
    "frpc 已启动 (PID: "@ + decimal(pid as nat) + ")"@
}

/// The line that tells the observer that a custom tunnel's worker started.
pub open spec fn custom_started_text(tunnel_id: Seq<char>, pid: u32) -> Seq<char> {
    "自定义隧道 "@ + tunnel_id + " 进程已启动 (PID: "@ + decimal(pid as nat) + ")"@
}

/// The answer to the caller who started a custom tunnel.
pub open spec fn custom_answer_text(pid: u32) -> Seq<char> {
    "自定义隧道已启动 (PID: "@ + decimal(pid as nat) + ")"@
}

/// What is handed back for a numbered tunnel whose worker has started.
pub fn api_report(tunnel_id: i32, pid: u32) -> (report: ProcessReport)
    ensures
        report.pid == pid,
        report.answer@ == api_answer_text(pid),
        report.started.tunnel_id == tunnel_id,
        report.started.message@ == api_started_text(pid),
{
    let number = decimal_string(pid as u64);
    let started = stamped(
        tunnel_id,
        join3("frpc 进程已启动 (PID: ", number.as_str(), "), 开始连接服务器..."),
    );
    ProcessReport { pid, answer: join3("frpc 已启动 (PID: ", number.as_str(), ")"), started }
}

/// What is handed back for a custom tunnel whose worker has started.
pub fn custom_report(key: i32, tunnel_id: &str, pid: u32) -> (report: ProcessReport)
    ensures
        report.pid == pid,
        report.answer@ == custom_answer_text(pid),
        report.started.tunnel_id == key,
        report.started.message@ == custom_started_text(tunnel_id@, pid),
{
    let number = decimal_string(pid as u64);
    let head = join3("自定义隧道 ", tunnel_id, " 进程已启动 (PID: ");
    let started = stamped(key, join3(head.as_str(), number.as_str(), ")"));
    ProcessReport { pid, answer: join3("自定义隧道已启动 (PID: ", number.as_str(), ")"), started }
}

/// The permission bits that allow someone to run a file.
pub const EXECUTE_BITS: u32 = 0o111;

/// The permission bits with which the worker executable is made ready to run.
pub const EXECUTABLE_MODE: u32 = 0o755;

/// The permission bits to give the worker executable before it is run: those
/// of `EXECUTABLE_MODE`, where the file has no execute bit at all; none,
/// where it has one, and is left as it is.
pub fn mode_to_set(mode: u32) -> (change: Option<u32>)
    ensures
        change == if (mode & EXECUTE_BITS) == 0 {
            Some(EXECUTABLE_MODE)
        } else {
            None
        },
{
    if (mode & EXECUTE_BITS) == 0 {
        Some(EXECUTABLE_MODE)
    } else {
        None
    }
}

/// Whether a worker can be started at all, given what the launcher has
/// answered: the executable must be there, and must have been made ready to
/// run. Of a missing executable nothing more is asked.
pub fn readiness(executable_present: bool, made_executable: Result<(), String>) -> (result:
    Result<(), ProcessError>)
    ensures
        result == if !executable_present {
            Err::<(), ProcessError>(ProcessError::ExecutableMissing)
        } else {
            match made_executable {
                Ok(_) => Ok::<(), ProcessError>(()),
                Err(reason) => Err::<(), ProcessError>(ProcessError::Environment(reason)),
            }
        },
{
    if !executable_present {
        return Err(ProcessError::ExecutableMissing);
    }
    match made_executable {
        Ok(_) => Ok(()),
        Err(reason) => Err(ProcessError::Environment(reason)),
    }
}

/// Asks the launcher whether a worker can be started at all.
fn executable_ready<L: Launcher>(launcher: &L) -> (result: Result<(), ProcessError>)
    ensures
        result matches Err(error) ==> error == ProcessError::ExecutableMissing
            || error is Environment,
{
    let present = launcher.executable_present();
    let made = if present {
        launcher.make_executable()
    } else {
        Ok(())
    };
    readiness(present, made)
}

/// What a launch leaves behind: after a success the table owns a new handle
/// under the tunnel, which it did not hold before, and the guard is armed for
/// the tunnel, which does nothing while guarding is off; after a failure
/// nothing has changed, the handles that the table owns included.
pub open spec fn launched<H>(
    handles_before: Map<i32, H>,
    handles_after: Map<i32, H>,
    guard_before: &ProcessGuardState,
    guard_after: &ProcessGuardState,
    info: ProcessGuardInfo,
    succeeded: bool,
) -> bool {
    if succeeded {
        &&& !start_refused(handles_before.dom(), info.tunnel_id)
        &&& exists|handle: H| #[trigger]
            handles_before.insert(info.tunnel_id, handle) == handles_after
        &&& armed(guard_before, guard_after, info)
    } else {
        &&& handles_after == handles_before
        &&& *guard_after == *guard_before
    }
}

/// `result` is what the launch of a numbered tunnel may give: the report of
/// the new process, or one of the reasons for which such a launch fails,
/// `AlreadyRunning` exactly where the table held the tunnel.
pub open spec fn is_api_launch<H>(
    handles_before: Map<i32, H>,
    handles_after: Map<i32, H>,
    guard_before: &ProcessGuardState,
    guard_after: &ProcessGuardState,
    tunnel_id: i32,
    user_token: String,
    result: Result<ProcessReport, ProcessError>,
) -> bool {
    &&& launched(
        handles_before,
        handles_after,
        guard_before,
        guard_after,
        ProcessGuardInfo { tunnel_id, tunnel_type: TunnelType::Api { user_token } },
        result is Ok,
    )
    &&& start_refused(handles_before.dom(), tunnel_id) == (result matches Err(
        ProcessError::AlreadyRunning,
    ))
    &&& match result {
        Ok(report) => {
            &&& report.answer@ == api_answer_text(report.pid)
            &&& report.started.tunnel_id == tunnel_id
            &&& report.started.message@ == api_started_text(report.pid)
        },
        Err(error) => error == ProcessError::AlreadyRunning || error
            == ProcessError::ExecutableMissing || error is Environment || error is SpawnFailed,
    }
}

/// `result` is what the launch of a custom tunnel may give: the report of the
/// new process, or one of the reasons for which such a launch fails,
/// `AlreadyRunning` exactly where the table held the tunnel's key.
pub open spec fn is_custom_launch<H>(
    handles_before: Map<i32, H>,
    handles_after: Map<i32, H>,
    guard_before: &ProcessGuardState,
    guard_after: &ProcessGuardState,
    tunnel_id: String,
    result: Result<ProcessReport, ProcessError>,
) -> bool {
    let key = key_of(custom_prefix() + tunnel_id@);
    &&& launched(
        handles_before,
        handles_after,
        guard_before,
        guard_after,
        ProcessGuardInfo {
            tunnel_id: key,
            tunnel_type: TunnelType::Custom { original_id: tunnel_id },
        },
        result is Ok,
    )
    &&& start_refused(handles_before.dom(), key) == (result matches Err(
        ProcessError::AlreadyRunning,
    ))
    &&& match result {
        Ok(report) => {
            &&& report.answer@ == custom_answer_text(report.pid)
            &&& report.started.tunnel_id == key
            &&& report.started.message@ == custom_started_text(tunnel_id@, report.pid)
        },
        Err(error) => error == ProcessError::AlreadyRunning || error
            == ProcessError::ExecutableMissing || error == ProcessError::ConfigMissing
            || error is Environment || error is SpawnFailed,
    }
}

/// The end of the launch of a numbered tunnel, given how the creation of the
/// process went: a new process is filed in the table, the guard is armed for
/// the tunnel, and the start is reported; a failure is passed on. A tunnel
/// that the table holds is refused.
pub fn finish_api_launch<H: ProcessHandle>(
    tunnel_id: i32,
    user_token: String,
    spawned: Result<H, String>,
    processes: &mut FrpcProcesses<H>,
    guard_state: &mut ProcessGuardState,
) -> (result: Result<ProcessReport, ProcessError>)
    ensures
        is_api_launch(
            old(processes).handles(),
            final(processes).handles(),
            old(guard_state),
            final(guard_state),
            tunnel_id,
            user_token,
            result,
        ),
        final(processes).handles() == handles_after_start(
            old(processes).handles(),
            tunnel_id,
            spawned,
        ),
        !start_refused(old(processes).ids(), tunnel_id) ==> (match spawned {
            Ok(_) => result is Ok,
            Err(reason) => result matches Err(ProcessError::SpawnFailed(why)) && why == reason,
        }),
{
    match processes.file_spawned(tunnel_id, spawned) {
        Ok(pid) => {
            add_guarded_process(tunnel_id, user_token, guard_state);
            Ok(api_report(tunnel_id, pid))
        },
        Err(error) => Err(error),
    }
}

/// The end of the launch of a custom tunnel, given how the creation of the
/// process went: a new process is filed in the table under the key of the
/// tunnel's name, the guard is armed for the tunnel, and the start is
/// reported; a failure is passed on. A tunnel whose key the table holds is
/// refused.
pub fn finish_custom_launch<H: ProcessHandle>(
    tunnel_id: String,
    spawned: Result<H, String>,
    processes: &mut FrpcProcesses<H>,
    guard_state: &mut ProcessGuardState,
) -> (result: Result<ProcessReport, ProcessError>)
    ensures
        is_custom_launch(
            old(processes).handles(),
            final(processes).handles(),
            old(guard_state),
            final(guard_state),
            tunnel_id,
            result,
        ),
        final(processes).handles() == handles_after_start(
            old(processes).handles(),
            key_of(custom_prefix() + tunnel_id@),
            spawned,
        ),
        !start_refused(old(processes).ids(), key_of(custom_prefix() + tunnel_id@)) ==> (match spawned {
            Ok(_) => result is Ok,
            Err(reason) => result matches Err(ProcessError::SpawnFailed(why)) && why == reason,
        }),
{
    let key = custom_tunnel_key(tunnel_id.as_str());
    match processes.file_spawned(key, spawned) {
        Ok(pid) => {
            let report = custom_report(key, tunnel_id.as_str(), pid);
            add_guarded_custom_tunnel(key, tunnel_id, guard_state);
            Ok(report)
        },
        Err(error) => Err(error),
    }
}

/// Starts the worker of a numbered tunnel.
///
/// The launch is refused with `AlreadyRunning` where the table holds the
/// tunnel, and fails where the executable is missing or cannot be made
/// ready, or where the process cannot be created; then nothing changes. On
/// success the table holds the new process and the guard is armed for the
/// tunnel, which does nothing while guarding is off.
pub fn start_frpc<L: Launcher>(
    launcher: &L,
    tunnel_id: i32,
    user_token: String,
    processes: &mut FrpcProcesses<L::Handle>,
    guard_state: &mut ProcessGuardState,
) -> (result: Result<ProcessReport, ProcessError>)
    ensures
        is_api_launch(
            old(processes).handles(),
            final(processes).handles(),
            old(guard_state),
            final(guard_state),
            tunnel_id,
            user_token,
            result,
        ),
{
    if processes.contains(tunnel_id) {
        return Err(ProcessError::AlreadyRunning);
    }
    match executable_ready(launcher) {
        Ok(_) => {},
        Err(error) => {
            return Err(error);
        },
    }
    let arguments = api_arguments(user_token.as_str(), tunnel_id);
    let spawned = launcher.spawn(&arguments);
    finish_api_launch(tunnel_id, user_token, spawned, processes, guard_state)
}

/// Starts the worker of the custom tunnel `tunnel_id`, filed under the key
/// of its name.
///
/// The launch is refused with `AlreadyRunning` where the table holds the
/// key, and fails where the executable or the tunnel's configuration file is
/// missing, where the executable cannot be made ready, or where the process
/// cannot be created; then nothing changes. On success the table holds the
/// new process and the guard is armed for the tunnel, which does nothing
/// while guarding is off.
pub fn start_custom_tunnel<L: Launcher>(
    launcher: &L,
    tunnel_id: String,
    processes: &mut FrpcProcesses<L::Handle>,
    guard_state: &mut ProcessGuardState,
) -> (result: Result<ProcessReport, ProcessError>)
    ensures
        is_custom_launch(
            old(processes).handles(),
            final(processes).handles(),
            old(guard_state),
            final(guard_state),
            tunnel_id,
            result,
        ),
{
    let key = custom_tunnel_key(tunnel_id.as_str());
    if processes.contains(key) {
        return Err(ProcessError::AlreadyRunning);
    }
    match executable_ready(launcher) {
        Ok(_) => {},
        Err(error) => {
            return Err(error);
        },
    }
    let config_file = config_file_name(tunnel_id.as_str());
    if !launcher.file_present(config_file.as_str()) {
        return Err(ProcessError::ConfigMissing);
    }
    let arguments = custom_arguments(tunnel_id.as_str());
    let spawned = launcher.spawn(&arguments);
    finish_custom_launch(tunnel_id, spawned, processes, guard_state)
}

/// Stops the custom tunnel `tunnel_id` at the user's request: the guard is
/// told of the manual stop first, then the process is stopped. A tunnel
/// whose key the table does not hold gives the `NotRunning` error, and only
/// such a tunnel; a tunnel whose key it holds gives the words of success, or
/// the `KillFailed` error where the signal could not be sent.
pub fn stop_custom_tunnel<H: ProcessHandle>(
    tunnel_id: &str,
    processes: &mut FrpcProcesses<H>,
    guard_state: &mut ProcessGuardState,
) -> (result: Result<String, String>)
    ensures
        disarmed(
            old(guard_state),
            final(guard_state),
            key_of(custom_prefix() + tunnel_id@),
            true,
        ),
        final(processes).handles() == old(processes).handles().remove(
            key_of(custom_prefix() + tunnel_id@),
        ),
        final(processes).ids() == ids_after_stop(
            old(processes).ids(),
            key_of(custom_prefix() + tunnel_id@),
        ),
        is_stop_answer(
            old(processes).ids().contains(key_of(custom_prefix() + tunnel_id@)),
            "自定义隧道已停止"@,
            result,
        ),
{
    let key = custom_tunnel_key(tunnel_id);
    remove_guarded_process(key, guard_state, true);
    let outcome = processes.stop(key);
    let ghost went = outcome;
    let result = stop_answer(outcome, "自定义隧道已停止");
    proof {
        lemma_stop_answer(old(processes).ids().contains(key), went, "自定义隧道已停止"@, result);
    }
    result
}

/// Whether the worker of the custom tunnel `tunnel_id` is running. The look
/// does not wait for the process; an entry whose process is not seen running
/// is removed. The handles of other tunnels stay as they are.
pub fn is_custom_tunnel_running<H: ProcessHandle>(
    tunnel_id: &str,
    processes: &mut FrpcProcesses<H>,
) -> (running: bool)
    ensures
        exists|outcome: ProbeOutcome|
            running == running_after_probe(
                old(processes).ids(),
                key_of(custom_prefix() + tunnel_id@),
                outcome,
            ) && final(processes).ids() == #[trigger] ids_after_probe(
                old(processes).ids(),
                key_of(custom_prefix() + tunnel_id@),
                outcome,
            ),
        running ==> final(processes).ids() == old(processes).ids() && old(processes).ids().contains(key_of(custom_prefix() + tunnel_id@)),
        !running ==> final(processes).ids() == old(processes).ids().remove(
            key_of(custom_prefix() + tunnel_id@),
        ),
        final(processes).handles().remove(key_of(custom_prefix() + tunnel_id@)) == old(processes).handles().remove(key_of(custom_prefix() + tunnel_id@)),
{
    processes.is_running(custom_tunnel_key(tunnel_id))
}

/// Stops the worker of a custom tunnel that is being deleted, if there is
/// one. A failure to stop it is not reported.
pub fn discard_custom_process<H: ProcessHandle>(tunnel_id: &str, processes: &mut FrpcProcesses<H>)
    ensures
        final(processes).handles() == old(processes).handles().remove(
            key_of(custom_prefix() + tunnel_id@),
        ),
        final(processes).ids() == ids_after_stop(
            old(processes).ids(),
            key_of(custom_prefix() + tunnel_id@),
        ),
{
    let _ = processes.stop(custom_tunnel_key(tunnel_id));
}

/// The stream of a worker that a line came from.
#[derive(Clone, Copy, Debug, PartialEq, Eq, Structural)]
pub enum LogStream {
    Stdout,
    Stderr,
}

/// A line as it is shown to the observer: escape sequences are taken out,
/// and for a numbered tunnel the account's token is redacted.
pub open spec fn shown_text(kind: TunnelType, raw_line: Seq<char>) -> Seq<char> {
    match kind {
        TunnelType::Api { user_token } => sanitized(ansi_stripped(raw_line), user_token@),
        TunnelType::Custom { original_id } => ansi_stripped(raw_line),
    }
}

/// A shown line as it is published: a line of the error stream is marked.
pub open spec fn published_text(stream: LogStream, shown: Seq<char>) -> Seq<char> {
    match stream {
        LogStream::Stdout => shown,
        LogStream::Stderr => "[ERR] "@ + shown,
    }
}

/// What a pump does with a cleaned line: the line is held against the error
/// signatures, which may end the guarding of the tunnel, and is worded for
/// the observer. The lines to publish are returned in their order: first the
/// notice that guarding has ended, where it has, then the line itself.
pub fn react_to_shown_line(
    tunnel_id: i32,
    stream: LogStream,
    shown: String,
    guard_state: &mut ProcessGuardState,
) -> (lines: Vec<LogMessage>)
    ensures
        lines@.len() >= 1,
        lines@.last().tunnel_id == tunnel_id,
        lines@.last().message@ == published_text(stream, shown@),
        lines@.len() == 1 ==> *final(guard_state) == *old(guard_state) && forall|i: int|
            0 <= i < STOP_GUARD_PATTERN_COUNT ==> !line_has_pattern(shown@, i),
        lines@.len() != 1 ==> lines@.len() == 2 && lines@[0].tunnel_id == tunnel_id && disarmed(
            old(guard_state),
            final(guard_state),
            tunnel_id,
            false,
        ) && exists|i: int|
            is_first_pattern_of(shown@, i) && lines@[0].message@ == guard_stopped_text(
                stop_guard_pattern_text(i),
            ),
{
    let mut lines: Vec<LogMessage> = Vec::new();
    match check_log_and_stop_guard(tunnel_id, shown.as_str(), guard_state) {
        Some(notice) => {
            lines.push(notice);
        },
        None => {},
    }
    let message = match stream {
        LogStream::Stdout => shown,
        LogStream::Stderr => join("[ERR] ", shown.as_str()),
    };
    lines.push(stamped(tunnel_id, message));
    lines
}

/// What a pump does with one line that the worker of a tunnel wrote: the line
/// is cleaned of escape sequences and of the token, held against the error
/// signatures, and worded for the observer.
pub fn react_to_line(
    tunnel_id: i32,
    kind: &TunnelType,
    stream: LogStream,
    raw_line: &str,
    guard_state: &mut ProcessGuardState,
) -> (lines: Vec<LogMessage>)
    ensures
        lines@.len() >= 1,
        lines@.last().tunnel_id == tunnel_id,
        lines@.last().message@ == published_text(stream, shown_text(*kind, raw_line@)),
        lines@.len() == 1 ==> *final(guard_state) == *old(guard_state) && forall|i: int|
            0 <= i < STOP_GUARD_PATTERN_COUNT ==> !line_has_pattern(
                shown_text(*kind, raw_line@),
                i,
            ),
        lines@.len() != 1 ==> lines@.len() == 2 && lines@[0].tunnel_id == tunnel_id && disarmed(
            old(guard_state),
            final(guard_state),
            tunnel_id,
            false,
        ) && exists|i: int|
            is_first_pattern_of(shown_text(*kind, raw_line@), i) && lines@[0].message@
                == guard_stopped_text(stop_guard_pattern_text(i)),
{
    let clean = strip_ansi(raw_line);
    let shown = match kind {
        TunnelType::Api { user_token } => sanitize_log(clean.as_str(), user_token.as_str()),
        TunnelType::Custom { original_id } => clean,
    };
    react_to_shown_line(tunnel_id, stream, shown, guard_state)
}

/// Whether a pump goes on after it has tried to publish a line.
#[derive(Clone, Copy, Debug, PartialEq, Eq, Structural)]
pub enum PumpControl {
    Continue,
    Stop,
}

/// A pump ends when a line could not be delivered: it does not try again.
pub fn after_delivery(delivered: bool) -> (control: PumpControl)
    ensures
        control == if delivered {
            PumpControl::Continue
        } else {
            PumpControl::Stop
        },
{
    if delivered {
        PumpControl::Continue
    } else {
        PumpControl::Stop
    }
}

/// A line that tries the way to the observer's log.
pub fn test_log_line(tunnel_id: i32) -> (line: LogMessage)
    ensures
        line.tunnel_id == tunnel_id,
        line.message@ == "这是一条测试日志"@,
{
    stamped(tunnel_id, "这是一条测试日志".to_owned())
}

/// The answer to the caller who tried the way to the observer's log.
pub fn test_log_answer(delivered: Result<(), String>) -> (result: Result<String, String>)
    ensures
        match delivered {
            Ok(_) => result matches Ok(text) && text@ == "测试日志已发送"@,
            Err(reason) => result matches Err(text) && text@ == "发送失败: "@ + reason@,
        },
{
    match delivered {
        Ok(_) => Ok("测试日志已发送".to_owned()),
        Err(reason) => Err(join("发送失败: ", reason.as_str())),
    }
}

} // verus!
