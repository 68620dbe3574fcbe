use frp_launcher::custom_tunnel::{custom_tunnel_key, string_to_i32};
use frp_launcher::launcher::{
    after_delivery, api_arguments, custom_arguments, discard_custom_process, finish_api_launch,
    finish_custom_launch, is_custom_tunnel_running, mode_to_set, react_to_line,
    react_to_shown_line, readiness, start_custom_tunnel, start_frpc, stop_custom_tunnel,
    test_log_answer, test_log_line, LogStream, PumpControl, EXECUTABLE_MODE, EXECUTE_BITS,
};
use frp_launcher::models::{ProcessGuardInfo, TunnelType};
use frp_launcher::monitor::{
    finish_restart, monitor_targets, monitor_tick, offline_among, offline_notice, restart_tunnel,
    GuardEvent, MONITOR_INTERVAL_SECS, RESTART_DELAY_SECS,
};
use frp_launcher::process::{
    get_running_tunnels, is_frpc_running, stop_answer, stop_frpc, stop_outcome, FrpcProcesses,
    Launcher, ProbeOutcome, ProcessError, ProcessHandle,
};
use frp_launcher::process_guard::{
    add_guarded_process, remove_guarded_process, set_process_guard_enabled, ProcessGuardState,
};
use std::cell::{Cell, RefCell};
use std::collections::hash_map::DefaultHasher;
use std::hash::{Hash, Hasher};
use std::rc::Rc;

/// A worker that lives until the test says otherwise.
struct FakeWorker {
    pid: u32,
    alive: Rc<Cell<bool>>,
    probe_fails: Rc<Cell<bool>>,
    kill_error: Option<String>,
    waits: Rc<Cell<u32>>,
}

impl ProcessHandle for FakeWorker {
    fn process_id(&self) -> u32 {
        self.pid
    }

    fn probe(&mut self) -> ProbeOutcome {
        if self.probe_fails.get() {
            ProbeOutcome::Failed
        } else if self.alive.get() {
            ProbeOutcome::Running
        } else {
            ProbeOutcome::Exited
        }
    }

    fn kill(&mut self) -> Result<(), String> {
        match &self.kill_error {
            Some(reason) => Err(reason.clone()),
            None => {
                self.alive.set(false);
                Ok(())
            }
        }
    }

    fn wait(&mut self) -> bool {
        self.waits.set(self.waits.get() + 1);
        false
    }
}

/// A data directory and an operating system made of flags.
struct FakeLauncher {
    executable: bool,
    permission_error: Option<String>,
    config_files: Vec<String>,
    spawn_error: Option<String>,
    kill_error: Option<String>,
    next_pid: Cell<u32>,
    spawned: RefCell<Vec<Vec<String>>>,
    alive: RefCell<Vec<Rc<Cell<bool>>>>,
    probe_fails: Rc<Cell<bool>>,
    waits: Rc<Cell<u32>>,
}

impl FakeLauncher {
    fn new() -> Self {
        FakeLauncher {
            executable: true,
            permission_error: None,
            config_files: Vec::new(),
            spawn_error: None,
            kill_error: None,
            next_pid: Cell::new(100),
            spawned: RefCell::new(Vec::new()),
            alive: RefCell::new(Vec::new()),
            probe_fails: Rc::new(Cell::new(false)),
            waits: Rc::new(Cell::new(0)),
        }
    }

    /// Ends the n-th worker that was spawned, from outside the table.
    fn end_worker(&self, n: usize) {
        self.alive.borrow()[n].set(false);
    }
}

impl Launcher for FakeLauncher {
    type Handle = FakeWorker;

    fn executable_present(&self) -> bool {
        self.executable
    }

    fn make_executable(&self) -> Result<(), String> {
        match &self.permission_error {
            Some(reason) => Err(reason.clone()),
            None => Ok(()),
        }
    }

    fn file_present(&self, name: &str) -> bool {
        self.config_files.iter().any(|file| file == name)
    }

    fn spawn(&self, arguments: &Vec<String>) -> Result<FakeWorker, String> {
        if let Some(reason) = &self.spawn_error {
            return Err(reason.clone());
        }
        let pid = self.next_pid.get();
        self.next_pid.set(pid + 1);
        self.spawned.borrow_mut().push(arguments.clone());
        let alive = Rc::new(Cell::new(true));
        self.alive.borrow_mut().push(alive.clone());
        Ok(FakeWorker {
            pid,
            alive,
            probe_fails: self.probe_fails.clone(),
            kill_error: self.kill_error.clone(),
            waits: self.waits.clone(),
        })
    }
}

fn guarding() -> ProcessGuardState {
    let mut state = ProcessGuardState::new();
    set_process_guard_enabled(true, &mut state);
    state
}

fn no_arguments() -> Vec<String> {
    Vec::new()
}

fn sorted(mut ids: Vec<i32>) -> Vec<i32> {
    ids.sort();
    ids
}

#[test]
fn a_second_start_of_the_same_tunnel_is_refused() {
    let launcher = FakeLauncher::new();
    let mut table: FrpcProcesses<FakeWorker> = FrpcProcesses::new();
    assert_eq!(table.start(1, &launcher, &no_arguments()).unwrap(), 100);
    assert!(matches!(table.start(1, &launcher, &no_arguments()), Err(ProcessError::AlreadyRunning)));
    // The refused start did not create a process.
    assert_eq!(launcher.spawned.borrow().len(), 1);
    assert_eq!(table.len(), 1);
}

#[test]
fn a_start_after_a_stop_succeeds() {
    let launcher = FakeLauncher::new();
    let mut table: FrpcProcesses<FakeWorker> = FrpcProcesses::new();
    table.start(1, &launcher, &no_arguments()).unwrap();
    table.stop(1).unwrap();
    assert_eq!(table.start(1, &launcher, &no_arguments()).unwrap(), 101);
}

#[test]
fn a_start_after_the_process_was_seen_gone_succeeds() {
    let launcher = FakeLauncher::new();
    let mut table: FrpcProcesses<FakeWorker> = FrpcProcesses::new();
    table.start(1, &launcher, &no_arguments()).unwrap();
    launcher.end_worker(0);
    // Not looked at yet: the table still holds the entry.
    assert!(matches!(table.start(1, &launcher, &no_arguments()), Err(ProcessError::AlreadyRunning)));
    assert!(!table.is_running(1));
    assert!(table.start(1, &launcher, &no_arguments()).is_ok());
}

#[test]
fn a_failed_spawn_leaves_the_table_as_it_was() {
    let mut launcher = FakeLauncher::new();
    launcher.spawn_error = Some("no such file".to_string());
    let mut table: FrpcProcesses<FakeWorker> = FrpcProcesses::new();
    match table.start(1, &launcher, &no_arguments()) {
        Err(ProcessError::SpawnFailed(reason)) => assert_eq!(reason, "no such file"),
        other => panic!("unexpected: {:?}", other),
    }
    assert!(!table.contains(1));
    assert_eq!(table.len(), 0);
}

#[test]
fn filing_a_spawn_outcome_follows_the_table() {
    let launcher = FakeLauncher::new();
    let mut table: FrpcProcesses<FakeWorker> = FrpcProcesses::new();
    let worker = launcher.spawn(&no_arguments());
    assert_eq!(table.file_spawned(4, worker).unwrap(), 100);
    let second = launcher.spawn(&no_arguments());
    assert!(matches!(table.file_spawned(4, second), Err(ProcessError::AlreadyRunning)));
    assert!(matches!(
        table.file_spawned(5, Err("boom".to_string())),
        Err(ProcessError::SpawnFailed(reason)) if reason == "boom"
    ));
    assert_eq!(sorted(table.tunnel_ids()), vec![4]);
}

#[test]
fn a_tunnel_that_was_never_started_is_not_running() {
    let mut table: FrpcProcesses<FakeWorker> = FrpcProcesses::new();
    assert!(!table.is_running(42));
    assert!(!is_frpc_running(42, &mut table));
    assert!(!table.contains(42));
}

#[test]
fn a_started_tunnel_is_running_until_its_process_ends() {
    let launcher = FakeLauncher::new();
    let mut table: FrpcProcesses<FakeWorker> = FrpcProcesses::new();
    table.start(1, &launcher, &no_arguments()).unwrap();
    assert!(table.is_running(1));
    assert!(table.is_running(1));
    assert!(table.contains(1));
    launcher.end_worker(0);
    assert!(!table.is_running(1));
    // Once the answer was no, the entry is gone.
    assert!(!table.contains(1));
    assert!(!table.is_running(1));
}

#[test]
fn a_failed_look_removes_the_entry() {
    let launcher = FakeLauncher::new();
    let mut table: FrpcProcesses<FakeWorker> = FrpcProcesses::new();
    table.start(1, &launcher, &no_arguments()).unwrap();
    launcher.probe_fails.set(true);
    assert!(!table.is_running(1));
    assert!(!table.contains(1));
}

#[test]
fn stopping_kills_and_waits() {
    let launcher = FakeLauncher::new();
    let mut table: FrpcProcesses<FakeWorker> = FrpcProcesses::new();
    table.start(1, &launcher, &no_arguments()).unwrap();
    // The wait of the fake fails: stopping succeeds all the same.
    assert!(table.stop(1).is_ok());
    assert!(!launcher.alive.borrow()[0].get());
    assert_eq!(launcher.waits.get(), 1);
    assert!(!table.contains(1));
}

#[test]
fn stopping_what_is_not_there_fails() {
    let mut table: FrpcProcesses<FakeWorker> = FrpcProcesses::new();
    assert!(matches!(table.stop(1), Err(ProcessError::NotRunning)));
    assert_eq!(stop_frpc(1, &mut table), Err("该隧道未在运行".to_string()));
}

#[test]
fn a_failed_kill_is_reported_and_the_entry_is_gone() {
    let mut launcher = FakeLauncher::new();
    launcher.kill_error = Some("denied".to_string());
    let mut table: FrpcProcesses<FakeWorker> = FrpcProcesses::new();
    table.start(1, &launcher, &no_arguments()).unwrap();
    match table.stop(1) {
        Err(ProcessError::KillFailed(reason)) => assert_eq!(reason, "denied"),
        other => panic!("unexpected: {:?}", other),
    }
    // The wait was tried all the same.
    assert_eq!(launcher.waits.get(), 1);
    assert!(!table.contains(1));
    table.start(2, &launcher, &no_arguments()).unwrap();
    assert_eq!(stop_frpc(2, &mut table), Err("停止进程失败: denied".to_string()));
}

#[test]
fn stopping_answers_in_words() {
    let launcher = FakeLauncher::new();
    let mut table: FrpcProcesses<FakeWorker> = FrpcProcesses::new();
    table.start(1, &launcher, &no_arguments()).unwrap();
    assert_eq!(stop_frpc(1, &mut table), Ok("frpc 已停止".to_string()));
}

#[test]
fn the_outcome_of_a_stop_follows_the_kill() {
    assert!(stop_outcome(Ok(())).is_ok());
    assert!(matches!(
        stop_outcome(Err("x".to_string())),
        Err(ProcessError::KillFailed(reason)) if reason == "x"
    ));
}

#[test]
fn listing_drops_the_entries_whose_process_has_ended() {
    let launcher = FakeLauncher::new();
    let mut table: FrpcProcesses<FakeWorker> = FrpcProcesses::new();
    for id in [1, 2, 3, 4] {
        table.start(id, &launcher, &no_arguments()).unwrap();
    }
    launcher.end_worker(1);
    launcher.end_worker(3);
    assert_eq!(sorted(table.list_running()), vec![1, 3]);
    assert_eq!(sorted(table.tunnel_ids()), vec![1, 3]);
    assert_eq!(sorted(get_running_tunnels(&mut table)), vec![1, 3]);
    assert_eq!(table.len(), 2);
}

#[test]
fn errors_are_worded_for_the_user() {
    assert_eq!(ProcessError::AlreadyRunning.message(), "该隧道已在运行中");
    assert_eq!(ProcessError::NotRunning.message(), "该隧道未在运行");
    assert_eq!(ProcessError::ExecutableMissing.message(), "frpc 未找到，请先下载");
    assert_eq!(ProcessError::ConfigMissing.message(), "配置文件不存在");
    assert_eq!(ProcessError::Environment("denied".to_string()).message(), "denied");
    assert_eq!(ProcessError::SpawnFailed("e".to_string()).message(), "启动 frpc 失败: e");
    assert_eq!(ProcessError::KillFailed("e".to_string()).message(), "停止进程失败: e");
    assert_eq!(ProcessError::LockUnavailable("e".to_string()).message(), "获取进程锁失败: e");
    assert_eq!(ProcessError::RestartFailed("e".to_string()).message(), "守护进程重启失败: e");
}

#[test]
fn the_arguments_name_token_and_tunnel() {
    assert_eq!(api_arguments("abc.def", 7), vec!["-u", "abc.def", "-p", "7"]);
    assert_eq!(api_arguments("t", -3), vec!["-u", "t", "-p", "-3"]);
    assert_eq!(custom_arguments("web"), vec!["-c", "web.ini"]);
}

#[test]
fn starting_a_numbered_tunnel_reports_and_arms() {
    let launcher = FakeLauncher::new();
    let mut table: FrpcProcesses<FakeWorker> = FrpcProcesses::new();
    let mut guard = guarding();
    let report = start_frpc(&launcher, 7, "abc.def123456".to_string(), &mut table, &mut guard).unwrap();
    assert_eq!(report.pid, 100);
    assert_eq!(report.answer, "frpc 已启动 (PID: 100)");
    assert_eq!(report.started.tunnel_id, 7);
    assert_eq!(report.started.message, "frpc 进程已启动 (PID: 100), 开始连接服务器...");
    assert_eq!(launcher.spawned.borrow()[0], vec!["-u", "abc.def123456", "-p", "7"]);
    assert!(table.contains(7));
    assert!(guard.is_guarded(7));
}

#[test]
fn starting_while_guarding_is_off_does_not_arm() {
    let launcher = FakeLauncher::new();
    let mut table: FrpcProcesses<FakeWorker> = FrpcProcesses::new();
    let mut guard = ProcessGuardState::new();
    start_frpc(&launcher, 7, "t".to_string(), &mut table, &mut guard).unwrap();
    assert!(table.contains(7));
    assert!(!guard.is_guarded(7));
}

#[test]
fn starting_forgets_an_earlier_manual_stop() {
    let launcher = FakeLauncher::new();
    let mut table: FrpcProcesses<FakeWorker> = FrpcProcesses::new();
    let mut guard = guarding();
    remove_guarded_process(7, &mut guard, true);
    start_frpc(&launcher, 7, "t".to_string(), &mut table, &mut guard).unwrap();
    assert!(!guard.is_manually_stopped(7));
}

#[test]
fn a_launch_fails_for_each_reason_in_turn() {
    let mut table: FrpcProcesses<FakeWorker> = FrpcProcesses::new();
    let mut guard = guarding();

    let mut launcher = FakeLauncher::new();
    launcher.executable = false;
    assert!(matches!(
        start_frpc(&launcher, 1, "t".to_string(), &mut table, &mut guard),
        Err(ProcessError::ExecutableMissing)
    ));

    let mut launcher = FakeLauncher::new();
    launcher.permission_error = Some("read-only".to_string());
    assert!(matches!(
        start_frpc(&launcher, 1, "t".to_string(), &mut table, &mut guard),
        Err(ProcessError::Environment(reason)) if reason == "read-only"
    ));

    let mut launcher = FakeLauncher::new();
    launcher.spawn_error = Some("exec format error".to_string());
    assert!(matches!(
        start_frpc(&launcher, 1, "t".to_string(), &mut table, &mut guard),
        Err(ProcessError::SpawnFailed(reason)) if reason == "exec format error"
    ));
    assert!(!table.contains(1));
    assert!(!guard.is_guarded(1));

    let launcher = FakeLauncher::new();
    start_frpc(&launcher, 1, "t".to_string(), &mut table, &mut guard).unwrap();
    // The table is asked first: a missing executable is not even looked for.
    let mut launcher = FakeLauncher::new();
    launcher.executable = false;
    assert!(matches!(
        start_frpc(&launcher, 1, "t".to_string(), &mut table, &mut guard),
        Err(ProcessError::AlreadyRunning)
    ));
}

#[test]
fn the_key_of_a_custom_tunnel_is_the_hash_of_its_tagged_name() {
    for name in ["web", "", "数据库", "a_b-c"] {
        let tagged = format!("custom_{}", name);
        let mut hasher = DefaultHasher::new();
        tagged.hash(&mut hasher);
        let low = hasher.finish() as i32;
        let expected = if low == i32::MIN { i32::MAX } else { low.abs() };
        assert_eq!(custom_tunnel_key(name), expected);
        assert_eq!(string_to_i32(&tagged), expected);
        assert!(custom_tunnel_key(name) >= 0);
    }
    assert_ne!(string_to_i32("custom_a"), string_to_i32("custom_b"));
    assert_eq!(string_to_i32("custom_a"), string_to_i32("custom_a"));
}

#[test]
fn starting_a_custom_tunnel_reports_and_arms() {
    let mut launcher = FakeLauncher::new();
    launcher.config_files.push("web.ini".to_string());
    let mut table: FrpcProcesses<FakeWorker> = FrpcProcesses::new();
    let mut guard = guarding();
    let report = start_custom_tunnel(&launcher, "web".to_string(), &mut table, &mut guard).unwrap();
    let key = custom_tunnel_key("web");
    assert_eq!(report.pid, 100);
    assert_eq!(report.answer, "自定义隧道已启动 (PID: 100)");
    assert_eq!(report.started.tunnel_id, key);
    assert_eq!(report.started.message, "自定义隧道 web 进程已启动 (PID: 100)");
    assert_eq!(launcher.spawned.borrow()[0], vec!["-c", "web.ini"]);
    assert!(table.contains(key));
    assert!(is_custom_tunnel_running("web", &mut table));
    let snapshot = guard.snapshot();
    assert_eq!(snapshot.len(), 1);
    assert_eq!(snapshot[0].tunnel_id, key);
    assert!(matches!(&snapshot[0].tunnel_type, TunnelType::Custom { original_id } if original_id == "web"));
    assert!(matches!(
        start_custom_tunnel(&launcher, "web".to_string(), &mut table, &mut guard),
        Err(ProcessError::AlreadyRunning)
    ));
}

#[test]
fn a_custom_tunnel_needs_its_configuration_file() {
    let launcher = FakeLauncher::new();
    let mut table: FrpcProcesses<FakeWorker> = FrpcProcesses::new();
    let mut guard = guarding();
    assert!(matches!(
        start_custom_tunnel(&launcher, "web".to_string(), &mut table, &mut guard),
        Err(ProcessError::ConfigMissing)
    ));
    assert!(launcher.spawned.borrow().is_empty());
    assert!(!is_custom_tunnel_running("web", &mut table));
}

#[test]
fn stopping_a_custom_tunnel_is_a_manual_stop() {
    let mut launcher = FakeLauncher::new();
    launcher.config_files.push("web.ini".to_string());
    let mut table: FrpcProcesses<FakeWorker> = FrpcProcesses::new();
    let mut guard = guarding();
    start_custom_tunnel(&launcher, "web".to_string(), &mut table, &mut guard).unwrap();
    let key = custom_tunnel_key("web");
    assert_eq!(stop_custom_tunnel("web", &mut table, &mut guard), Ok("自定义隧道已停止".to_string()));
    assert!(!table.contains(key));
    assert!(!guard.is_guarded(key));
    assert!(guard.is_manually_stopped(key));
    assert_eq!(stop_custom_tunnel("web", &mut table, &mut guard), Err("该隧道未在运行".to_string()));
}

#[test]
fn deleting_a_custom_tunnel_stops_its_worker_quietly() {
    let mut launcher = FakeLauncher::new();
    launcher.config_files.push("web.ini".to_string());
    let mut table: FrpcProcesses<FakeWorker> = FrpcProcesses::new();
    let mut guard = guarding();
    start_custom_tunnel(&launcher, "web".to_string(), &mut table, &mut guard).unwrap();
    discard_custom_process("web", &mut table);
    assert!(!table.contains(custom_tunnel_key("web")));
    discard_custom_process("web", &mut table);
    assert_eq!(table.len(), 0);
}

#[test]
fn a_line_is_cleaned_and_redacted_before_it_is_shown() {
    let mut guard = guarding();
    let kind = TunnelType::Api { user_token: "abc.def123456".to_string() };
    let lines = react_to_line(
        7,
        &kind,
        LogStream::Stdout,
        "\u{1b}[32mlogin\u{1b}[m with abc.def123456",
        &mut guard,
    );
    assert_eq!(lines.len(), 1);
    assert_eq!(lines[0].tunnel_id, 7);
    assert_eq!(lines[0].message, "login with ***TOKEN***");
}

#[test]
fn a_line_of_the_error_stream_is_marked() {
    let mut guard = guarding();
    let kind = TunnelType::Api { user_token: "abc.def123456".to_string() };
    let lines = react_to_line(7, &kind, LogStream::Stderr, "def123456 leaked", &mut guard);
    assert_eq!(lines.len(), 1);
    assert_eq!(lines[0].message, "[ERR] *** leaked");
}

#[test]
fn a_line_of_a_custom_tunnel_is_cleaned_only() {
    let mut guard = guarding();
    let kind = TunnelType::Custom { original_id: "web".to_string() };
    let lines = react_to_line(7, &kind, LogStream::Stdout, "\u{1b}[1mweb\u{1b}[0m is up", &mut guard);
    assert_eq!(lines.len(), 1);
    assert_eq!(lines[0].message, "web is up");
}

#[test]
fn a_fatal_line_disarms_and_is_announced_before_the_line() {
    let launcher = FakeLauncher::new();
    let mut table: FrpcProcesses<FakeWorker> = FrpcProcesses::new();
    let mut guard = guarding();
    start_frpc(&launcher, 9, "abc.def123456".to_string(), &mut table, &mut guard).unwrap();
    let kind = TunnelType::Api { user_token: "abc.def123456".to_string() };
    let lines = react_to_line(9, &kind, LogStream::Stdout, "[E] Invalid Token for abc.def123456", &mut guard);
    assert_eq!(lines.len(), 2);
    assert_eq!(lines[0].tunnel_id, 9);
    assert_eq!(lines[0].message, "检测到错误 \"invalid token\"，已停止守护进程");
    assert_eq!(lines[1].message, "[E] Invalid Token for ***TOKEN***");
    // The guard has let go, though the process may still be alive.
    assert!(!guard.is_guarded(9));
    assert!(!guard.is_manually_stopped(9));
    assert!(table.contains(9));
    // A later round of the monitor does nothing for the tunnel, dead or alive.
    launcher.end_worker(0);
    assert!(monitor_tick(&guard, &mut table).is_empty());
    assert!(table.contains(9));
}

#[test]
fn both_streams_may_see_the_fatal_line() {
    let mut guard = guarding();
    add_guarded_process(9, "t".to_string(), &mut guard);
    let first = react_to_shown_line(9, LogStream::Stdout, "invalid token".to_string(), &mut guard);
    let second = react_to_shown_line(9, LogStream::Stderr, "invalid token".to_string(), &mut guard);
    assert_eq!(first.len(), 2);
    assert_eq!(second.len(), 2);
    assert_eq!(second[1].message, "[ERR] invalid token");
    assert!(!guard.is_guarded(9));
}

#[test]
fn a_pump_ends_when_a_line_cannot_be_delivered() {
    assert_eq!(after_delivery(true), PumpControl::Continue);
    assert_eq!(after_delivery(false), PumpControl::Stop);
}

#[test]
fn the_test_line_and_its_answers() {
    let line = test_log_line(4);
    assert_eq!(line.tunnel_id, 4);
    assert_eq!(line.message, "这是一条测试日志");
    assert_eq!(test_log_answer(Ok(())), Ok("测试日志已发送".to_string()));
    assert_eq!(test_log_answer(Err("closed".to_string())), Err("发送失败: closed".to_string()));
}

#[test]
fn a_dead_guarded_tunnel_is_started_again() {
    let launcher = FakeLauncher::new();
    let mut table: FrpcProcesses<FakeWorker> = FrpcProcesses::new();
    let mut guard = guarding();
    let first = start_frpc(&launcher, 7, "abc.def123456".to_string(), &mut table, &mut guard).unwrap();
    // While the worker lives a round does nothing.
    assert!(monitor_tick(&guard, &mut table).is_empty());
    // The worker is killed from outside.
    launcher.end_worker(0);
    let restarts = monitor_tick(&guard, &mut table);
    assert_eq!(restarts.len(), 1);
    assert_eq!(restarts[0].tunnel_id, 7);
    assert!(matches!(&restarts[0].tunnel_type, TunnelType::Api { user_token } if user_token == "abc.def123456"));
    // The round has dropped the dead entry.
    assert!(!table.contains(7));
    let notice = offline_notice(7);
    assert_eq!(notice.tunnel_id, 7);
    assert_eq!(notice.message, "检测到进程离线，触发守护进程，自动重启中");
    let info = restarts.into_iter().next().unwrap();
    let outcome = restart_tunnel(&launcher, info, &mut table, &mut guard);
    let second_pid = outcome.as_ref().unwrap().pid;
    assert_ne!(second_pid, first.pid);
    assert!(table.contains(7));
    assert!(table.is_running(7));
    match finish_restart(7, outcome, &mut guard) {
        GuardEvent::AutoRestarted { tunnel_id, timestamp } => {
            assert_eq!(tunnel_id, 7);
            assert_eq!(timestamp.chars().count(), 8);
        }
        GuardEvent::RestartFailed(line) => panic!("unexpected failure: {}", line.message),
    }
    assert!(guard.is_guarded(7));
}

#[test]
fn a_manually_stopped_tunnel_is_left_alone() {
    let launcher = FakeLauncher::new();
    let mut table: FrpcProcesses<FakeWorker> = FrpcProcesses::new();
    let mut guard = guarding();
    start_frpc(&launcher, 5, "t".to_string(), &mut table, &mut guard).unwrap();
    remove_guarded_process(5, &mut guard, true);
    launcher.end_worker(0);
    assert!(monitor_tick(&guard, &mut table).is_empty());
    assert_eq!(launcher.spawned.borrow().len(), 1);
    // The round did not even look at the worker.
    assert!(table.contains(5));
}

#[test]
fn a_round_does_nothing_while_guarding_is_off() {
    let launcher = FakeLauncher::new();
    let mut table: FrpcProcesses<FakeWorker> = FrpcProcesses::new();
    let mut guard = guarding();
    start_frpc(&launcher, 3, "t".to_string(), &mut table, &mut guard).unwrap();
    start_frpc(&launcher, 4, "t".to_string(), &mut table, &mut guard).unwrap();
    set_process_guard_enabled(false, &mut guard);
    assert_eq!(guard.guarded_count(), 0);
    assert!(!guard.is_manually_stopped(3));
    assert!(!guard.is_manually_stopped(4));
    launcher.end_worker(0);
    assert!(monitor_targets(&guard).is_empty());
    assert!(monitor_tick(&guard, &mut table).is_empty());
    assert!(table.contains(3));
}

#[test]
fn a_round_reports_every_dead_guarded_tunnel_once() {
    let launcher = FakeLauncher::new();
    let mut table: FrpcProcesses<FakeWorker> = FrpcProcesses::new();
    let mut guard = guarding();
    for id in [1, 2, 3, 4] {
        start_frpc(&launcher, id, "t".to_string(), &mut table, &mut guard).unwrap();
    }
    remove_guarded_process(4, &mut guard, true);
    launcher.end_worker(0);
    launcher.end_worker(2);
    launcher.end_worker(3);
    let restarts = monitor_tick(&guard, &mut table);
    assert_eq!(sorted(restarts.iter().map(|info| info.tunnel_id).collect()), vec![1, 3]);
    // A guarded tunnel that the table never held is reported too.
    add_guarded_process(50, "t".to_string(), &mut guard);
    let restarts = monitor_tick(&guard, &mut table);
    assert_eq!(sorted(restarts.iter().map(|info| info.tunnel_id).collect()), vec![1, 3, 50]);
    assert_eq!(sorted(table.tunnel_ids()), vec![2, 4]);
}

#[test]
fn the_offline_targets_keep_their_order() {
    let launcher = FakeLauncher::new();
    let mut table: FrpcProcesses<FakeWorker> = FrpcProcesses::new();
    table.start(2, &launcher, &no_arguments()).unwrap();
    let targets: Vec<ProcessGuardInfo> = [3, 2, 1]
        .iter()
        .map(|id| ProcessGuardInfo { tunnel_id: *id, tunnel_type: TunnelType::Api { user_token: "t".to_string() } })
        .collect();
    let offline = offline_among(&targets, &mut table);
    assert_eq!(offline.iter().map(|info| info.tunnel_id).collect::<Vec<i32>>(), vec![3, 1]);
}

#[test]
fn a_failed_restart_ends_the_guarding() {
    let mut launcher = FakeLauncher::new();
    let mut table: FrpcProcesses<FakeWorker> = FrpcProcesses::new();
    let mut guard = guarding();
    start_frpc(&launcher, 7, "t".to_string(), &mut table, &mut guard).unwrap();
    launcher.end_worker(0);
    let restarts = monitor_tick(&guard, &mut table);
    launcher.spawn_error = Some("gone".to_string());
    let info = restarts.into_iter().next().unwrap();
    let outcome = restart_tunnel(&launcher, info, &mut table, &mut guard);
    assert!(outcome.is_err());
    match finish_restart(7, outcome, &mut guard) {
        GuardEvent::RestartFailed(line) => {
            assert_eq!(line.tunnel_id, 7);
            assert_eq!(line.message, "守护进程重启失败: 启动 frpc 失败: gone");
        }
        GuardEvent::AutoRestarted { .. } => panic!("unexpected success"),
    }
    assert!(!guard.is_guarded(7));
    assert!(!guard.is_manually_stopped(7));
    // No further round tries again.
    assert!(monitor_tick(&guard, &mut table).is_empty());
}

#[test]
fn a_custom_tunnel_is_restarted_by_its_name() {
    let mut launcher = FakeLauncher::new();
    launcher.config_files.push("web.ini".to_string());
    let mut table: FrpcProcesses<FakeWorker> = FrpcProcesses::new();
    let mut guard = guarding();
    start_custom_tunnel(&launcher, "web".to_string(), &mut table, &mut guard).unwrap();
    launcher.end_worker(0);
    let restarts = monitor_tick(&guard, &mut table);
    assert_eq!(restarts.len(), 1);
    let info = restarts.into_iter().next().unwrap();
    let outcome = restart_tunnel(&launcher, info, &mut table, &mut guard);
    assert!(outcome.is_ok());
    assert_eq!(launcher.spawned.borrow()[1], vec!["-c", "web.ini"]);
    assert!(table.contains(custom_tunnel_key("web")));
}

#[test]
fn the_monitor_keeps_its_pace() {
    assert_eq!(MONITOR_INTERVAL_SECS, 3);
    assert_eq!(RESTART_DELAY_SECS, 1);
}

#[test]
fn readiness_follows_the_launcher() {
    assert!(readiness(true, Ok(())).is_ok());
    assert!(matches!(readiness(false, Ok(())), Err(ProcessError::ExecutableMissing)));
    assert!(matches!(
        readiness(false, Err("x".to_string())),
        Err(ProcessError::ExecutableMissing)
    ));
    assert!(matches!(
        readiness(true, Err("x".to_string())),
        Err(ProcessError::Environment(reason)) if reason == "x"
    ));
}

#[test]
fn the_end_of_a_launch_follows_the_creation_of_the_process() {
    let launcher = FakeLauncher::new();
    let mut table: FrpcProcesses<FakeWorker> = FrpcProcesses::new();
    let mut guard = guarding();
    let failed = finish_api_launch(1, "t".to_string(), Err("no".to_string()), &mut table, &mut guard);
    assert!(matches!(failed, Err(ProcessError::SpawnFailed(reason)) if reason == "no"));
    assert!(!table.contains(1));
    assert!(!guard.is_guarded(1));
    let worker = launcher.spawn(&no_arguments());
    let report = finish_api_launch(1, "t".to_string(), worker, &mut table, &mut guard).unwrap();
    assert_eq!(report.pid, 100);
    assert_eq!(report.answer, "frpc 已启动 (PID: 100)");
    assert!(table.contains(1));
    assert!(guard.is_guarded(1));
    let worker = launcher.spawn(&no_arguments());
    assert!(matches!(
        finish_api_launch(1, "t".to_string(), worker, &mut table, &mut guard),
        Err(ProcessError::AlreadyRunning)
    ));

    let key = custom_tunnel_key("web");
    let failed = finish_custom_launch("web".to_string(), Err("no".to_string()), &mut table, &mut guard);
    assert!(matches!(failed, Err(ProcessError::SpawnFailed(reason)) if reason == "no"));
    assert!(!table.contains(key));
    let worker = launcher.spawn(&no_arguments());
    let report = finish_custom_launch("web".to_string(), worker, &mut table, &mut guard).unwrap();
    assert_eq!(report.started.tunnel_id, key);
    assert_eq!(report.started.message, "自定义隧道 web 进程已启动 (PID: 102)");
    assert!(table.contains(key));
    assert!(guard.is_guarded(key));
    let worker = launcher.spawn(&no_arguments());
    assert!(matches!(
        finish_custom_launch("web".to_string(), worker, &mut table, &mut guard),
        Err(ProcessError::AlreadyRunning)
    ));
}

#[test]
fn what_a_look_has_shown_is_filed() {
    let launcher = FakeLauncher::new();
    let mut table: FrpcProcesses<FakeWorker> = FrpcProcesses::new();
    let worker = launcher.spawn(&no_arguments()).unwrap();
    assert!(table.settle_probe(1, worker, ProbeOutcome::Running));
    assert!(table.contains(1));
    let worker = launcher.spawn(&no_arguments()).unwrap();
    assert!(!table.settle_probe(2, worker, ProbeOutcome::Exited));
    assert!(!table.contains(2));
    let worker = launcher.spawn(&no_arguments()).unwrap();
    assert!(!table.settle_probe(3, worker, ProbeOutcome::Failed));
    assert!(!table.contains(3));
}

#[test]
fn the_answer_to_a_stop_follows_its_outcome() {
    assert_eq!(stop_answer(Ok(()), "stopped"), Ok("stopped".to_string()));
    assert_eq!(
        stop_answer(Err(ProcessError::NotRunning), "stopped"),
        Err("该隧道未在运行".to_string())
    );
    assert_eq!(
        stop_answer(Err(ProcessError::KillFailed("denied".to_string())), "stopped"),
        Err("停止进程失败: denied".to_string())
    );
}

#[test]
fn stopping_a_held_tunnel_succeeds_whenever_the_signal_was_sent() {
    // The wait of the fake always fails: the answer is success all the same.
    let launcher = FakeLauncher::new();
    let mut table: FrpcProcesses<FakeWorker> = FrpcProcesses::new();
    let mut guard = guarding();
    table.start(1, &launcher, &no_arguments()).unwrap();
    table.start(2, &launcher, &no_arguments()).unwrap();
    assert_eq!(stop_frpc(1, &mut table), Ok("frpc 已停止".to_string()));
    assert_eq!(launcher.waits.get(), 1);
    // The other entry is untouched.
    assert!(table.contains(2));
    assert!(table.is_running(2));
    let mut launcher = FakeLauncher::new();
    launcher.config_files.push("web.ini".to_string());
    launcher.kill_error = Some("denied".to_string());
    start_custom_tunnel(&launcher, "web".to_string(), &mut table, &mut guard).unwrap();
    assert_eq!(
        stop_custom_tunnel("web", &mut table, &mut guard),
        Err("停止进程失败: denied".to_string())
    );
    // The entry is gone and the stop is remembered, though the signal failed.
    assert!(!table.contains(custom_tunnel_key("web")));
    assert!(guard.is_manually_stopped(custom_tunnel_key("web")));
    assert_eq!(launcher.waits.get(), 1);
}

#[test]
fn a_refused_start_leaves_the_worker_alone() {
    let launcher = FakeLauncher::new();
    let mut table: FrpcProcesses<FakeWorker> = FrpcProcesses::new();
    let mut guard = guarding();
    start_frpc(&launcher, 1, "t".to_string(), &mut table, &mut guard).unwrap();
    assert!(start_frpc(&launcher, 1, "t".to_string(), &mut table, &mut guard).is_err());
    // No second process, no signal, no wait: the first worker lives on.
    assert_eq!(launcher.spawned.borrow().len(), 1);
    assert!(launcher.alive.borrow()[0].get());
    assert_eq!(launcher.waits.get(), 0);
    assert!(table.is_running(1));
}

#[test]
fn a_new_start_keeps_the_new_worker() {
    let launcher = FakeLauncher::new();
    let mut table: FrpcProcesses<FakeWorker> = FrpcProcesses::new();
    let mut guard = guarding();
    start_frpc(&launcher, 1, "t".to_string(), &mut table, &mut guard).unwrap();
    stop_frpc(1, &mut table).unwrap();
    start_frpc(&launcher, 1, "t".to_string(), &mut table, &mut guard).unwrap();
    // The table follows the second worker, not the first.
    assert!(table.is_running(1));
    launcher.end_worker(1);
    assert!(!table.is_running(1));
    start_frpc(&launcher, 1, "t".to_string(), &mut table, &mut guard).unwrap();
    assert!(table.is_running(1));
    launcher.end_worker(2);
    assert!(!table.is_running(1));
}

#[test]
fn a_look_tells_what_it_has_shown() {
    let launcher = FakeLauncher::new();
    let mut table: FrpcProcesses<FakeWorker> = FrpcProcesses::new();
    assert_eq!(table.look(1), None);
    table.start(1, &launcher, &no_arguments()).unwrap();
    table.start(2, &launcher, &no_arguments()).unwrap();
    assert_eq!(table.look(1), Some(ProbeOutcome::Running));
    assert!(table.contains(1));
    launcher.end_worker(0);
    assert_eq!(table.look(1), Some(ProbeOutcome::Exited));
    assert!(!table.contains(1));
    assert_eq!(table.look(1), None);
    launcher.probe_fails.set(true);
    assert_eq!(table.look(2), Some(ProbeOutcome::Failed));
    assert!(!table.contains(2));
}

#[test]
fn the_executable_is_made_ready_only_where_no_one_may_run_it() {
    assert_eq!(EXECUTE_BITS, 0o111);
    assert_eq!(EXECUTABLE_MODE, 0o755);
    assert_eq!(mode_to_set(0o644), Some(0o755));
    assert_eq!(mode_to_set(0o100644), Some(0o755));
    assert_eq!(mode_to_set(0), Some(0o755));
    assert_eq!(mode_to_set(0o755), None);
    assert_eq!(mode_to_set(0o744), None);
    assert_eq!(mode_to_set(0o601), None);
    assert_eq!(mode_to_set(0o610), None);
    assert_eq!(mode_to_set(u32::MAX), None);
}
