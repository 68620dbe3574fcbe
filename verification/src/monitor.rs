//! One round of the guard's monitor, and what follows a restart.
//!
//! The monitor wakes at a fixed interval. In each round it decides which
//! guarded tunnels have lost their worker and are to be started again; the
//! restarts themselves run apart from the round, and report back here.

use crate::launcher::{
    is_api_launch, is_custom_launch, start_custom_tunnel, start_frpc, ProcessReport,
};
use crate::models::{LogMessage, ProcessGuardInfo, TunnelType};
use crate::outside::clock_time;
use crate::process::{
    error_text, kept, FrpcProcesses, Launcher, ProcessError, ProcessHandle,
};
use crate::process_guard::{disarmed, remove_guarded_process, stamped, ProcessGuardState};
use vstd::prelude::*;

verus! {

/// The seconds between two rounds of the monitor.
pub const MONITOR_INTERVAL_SECS: u64 = 3;

/// The seconds that a restart waits before it starts the tunnel.
pub const RESTART_DELAY_SECS: u64 = 1;

/// The monitor looks after a tunnel: guarding is on, the tunnel is guarded,
/// and it was not stopped by hand.
pub open spec fn watched(guard_state: &ProcessGuardState, tunnel_id: i32) -> bool {
    &&& guard_state.enabled()
    &&& guard_state.guarded().contains_key(tunnel_id)
    &&& !guard_state.manually_stopped().contains(tunnel_id)
}

/// `picked[m]` is the entry of `from` at index `at[m]`, and the indices rise.
pub open spec fn picked_at(
    picked: Seq<ProcessGuardInfo>,
    from: Seq<ProcessGuardInfo>,
    at: Seq<int>,
) -> bool {
    &&& at.len() == picked.len()
    &&& forall|m: int| 0 <= m < at.len() ==> 0 <= #[trigger] at[m] < from.len() && from[at[m]] == picked[m]
    &&& forall|m1: int, m2: int| 0 <= m1 < m2 < at.len() ==> at[m1] < at[m2]
}

/// `picked` holds entries of `from`, in the order in which `from` holds them.
pub open spec fn picked_in_order(picked: Seq<ProcessGuardInfo>, from: Seq<ProcessGuardInfo>) -> bool {
    exists|at: Seq<int>| picked_at(picked, from, at)
}

/// One of the entries is of this tunnel.
pub open spec fn has_tunnel(entries: Seq<ProcessGuardInfo>, tunnel_id: i32) -> bool {
    exists|m: int| 0 <= m < entries.len() && (#[trigger] entries[m]).tunnel_id == tunnel_id
}

/// No two entries are of the same tunnel.
pub open spec fn distinct_tunnels(entries: Seq<ProcessGuardInfo>) -> bool {
    forall|i: int, j: int|
        0 <= i < j < entries.len() ==> entries[i].tunnel_id != entries[j].tunnel_id
}

/// The tunnels that a round of the monitor looks at: none while guarding is
/// off, else every guarded tunnel that was not stopped by hand, as the
/// snapshot of the registry orders them.
pub fn monitor_targets(guard_state: &ProcessGuardState) -> (targets: Vec<ProcessGuardInfo>)
    ensures
        !guard_state.enabled() ==> targets@.len() == 0,
        distinct_tunnels(targets@),
        forall|i: int|
            0 <= i < targets@.len() ==> watched(guard_state, (#[trigger] targets@[i]).tunnel_id)
                && guard_state.guarded()[targets@[i].tunnel_id] == targets@[i],
        forall|id: i32|
            watched(guard_state, id) ==> exists|i: int|
                0 <= i < targets@.len() && (#[trigger] targets@[i]).tunnel_id == id,
{
    let mut targets: Vec<ProcessGuardInfo> = Vec::new();
    if !guard_state.get_enabled() {
        return targets;
    }
    let entries = guard_state.snapshot();
    let mut i: usize = 0;
    while i < entries.len()
        invariant
            i <= entries.len(),
            guard_state.enabled(),
            distinct_tunnels(entries@),
            forall|k: int|
                0 <= k < entries@.len() ==> guard_state.guarded().contains_key(
                    (#[trigger] entries@[k]).tunnel_id,
                ) && guard_state.guarded()[entries@[k].tunnel_id] == entries@[k],
            forall|m: int|
                0 <= m < targets@.len() ==> watched(guard_state, (#[trigger] targets@[m]).tunnel_id)
                    && guard_state.guarded()[targets@[m].tunnel_id] == targets@[m] && exists|
                    k: int,
                | 0 <= k < i && entries@[k] == targets@[m],
            distinct_tunnels(targets@),
            forall|k: int|
                0 <= k < i && watched(guard_state, (#[trigger] entries@[k]).tunnel_id)
                    ==> exists|m: int|
                    0 <= m < targets@.len() && (#[trigger] targets@[m]).tunnel_id
                        == entries@[k].tunnel_id,
        decreases entries.len() - i,
    {
        let ghost before = targets@;
        if !guard_state.is_manually_stopped(entries[i].tunnel_id) {
            targets.push(entries[i].clone());
            assert forall|k: int|
                0 <= k < i + 1 && watched(
                    guard_state,
                    (#[trigger] entries@[k]).tunnel_id,
                ) implies exists|m: int|
                0 <= m < targets@.len() && (#[trigger] targets@[m]).tunnel_id
                    == entries@[k].tunnel_id by {
                if k < i {
                    let m = choose|m: int|
                        0 <= m < before.len() && (#[trigger] before[m]).tunnel_id
                            == entries@[k].tunnel_id;
                    assert(targets@[m].tunnel_id == entries@[k].tunnel_id);
                } else {
                    assert(targets@[before.len() as int].tunnel_id == entries@[k].tunnel_id);
                }
            }
        }
        i += 1;
    }
    assert forall|id: i32| watched(guard_state, id) implies exists|i: int|
        0 <= i < targets@.len() && (#[trigger] targets@[i]).tunnel_id == id by {
        let k = choose|k: int| 0 <= k < entries@.len() && (#[trigger] entries@[k]).tunnel_id == id;
        assert(watched(guard_state, entries@[k].tunnel_id));
    }
    targets
}

/// None of the entries is of a tunnel in `ids`.
pub open spec fn none_held(entries: Seq<ProcessGuardInfo>, ids: Set<i32>) -> bool {
    forall|m: int| 0 <= m < entries.len() ==> !ids.contains((#[trigger] entries[m]).tunnel_id)
}

/// Each of the first `upto` targets whose tunnel is not in `ids` has its
/// tunnel among `offline`.
pub open spec fn absent_reported(
    targets: Seq<ProcessGuardInfo>,
    upto: int,
    ids: Set<i32>,
    offline: Seq<ProcessGuardInfo>,
) -> bool {
    forall|j: int|
        0 <= j < upto && !ids.contains((#[trigger] targets[j]).tunnel_id) ==> has_tunnel(
            offline,
            targets[j].tunnel_id,
        )
}

/// Each tunnel that `before` holds and `after` does not is the tunnel of one
/// of the first `upto` targets.
pub open spec fn only_targets_lost(
    before: Set<i32>,
    after: Set<i32>,
    targets: Seq<ProcessGuardInfo>,
    upto: int,
) -> bool {
    forall|id: i32|
        before.contains(id) && !after.contains(id) ==> exists|j: int|
            0 <= j < upto && (#[trigger] targets[j]).tunnel_id == id
}

/// The table keeps what it owned for every tunnel that is no target.
pub open spec fn others_kept<H>(
    before: Map<i32, H>,
    after: Map<i32, H>,
    targets: Seq<ProcessGuardInfo>,
) -> bool {
    forall|id: i32| !has_tunnel(targets, id) ==> #[trigger] kept(before, after, id)
}

/// A look at the worker of one target keeps what the table owned for every
/// tunnel that is no target.
proof fn lemma_look_keeps_others<H>(
    start: Map<i32, H>,
    before: Map<i32, H>,
    after: Map<i32, H>,
    targets: Seq<ProcessGuardInfo>,
    i: int,
)
    requires
        0 <= i < targets.len(),
        others_kept(start, before, targets),
        after.remove(targets[i].tunnel_id) == before.remove(targets[i].tunnel_id),
    ensures
        others_kept(start, after, targets),
{
    let looked = targets[i].tunnel_id;
    assert forall|id: i32| !has_tunnel(targets, id) implies #[trigger] kept(start, after, id) by {
        assert(kept(start, before, id));
        assert(id != looked) by {
            if id == looked {
                assert(targets[i].tunnel_id == id);
            }
        }
        assert(after.remove(looked).contains_key(id) == after.contains_key(id));
        assert(before.remove(looked).contains_key(id) == before.contains_key(id));
        if before.contains_key(id) {
            assert(after.remove(looked)[id] == after[id]);
            assert(before.remove(looked)[id] == before[id]);
        }
    }
}

/// A target whose worker runs leaves the report and the table as they are.
proof fn lemma_target_running(
    targets: Seq<ProcessGuardInfo>,
    i: int,
    ids: Set<i32>,
    offline: Seq<ProcessGuardInfo>,
    start_ids: Set<i32>,
)
    requires
        0 <= i < targets.len(),
        ids.contains(targets[i].tunnel_id),
        absent_reported(targets, i, ids, offline),
        only_targets_lost(start_ids, ids, targets, i),
    ensures
        absent_reported(targets, i + 1, ids, offline),
        only_targets_lost(start_ids, ids, targets, i + 1),
{
    assert forall|id: i32| start_ids.contains(id) && !ids.contains(id) implies exists|j: int|
        0 <= j < i + 1 && (#[trigger] targets[j]).tunnel_id == id by {
        let j = choose|j: int| 0 <= j < i && (#[trigger] targets[j]).tunnel_id == id;
        assert(targets[j].tunnel_id == id);
    }
}

/// A target whose worker does not run is reported, and leaves the table.
proof fn lemma_target_offline(
    targets: Seq<ProcessGuardInfo>,
    i: int,
    ids: Set<i32>,
    offline: Seq<ProcessGuardInfo>,
    at: Seq<int>,
    start_ids: Set<i32>,
)
    requires
        0 <= i < targets.len(),
        picked_at(offline, targets, at),
        forall|m: int| 0 <= m < at.len() ==> #[trigger] at[m] < i,
        none_held(offline, ids),
        absent_reported(targets, i, ids, offline),
        only_targets_lost(start_ids, ids, targets, i),
    ensures
        picked_at(offline.push(targets[i]), targets, at.push(i)),
        forall|m: int| 0 <= m < at.push(i).len() ==> #[trigger] at.push(i)[m] < i + 1,
        none_held(offline.push(targets[i]), ids.remove(targets[i].tunnel_id)),
        absent_reported(
            targets,
            i + 1,
            ids.remove(targets[i].tunnel_id),
            offline.push(targets[i]),
        ),
        only_targets_lost(start_ids, ids.remove(targets[i].tunnel_id), targets, i + 1),
{
    let gone = targets[i].tunnel_id;
    let after = ids.remove(gone);
    let more = offline.push(targets[i]);
    assert forall|j: int|
        0 <= j < i + 1 && !after.contains((#[trigger] targets[j]).tunnel_id) implies has_tunnel(
        more,
        targets[j].tunnel_id,
    ) by {
        if targets[j].tunnel_id == gone {
            assert(more[offline.len() as int].tunnel_id == gone);
        } else {
            assert(has_tunnel(offline, targets[j].tunnel_id));
            let m = choose|m: int|
                0 <= m < offline.len() && (#[trigger] offline[m]).tunnel_id
                    == targets[j].tunnel_id;
            assert(more[m].tunnel_id == targets[j].tunnel_id);
        }
    }
    assert forall|id: i32| start_ids.contains(id) && !after.contains(id) implies exists|j: int|
        0 <= j < i + 1 && (#[trigger] targets[j]).tunnel_id == id by {
        if id == gone {
            assert(targets[i].tunnel_id == id);
        } else {
            let j = choose|j: int| 0 <= j < i && (#[trigger] targets[j]).tunnel_id == id;
            assert(targets[j].tunnel_id == id);
        }
    }
    assert forall|m: int| 0 <= m < more.len() implies !after.contains(
        (#[trigger] more[m]).tunnel_id,
    ) by {
        if m < offline.len() {
            assert(more[m] == offline[m]);
        }
    }
}

/// Looks at the worker of each target in turn, and returns the targets whose
/// worker is not running, in their order. The table drops every entry whose
/// process was not seen running; what it owns for tunnels that are no target
/// stays as it is.
pub fn offline_among<H: ProcessHandle>(
    targets: &Vec<ProcessGuardInfo>,
    processes: &mut FrpcProcesses<H>,
) -> (offline: Vec<ProcessGuardInfo>)
    ensures
        picked_in_order(offline@, targets@),
        none_held(offline@, final(processes).ids()),
        absent_reported(targets@, targets@.len() as int, final(processes).ids(), offline@),
        final(processes).ids().subset_of(old(processes).ids()),
        only_targets_lost(
            old(processes).ids(),
            final(processes).ids(),
            targets@,
            targets@.len() as int,
        ),
        others_kept(old(processes).handles(), final(processes).handles(), targets@),
{
    let mut offline: Vec<ProcessGuardInfo> = Vec::new();
    let ghost mut at: Seq<int> = Seq::empty();
    let mut i: usize = 0;
    while i < targets.len()
        invariant
            i <= targets.len(),
            picked_at(offline@, targets@, at),
            forall|m: int| 0 <= m < at.len() ==> #[trigger] at[m] < i,
            none_held(offline@, processes.ids()),
            absent_reported(targets@, i as int, processes.ids(), offline@),
            processes.ids().subset_of(old(processes).ids()),
            only_targets_lost(old(processes).ids(), processes.ids(), targets@, i as int),
            others_kept(old(processes).handles(), processes.handles(), targets@),
        decreases targets.len() - i,
    {
        let ghost ids_before = processes.ids();
        let ghost handles_before = processes.handles();
        let running = processes.is_running(targets[i].tunnel_id);
        proof {
            lemma_look_keeps_others(
                old(processes).handles(),
                handles_before,
                processes.handles(),
                targets@,
                i as int,
            );
        }
        if running {
            proof {
                lemma_target_running(
                    targets@,
                    i as int,
                    ids_before,
                    offline@,
                    old(processes).ids(),
                );
            }
        } else {
            proof {
                lemma_target_offline(
                    targets@,
                    i as int,
                    ids_before,
                    offline@,
                    at,
                    old(processes).ids(),
                );
                at = at.push(i as int);
            }
            offline.push(targets[i].clone());
        }
        i += 1;
    }
    offline
}

/// One round of the monitor: the guarded tunnels that are to be started
/// again.
///
/// While guarding is off the round does nothing. Else it walks through a
/// snapshot of the registry, passes over each tunnel that was stopped by
/// hand, and looks at the worker of each other one. A tunnel is returned
/// exactly if the monitor looks after it and the table does not hold it
/// afterwards. The table loses only entries of tunnels that the monitor
/// looks after, and what it owns for every other tunnel stays as it is.
pub fn monitor_tick<H: ProcessHandle>(
    guard_state: &ProcessGuardState,
    processes: &mut FrpcProcesses<H>,
) -> (restarts: Vec<ProcessGuardInfo>)
    ensures
        !guard_state.enabled() ==> restarts@.len() == 0 && final(processes).ids() == old(processes).ids(),
        distinct_tunnels(restarts@),
        none_held(restarts@, final(processes).ids()),
        forall|m: int|
            0 <= m < restarts@.len() ==> watched(guard_state, (#[trigger] restarts@[m]).tunnel_id)
                && guard_state.guarded()[restarts@[m].tunnel_id] == restarts@[m],
        forall|id: i32|
            watched(guard_state, id) && !final(processes).ids().contains(id) ==> #[trigger] has_tunnel(
                restarts@,
                id,
            ),
        final(processes).ids().subset_of(old(processes).ids()),
        forall|id: i32|
            old(processes).ids().contains(id) && !watched(guard_state, id) ==> final(processes).ids().contains(id),
        forall|id: i32|
            !watched(guard_state, id) ==> #[trigger] kept(
                old(processes).handles(),
                final(processes).handles(),
                id,
            ),
        !guard_state.enabled() ==> final(processes).handles() == old(processes).handles(),
{
    let targets = monitor_targets(guard_state);
    let restarts = offline_among(&targets, processes);
    proof {
        let at = choose|at: Seq<int>| picked_at(restarts@, targets@, at);
        if !guard_state.enabled() {
            assert(at.len() == 0) by {
                if at.len() > 0 {
                    assert(0 <= at[0] < targets@.len());
                }
            }
            assert(processes.ids() =~= old(processes).ids());
        }
        assert forall|id: i32| !watched(guard_state, id) implies #[trigger] kept(
            old(processes).handles(),
            processes.handles(),
            id,
        ) by {
            if has_tunnel(targets@, id) {
                let m = choose|m: int|
                    0 <= m < targets@.len() && (#[trigger] targets@[m]).tunnel_id == id;
                assert(watched(guard_state, targets@[m].tunnel_id));
            }
        }
        if !guard_state.enabled() {
            assert(processes.handles() =~= old(processes).handles()) by {
                assert forall|id: i32|
                    old(processes).handles().contains_key(id) == processes.handles().contains_key(
                        id,
                    ) && (old(processes).handles().contains_key(id) ==> processes.handles()[id]
                        == old(processes).handles()[id]) by {
                    assert(kept(old(processes).handles(), processes.handles(), id));
                }
            }
        }
        assert forall|m: int| 0 <= m < restarts@.len() implies watched(
            guard_state,
            (#[trigger] restarts@[m]).tunnel_id,
        ) && guard_state.guarded()[restarts@[m].tunnel_id] == restarts@[m] by {
            assert(targets@[at[m]] == restarts@[m]);
        }
        assert forall|m1: int, m2: int| 0 <= m1 < m2 < restarts@.len() implies restarts@[m1].tunnel_id
            != restarts@[m2].tunnel_id by {
            assert(targets@[at[m1]] == restarts@[m1]);
            assert(targets@[at[m2]] == restarts@[m2]);
        }
        assert forall|id: i32|
            watched(guard_state, id) && !processes.ids().contains(id) implies has_tunnel(
            restarts@,
            id,
        ) by {
            let j = choose|j: int|
                0 <= j < targets@.len() && (#[trigger] targets@[j]).tunnel_id == id;
            assert(!processes.ids().contains(targets@[j].tunnel_id));
        }
        assert forall|id: i32|
            old(processes).ids().contains(id) && !watched(
                guard_state,
                id,
            ) implies processes.ids().contains(id) by {
            if !processes.ids().contains(id) {
                let j = choose|j: int|
                    0 <= j < targets@.len() && (#[trigger] targets@[j]).tunnel_id == id;
                assert(watched(guard_state, targets@[j].tunnel_id));
            }
        }
    }
    restarts
}

/// What the observer is told when the monitor finds a worker gone.
pub fn offline_notice(tunnel_id: i32) -> (notice: LogMessage)
    ensures
        notice.tunnel_id == tunnel_id,
        notice.message@ == "检测到进程离线，触发守护进程，自动重启中"@,
{
    stamped(tunnel_id, "检测到进程离线，触发守护进程，自动重启中".to_owned())
}

/// Starts a guarded tunnel again, in the way that its kind calls for: a
/// numbered tunnel by its number and token, a custom tunnel by its name.
pub fn restart_tunnel<L: Launcher>(
    launcher: &L,
    info: ProcessGuardInfo,
    processes: &mut FrpcProcesses<L::Handle>,
    guard_state: &mut ProcessGuardState,
) -> (result: Result<ProcessReport, ProcessError>)
    ensures
        match info.tunnel_type {
            TunnelType::Api { user_token } => is_api_launch(
                old(processes).handles(),
                final(processes).handles(),
                old(guard_state),
                final(guard_state),
                info.tunnel_id,
                user_token,
                result,
            ),
            TunnelType::Custom { original_id } => is_custom_launch(
                old(processes).handles(),
                final(processes).handles(),
                old(guard_state),
                final(guard_state),
                original_id,
                result,
            ),
        },
{
    match info.tunnel_type {
        TunnelType::Api { user_token } => start_frpc(
            launcher,
            info.tunnel_id,
            user_token,
            processes,
            guard_state,
        ),
        TunnelType::Custom { original_id } => start_custom_tunnel(
            launcher,
            original_id,
            processes,
            guard_state,
        ),
    }
}

/// What the monitor publishes when a restart has ended.
pub enum GuardEvent {
    /// The tunnel runs again.
    AutoRestarted { tunnel_id: i32, timestamp: String },
    /// The restart failed; the line says why.
    RestartFailed(LogMessage),
}

/// What the observer is told when a restart has failed.
pub open spec fn restart_failed_text(error: ProcessError) -> Seq<char> {
    "守护进程重启失败: "@ + error_text(error)
}

/// The end of a restart. After a success the tunnel stays guarded. After a
/// failure the guarding of the tunnel ends, so that a tunnel that cannot be
/// started is not tried again and again; this is no manual stop.
pub fn finish_restart(
    tunnel_id: i32,
    outcome: Result<ProcessReport, ProcessError>,
    guard_state: &mut ProcessGuardState,
) -> (event: GuardEvent)
    ensures
        match outcome {
            Ok(_) => {
                &&& *final(guard_state) == *old(guard_state)
                &&& event matches GuardEvent::AutoRestarted { tunnel_id: id, .. }
                &&& id == tunnel_id
            },
            Err(error) => {
                &&& disarmed(old(guard_state), final(guard_state), tunnel_id, false)
                &&& event matches GuardEvent::RestartFailed(line)
                &&& line.tunnel_id == tunnel_id
                &&& line.message@ == restart_failed_text(error)
            },
        },
{
    match outcome {
        Ok(_) => GuardEvent::AutoRestarted { tunnel_id, timestamp: clock_time() },
        Err(error) => {
            remove_guarded_process(tunnel_id, guard_state, false);
            let failure = ProcessError::RestartFailed(error.message());
            GuardEvent::RestartFailed(stamped(tunnel_id, failure.message()))
        },
    }
}

} // verus!
