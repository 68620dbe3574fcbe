//! The guard: which tunnels are kept alive, which log lines end that, and
//! what one round of the monitor decides.

use crate::models::{LogMessage, ProcessGuardInfo, TunnelType};
use crate::outside::{clock_time, lowercase_of, to_lowercase};
use crate::text::{chars_of, contains_chars, join3, occurs_in};
use std::collections::{HashMap, HashSet};
use vstd::prelude::*;
use vstd::std_specs::iter::IteratorSpec;

verus! {

broadcast use vstd::std_specs::hash::group_hash_axioms;

/// The number of error signatures that end the guarding of a tunnel.
pub const STOP_GUARD_PATTERN_COUNT: usize = 10;

/// The error signatures that end the guarding of a tunnel, in the order in
/// which a line is held against them.
pub open spec fn stop_guard_pattern_text(i: int) -> Seq<char> {
    if i == 0 {
        "token in login doesn't match token from configuration"@
    } else if i == 1 {
        "authorization failed"@
    } else if i == 2 {
        "invalid token"@
    } else if i == 3 {
        "read: connection reset by peer"@
    } else if i == 4 {
        "错误的用户token，此用户不存在"@
    } else if i == 5 {
        "允许的隧道数量超出上限，请删除隧道或续费vip"@
    } else if i == 6 {
        "不属于你"@
    } else if i == 7 {
        "缺少用户token或隧道id参数"@
    } else if i == 8 {
        "您目前为免费会员"@
    } else {
        "客户端代理参数错误，配置文件与记录不匹配。请不要随意修改配置文件！"@
    }
}

/// The error signature of index `i`; the last one for an index past the
/// list.
pub fn stop_guard_pattern(i: usize) -> (pattern: &'static str)
    ensures
        pattern@ == stop_guard_pattern_text(i as int),
{
    if i == 0 {
        "token in login doesn't match token from configuration"
    } else if i == 1 {
        "authorization failed"
    } else if i == 2 {
        "invalid token"
    } else if i == 3 {
        "read: connection reset by peer"
    } else if i == 4 {
        "错误的用户token，此用户不存在"
    } else if i == 5 {
        "允许的隧道数量超出上限，请删除隧道或续费vip"
    } else if i == 6 {
        "不属于你"
    } else if i == 7 {
        "缺少用户token或隧道id参数"
    } else if i == 8 {
        "您目前为免费会员"
    } else {
        "客户端代理参数错误，配置文件与记录不匹配。请不要随意修改配置文件！"
    }
}

/// The line holds the signature of index `i`, letter case aside.
pub open spec fn line_has_pattern(message: Seq<char>, i: int) -> bool {
    occurs_in(lowercase_of(message), lowercase_of(stop_guard_pattern_text(i)))
}

/// The signature of index `i` is the first one that the line holds.
pub open spec fn is_first_pattern_of(message: Seq<char>, i: int) -> bool {
    &&& 0 <= i < STOP_GUARD_PATTERN_COUNT
    &&& line_has_pattern(message, i)
    &&& forall|j: int| 0 <= j < i ==> !line_has_pattern(message, j)
}

/// The index of the first of `patterns` that stands in `line`.
pub fn first_contained(line: &Vec<char>, patterns: &Vec<Vec<char>>) -> (found: Option<usize>)
    ensures
        match found {
            Some(i) => i < patterns.len() && occurs_in(line@, patterns[i as int]@) && forall|j: int|
                0 <= j < i ==> !occurs_in(line@, #[trigger] patterns[j]@),
            None => forall|j: int|
                0 <= j < patterns.len() ==> !occurs_in(line@, #[trigger] patterns[j]@),
        },
{
    let mut i: usize = 0;
    while i < patterns.len()
        invariant
            i <= patterns.len(),
            forall|j: int| 0 <= j < i ==> !occurs_in(line@, #[trigger] patterns[j]@),
        decreases patterns.len() - i,
    {
        if contains_chars(line, &patterns[i]) {
            return Some(i);
        }
        i += 1;
    }
    None
}

/// Whether a log line shows an error after which a restart would be of no
/// use, and which signature says so: the first of the list that the line
/// holds, letter case aside.
pub fn should_stop_guard_by_log(message: &str) -> (found: Option<&'static str>)
    ensures
        match found {
            Some(pattern) => exists|i: int|
                is_first_pattern_of(message@, i) && pattern@ == stop_guard_pattern_text(i),
            None => forall|i: int|
                0 <= i < STOP_GUARD_PATTERN_COUNT ==> !line_has_pattern(message@, i),
        },
{
    let lowered = to_lowercase(message);
    let line = chars_of(lowered.as_str());
    let mut patterns: Vec<Vec<char>> = Vec::new();
    let mut i: usize = 0;
    while i < STOP_GUARD_PATTERN_COUNT
        invariant
            i <= STOP_GUARD_PATTERN_COUNT,
            patterns.len() == i,
            forall|j: int|
                0 <= j < i ==> #[trigger] patterns[j]@ == lowercase_of(stop_guard_pattern_text(j)),
        decreases STOP_GUARD_PATTERN_COUNT - i,
    {
        let lowered_pattern = to_lowercase(stop_guard_pattern(i));
        patterns.push(chars_of(lowered_pattern.as_str()));
        i += 1;
    }
    match first_contained(&line, &patterns) {
        Some(k) => {
            assert(is_first_pattern_of(message@, k as int)) by {
                assert(patterns[k as int]@ == lowercase_of(stop_guard_pattern_text(k as int)));
                assert forall|j: int| 0 <= j < k implies !line_has_pattern(message@, j) by {
                    assert(patterns[j]@ == lowercase_of(stop_guard_pattern_text(j)));
                }
            }
            Some(stop_guard_pattern(k))
        },
        None => {
            assert forall|j: int| 0 <= j < STOP_GUARD_PATTERN_COUNT implies !line_has_pattern(
                message@,
                j,
            ) by {
                assert(patterns[j]@ == lowercase_of(stop_guard_pattern_text(j)));
            }
            None
        },
    }
}

/// The guard's registry: whether guarding is on, the tunnels it keeps alive,
/// and the tunnels that a user stopped by hand.
pub struct ProcessGuardState {
    enabled: bool,
    guarded_processes: HashMap<i32, TunnelType>,
    manually_stopped: HashSet<i32>,
}

impl ProcessGuardState {
    /// Whether guarding is on.
    pub closed spec fn enabled(&self) -> bool {
        self.enabled
    }

    /// The guarded tunnels, by tunnel id.
    pub closed spec fn guarded(&self) -> Map<i32, ProcessGuardInfo> {
        Map::new(
            |id: i32| self.guarded_processes@.contains_key(id),
            |id: i32| ProcessGuardInfo { tunnel_id: id, tunnel_type: self.guarded_processes@[id] },
        )
    }

    /// Every entry is filed under its own tunnel id, so no two entries share
    /// one.
    pub proof fn lemma_filed_by_id(&self)
        ensures
            forall|id: i32| #[trigger]
                self.guarded().contains_key(id) ==> self.guarded()[id].tunnel_id == id,
    {
    }

    /// The tunnels that were stopped by hand and not armed again since.
    pub closed spec fn manually_stopped(&self) -> Set<i32> {
        self.manually_stopped@
    }

    /// A registry with guarding off and nothing in it.
    pub fn new() -> (state: Self)
        ensures
            !state.enabled(),
            state.guarded() == Map::<i32, ProcessGuardInfo>::empty(),
            state.manually_stopped() == Set::<i32>::empty(),
    {
        let state = ProcessGuardState {
            enabled: false,
            guarded_processes: HashMap::new(),
            manually_stopped: HashSet::new(),
        };
        assert(state.guarded() =~= Map::<i32, ProcessGuardInfo>::empty());
        state
    }

    /// Whether guarding is on.
    pub fn get_enabled(&self) -> (enabled: bool)
        ensures
            enabled == self.enabled(),
    {
        self.enabled
    }

    /// Whether the tunnel is guarded.
    pub fn is_guarded(&self, tunnel_id: i32) -> (guarded: bool)
        ensures
            guarded == self.guarded().contains_key(tunnel_id),
    {
        self.guarded_processes.contains_key(&tunnel_id)
    }

    /// Whether the tunnel was stopped by hand and not armed again since.
    pub fn is_manually_stopped(&self, tunnel_id: i32) -> (stopped: bool)
        ensures
            stopped == self.manually_stopped().contains(tunnel_id),
    {
        self.manually_stopped.contains(&tunnel_id)
    }

    /// The number of guarded tunnels.
    pub fn guarded_count(&self) -> (count: usize)
        ensures
            count == self.guarded().dom().len(),
    {
        assert(self.guarded().dom() =~= self.guarded_processes@.dom());
        self.guarded_processes.len()
    }

    /// A copy of the guard entries, for a monitor round to walk through. Each
    /// guarded tunnel has one entry in it; their order is not fixed.
    pub fn snapshot(&self) -> (entries: Vec<ProcessGuardInfo>)
        ensures
            entries@.len() == self.guarded().dom().len(),
            forall|i: int|
                0 <= i < entries@.len() ==> self.guarded().contains_key(
                    (#[trigger] entries@[i]).tunnel_id,
                ) && self.guarded()[entries@[i].tunnel_id] == entries@[i],
            forall|i: int, j: int|
                0 <= i < j < entries@.len() ==> entries@[i].tunnel_id != entries@[j].tunnel_id,
            forall|id: i32|
                self.guarded().contains_key(id) ==> exists|i: int|
                    0 <= i < entries@.len() && (#[trigger] entries@[i]).tunnel_id == id,
    {
        assert(self.guarded().dom() =~= self.guarded_processes@.dom());
        let mut entries: Vec<ProcessGuardInfo> = Vec::new();
        let keys = self.guarded_processes.keys();
        let ghost ids: Seq<i32> = keys.remaining().unref();
        assert(ids.to_set() == self.guarded_processes@.dom());
        assert(ids.no_duplicates());
        for key in it: keys
            invariant
                it.seq().unref() == ids,
                ids.to_set() == self.guarded_processes@.dom(),
                ids.no_duplicates(),
                entries@.len() == it.index(),
                forall|i: int|
                    0 <= i < entries@.len() ==> (#[trigger] entries@[i]).tunnel_id == ids[i]
                        && self.guarded_processes@[ids[i]] == entries@[i].tunnel_type,
        {
            assert(ids[it.index() as int] == *key);
            assert(ids.to_set().contains(*key));
            match self.guarded_processes.get(key) {
                Some(kind) => {
                    entries.push(ProcessGuardInfo { tunnel_id: *key, tunnel_type: kind.clone() });
                },
                None => {
                    assert(false);
                },
            }
        }
        proof {
            ids.unique_seq_to_set();
            assert forall|id: i32| self.guarded().contains_key(id) implies exists|i: int|
                0 <= i < entries@.len() && (#[trigger] entries@[i]).tunnel_id == id by {
                assert(ids.to_set().contains(id));
                let i = choose|i: int| 0 <= i < ids.len() && ids[i] == id;
                assert(entries@[i].tunnel_id == id);
            }
            assert forall|i: int| 0 <= i < entries@.len() implies self.guarded().contains_key(
                (#[trigger] entries@[i]).tunnel_id,
            ) by {
                assert(ids.to_set().contains(ids[i]));
            }
        }
        entries
    }
}

/// A log line for the observer, stamped with the wall clock's time.
pub fn stamped(tunnel_id: i32, message: String) -> (line: LogMessage)
    ensures
        line.tunnel_id == tunnel_id,
        line.message == message,
{
    LogMessage { tunnel_id, message, timestamp: clock_time() }
}

/// What `set_process_guard_enabled` answers.
pub open spec fn guard_switch_answer(enabled: bool) -> Seq<char> {
    if enabled {
        "守护进程已启用"@
    } else {
        "守护进程已禁用"@
    }
}

/// Turns guarding on or off. Turning it off forgets every guarded tunnel and
/// every manual stop.
pub fn set_process_guard_enabled(enabled: bool, guard_state: &mut ProcessGuardState) -> (answer:
    String)
    ensures
        final(guard_state).enabled() == enabled,
        enabled ==> final(guard_state).guarded() == old(guard_state).guarded() && final(guard_state).manually_stopped() == old(guard_state).manually_stopped(),
        !enabled ==> final(guard_state).guarded() == Map::<i32, ProcessGuardInfo>::empty()
            && final(guard_state).manually_stopped() == Set::<i32>::empty(),
        answer@ == guard_switch_answer(enabled),
{
    guard_state.enabled = enabled;
    if !enabled {
        guard_state.guarded_processes.clear();
        guard_state.manually_stopped.clear();
        assert(guard_state.guarded() =~= Map::<i32, ProcessGuardInfo>::empty());
        "守护进程已禁用".to_owned()
    } else {
        "守护进程已启用".to_owned()
    }
}

/// Whether guarding is on.
pub fn get_process_guard_enabled(guard_state: &ProcessGuardState) -> (enabled: bool)
    ensures
        enabled == guard_state.enabled(),
{
    guard_state.enabled
}

/// The registry after arming `info`: with guarding off nothing changes;
/// with guarding on the entry is filed under its id, in place of an earlier
/// one, and the id's manual stop is forgotten.
pub open spec fn armed(
    before: &ProcessGuardState,
    after: &ProcessGuardState,
    info: ProcessGuardInfo,
) -> bool {
    &&& after.enabled() == before.enabled()
    &&& after.guarded() == if before.enabled() {
        before.guarded().insert(info.tunnel_id, info)
    } else {
        before.guarded()
    }
    &&& after.manually_stopped() == if before.enabled() {
        before.manually_stopped().remove(info.tunnel_id)
    } else {
        before.manually_stopped()
    }
}

/// Arms the guard for a tunnel.
pub fn arm(guard_state: &mut ProcessGuardState, info: ProcessGuardInfo)
    ensures
        armed(old(guard_state), final(guard_state), info),
{
    if guard_state.enabled {
        let tunnel_id = info.tunnel_id;
        guard_state.guarded_processes.insert(tunnel_id, info.tunnel_type);
        guard_state.manually_stopped.remove(&tunnel_id);
        assert(guard_state.guarded() =~= old(guard_state).guarded().insert(tunnel_id, info));
    }
}

/// Arms the guard for a numbered tunnel of the account of `user_token`.
pub fn add_guarded_process(tunnel_id: i32, user_token: String, guard_state: &mut ProcessGuardState)
    ensures
        armed(
            old(guard_state),
            final(guard_state),
            ProcessGuardInfo { tunnel_id, tunnel_type: TunnelType::Api { user_token } },
        ),
{
    arm(guard_state, ProcessGuardInfo { tunnel_id, tunnel_type: TunnelType::Api { user_token } });
}

/// Arms the guard for the custom tunnel `original_id`, filed under
/// `tunnel_id_hash`.
pub fn add_guarded_custom_tunnel(
    tunnel_id_hash: i32,
    original_id: String,
    guard_state: &mut ProcessGuardState,
)
    ensures
        armed(
            old(guard_state),
            final(guard_state),
            ProcessGuardInfo {
                tunnel_id: tunnel_id_hash,
                tunnel_type: TunnelType::Custom { original_id },
            },
        ),
{
    arm(
        guard_state,
        ProcessGuardInfo {
            tunnel_id: tunnel_id_hash,
            tunnel_type: TunnelType::Custom { original_id },
        },
    );
}

/// The registry after disarming a tunnel: its entry is gone, and a manual
/// stop is remembered.
pub open spec fn disarmed(
    before: &ProcessGuardState,
    after: &ProcessGuardState,
    tunnel_id: i32,
    is_manual_stop: bool,
) -> bool {
    &&& after.enabled() == before.enabled()
    &&& after.guarded() == before.guarded().remove(tunnel_id)
    &&& after.manually_stopped() == if is_manual_stop {
        before.manually_stopped().insert(tunnel_id)
    } else {
        before.manually_stopped()
    }
}

/// Ends the guarding of a tunnel. A stop by hand is remembered, so that the
/// monitor leaves the tunnel alone.
pub fn remove_guarded_process(
    tunnel_id: i32,
    guard_state: &mut ProcessGuardState,
    is_manual_stop: bool,
)
    ensures
        disarmed(old(guard_state), final(guard_state), tunnel_id, is_manual_stop),
{
    guard_state.guarded_processes.remove(&tunnel_id);
    if is_manual_stop {
        guard_state.manually_stopped.insert(tunnel_id);
    }
    assert(guard_state.guarded() =~= old(guard_state).guarded().remove(tunnel_id));
}

/// Disarming a tunnel again, and not by hand, changes nothing: two pumps that
/// see the same fatal line do no more than one.
pub proof fn law_second_disarm_changes_nothing(
    first: &ProcessGuardState,
    second: &ProcessGuardState,
    third: &ProcessGuardState,
    tunnel_id: i32,
    was_manual: bool,
)
    requires
        disarmed(first, second, tunnel_id, was_manual),
        disarmed(second, third, tunnel_id, false),
    ensures
        third.enabled() == second.enabled(),
        third.guarded() == second.guarded(),
        third.manually_stopped() == second.manually_stopped(),
{
    assert(second.guarded().remove(tunnel_id) =~= second.guarded());
}

/// Arming a tunnel lifts an earlier manual stop of it, while guarding is on,
/// and files one entry under the tunnel's id.
pub proof fn law_arming_lifts_manual_stop(
    before: &ProcessGuardState,
    after: &ProcessGuardState,
    info: ProcessGuardInfo,
)
    requires
        before.enabled(),
        armed(before, after, info),
    ensures
        !after.manually_stopped().contains(info.tunnel_id),
        after.guarded().contains_key(info.tunnel_id),
        after.guarded()[info.tunnel_id] == info,
{
}

/// What the observer is told when a log line ends the guarding of a tunnel.
pub open spec fn guard_stopped_text(pattern: Seq<char>) -> Seq<char> {
    "检测到错误 \""@ + pattern + "\"，已停止守护进程"@
}

/// Ends the guarding of a tunnel after the error signature `pattern` was
/// seen, and words the notice for the observer. This is no manual stop.
pub fn stop_guard_for_pattern(
    tunnel_id: i32,
    pattern: &str,
    guard_state: &mut ProcessGuardState,
) -> (notice: LogMessage)
    ensures
        disarmed(old(guard_state), final(guard_state), tunnel_id, false),
        notice.tunnel_id == tunnel_id,
        notice.message@ == guard_stopped_text(pattern@),
{
    remove_guarded_process(tunnel_id, guard_state, false);
    stamped(tunnel_id, join3("检测到错误 \"", pattern, "\"，已停止守护进程"))
}

/// Holds a log line against the error signatures. Where it holds one, the
/// guarding of the tunnel ends and the notice for the observer is returned;
/// where it holds none, nothing changes.
pub fn check_log_and_stop_guard(
    tunnel_id: i32,
    log_message: &str,
    guard_state: &mut ProcessGuardState,
) -> (notice: Option<LogMessage>)
    ensures
        match notice {
            Some(line) => exists|i: int|
                is_first_pattern_of(log_message@, i) && line.message@ == guard_stopped_text(
                    stop_guard_pattern_text(i),
                ) && line.tunnel_id == tunnel_id && disarmed(
                    old(guard_state),
                    final(guard_state),
                    tunnel_id,
                    false,
                ),
            None => *final(guard_state) == *old(guard_state) && forall|i: int|
                0 <= i < STOP_GUARD_PATTERN_COUNT ==> !line_has_pattern(log_message@, i),
        },
{
    match should_stop_guard_by_log(log_message) {
        Some(pattern) => Some(stop_guard_for_pattern(tunnel_id, pattern, guard_state)),
        None => None,
    }
}

} // verus!
