use frp_launcher::models::{ProcessGuardInfo, TunnelType};
use frp_launcher::process_guard::{
    add_guarded_custom_tunnel, add_guarded_process, arm, check_log_and_stop_guard,
    first_contained, get_process_guard_enabled, remove_guarded_process,
    set_process_guard_enabled, should_stop_guard_by_log, stamped, stop_guard_for_pattern,
    stop_guard_pattern, ProcessGuardState, STOP_GUARD_PATTERN_COUNT,
};

fn enabled_state() -> ProcessGuardState {
    let mut state = ProcessGuardState::new();
    set_process_guard_enabled(true, &mut state);
    state
}

fn sorted_ids(state: &ProcessGuardState) -> Vec<i32> {
    let mut ids: Vec<i32> = state.snapshot().iter().map(|info| info.tunnel_id).collect();
    ids.sort();
    ids
}

#[test]
fn a_line_with_authorization_failed_stops_the_guard() {
    assert_eq!(
        should_stop_guard_by_log("2024/01/01 [E] login: authorization failed, bye"),
        Some("authorization failed")
    );
}

#[test]
fn a_harmless_line_does_not_stop_the_guard() {
    assert_eq!(should_stop_guard_by_log("connection established"), None);
    assert_eq!(should_stop_guard_by_log(""), None);
}

#[test]
fn letter_case_does_not_matter() {
    assert_eq!(should_stop_guard_by_log("AUTHORIZATION FAILED"), Some("authorization failed"));
    assert_eq!(should_stop_guard_by_log("Invalid Token"), Some("invalid token"));
    assert_eq!(
        should_stop_guard_by_log("允许的隧道数量超出上限，请删除隧道或续费VIP"),
        Some("允许的隧道数量超出上限，请删除隧道或续费vip")
    );
}

#[test]
fn the_first_signature_of_the_list_wins() {
    assert_eq!(
        should_stop_guard_by_log("invalid token; authorization failed"),
        Some("authorization failed")
    );
    assert_eq!(
        should_stop_guard_by_log(
            "read: connection reset by peer after token in login doesn't match token from configuration"
        ),
        Some("token in login doesn't match token from configuration")
    );
}

#[test]
fn every_signature_is_found_in_a_line_that_holds_it() {
    for i in 0..STOP_GUARD_PATTERN_COUNT {
        let pattern = stop_guard_pattern(i);
        let line = format!("[W] {} !", pattern);
        assert_eq!(should_stop_guard_by_log(&line), Some(pattern));
    }
}

#[test]
fn the_signatures_are_the_known_ones() {
    assert_eq!(STOP_GUARD_PATTERN_COUNT, 10);
    assert_eq!(stop_guard_pattern(0), "token in login doesn't match token from configuration");
    assert_eq!(stop_guard_pattern(3), "read: connection reset by peer");
    assert_eq!(stop_guard_pattern(4), "错误的用户token，此用户不存在");
    assert_eq!(stop_guard_pattern(6), "不属于你");
    assert_eq!(stop_guard_pattern(7), "缺少用户token或隧道id参数");
    assert_eq!(stop_guard_pattern(8), "您目前为免费会员");
    assert_eq!(
        stop_guard_pattern(9),
        "客户端代理参数错误，配置文件与记录不匹配。请不要随意修改配置文件！"
    );
}

#[test]
fn the_first_pattern_in_a_line_is_found_by_index() {
    let line: Vec<char> = "one two three".chars().collect();
    let patterns: Vec<Vec<char>> =
        vec!["four".chars().collect(), "two".chars().collect(), "one".chars().collect()];
    assert_eq!(first_contained(&line, &patterns), Some(1));
    assert_eq!(first_contained(&line, &vec!["x".chars().collect()]), None);
    assert_eq!(first_contained(&line, &Vec::new()), None);
}

#[test]
fn a_new_registry_is_off_and_empty() {
    let state = ProcessGuardState::new();
    assert!(!get_process_guard_enabled(&state));
    assert!(!state.get_enabled());
    assert_eq!(state.guarded_count(), 0);
    assert!(state.snapshot().is_empty());
    assert!(!state.is_guarded(1));
    assert!(!state.is_manually_stopped(1));
}

#[test]
fn switching_answers_in_words() {
    let mut state = ProcessGuardState::new();
    assert_eq!(set_process_guard_enabled(true, &mut state), "守护进程已启用");
    assert!(get_process_guard_enabled(&state));
    assert_eq!(set_process_guard_enabled(false, &mut state), "守护进程已禁用");
    assert!(!get_process_guard_enabled(&state));
}

#[test]
fn arming_while_guarding_is_off_does_nothing() {
    let mut state = ProcessGuardState::new();
    add_guarded_process(7, "abc.def123456".to_string(), &mut state);
    add_guarded_custom_tunnel(8, "web".to_string(), &mut state);
    assert_eq!(state.guarded_count(), 0);
    assert!(!state.is_guarded(7));
    assert!(!state.is_guarded(8));
}

#[test]
fn arming_files_the_entry_under_its_id() {
    let mut state = enabled_state();
    add_guarded_process(7, "abc.def123456".to_string(), &mut state);
    add_guarded_custom_tunnel(8, "web".to_string(), &mut state);
    assert!(state.is_guarded(7));
    assert!(state.is_guarded(8));
    assert_eq!(state.guarded_count(), 2);
    let snapshot = state.snapshot();
    assert_eq!(snapshot.len(), 2);
    for info in snapshot {
        match info.tunnel_type {
            TunnelType::Api { user_token } => {
                assert_eq!(info.tunnel_id, 7);
                assert_eq!(user_token, "abc.def123456");
            }
            TunnelType::Custom { original_id } => {
                assert_eq!(info.tunnel_id, 8);
                assert_eq!(original_id, "web");
            }
        }
    }
}

#[test]
fn arming_again_replaces_the_entry() {
    let mut state = enabled_state();
    add_guarded_process(7, "old".to_string(), &mut state);
    arm(
        &mut state,
        ProcessGuardInfo { tunnel_id: 7, tunnel_type: TunnelType::Custom { original_id: "new".to_string() } },
    );
    assert_eq!(state.guarded_count(), 1);
    let snapshot = state.snapshot();
    assert!(matches!(&snapshot[0].tunnel_type, TunnelType::Custom { original_id } if original_id == "new"));
}

#[test]
fn a_manual_stop_is_remembered_and_arming_forgets_it() {
    let mut state = enabled_state();
    add_guarded_process(5, "t".to_string(), &mut state);
    remove_guarded_process(5, &mut state, true);
    assert!(!state.is_guarded(5));
    assert!(state.is_manually_stopped(5));
    add_guarded_process(5, "t".to_string(), &mut state);
    assert!(state.is_guarded(5));
    assert!(!state.is_manually_stopped(5));
}

#[test]
fn an_automatic_stop_is_not_remembered() {
    let mut state = enabled_state();
    add_guarded_process(5, "t".to_string(), &mut state);
    remove_guarded_process(5, &mut state, false);
    assert!(!state.is_guarded(5));
    assert!(!state.is_manually_stopped(5));
}

#[test]
fn disarming_twice_is_disarming_once() {
    let mut state = enabled_state();
    add_guarded_process(5, "t".to_string(), &mut state);
    add_guarded_process(6, "t".to_string(), &mut state);
    remove_guarded_process(5, &mut state, false);
    remove_guarded_process(5, &mut state, false);
    assert_eq!(sorted_ids(&state), vec![6]);
}

#[test]
fn a_manual_stop_of_an_unguarded_tunnel_is_remembered_too() {
    let mut state = ProcessGuardState::new();
    remove_guarded_process(11, &mut state, true);
    assert!(state.is_manually_stopped(11));
}

#[test]
fn switching_guarding_off_forgets_everything() {
    let mut state = enabled_state();
    add_guarded_process(3, "t".to_string(), &mut state);
    add_guarded_process(4, "t".to_string(), &mut state);
    remove_guarded_process(9, &mut state, true);
    set_process_guard_enabled(false, &mut state);
    assert_eq!(state.guarded_count(), 0);
    assert!(state.snapshot().is_empty());
    assert!(!state.is_guarded(3));
    assert!(!state.is_guarded(4));
    assert!(!state.is_manually_stopped(9));
}

#[test]
fn switching_guarding_on_keeps_what_is_there() {
    let mut state = enabled_state();
    add_guarded_process(3, "t".to_string(), &mut state);
    remove_guarded_process(9, &mut state, true);
    set_process_guard_enabled(true, &mut state);
    assert!(state.is_guarded(3));
    assert!(state.is_manually_stopped(9));
}

#[test]
fn a_fatal_line_ends_the_guarding_and_words_a_notice() {
    let mut state = enabled_state();
    add_guarded_process(9, "t".to_string(), &mut state);
    let notice = check_log_and_stop_guard(9, "[E] invalid token", &mut state);
    let notice = notice.expect("a notice");
    assert_eq!(notice.tunnel_id, 9);
    assert_eq!(notice.message, "检测到错误 \"invalid token\"，已停止守护进程");
    assert!(!state.is_guarded(9));
    assert!(!state.is_manually_stopped(9));
}

#[test]
fn a_harmless_line_changes_nothing() {
    let mut state = enabled_state();
    add_guarded_process(9, "t".to_string(), &mut state);
    assert!(check_log_and_stop_guard(9, "start proxy success", &mut state).is_none());
    assert!(state.is_guarded(9));
}

#[test]
fn the_notice_names_the_pattern_it_is_given() {
    let mut state = enabled_state();
    add_guarded_process(2, "t".to_string(), &mut state);
    let notice = stop_guard_for_pattern(2, "不属于你", &mut state);
    assert_eq!(notice.message, "检测到错误 \"不属于你\"，已停止守护进程");
    assert!(!state.is_guarded(2));
}

#[test]
fn a_stamped_line_carries_the_time_of_day() {
    let line = stamped(3, "hello".to_string());
    assert_eq!(line.tunnel_id, 3);
    assert_eq!(line.message, "hello");
    let stamp: Vec<char> = line.timestamp.chars().collect();
    assert_eq!(stamp.len(), 8);
    assert_eq!(stamp[2], ':');
    assert_eq!(stamp[5], ':');
    assert!(stamp.iter().enumerate().all(|(i, c)| i == 2 || i == 5 || c.is_ascii_digit()));
}
