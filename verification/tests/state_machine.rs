use openclaw_anim::action::{action_to_str, Action};
use openclaw_anim::state_machine::{StateMachine, StateMachineConfig};

const MS: u128 = 1_000_000;

fn machine(overrides: Vec<(&str, &str)>) -> StateMachine {
    StateMachine::new(StateMachineConfig {
        min_hold_ms: 300,
        error_hold_ms: 1000,
        tool_action_overrides: overrides
            .into_iter()
            .map(|(k, v)| (k.to_string(), v.to_string()))
            .collect(),
    })
}

fn entered(sm: &mut StateMachine, at_ms: u128, phase: &str, tool: &str) -> Option<Action> {
    sm.on_gateway_event_at(at_ms * MS, 0, None, phase, tool).map(|e| e.action)
}

#[test]
fn new_machine_is_idle() {
    let sm = machine(vec![]);
    assert_eq!(sm.current(), Action::Idle);
    assert_eq!(sm.active_count("read"), 0);
}

#[test]
fn start_before_min_hold_is_delayed_then_released() {
    let mut sm = machine(vec![]);
    assert_eq!(entered(&mut sm, 100, "start", "read"), None);
    assert_eq!(sm.current(), Action::Idle);
    // the next event at or after the due time releases the delayed switch;
    // its own start is still counted
    assert_eq!(entered(&mut sm, 350, "start", "write"), Some(Action::Read));
    assert_eq!(sm.current(), Action::Read);
    assert_eq!(sm.active_count("write"), 1);
    assert_eq!(sm.active_count("read"), 1);
    // the running write outranks read once the hold has passed
    assert_eq!(entered(&mut sm, 700, "noop", "x"), None);
    assert_eq!(entered(&mut sm, 800, "end", "nothing"), Some(Action::Write));
}

#[test]
fn start_after_min_hold_switches_at_once() {
    let mut sm = machine(vec![]);
    assert_eq!(entered(&mut sm, 1000, "start", "exec"), Some(Action::Exec));
    assert_eq!(sm.current(), Action::Exec);
}

#[test]
fn end_of_last_tool_returns_to_idle() {
    let mut sm = machine(vec![]);
    assert_eq!(entered(&mut sm, 1000, "start", "read"), Some(Action::Read));
    assert_eq!(entered(&mut sm, 2000, "end", "read"), Some(Action::Idle));
    assert_eq!(sm.current(), Action::Idle);
}

#[test]
fn highest_priority_active_tool_wins() {
    let mut sm = machine(vec![]);
    assert_eq!(entered(&mut sm, 1000, "start", "read"), Some(Action::Read));
    assert_eq!(entered(&mut sm, 1500, "start", "exec"), Some(Action::Exec));
    assert_eq!(entered(&mut sm, 2000, "end", "exec"), Some(Action::Read));
    assert_eq!(entered(&mut sm, 2500, "start", "write"), Some(Action::Write));
    assert_eq!(entered(&mut sm, 3000, "end", "read"), None);
    // a lower-priority start while write runs changes nothing
    assert_eq!(entered(&mut sm, 3500, "start", "read"), None);
    assert_eq!(sm.current(), Action::Write);
}

#[test]
fn error_enters_at_once_and_holds() {
    let mut sm = machine(vec![]);
    assert_eq!(entered(&mut sm, 1000, "error", "exec"), Some(Action::Error));
    assert_eq!(sm.current(), Action::Error);
    assert_eq!(entered(&mut sm, 1500, "start", "read"), None);
    assert_eq!(entered(&mut sm, 1600, "reply_start", "x"), None);
    assert_eq!(entered(&mut sm, 1700, "end", "read"), None);
    assert_eq!(sm.current(), Action::Error);
    assert_eq!(sm.active_count("read"), 0);
    assert_eq!(entered(&mut sm, 2500, "reply_start", "x"), Some(Action::Reply));
}

#[test]
fn error_during_min_hold_is_not_delayed() {
    let mut sm = machine(vec![]);
    assert_eq!(entered(&mut sm, 1000, "start", "read"), Some(Action::Read));
    assert_eq!(entered(&mut sm, 1001, "error", "read"), Some(Action::Error));
}

#[test]
fn pending_switch_keeps_higher_priority() {
    let mut sm = machine(vec![]);
    assert_eq!(entered(&mut sm, 1000, "start", "read"), Some(Action::Read));
    assert_eq!(entered(&mut sm, 1100, "start", "write"), None);
    // the reply ranks below write, so the pending write stays
    assert_eq!(entered(&mut sm, 1150, "reply_start", "x"), None);
    // exec ranks above write and replaces it
    assert_eq!(entered(&mut sm, 1200, "start", "exec"), None);
    assert_eq!(sm.current(), Action::Read);
    assert_eq!(entered(&mut sm, 1400, "noop", "x"), Some(Action::Exec));
}

#[test]
fn request_for_current_action_drops_pending() {
    let mut sm = machine(vec![]);
    assert_eq!(entered(&mut sm, 1000, "start", "read"), Some(Action::Read));
    assert_eq!(entered(&mut sm, 1100, "start", "exec"), None);
    assert_eq!(entered(&mut sm, 1200, "end", "exec"), None);
    assert_eq!(entered(&mut sm, 1400, "noop", "x"), None);
    assert_eq!(sm.current(), Action::Read);
}

#[test]
fn unknown_phase_does_nothing() {
    let mut sm = machine(vec![]);
    assert_eq!(entered(&mut sm, 1000, "progress", "read"), None);
    assert_eq!(sm.current(), Action::Idle);
    assert_eq!(sm.active_count("read"), 0);
}

#[test]
fn reply_start_and_end() {
    let mut sm = machine(vec![]);
    assert_eq!(entered(&mut sm, 1000, "start", "read"), Some(Action::Read));
    assert_eq!(entered(&mut sm, 2000, "reply_start", "assistant"), Some(Action::Reply));
    assert_eq!(entered(&mut sm, 3000, "reply_end", "assistant"), Some(Action::Read));
}

#[test]
fn nested_starts_are_counted() {
    let mut sm = machine(vec![]);
    entered(&mut sm, 1000, "start", "read");
    entered(&mut sm, 1100, "start", "read");
    assert_eq!(sm.active_count("read"), 2);
    entered(&mut sm, 1200, "end", "read");
    assert_eq!(sm.active_count("read"), 1);
    entered(&mut sm, 1300, "end", "read");
    entered(&mut sm, 1400, "end", "read");
    assert_eq!(sm.active_count("read"), 0);
    entered(&mut sm, 1500, "end", "unknown_tool");
    assert_eq!(sm.active_count("unknown_tool"), 0);
}

#[test]
fn event_carries_time_and_run() {
    let mut sm = machine(vec![]);
    let ev = sm
        .on_gateway_event_at(5000 * MS, 1711370000000, Some("abc-123".to_string()), "start", "web_search")
        .expect("switch");
    assert_eq!(ev.action, Action::WebSearch);
    assert_eq!(ev.phase, "enter");
    assert_eq!(ev.ts_ms, 1711370000000);
    assert_eq!(ev.run_id, Some("abc-123".to_string()));
}

#[test]
fn default_tool_mapping() {
    let sm = machine(vec![]);
    let table = [
        ("read", Action::Read),
        ("memory_get", Action::Read),
        ("memory_search", Action::Read),
        ("write", Action::Write),
        ("edit", Action::Write),
        ("feishu_doc", Action::Write),
        ("exec", Action::Exec),
        ("process", Action::Exec),
        ("gateway", Action::Exec),
        ("web_search", Action::WebSearch),
        ("web_fetch", Action::WebFetch),
        ("browser", Action::Browser),
        ("assistant_reply", Action::Reply),
        ("tts", Action::Exec),
        ("something_else", Action::Exec),
    ];
    for (tool, action) in table {
        assert_eq!(sm.map_tool(tool), action, "tool {tool}");
    }
}

#[test]
fn overrides_win_and_invalid_overrides_fall_back() {
    let sm = machine(vec![("tts", "reply"), ("feishu_doc", "bogus"), ("read", "browser")]);
    assert_eq!(sm.map_tool("tts"), Action::Reply);
    assert_eq!(sm.map_tool("feishu_doc"), Action::Write);
    assert_eq!(sm.map_tool("read"), Action::Browser);
    assert_eq!(sm.map_tool("exec"), Action::Exec);
}

#[test]
fn override_drives_machine() {
    let mut sm = machine(vec![("tts", "reply")]);
    assert_eq!(entered(&mut sm, 1000, "start", "tts"), Some(Action::Reply));
}

#[test]
fn priorities() {
    assert_eq!(StateMachine::priority(Action::Error), 100);
    assert_eq!(StateMachine::priority(Action::Reply), 20);
    assert_eq!(StateMachine::priority(Action::Exec), 80);
    assert_eq!(StateMachine::priority(Action::Write), 70);
    assert_eq!(StateMachine::priority(Action::Browser), 60);
    assert_eq!(StateMachine::priority(Action::WebFetch), 50);
    assert_eq!(StateMachine::priority(Action::WebSearch), 50);
    assert_eq!(StateMachine::priority(Action::Read), 40);
    assert_eq!(StateMachine::priority(Action::Idle), 0);
}

#[test]
fn action_ids_roundtrip() {
    let all = [
        Action::Idle,
        Action::Read,
        Action::Write,
        Action::Exec,
        Action::WebSearch,
        Action::WebFetch,
        Action::Browser,
        Action::Reply,
        Action::Error,
    ];
    let ids = ["idle", "read", "write", "exec", "web_search", "web_fetch", "browser", "reply", "error"];
    for (a, id) in all.iter().zip(ids.iter()) {
        assert_eq!(action_to_str(*a), *id);
        assert_eq!(StateMachine::action_from_id(id), Some(*a));
    }
    assert_eq!(StateMachine::action_from_id("Idle"), None);
    assert_eq!(StateMachine::action_from_id(""), None);
}

#[test]
fn live_clock_error_enters_at_once() {
    let mut sm = machine(vec![]);
    let ev = sm.on_gateway_event(7, Some("r".to_string()), "error", "exec").expect("switch");
    assert_eq!(ev.action, Action::Error);
    assert_eq!(ev.ts_ms, 7);
    assert_eq!(sm.current(), Action::Error);
    // within the error hold nothing switches
    assert!(sm.on_gateway_event(8, None, "start", "read").is_none());
}

#[test]
fn only_changes_are_reported_but_every_error_is() {
    let mut sm = machine(vec![]);
    assert_eq!(entered(&mut sm, 1000, "start", "read"), Some(Action::Read));
    assert_eq!(entered(&mut sm, 2000, "start", "memory_get"), None);
    assert_eq!(sm.current(), Action::Read);
    assert_eq!(entered(&mut sm, 3000, "error", "read"), Some(Action::Error));
    assert_eq!(entered(&mut sm, 3100, "error", "read"), Some(Action::Error));
    assert_eq!(sm.current(), Action::Error);
}

fn zero_hold_machine() -> StateMachine {
    StateMachine::new(StateMachineConfig {
        min_hold_ms: 0,
        error_hold_ms: 0,
        tool_action_overrides: vec![],
    })
}

#[test]
fn running_exec_outranks_a_later_read() {
    let mut sm = zero_hold_machine();
    assert_eq!(entered(&mut sm, 1, "start", "exec"), Some(Action::Exec));
    assert_eq!(entered(&mut sm, 2, "start", "read"), None);
    assert_eq!(sm.current(), Action::Exec);
    assert_eq!(entered(&mut sm, 3, "end", "exec"), Some(Action::Read));
}

#[test]
fn write_outranks_browser_in_either_order() {
    let mut a = zero_hold_machine();
    entered(&mut a, 1, "start", "write");
    entered(&mut a, 2, "start", "browser");
    assert_eq!(a.current(), Action::Write);
    let mut b = zero_hold_machine();
    entered(&mut b, 1, "start", "browser");
    assert_eq!(b.current(), Action::Browser);
    assert_eq!(entered(&mut b, 2, "start", "write"), Some(Action::Write));
    assert_eq!(entered(&mut b, 3, "start", "web_search"), None);
    assert_eq!(entered(&mut b, 4, "end", "write"), Some(Action::Browser));
    assert_eq!(entered(&mut b, 5, "end", "browser"), Some(Action::WebSearch));
}

#[test]
fn tools_started_during_the_error_hold_are_shown_after_it() {
    let mut sm = machine(vec![]);
    assert_eq!(entered(&mut sm, 1000, "error", "exec"), Some(Action::Error));
    assert_eq!(entered(&mut sm, 1500, "start", "read"), None);
    assert_eq!(entered(&mut sm, 2500, "reply_end", ""), Some(Action::Read));
    assert_eq!(sm.current(), Action::Read);
}

#[test]
fn switches_are_at_least_the_minimum_hold_apart() {
    let mut sm = machine(vec![]);
    let mut last_change: u128 = 0;
    let events = [
        (50, "start", "read"),
        (120, "start", "exec"),
        (310, "end", "exec"),
        (400, "start", "write"),
        (650, "reply_start", "x"),
        (700, "end", "write"),
        (980, "reply_end", "x"),
        (1300, "end", "read"),
        (1600, "noop", "x"),
    ];
    let mut switches = 0;
    for (at, phase, tool) in events {
        if let Some(a) = entered(&mut sm, at, phase, tool) {
            assert!(at - last_change >= 300, "switch to {a:?} at {at}");
            assert_eq!(sm.current(), a);
            last_change = at;
            switches += 1;
        }
    }
    assert!(switches >= 3);
}

#[test]
fn reply_ranks_below_every_tool_and_above_idle() {
    let mut sm = zero_hold_machine();
    assert_eq!(entered(&mut sm, 1, "start", "read"), Some(Action::Read));
    // a reply is shown on request regardless of the running tools
    assert_eq!(entered(&mut sm, 2, "reply_start", ""), Some(Action::Reply));
    // but as a running tool it yields to any other
    let mut t = zero_hold_machine();
    assert_eq!(entered(&mut t, 1, "start", "assistant_reply"), Some(Action::Reply));
    assert_eq!(entered(&mut t, 2, "start", "read"), Some(Action::Read));
    assert_eq!(entered(&mut t, 3, "end", "read"), Some(Action::Reply));
    assert_eq!(entered(&mut t, 4, "end", "assistant_reply"), Some(Action::Idle));
}

#[test]
fn live_clock_readings_never_go_back() {
    let mut sm = machine(vec![]);
    // a time given explicitly far ahead: the live readings take it as their floor
    assert_eq!(entered(&mut sm, 10_000, "start", "read"), Some(Action::Read));
    // a live reading (a few ms after creation) is raised to 10 s, so the
    // minimum hold since the switch at 10 s has not passed
    assert!(sm.on_gateway_event(1, None, "start", "exec").is_none());
    assert_eq!(sm.current(), Action::Read);
}
