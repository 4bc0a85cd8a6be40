use openclaw_anim::action::Action;
use openclaw_anim::config::{
    default_connect_timeout_ms, default_error_hold_ms, default_gateway_port, default_max_backoff_ms,
    default_min_hold_ms, default_read_idle_timeout_ms, default_show_status, default_window_height,
    default_window_width, select_config, AppConfig,
};
use openclaw_anim::token::{env_token, settings_token};
use openclaw_anim::text::{is_blank, is_white_space};

#[test]
fn default_values() {
    assert_eq!(default_gateway_port(), 18789);
    assert_eq!(default_min_hold_ms(), 300);
    assert_eq!(default_error_hold_ms(), 1000);
    assert_eq!(default_max_backoff_ms(), 30000);
    assert_eq!(default_read_idle_timeout_ms(), 60000);
    assert_eq!(default_connect_timeout_ms(), 3000);
    assert_eq!(default_window_width(), 320);
    assert_eq!(default_window_height(), 320);
    assert!(!default_show_status());
    let c = AppConfig::default();
    assert_eq!(c.gateway_port, 18789);
    assert_eq!(c.min_hold_ms, 300);
    assert_eq!(c.error_hold_ms, 1000);
    assert_eq!(c.max_backoff_ms, 30000);
    assert_eq!(c.read_idle_timeout_ms, 60000);
    assert_eq!(c.connect_timeout_ms, 3000);
    assert_eq!(c.window_width, 320);
    assert_eq!(c.window_height, 320);
    assert!(!c.show_status);
    assert_eq!(c.initial_spine_animation, None);
    assert!(c.tool_action_overrides.is_empty());
    let ids = ["idle", "read", "write", "exec", "web_search", "web_fetch", "browser", "reply", "error"];
    assert_eq!(c.spine_animations.len(), ids.len());
    for (pair, id) in c.spine_animations.iter().zip(ids.iter()) {
        assert_eq!(pair.0, *id);
        assert_eq!(pair.1, *id);
    }
}

#[test]
fn default_spine_keys_are_action_ids() {
    let c = AppConfig::default();
    assert_eq!(c.spine_key_for(Action::Idle), "idle");
    assert_eq!(c.spine_key_for(Action::WebSearch), "web_search");
    assert_eq!(c.spine_key_for(Action::Reply), "reply");
    assert_eq!(c.initial_spine_animation_key(), Some("idle".to_string()));
}

#[test]
fn configured_spine_keys() {
    let mut c = AppConfig::default();
    c.spine_animations = vec![
        ("web_search".to_string(), "search".to_string()),
        ("reply".to_string(), "talk".to_string()),
    ];
    assert_eq!(c.spine_key_for(Action::WebSearch), "search");
    assert_eq!(c.spine_key_for(Action::Reply), "talk");
    assert_eq!(c.spine_key_for(Action::Error), "error");
    assert_eq!(c.initial_spine_animation_key(), None);
    c.initial_spine_animation = Some("emotes/just-right".to_string());
    assert_eq!(c.initial_spine_animation_key(), Some("emotes/just-right".to_string()));
}

#[test]
fn events_url_uses_the_port() {
    let mut c = AppConfig::default();
    assert_eq!(c.events_url(), "http://127.0.0.1:18789/api/anim/events");
    c.gateway_port = 0;
    assert_eq!(c.events_url(), "http://127.0.0.1:0/api/anim/events");
    c.gateway_port = 65535;
    assert_eq!(c.events_url(), "http://127.0.0.1:65535/api/anim/events");
    c.gateway_port = 8;
    assert_eq!(c.events_url(), "http://127.0.0.1:8/api/anim/events");
}

#[test]
fn derived_configurations() {
    let mut c = AppConfig::default();
    c.tool_action_overrides = vec![("tts".to_string(), "reply".to_string())];
    c.max_backoff_ms = 1234;
    let m = c.state_machine_config();
    assert_eq!(m.min_hold_ms, 300);
    assert_eq!(m.error_hold_ms, 1000);
    assert_eq!(m.tool_action_overrides, vec![("tts".to_string(), "reply".to_string())]);
    let s = c.sse_client_config("tok".to_string());
    assert_eq!(s.url, "http://127.0.0.1:18789/api/anim/events");
    assert_eq!(s.bearer_token, "tok");
    assert_eq!(s.connect_timeout_ms, 3000);
    assert_eq!(s.read_idle_timeout_ms, 60000);
    assert_eq!(s.max_backoff_ms, 1234);
}

#[test]
fn config_sources_in_priority_order() {
    let mut a = AppConfig::default();
    a.gateway_port = 1;
    let mut b = AppConfig::default();
    b.gateway_port = 2;
    let both = select_config(Some(a.clone()), Some(b.clone()));
    assert_eq!(both.gateway_port, 1);
    let dir_only = select_config(None, Some(b));
    assert_eq!(dir_only.gateway_port, 2);
    let none = select_config(None, None);
    assert_eq!(none.gateway_port, 18789);
}

#[test]
fn environment_token() {
    assert_eq!(env_token(Some("tok".to_string())), Some("tok".to_string()));
    assert_eq!(env_token(Some(" tok ".to_string())), Some(" tok ".to_string()));
    assert_eq!(env_token(Some("".to_string())), None);
    assert_eq!(env_token(Some(" \t\n".to_string())), None);
    assert_eq!(env_token(Some("\u{3000}\u{a0}".to_string())), None);
    assert_eq!(env_token(None), None);
}

#[test]
fn blank_strings() {
    assert!(is_blank(""));
    assert!(is_blank("  \r\n\t"));
    assert!(is_blank("\u{2028}"));
    assert!(!is_blank(" a "));
    assert!(!is_blank("x"));
}

#[test]
fn token_from_settings_text() {
    assert_eq!(
        settings_token("{\"gateway\":{\"auth\":{\"token\":\"SECRET-REDACTED\"}},\"x\":1}"),
        Some("SECRET-REDACTED".to_string())
    );
    assert_eq!(settings_token("{\"gateway\":{\"auth\":{\"token\":7}}}"), None);
    assert_eq!(settings_token("{\"gateway\":{\"auth\":{}}}"), None);
    assert_eq!(settings_token("{\"gateway\":null}"), None);
    assert_eq!(settings_token("[1,2]"), None);
    assert_eq!(settings_token("not json"), None);
}

#[test]
fn white_space_matches_std() {
    for c in (0u32..=0x10FFFF).filter_map(char::from_u32) {
        assert_eq!(is_white_space(c), c.is_whitespace(), "char U+{:04X}", c as u32);
    }
}
