//! Non-sensitive application configuration: its defaults, the choice among
//! the configuration sources, and what the rest of the application derives
//! from it. The gateway token is never part of it.
use vstd::prelude::*;
use vstd::string::StringExecFns;

use crate::action::{action_id, action_to_str, lemma_action_ids_distinct, Action};
use crate::pairs::{
    clone_pairs, distinct_keys, find_first_key, first_value, lemma_first_value_is_map_lookup,
    pairs_view,
};
use crate::sse::SseClientConfig;
use crate::state_machine::StateMachineConfig;
use crate::text::{append_decimal, decimal};

verus! {

#[derive(Debug, Clone)]
pub struct AppConfig {
    pub gateway_port: u16,
    pub min_hold_ms: u64,
    pub error_hold_ms: u64,
    pub max_backoff_ms: u64,
    pub read_idle_timeout_ms: u64,
    pub connect_timeout_ms: u64,
    /// Window size.
    pub window_width: u32,
    pub window_height: u32,
    /// UI: show the debug status text overlay.
    pub show_status: bool,
    /// UI: initial Spine animation key. If omitted, the key of "idle" in
    /// `spine_animations` is used.
    pub initial_spine_animation: Option<String>,
    /// Internal action id and Spine animation name key.
    pub spine_animations: Vec<(String, String)>,
    /// Gateway tool name and internal action id; an additive layer over the
    /// built-in mapping.
    pub tool_action_overrides: Vec<(String, String)>,
}

pub fn default_gateway_port() -> (p: u16)
    ensures
        p == 18789,
{
    18789
}

pub fn default_min_hold_ms() -> (ms: u64)
    ensures
        ms == 300,
{
    300
}

pub fn default_error_hold_ms() -> (ms: u64)
    ensures
        ms == 1000,
{
    1000
}

pub fn default_max_backoff_ms() -> (ms: u64)
    ensures
        ms == 30000,
{
    30_000
}

pub fn default_read_idle_timeout_ms() -> (ms: u64)
    ensures
        ms == 60000,
{
    60_000
}

pub fn default_connect_timeout_ms() -> (ms: u64)
    ensures
        ms == 3000,
{
    3_000
}

pub fn default_window_width() -> (w: u32)
    ensures
        w == 320,
{
    320
}

pub fn default_window_height() -> (h: u32)
    ensures
        h == 320,
{
    320
}

pub fn default_show_status() -> (b: bool)
    ensures
        !b,
{
    false
}

/// All actions, in the order of their declaration.
pub open spec fn all_actions() -> Seq<Action> {
    seq![
        Action::Idle,
        Action::Read,
        Action::Write,
        Action::Exec,
        Action::WebSearch,
        Action::WebFetch,
        Action::Browser,
        Action::Reply,
        Action::Error,
    ]
}

/// The default Spine animation names: every action id maps to itself.
pub open spec fn default_spine_animations() -> Seq<(Seq<char>, Seq<char>)> {
    all_actions().map_values(|a: Action| (action_id(a), action_id(a)))
}

/// The default configuration.
pub open spec fn is_default_config(c: AppConfig) -> bool {
    &&& c.gateway_port == 18789
    &&& c.min_hold_ms == 300
    &&& c.error_hold_ms == 1000
    &&& c.max_backoff_ms == 30000
    &&& c.read_idle_timeout_ms == 60000
    &&& c.connect_timeout_ms == 3000
    &&& c.window_width == 320
    &&& c.window_height == 320
    &&& !c.show_status
    &&& c.initial_spine_animation is None
    &&& pairs_view(c.spine_animations@) == default_spine_animations()
    &&& c.tool_action_overrides@.len() == 0
}

/// Appends the pair (id, id) for action `a`.
fn push_identity(map: &mut Vec<(String, String)>, a: Action)
    ensures
        pairs_view(final(map)@) == pairs_view(old(map)@).push((action_id(a), action_id(a))),
{
    let id = action_to_str(a);
    map.push((id.to_owned(), id.to_owned()));
    proof {
        assert(pairs_view(map@) =~= pairs_view(old(map)@).push((action_id(a), action_id(a))));
    }
}

impl Default for AppConfig {
    fn default() -> (c: Self)
        ensures
            is_default_config(c),
            c.wf(),
    {
        // Defaults assume Spine animation names match the internal action ids.
        let mut spine_animations: Vec<(String, String)> = Vec::new();
        push_identity(&mut spine_animations, Action::Idle);
        push_identity(&mut spine_animations, Action::Read);
        push_identity(&mut spine_animations, Action::Write);
        push_identity(&mut spine_animations, Action::Exec);
        push_identity(&mut spine_animations, Action::WebSearch);
        push_identity(&mut spine_animations, Action::WebFetch);
        push_identity(&mut spine_animations, Action::Browser);
        push_identity(&mut spine_animations, Action::Reply);
        push_identity(&mut spine_animations, Action::Error);
        proof {
            assert(pairs_view(spine_animations@) =~= default_spine_animations());
            lemma_default_spine_keys_distinct();
        }
        let overrides: Vec<(String, String)> = Vec::new();
        proof {
            assert(pairs_view(overrides@) =~= Seq::<(Seq<char>, Seq<char>)>::empty());
        }
        AppConfig {
            gateway_port: default_gateway_port(),
            min_hold_ms: default_min_hold_ms(),
            error_hold_ms: default_error_hold_ms(),
            max_backoff_ms: default_max_backoff_ms(),
            read_idle_timeout_ms: default_read_idle_timeout_ms(),
            connect_timeout_ms: default_connect_timeout_ms(),
            window_width: default_window_width(),
            window_height: default_window_height(),
            show_status: default_show_status(),
            initial_spine_animation: None,
            spine_animations,
            tool_action_overrides: overrides,
        }
    }
}

/// The configuration in force, from the sources in priority order: the
/// file named by the environment, then the platform config directory, then
/// the defaults. Each argument is the configuration read and parsed from
/// that source, or `None` where the source is missing or unreadable.
pub fn select_config(explicit: Option<AppConfig>, from_config_dir: Option<AppConfig>) -> (c:
    AppConfig)
    ensures
        match explicit {
            Some(e) => c == e,
            None => match from_config_dir {
                Some(d) => c == d,
                None => is_default_config(c),
            },
        },
{
    match explicit {
        Some(e) => e,
        None => match from_config_dir {
            Some(d) => d,
            None => AppConfig::default(),
        },
    }
}

/// The Spine animation key of an action: its entry in the map, else its id.
pub open spec fn spine_key(map: Seq<(Seq<char>, Seq<char>)>, a: Action) -> Seq<char> {
    match first_value(map, action_id(a)) {
        Some(k) => k,
        None => action_id(a),
    }
}

/// The view of an optional string.
pub open spec fn opt_view(o: Option<String>) -> Option<Seq<char>> {
    match o {
        Some(s) => Some(s@),
        None => None,
    }
}

/// The initial Spine animation: the configured one, else the key of "idle".
pub open spec fn initial_spine(c: AppConfig) -> Option<Seq<char>> {
    match c.initial_spine_animation {
        Some(s) => Some(s@),
        None => first_value(pairs_view(c.spine_animations@), "idle"@),
    }
}

/// The events endpoint of the local gateway.
pub open spec fn events_url(port: u16) -> Seq<char> {
    "http://127.0.0.1:"@ + decimal(port as nat) + "/api/anim/events"@
}

impl AppConfig {
    /// Both maps have no repeated key.
    pub open spec fn wf(&self) -> bool {
        &&& distinct_keys(pairs_view(self.spine_animations@))
        &&& distinct_keys(pairs_view(self.tool_action_overrides@))
    }

    /// The Spine animation key for an action.
    pub fn spine_key_for(&self, a: Action) -> (k: String)
        ensures
            k@ == spine_key(pairs_view(self.spine_animations@), a),
    {
        let id = action_to_str(a);
        match find_first_key(&self.spine_animations, id) {
            Some(i) => self.spine_animations[i].1.clone(),
            None => id.to_owned(),
        }
    }

    /// The Spine animation the UI starts with.
    pub fn initial_spine_animation_key(&self) -> (k: Option<String>)
        ensures
            opt_view(k) == initial_spine(*self),
    {
        match &self.initial_spine_animation {
            Some(s) => Some(s.clone()),
            None => match find_first_key(&self.spine_animations, "idle") {
                Some(i) => Some(self.spine_animations[i].1.clone()),
                None => None,
            },
        }
    }

    /// The URL of the gateway's event stream.
    pub fn events_url(&self) -> (u: String)
        ensures
            u@ == events_url(self.gateway_port),
    {
        let mut u = String::new();
        u.append("http://127.0.0.1:");
        append_decimal(&mut u, self.gateway_port);
        u.append("/api/anim/events");
        u
    }

    /// The state machine's configuration.
    pub fn state_machine_config(&self) -> (m: StateMachineConfig)
        requires
            self.wf(),
        ensures
            m.wf(),
            m.min_hold_ms == self.min_hold_ms,
            m.error_hold_ms == self.error_hold_ms,
            m.tool_action_overrides@ == self.tool_action_overrides@,
    {
        StateMachineConfig {
            min_hold_ms: self.min_hold_ms,
            error_hold_ms: self.error_hold_ms,
            tool_action_overrides: clone_pairs(&self.tool_action_overrides),
        }
    }

    /// The SSE client's configuration, with the token the caller obtained.
    pub fn sse_client_config(&self, bearer_token: String) -> (s: SseClientConfig)
        ensures
            s.url@ == events_url(self.gateway_port),
            s.bearer_token == bearer_token,
            s.connect_timeout_ms == self.connect_timeout_ms,
            s.read_idle_timeout_ms == self.read_idle_timeout_ms,
            s.max_backoff_ms == self.max_backoff_ms,
    {
        SseClientConfig {
            url: self.events_url(),
            bearer_token,
            connect_timeout_ms: self.connect_timeout_ms,
            read_idle_timeout_ms: self.read_idle_timeout_ms,
            max_backoff_ms: self.max_backoff_ms,
        }
    }
}

/// A configured initial animation is the one the UI starts with, whatever
/// the Spine map holds; without one, the UI starts with the map's entry for
/// "idle" (in a map without repeated keys, wherever it stands), or with none
/// if the map has no such entry.
pub proof fn lemma_initial_spine_choice(c: AppConfig)
    requires
        c.wf(),
    ensures
        c.initial_spine_animation matches Some(s) ==> initial_spine(c) == Some(s@),
        c.initial_spine_animation is None ==> forall|i: int|
            0 <= i < c.spine_animations@.len() && #[trigger] c.spine_animations@[i].0@ == "idle"@
                ==> initial_spine(c) == Some(c.spine_animations@[i].1@),
        c.initial_spine_animation is None && (forall|i: int|
            0 <= i < c.spine_animations@.len() ==> #[trigger] c.spine_animations@[i].0@ != "idle"@)
            ==> initial_spine(c) is None,
{
    let m = pairs_view(c.spine_animations@);
    lemma_first_value_is_map_lookup(m, "idle"@);
    assert forall|i: int|
        0 <= i < c.spine_animations@.len() && #[trigger] c.spine_animations@[i].0@ == "idle"@
            implies first_value(m, "idle"@) == Some(c.spine_animations@[i].1@) by {
        assert(m[i] == (c.spine_animations@[i].0@, c.spine_animations@[i].1@));
    }
    if forall|i: int|
        0 <= i < c.spine_animations@.len() ==> #[trigger] c.spine_animations@[i].0@ != "idle"@ {
        assert forall|i: int| 0 <= i < m.len() implies #[trigger] m[i].0 != "idle"@ by {
            assert(m[i] == (c.spine_animations@[i].0@, c.spine_animations@[i].1@));
        }
    }
}

/// The Spine key of an action is the map's entry for its id (in a map
/// without repeated keys, wherever it stands), else the id itself.
pub proof fn lemma_spine_key_choice(c: AppConfig, a: Action)
    requires
        c.wf(),
    ensures
        forall|i: int|
            0 <= i < c.spine_animations@.len() && #[trigger] c.spine_animations@[i].0@ == action_id(a)
                ==> spine_key(pairs_view(c.spine_animations@), a) == c.spine_animations@[i].1@,
        (forall|i: int|
            0 <= i < c.spine_animations@.len() ==> #[trigger] c.spine_animations@[i].0@ != action_id(
                a,
            )) ==> spine_key(pairs_view(c.spine_animations@), a) == action_id(a),
{
    let m = pairs_view(c.spine_animations@);
    lemma_first_value_is_map_lookup(m, action_id(a));
    assert forall|i: int|
        0 <= i < c.spine_animations@.len() && #[trigger] c.spine_animations@[i].0@ == action_id(a)
            implies first_value(m, action_id(a)) == Some(c.spine_animations@[i].1@) by {
        assert(m[i] == (c.spine_animations@[i].0@, c.spine_animations@[i].1@));
    }
    if forall|i: int|
        0 <= i < c.spine_animations@.len() ==> #[trigger] c.spine_animations@[i].0@ != action_id(a) {
        assert forall|i: int| 0 <= i < m.len() implies #[trigger] m[i].0 != action_id(a) by {
            assert(m[i] == (c.spine_animations@[i].0@, c.spine_animations@[i].1@));
        }
    }
}

/// With the default map, every action's Spine key is its own id.
pub proof fn lemma_default_spine_is_identity(a: Action)
    ensures
        spine_key(default_spine_animations(), a) == action_id(a),
{
    let m = default_spine_animations();
    lemma_identity_pairs_lookup(m, action_id(a));
    let i: int = match a {
        Action::Idle => 0,
        Action::Read => 1,
        Action::Write => 2,
        Action::Exec => 3,
        Action::WebSearch => 4,
        Action::WebFetch => 5,
        Action::Browser => 6,
        Action::Reply => 7,
        Action::Error => 8,
    };
    assert(m[i].0 == action_id(a));
}

/// In a list whose pairs map each key to itself, a key that occurs maps to
/// itself.
proof fn lemma_identity_pairs_lookup(m: Seq<(Seq<char>, Seq<char>)>, key: Seq<char>)
    requires
        forall|i: int| 0 <= i < m.len() ==> #[trigger] m[i].0 == m[i].1,
    ensures
        (exists|i: int| 0 <= i < m.len() && m[i].0 == key) ==> first_value(m, key) == Some(key),
        (forall|i: int| 0 <= i < m.len() ==> m[i].0 != key) ==> first_value(m, key) is None,
    decreases m.len(),
{
    if m.len() > 0 {
        let rest = m.drop_first();
        assert forall|i: int| 0 <= i < rest.len() implies #[trigger] rest[i].0 == rest[i].1 by {
            assert(rest[i] == m[i + 1]);
        }
        lemma_identity_pairs_lookup(rest, key);
        if m[0].0 != key {
            if exists|i: int| 0 <= i < m.len() && m[i].0 == key {
                let i = choose|i: int| 0 <= i < m.len() && m[i].0 == key;
                assert(rest[i - 1] == m[i]);
            }
            if forall|i: int| 0 <= i < m.len() ==> m[i].0 != key {
                assert forall|i: int| 0 <= i < rest.len() implies rest[i].0 != key by {
                    assert(rest[i] == m[i + 1]);
                }
            }
        }
    }
}

/// The default Spine map repeats no key.
proof fn lemma_default_spine_keys_distinct()
    ensures
        distinct_keys(default_spine_animations()),
{
    let m = default_spine_animations();
    let acts = all_actions();
    assert forall|i: int, j: int| 0 <= i < j < m.len() implies m[i].0 != m[j].0 by {
        assert(m[i].0 == action_id(acts[i]));
        assert(m[j].0 == action_id(acts[j]));
        assert(acts[i] != acts[j]);
        lemma_action_ids_distinct(acts[i], acts[j]);
    }
}

} // verus!
