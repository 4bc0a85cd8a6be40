//! The anti-flicker state machine that turns gateway tool events into the
//! action the character shows.
//!
//! Times are nanoseconds measured from the moment the machine was created.
use vstd::prelude::*;

use crate::action::{action_for_id, priority_of, Action};
use crate::clock::{clock_now, nanos_since};
use crate::machine_laws::{lemma_anti_flicker_step, switch_timing_aligned};
use crate::pairs::{distinct_keys, find_first_key, first_value, pairs_view};
use crate::text::str_equal;

verus! {

/// The largest clock reading, in nanoseconds since the machine was created,
/// that the machine accepts (about 584 years).
pub const CLOCK_LIMIT_NS: u128 = 18446744073709551615u128;

/// Nanoseconds in one millisecond.
pub const NANOS_PER_MILLI: u128 = 1000000u128;

/// A duration in milliseconds, as nanoseconds.
pub open spec fn millis_as_nanos(ms: u64) -> int {
    ms * 1000000
}

/// Configuration of the state machine.
#[derive(Debug, Clone)]
pub struct StateMachineConfig {
    /// Minimum time an action is shown before another replaces it.
    pub min_hold_ms: u64,
    /// How long the error action is held once entered.
    pub error_hold_ms: u64,
    /// Optional overrides: tool name and action id (e.g. "feishu_doc" and "write").
    pub tool_action_overrides: Vec<(String, String)>,
}

impl StateMachineConfig {
    /// No tool has two overrides, as in a map.
    pub open spec fn wf(&self) -> bool {
        distinct_keys(pairs_view(self.tool_action_overrides@))
    }
}

/// A UI event: the action to enter.
#[derive(Debug, Clone)]
pub struct UiAnimEvent {
    pub action: Action,
    /// Always "enter".
    pub phase: &'static str,
    pub ts_ms: u64,
    pub run_id: Option<String>,
}

/// The abstract state of a machine: its configuration and its dynamic state.
pub struct MachineState {
    /// Minimum hold, in nanoseconds.
    pub min_hold: int,
    /// Error hold, in nanoseconds.
    pub error_hold: int,
    /// Tool overrides, in the order they were given.
    pub overrides: Seq<(Seq<char>, Seq<char>)>,
    pub current: Action,
    pub last_change: int,
    /// Active tools with their nesting counts, in the order first seen.
    pub active: Seq<(Seq<char>, u32)>,
    pub error_until: Option<int>,
    pub pending: Option<(Action, int)>,
}

/// The view of a list of tool counts.
pub open spec fn counts_view(v: Seq<(String, u32)>) -> Seq<(Seq<char>, u32)> {
    v.map_values(|e: (String, u32)| (e.0@, e.1))
}

/// The built-in mapping from a tool name to an action.
pub open spec fn default_tool_action(tool: Seq<char>) -> Action {
    if tool == "read"@ || tool == "memory_get"@ || tool == "memory_search"@ {
        Action::Read
    } else if tool == "write"@ || tool == "edit"@ || tool == "feishu_doc"@ {
        Action::Write
    } else if tool == "exec"@ || tool == "process"@ || tool == "gateway"@ {
        Action::Exec
    } else if tool == "web_search"@ {
        Action::WebSearch
    } else if tool == "web_fetch"@ {
        Action::WebFetch
    } else if tool == "browser"@ {
        Action::Browser
    } else if tool == "assistant_reply"@ {
        Action::Reply
    } else {
        Action::Exec
    }
}

/// The action of a tool: an override that names a valid action wins,
/// otherwise the built-in mapping applies.
pub open spec fn tool_action(overrides: Seq<(Seq<char>, Seq<char>)>, tool: Seq<char>) -> Action {
    match first_value(overrides, tool) {
        Some(id) => match action_for_id(id) {
            Some(a) => a,
            None => default_tool_action(tool),
        },
        None => default_tool_action(tool),
    }
}

/// Scan of the active tools in order, keeping the first action of strictly
/// highest priority among tools with a nonzero count; the pair is that action
/// and its priority.
pub open spec fn active_scan(
    overrides: Seq<(Seq<char>, Seq<char>)>,
    active: Seq<(Seq<char>, u32)>,
) -> (Action, u8)
    decreases active.len(),
{
    if active.len() == 0 {
        (Action::Idle, 0u8)
    } else {
        let prev = active_scan(overrides, active.drop_last());
        let e = active.last();
        if e.1 == 0 {
            prev
        } else {
            let a = tool_action(overrides, e.0);
            if priority_of(a) > prev.1 {
                (a, priority_of(a))
            } else {
                prev
            }
        }
    }
}

/// The action chosen from the active tools.
pub open spec fn chosen_action(
    overrides: Seq<(Seq<char>, Seq<char>)>,
    active: Seq<(Seq<char>, u32)>,
) -> Action {
    active_scan(overrides, active).0
}

/// Whether `tool` has an entry among the active tools.
pub open spec fn is_tracked(active: Seq<(Seq<char>, u32)>, tool: Seq<char>) -> bool {
    exists|i: int| 0 <= i < active.len() && active[i].0 == tool
}

/// The position of `tool` among the active tools, where it has one.
pub open spec fn tracked_index(active: Seq<(Seq<char>, u32)>, tool: Seq<char>) -> int {
    choose|i: int| 0 <= i < active.len() && active[i].0 == tool
}

/// The nesting count of `tool` (0 where it has no entry).
pub open spec fn count_of(active: Seq<(Seq<char>, u32)>, tool: Seq<char>) -> int {
    if is_tracked(active, tool) {
        active[tracked_index(active, tool)].1 as int
    } else {
        0
    }
}

/// The active tools after a tool starts: its count goes up by one, and a new
/// tool is added at the end with count one.
pub open spec fn with_started(active: Seq<(Seq<char>, u32)>, tool: Seq<char>) -> Seq<
    (Seq<char>, u32),
> {
    if is_tracked(active, tool) {
        let i = tracked_index(active, tool);
        active.update(i, (tool, (active[i].1 + 1) as u32))
    } else {
        active.push((tool, 1u32))
    }
}

/// The active tools after a tool ends: its count goes down by one, not below
/// zero; an unknown tool changes nothing.
pub open spec fn with_ended(active: Seq<(Seq<char>, u32)>, tool: Seq<char>) -> Seq<
    (Seq<char>, u32),
> {
    if is_tracked(active, tool) {
        let i = tracked_index(active, tool);
        let c = active[i].1;
        active.update(i, (tool, if c > 0 { (c - 1) as u32 } else { 0u32 }))
    } else {
        active
    }
}

/// Time elapsed from `last` to `now`, zero if `now` is earlier.
pub open spec fn elapsed_since(last: int, now: int) -> int {
    if now >= last {
        now - last
    } else {
        0
    }
}

/// Request to show `next` at time `now`: switch at once if the current action
/// has been shown for the minimum hold, else keep (or schedule) a delayed
/// switch, which a pending action of higher priority keeps.
pub open spec fn switch_to(s: MachineState, now: int, next: Action) -> (MachineState, Option<Action>) {
    if next == s.current {
        (MachineState { pending: None, ..s }, None)
    } else if elapsed_since(s.last_change, now) < s.min_hold {
        let due = s.last_change + s.min_hold;
        let pending = match s.pending {
            Some(p) => {
                let d = if due <= p.1 {
                    due
                } else {
                    p.1
                };
                if priority_of(next) >= priority_of(p.0) {
                    (next, d)
                } else {
                    (p.0, d)
                }
            },
            None => (next, due),
        };
        (MachineState { pending: Some(pending), ..s }, None)
    } else {
        (MachineState { pending: None, current: next, last_change: now, ..s }, Some(next))
    }
}

/// The error overlay ends once its hold has passed.
pub open spec fn expire_error(s: MachineState, now: int) -> MachineState {
    match s.error_until {
        Some(until) => if now < until {
            s
        } else {
            MachineState { error_until: None, ..s }
        },
        None => s,
    }
}

/// A delayed switch that has come due is applied (outside the error overlay).
pub open spec fn release_pending(s: MachineState, now: int) -> (MachineState, Option<Action>) {
    match s.pending {
        Some(p) => if s.error_until is None && now >= p.1 {
            let s1 = MachineState { pending: None, ..s };
            if p.0 != s.current {
                (MachineState { current: p.0, last_change: now, ..s1 }, Some(p.0))
            } else {
                (s1, None)
            }
        } else {
            (s, None)
        },
        None => (s, None),
    }
}

/// The running tools after an event: a start or an end is counted, other
/// phases leave them as they are.
pub open spec fn counted(active: Seq<(Seq<char>, u32)>, phase: Seq<char>, tool: Seq<char>) -> Seq<
    (Seq<char>, u32),
> {
    if phase == "start"@ {
        with_started(active, tool)
    } else if phase == "end"@ {
        with_ended(active, tool)
    } else {
        active
    }
}

/// The effect of the event's phase.
pub open spec fn apply_phase(s: MachineState, now: int, phase: Seq<char>, tool: Seq<char>) -> (
    MachineState,
    Option<Action>,
) {
    if phase == "start"@ {
        let s1 = MachineState { active: with_started(s.active, tool), ..s };
        if s1.error_until is None {
            switch_to(s1, now, chosen_action(s1.overrides, s1.active))
        } else {
            (s1, None)
        }
    } else if phase == "end"@ {
        let s1 = MachineState { active: with_ended(s.active, tool), ..s };
        if s1.error_until is Some {
            (s1, None)
        } else {
            switch_to(s1, now, chosen_action(s1.overrides, s1.active))
        }
    } else if phase == "error"@ {
        (
            MachineState {
                error_until: Some(now + s.error_hold),
                current: Action::Error,
                last_change: now,
                ..s
            },
            Some(Action::Error),
        )
    } else if phase == "reply_start"@ {
        if s.error_until is Some {
            (s, None)
        } else {
            switch_to(s, now, Action::Reply)
        }
    } else if phase == "reply_end"@ {
        if s.error_until is Some {
            (s, None)
        } else {
            switch_to(s, now, chosen_action(s.overrides, s.active))
        }
    } else {
        (s, None)
    }
}

/// One gateway event at time `now`: the new state, and the action entered if
/// the machine switched.
pub open spec fn step(s: MachineState, now: int, phase: Seq<char>, tool: Seq<char>) -> (
    MachineState,
    Option<Action>,
) {
    let s1 = expire_error(s, now);
    let released = release_pending(s1, now);
    if released.1 is Some {
        (MachineState { active: counted(released.0.active, phase, tool), ..released.0 }, released.1)
    } else {
        apply_phase(released.0, now, phase, tool)
    }
}

/// The UI event `r` reports the switch `switched`, stamped with the gateway
/// event's time and run id.
pub open spec fn reports(
    r: Option<UiAnimEvent>,
    switched: Option<Action>,
    ts_ms: u64,
    run_id: Option<String>,
) -> bool {
    match switched {
        Some(a) => r is Some && r->0.action == a && r->0.phase@ == "enter"@ && r->0.ts_ms == ts_ms
            && r->0.run_id == run_id,
        None => r is None,
    }
}

/// The state of a new machine with configuration `cfg`.
pub open spec fn initial_state(cfg: StateMachineConfig) -> MachineState {
    MachineState {
        min_hold: millis_as_nanos(cfg.min_hold_ms),
        error_hold: millis_as_nanos(cfg.error_hold_ms),
        overrides: pairs_view(cfg.tool_action_overrides@),
        current: Action::Idle,
        last_change: 0,
        active: Seq::empty(),
        error_until: None,
        pending: None,
    }
}

/// Tracked tools are all distinct.
pub open spec fn distinct_tools(active: Seq<(Seq<char>, u32)>) -> bool {
    forall|i: int, j: int| 0 <= i < j < active.len() ==> active[i].0 != active[j].0
}

/// The invariant of a machine's abstract state.
pub open spec fn state_wf(s: MachineState) -> bool {
    &&& distinct_tools(s.active)
    &&& distinct_keys(s.overrides)
    &&& 0 <= s.last_change <= CLOCK_LIMIT_NS
    &&& 0 <= s.min_hold <= millis_as_nanos(u64::MAX)
    &&& 0 <= s.error_hold <= millis_as_nanos(u64::MAX)
    &&& (s.error_until matches Some(u) ==> 0 <= u <= CLOCK_LIMIT_NS + s.error_hold)
    &&& (s.pending matches Some(p) ==> 0 <= p.1 <= CLOCK_LIMIT_NS + s.min_hold)
}

/// A UI event entering `action`.
fn enter_event(action: Action, ts_ms: u64, run_id: Option<String>) -> (e: UiAnimEvent)
    ensures
        e.action == action,
        e.phase@ == "enter"@,
        e.ts_ms == ts_ms,
        e.run_id == run_id,
{
    UiAnimEvent { action, phase: "enter", ts_ms, run_id }
}

pub struct StateMachine {
    cfg: StateMachineConfig,
    current: Action,
    origin: std::time::Instant,
    /// The latest clock time the machine has been given.
    last_seen: u128,
    last_change: u128,
    active: Vec<(String, u32)>,
    error_until: Option<u128>,
    pending: Option<(Action, u128)>,
}

impl View for StateMachine {
    type V = MachineState;

    closed spec fn view(&self) -> MachineState {
        MachineState {
            min_hold: millis_as_nanos(self.cfg.min_hold_ms),
            error_hold: millis_as_nanos(self.cfg.error_hold_ms),
            overrides: pairs_view(self.cfg.tool_action_overrides@),
            current: self.current,
            last_change: self.last_change as int,
            active: counts_view(self.active@),
            error_until: match self.error_until {
                Some(u) => Some(u as int),
                None => None,
            },
            pending: match self.pending {
                Some(p) => Some((p.0, p.1 as int)),
                None => None,
            },
        }
    }
}

impl StateMachine {
    /// The machine's invariant.
    pub open spec fn wf(&self) -> bool {
        &&& state_wf(self@)
        &&& self@.last_change <= self.clock_seen() <= CLOCK_LIMIT_NS
    }

    /// The latest clock time the machine has been given; the clock readings
    /// it takes itself never go below it.
    pub closed spec fn clock_seen(&self) -> int {
        self.last_seen as int
    }

    pub fn new(cfg: StateMachineConfig) -> (m: Self)
        requires
            cfg.wf(),
        ensures
            m.wf(),
            m@ == initial_state(cfg),
            m.clock_seen() == 0,
    {
        let m = StateMachine {
            cfg,
            current: Action::Idle,
            origin: clock_now(),
            last_seen: 0,
            last_change: 0,
            active: Vec::new(),
            error_until: None,
            pending: None,
        };
        proof {
            assert(counts_view(m.active@) =~= Seq::<(Seq<char>, u32)>::empty());
        }
        m
    }

    pub fn current(&self) -> (a: Action)
        ensures
            a == self@.current,
    {
        self.current
    }

    /// The action named by an identifier.
    pub fn action_from_id(id: &str) -> (r: Option<Action>)
        ensures
            r == action_for_id(id@),
    {
        if str_equal(id, "idle") {
            Some(Action::Idle)
        } else if str_equal(id, "read") {
            Some(Action::Read)
        } else if str_equal(id, "write") {
            Some(Action::Write)
        } else if str_equal(id, "exec") {
            Some(Action::Exec)
        } else if str_equal(id, "web_search") {
            Some(Action::WebSearch)
        } else if str_equal(id, "web_fetch") {
            Some(Action::WebFetch)
        } else if str_equal(id, "browser") {
            Some(Action::Browser)
        } else if str_equal(id, "reply") {
            Some(Action::Reply)
        } else if str_equal(id, "error") {
            Some(Action::Error)
        } else {
            None
        }
    }

    /// The built-in action of a tool.
    fn default_action(tool: &str) -> (a: Action)
        ensures
            a == default_tool_action(tool@),
    {
        if str_equal(tool, "read") || str_equal(tool, "memory_get") || str_equal(
            tool,
            "memory_search",
        ) {
            Action::Read
        } else if str_equal(tool, "write") || str_equal(tool, "edit") || str_equal(
            tool,
            "feishu_doc",
        ) {
            Action::Write
        } else if str_equal(tool, "exec") || str_equal(tool, "process") || str_equal(
            tool,
            "gateway",
        ) {
            Action::Exec
        } else if str_equal(tool, "web_search") {
            Action::WebSearch
        } else if str_equal(tool, "web_fetch") {
            Action::WebFetch
        } else if str_equal(tool, "browser") {
            Action::Browser
        } else if str_equal(tool, "assistant_reply") {
            Action::Reply
        } else {
            Action::Exec
        }
    }

    /// The action of a tool: a valid override first, else the built-in mapping.
    pub fn map_tool(&self, tool: &str) -> (a: Action)
        ensures
            a == tool_action(self@.overrides, tool@),
    {
        if let Some(i) = find_first_key(&self.cfg.tool_action_overrides, tool) {
            if let Some(a) = Self::action_from_id(self.cfg.tool_action_overrides[i].1.as_str()) {
                return a;
            }
        }
        Self::default_action(tool)
    }

    /// Display priority of an action.
    pub fn priority(a: Action) -> (p: u8)
        ensures
            p == priority_of(a),
    {
        match a {
            Action::Error => 100,
            Action::Exec => 80,
            Action::Write => 70,
            Action::Browser => 60,
            Action::WebSearch | Action::WebFetch => 50,
            Action::Read => 40,
            Action::Reply => 20,
            Action::Idle => 0,
        }
    }

    /// The highest-priority action among the tools that are still running.
    fn choose_action_from_active(&self) -> (a: Action)
        ensures
            a == chosen_action(self@.overrides, self@.active),
    {
        let ghost act = self@.active;
        let mut best = Action::Idle;
        let mut best_p: u8 = 0;
        let mut i: usize = 0;
        while i < self.active.len()
            invariant
                0 <= i <= self.active@.len(),
                act == counts_view(self.active@),
                act == self@.active,
                (best, best_p) == active_scan(self@.overrides, act.take(i as int)),
            decreases self.active@.len() - i,
        {
            proof {
                assert(act.take(i + 1).drop_last() =~= act.take(i as int));
            }
            let count = self.active[i].1;
            if count != 0 {
                let a = self.map_tool(self.active[i].0.as_str());
                let p = Self::priority(a);
                if p > best_p {
                    best = a;
                    best_p = p;
                }
            }
            i = i + 1;
        }
        proof {
            assert(act.take(i as int) =~= act);
        }
        best
    }

    /// Records that `tool` started.
    fn note_started(&mut self, tool: &str)
        requires
            old(self).wf(),
            count_of(old(self)@.active, tool@) < u32::MAX,
        ensures
            final(self).clock_seen() == old(self).clock_seen(),
            final(self).wf(),
            final(self)@ == (MachineState { active: with_started(old(self)@.active, tool@), ..old(self)@ }),
    {
        let ghost act = self@.active;
        match self.find_active(tool) {
            Some(i) => {
                let c = self.active[i].1;
                self.active.set(i, (tool.to_owned(), c + 1));
                proof {
                    assert(counts_view(self.active@) =~= with_started(act, tool@));
                }
            },
            None => {
                self.active.push((tool.to_owned(), 1));
                proof {
                    assert(counts_view(self.active@) =~= with_started(act, tool@));
                }
            },
        }
    }

    /// Records that `tool` ended.
    fn note_ended(&mut self, tool: &str)
        requires
            old(self).wf(),
        ensures
            final(self).clock_seen() == old(self).clock_seen(),
            final(self).wf(),
            final(self)@ == (MachineState { active: with_ended(old(self)@.active, tool@), ..old(self)@ }),
    {
        let ghost act = self@.active;
        match self.find_active(tool) {
            Some(i) => {
                let c = self.active[i].1;
                let d = if c > 0 { c - 1 } else { 0 };
                self.active.set(i, (tool.to_owned(), d));
                proof {
                    assert(counts_view(self.active@) =~= with_ended(act, tool@));
                }
            },
            None => {
                proof {
                    assert(counts_view(self.active@) =~= with_ended(act, tool@));
                }
            },
        }
    }

    /// Records that the machine has been given time `now`.
    fn observe_time(&mut self, now: u128)
        requires
            old(self).wf(),
            now <= CLOCK_LIMIT_NS,
        ensures
            final(self).wf(),
            final(self)@ == old(self)@,
            final(self).clock_seen() == if now as int > old(self).clock_seen() {
                now as int
            } else {
                old(self).clock_seen()
            },
    {
        if now > self.last_seen {
            self.last_seen = now;
        }
    }

    /// Counts a start or an end of `tool`; other phases change nothing.
    fn count_phase(&mut self, phase: &str, tool: &str)
        requires
            old(self).wf(),
            phase@ == "start"@ ==> count_of(old(self)@.active, tool@) < u32::MAX,
        ensures
            final(self).clock_seen() == old(self).clock_seen(),
            final(self).wf(),
            final(self)@ == (MachineState { active: counted(old(self)@.active, phase@, tool@), ..old(self)@ }),
    {
        if str_equal(phase, "start") {
            self.note_started(tool);
        } else if str_equal(phase, "end") {
            self.note_ended(tool);
        }
    }

    /// Switches to `next` now if the current action has been held long
    /// enough, else schedules a delayed switch.
    fn maybe_switch(&mut self, now: u128, next: Action) -> (r: Option<Action>)
        requires
            old(self).wf(),
            now <= old(self).clock_seen(),
            now <= CLOCK_LIMIT_NS,
        ensures
            final(self).clock_seen() == old(self).clock_seen(),
            final(self).wf(),
            (final(self)@, r) == switch_to(old(self)@, now as int, next),
    {
        if next == self.current {
            self.pending = None;
            return None;
        }
        let elapsed: u128 = if now >= self.last_change {
            now - self.last_change
        } else {
            0
        };
        let min_hold: u128 = (self.cfg.min_hold_ms as u128) * NANOS_PER_MILLI;
        if elapsed < min_hold {
            let due: u128 = self.last_change + min_hold;
            match self.pending {
                Some((pending_action, pending_due)) => {
                    let d: u128 = if due <= pending_due {
                        due
                    } else {
                        pending_due
                    };
                    if Self::priority(next) >= Self::priority(pending_action) {
                        self.pending = Some((next, d));
                    } else {
                        self.pending = Some((pending_action, d));
                    }
                },
                None => {
                    self.pending = Some((next, due));
                },
            }
            return None;
        }
        self.pending = None;
        self.current = next;
        self.last_change = now;
        Some(next)
    }

    /// Feeds one gateway event read at clock time `now` (nanoseconds since the
    /// machine was created). Returns the UI event if the machine switched action.
    pub fn on_gateway_event_at(
        &mut self,
        now: u128,
        ts_ms: u64,
        run_id: Option<String>,
        phase: &str,
        tool: &str,
    ) -> (r: Option<UiAnimEvent>)
        requires
            old(self).wf(),
            now <= CLOCK_LIMIT_NS,
            phase@ == "start"@ ==> count_of(old(self)@.active, tool@) < u32::MAX,
        ensures
            final(self).clock_seen() == if now as int > old(self).clock_seen() {
                now as int
            } else {
                old(self).clock_seen()
            },
            final(self).wf(),
            final(self)@ == step(old(self)@, now as int, phase@, tool@).0,
            reports(r, step(old(self)@, now as int, phase@, tool@).1, ts_ms, run_id),
    {
        self.observe_time(now);
        if let Some(next) = self.release_due(now) {
            // the event's start or end is still counted
            self.count_phase(phase, tool);
            return Some(enter_event(next, ts_ms, run_id));
        }
        match self.handle_phase(now, phase, tool) {
            Some(switched) => Some(enter_event(switched, ts_ms, run_id)),
            None => None,
        }
    }

    /// Ends the error overlay once its hold has passed, then applies a
    /// delayed switch that has come due.
    fn release_due(&mut self, now: u128) -> (r: Option<Action>)
        requires
            old(self).wf(),
            now <= old(self).clock_seen(),
        ensures
            final(self).wf(),
            final(self).clock_seen() == old(self).clock_seen(),
            (final(self)@, r) == release_pending(expire_error(old(self)@, now as int), now as int),
    {
        // error overlay handling
        if let Some(until) = self.error_until {
            if now >= until {
                self.error_until = None;
            }
        }
        // apply a pending delayed switch if it is due (and not in error hold)
        if self.error_until.is_none() {
            if let Some((next, due)) = self.pending {
                if now >= due {
                    self.pending = None;
                    if next != self.current {
                        self.current = next;
                        self.last_change = now;
                        return Some(next);
                    }
                }
            }
        }
        None
    }

    /// The effect of the event's phase; returns the action switched to.
    fn handle_phase(&mut self, now: u128, phase: &str, tool: &str) -> (r: Option<Action>)
        requires
            old(self).wf(),
            now <= old(self).clock_seen(),
            phase@ == "start"@ ==> count_of(old(self)@.active, tool@) < u32::MAX,
        ensures
            final(self).wf(),
            final(self).clock_seen() == old(self).clock_seen(),
            (final(self)@, r) == apply_phase(old(self)@, now as int, phase@, tool@),
    {
        if str_equal(phase, "start") {
            self.note_started(tool);
            // the highest-priority running tool is shown
            let desired = self.choose_action_from_active();
            if self.error_until.is_none() {
                return self.maybe_switch(now, desired);
            }
            None
        } else if str_equal(phase, "end") {
            self.note_ended(tool);
            if self.error_until.is_some() {
                return None;
            }
            let next = self.choose_action_from_active();
            self.maybe_switch(now, next)
        } else if str_equal(phase, "error") {
            // enter the error state at once, and hold it
            let hold: u128 = (self.cfg.error_hold_ms as u128) * NANOS_PER_MILLI;
            self.error_until = Some(now + hold);
            self.current = Action::Error;
            self.last_change = now;
            Some(Action::Error)
        } else if str_equal(phase, "reply_start") {
            // the reply is shown regardless of the tool stack
            if self.error_until.is_some() {
                return None;
            }
            self.maybe_switch(now, Action::Reply)
        } else if str_equal(phase, "reply_end") {
            if self.error_until.is_some() {
                return None;
            }
            let next = self.choose_action_from_active();
            self.maybe_switch(now, next)
        } else {
            None
        }
    }

    /// Feeds one gateway event, reading the clock for its time. Returns the
    /// UI event if the machine switched action. The reading is taken no
    /// earlier than the latest time the machine has been given (the clock is
    /// monotonic) and no later than `CLOCK_LIMIT_NS` (about 584 years after
    /// the machine was created).
    pub fn on_gateway_event(
        &mut self,
        ts_ms: u64,
        run_id: Option<String>,
        phase: &str,
        tool: &str,
    ) -> (r: Option<UiAnimEvent>)
        requires
            old(self).wf(),
            phase@ == "start"@ ==> count_of(old(self)@.active, tool@) < u32::MAX,
        ensures
            final(self).wf(),
            exists|now: int|
                old(self).clock_seen() <= now <= CLOCK_LIMIT_NS && final(self).clock_seen() == now
                    && final(self)@ == step(old(self)@, now, phase@, tool@).0 && reports(
                    r,
                    step(old(self)@, now, phase@, tool@).1,
                    ts_ms,
                    run_id,
                ) && (switch_timing_aligned(old(self)@) && phase@ != "error"@ && r is Some
                    ==> now - old(self)@.last_change >= old(self)@.min_hold),
    {
        let reading = nanos_since(&self.origin);
        let now: u128 = if reading > CLOCK_LIMIT_NS {
            CLOCK_LIMIT_NS
        } else if reading < self.last_seen {
            self.last_seen
        } else {
            reading
        };
        let ghost s0 = self@;
        proof {
            if switch_timing_aligned(s0) && phase@ != "error"@ {
                lemma_anti_flicker_step(s0, now as int, phase@, tool@);
            }
        }
        self.on_gateway_event_at(now, ts_ms, run_id, phase, tool)
    }

    /// The nesting count of `tool` among the active tools.
    pub fn active_count(&self, tool: &str) -> (c: u32)
        requires
            self.wf(),
        ensures
            c == count_of(self@.active, tool@),
    {
        match self.find_active(tool) {
            Some(i) => self.active[i].1,
            None => 0,
        }
    }

    /// The position of `tool` among the active tools.
    fn find_active(&self, tool: &str) -> (r: Option<usize>)
        requires
            self.wf(),
        ensures
            match r {
                Some(i) => i < self.active@.len() && is_tracked(self@.active, tool@) && tracked_index(
                    self@.active,
                    tool@,
                ) == i,
                None => !is_tracked(self@.active, tool@),
            },
    {
        let ghost act = self@.active;
        let mut i: usize = 0;
        while i < self.active.len()
            invariant
                0 <= i <= self.active@.len(),
                act == counts_view(self.active@),
                distinct_tools(act),
                forall|j: int| 0 <= j < i ==> act[j].0 != tool@,
            decreases self.active@.len() - i,
        {
            if str_equal(self.active[i].0.as_str(), tool) {
                proof {
                    assert(act[i as int].0 == tool@);
                    let k = tracked_index(act, tool@);
                    assert(act[k].0 == tool@);
                }
                return Some(i);
            }
            i = i + 1;
        }
        None
    }
}

} // verus!
