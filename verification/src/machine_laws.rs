//! Laws of the state machine, stated over the abstract step of
//! `state_machine`.
use vstd::prelude::*;

use crate::action::{priority_of, Action};
use crate::state_machine::{
    active_scan, chosen_action, count_of, counted, distinct_tools, is_tracked, step, switch_to,
    initial_state, tool_action, tracked_index, with_ended, with_started, MachineState,
    StateMachineConfig,
};

verus! {

/// When several tools run at once, the action shown is one of highest
/// priority among the tools still running, and it is `Idle` only when no
/// running tool has a higher priority than `Idle`.
pub proof fn lemma_chosen_is_highest(
    overrides: Seq<(Seq<char>, Seq<char>)>,
    active: Seq<(Seq<char>, u32)>,
)
    ensures
        priority_of(chosen_action(overrides, active)) == active_scan(overrides, active).1,
        forall|i: int|
            0 <= i < active.len() && active[i].1 > 0 ==> priority_of(
                #[trigger] tool_action(overrides, active[i].0),
            ) <= priority_of(chosen_action(overrides, active)),
        chosen_action(overrides, active) == Action::Idle || exists|i: int|
            0 <= i < active.len() && active[i].1 > 0 && #[trigger] tool_action(overrides, active[i].0)
                == chosen_action(overrides, active),
    decreases active.len(),
{
    if active.len() > 0 {
        let prev = active.drop_last();
        lemma_chosen_is_highest(overrides, prev);
        let n = active.len() - 1;
        assert forall|i: int|
            0 <= i < active.len() && active[i].1 > 0 implies priority_of(
            #[trigger] tool_action(overrides, active[i].0),
        ) <= priority_of(chosen_action(overrides, active)) by {
            if i < n {
                assert(active[i] == prev[i]);
            }
        }
        if chosen_action(overrides, active) != Action::Idle {
            if chosen_action(overrides, active) == chosen_action(overrides, prev)
                && active_scan(overrides, active) == active_scan(overrides, prev) {
                let j = choose|j: int|
                    0 <= j < prev.len() && prev[j].1 > 0 && #[trigger] tool_action(
                        overrides,
                        prev[j].0,
                    ) == chosen_action(overrides, prev);
                assert(active[j] == prev[j]);
            } else {
                assert(tool_action(overrides, active[n].0) == chosen_action(overrides, active));
            }
        }
    }
}

/// With no tool running, the action chosen from the active tools is `Idle`.
pub proof fn lemma_nothing_running_is_idle(
    overrides: Seq<(Seq<char>, Seq<char>)>,
    active: Seq<(Seq<char>, u32)>,
)
    requires
        forall|i: int| 0 <= i < active.len() ==> #[trigger] active[i].1 == 0,
    ensures
        chosen_action(overrides, active) == Action::Idle,
{
    lemma_chosen_is_highest(overrides, active);
}

/// A tool's start raises its nesting count by one and its end lowers it by
/// one (not below zero); the counts of other tools do not change, and no tool
/// is tracked twice.
pub proof fn lemma_start_end_counts(
    active: Seq<(Seq<char>, u32)>,
    tool: Seq<char>,
    other: Seq<char>,
)
    requires
        distinct_tools(active),
        count_of(active, tool) < u32::MAX,
    ensures
        distinct_tools(with_started(active, tool)),
        distinct_tools(with_ended(active, tool)),
        count_of(with_started(active, tool), tool) == count_of(active, tool) + 1,
        count_of(with_ended(active, tool), tool) == if count_of(active, tool) > 0 {
            count_of(active, tool) - 1
        } else {
            0
        },
        other != tool ==> count_of(with_started(active, tool), other) == count_of(active, other),
        other != tool ==> count_of(with_ended(active, tool), other) == count_of(active, other),
{
    let s = with_started(active, tool);
    let e = with_ended(active, tool);
    if is_tracked(active, tool) {
        let i = tracked_index(active, tool);
        assert(s[i].0 == tool);
        assert(e[i].0 == tool);
        let si = tracked_index(s, tool);
        let ei = tracked_index(e, tool);
        assert(si == i);
        assert(ei == i);
        if is_tracked(active, other) && other != tool {
            let k = tracked_index(active, other);
            assert(s[k].0 == other);
            assert(e[k].0 == other);
            assert(tracked_index(s, other) == k);
            assert(tracked_index(e, other) == k);
        }
        if !is_tracked(active, other) && other != tool {
            assert forall|j: int| 0 <= j < s.len() implies s[j].0 != other by {
                if j != i {
                    assert(s[j] == active[j]);
                }
            }
            assert forall|j: int| 0 <= j < e.len() implies e[j].0 != other by {
                if j != i {
                    assert(e[j] == active[j]);
                }
            }
        }
    } else {
        let n = active.len() as int;
        assert(s[n].0 == tool);
        assert(tracked_index(s, tool) == n);
        if is_tracked(active, other) && other != tool {
            let k = tracked_index(active, other);
            assert(s[k].0 == other);
            assert(tracked_index(s, other) == k);
        }
        if !is_tracked(active, other) && other != tool {
            assert forall|j: int| 0 <= j < s.len() implies s[j].0 != other by {
                if j != n {
                    assert(s[j] == active[j]);
                }
            }
        }
    }
}

/// During the error hold, any event other than another error produces no
/// UI event and leaves the shown action, its time, the hold and the delayed
/// switch as they were; its start or end is still counted among the running
/// tools.
pub proof fn lemma_error_hold_blocks(s: MachineState, now: int, phase: Seq<char>, tool: Seq<char>)
    requires
        s.error_until matches Some(u) && now < u,
        phase != "error"@,
    ensures
        step(s, now, phase, tool).1 is None,
        step(s, now, phase, tool).0.current == s.current,
        step(s, now, phase, tool).0.last_change == s.last_change,
        step(s, now, phase, tool).0.error_until == s.error_until,
        step(s, now, phase, tool).0.pending == s.pending,
        step(s, now, phase, tool).0.active == counted(s.active, phase, tool),
{
}

/// An error event enters the error action at once and holds it for the
/// error hold, unless a delayed switch that had come due is released first.
pub proof fn lemma_error_enters_at_once(s: MachineState, now: int, tool: Seq<char>)
    requires
        !(s.pending matches Some(p) && now >= p.1 && p.0 != s.current && (s.error_until is None
            || now >= s.error_until->0)),
    ensures
        step(s, now, "error"@, tool).1 == Some(Action::Error),
        step(s, now, "error"@, tool).0.current == Action::Error,
        step(s, now, "error"@, tool).0.last_change == now,
        step(s, now, "error"@, tool).0.error_until == Some(now + s.error_hold),
{
    reveal_strlit("error");
    reveal_strlit("start");
    reveal_strlit("end");
    assert("error"@[0] != "start"@[0]);
    assert("error"@.len() != "end"@.len());
}

/// Anti-flicker: before the minimum hold has passed since the last change,
/// and before any delayed switch is due, no event but an error switches the
/// shown action.
pub proof fn lemma_min_hold_blocks(s: MachineState, now: int, phase: Seq<char>, tool: Seq<char>)
    requires
        s.last_change <= now < s.last_change + s.min_hold,
        s.pending matches Some(p) ==> now < p.1,
        phase != "error"@,
    ensures
        step(s, now, phase, tool).1 is None,
        step(s, now, phase, tool).0.current == s.current,
{
}

/// A delayed switch is released by the first event at or after its due
/// time, outside the error hold: the machine enters the pending action,
/// whatever the event; a start or an end in that event is still counted.
pub proof fn lemma_pending_released_when_due(
    s: MachineState,
    now: int,
    phase: Seq<char>,
    tool: Seq<char>,
)
    requires
        s.pending matches Some(p) && now >= p.1 && p.0 != s.current,
        s.error_until matches Some(u) ==> now >= u,
    ensures
        step(s, now, phase, tool).1 == Some(s.pending.unwrap().0),
        step(s, now, phase, tool).0 == (MachineState {
            current: s.pending.unwrap().0,
            last_change: now,
            pending: None,
            error_until: None,
            active: counted(s.active, phase, tool),
            ..s
        }),
{
}

/// A request made before the minimum hold has passed never lowers the
/// priority of the pending switch: the pending action becomes the requested
/// one if its priority is at least that of the pending one, else stays.
pub proof fn lemma_pending_keeps_priority(s: MachineState, now: int, next: Action)
    requires
        next != s.current,
        now >= s.last_change,
        now - s.last_change < s.min_hold,
    ensures
        switch_to(s, now, next).1 is None,
        switch_to(s, now, next).0.pending is Some,
        s.pending matches Some(p) ==> priority_of(switch_to(s, now, next).0.pending.unwrap().0)
            >= priority_of(p.0),
        priority_of(switch_to(s, now, next).0.pending.unwrap().0) >= priority_of(next) || (
        s.pending matches Some(p) && priority_of(p.0) > priority_of(next)
            && switch_to(s, now, next).0.pending.unwrap().0 == p.0),
        switch_to(s, now, next).0.pending.unwrap().1 <= s.last_change + s.min_hold,
{
}

/// Whenever a UI event is sent, it names the action the machine now shows.
pub proof fn lemma_reported_action_is_current(
    s: MachineState,
    now: int,
    phase: Seq<char>,
    tool: Seq<char>,
)
    requires
        step(s, now, phase, tool).1 is Some,
    ensures
        step(s, now, phase, tool).0.current == step(s, now, phase, tool).1->0,
{
}

/// A UI event is sent only when the shown action changes, except for an
/// error, which is always reported.
pub proof fn lemma_only_changes_are_reported(
    s: MachineState,
    now: int,
    phase: Seq<char>,
    tool: Seq<char>,
)
    requires
        step(s, now, phase, tool).1 is Some,
        phase != "error"@,
    ensures
        step(s, now, phase, tool).1->0 != s.current,
{
}

/// A call that reports nothing leaves the shown action as it was.
pub proof fn lemma_silent_step_keeps_current(
    s: MachineState,
    now: int,
    phase: Seq<char>,
    tool: Seq<char>,
)
    requires
        step(s, now, phase, tool).1 is None,
    ensures
        step(s, now, phase, tool).0.current == s.current,
{
}

/// A step never changes the configuration part of the state.
pub proof fn lemma_step_keeps_config(s: MachineState, now: int, phase: Seq<char>, tool: Seq<char>)
    ensures
        step(s, now, phase, tool).0.min_hold == s.min_hold,
        step(s, now, phase, tool).0.error_hold == s.error_hold,
        step(s, now, phase, tool).0.overrides == s.overrides,
{
}

/// Outside any error, a delayed switch is always due exactly one minimum
/// hold after the last change.
pub open spec fn switch_timing_aligned(s: MachineState) -> bool {
    &&& s.error_until is None
    &&& (s.pending matches Some(p) ==> p.1 == s.last_change + s.min_hold)
}

/// A new machine's timing is aligned.
pub proof fn lemma_initial_aligned(cfg: StateMachineConfig)
    ensures
        switch_timing_aligned(initial_state(cfg)),
{
}

/// Anti-flicker, one step: with aligned timing and a clock that has not gone
/// back, an event other than an error switches only when at least the
/// minimum hold has passed since the last change, whether the switch is
/// direct or a delayed one; the last change moves to the time of the switch,
/// and the timing stays aligned.
pub proof fn lemma_anti_flicker_step(s: MachineState, now: int, phase: Seq<char>, tool: Seq<char>)
    requires
        switch_timing_aligned(s),
        phase != "error"@,
        now >= s.last_change,
    ensures
        switch_timing_aligned(step(s, now, phase, tool).0),
        step(s, now, phase, tool).0.min_hold == s.min_hold,
        step(s, now, phase, tool).1 is Some ==> now - s.last_change >= s.min_hold,
        step(s, now, phase, tool).0.last_change == if step(s, now, phase, tool).1 is Some {
            now
        } else {
            s.last_change
        },
{
}

/// A gateway event as the machine sees it: clock time, phase and tool.
pub type TimedEvent = (int, Seq<char>, Seq<char>);

/// The state after a sequence of events.
pub open spec fn run_events(s: MachineState, evs: Seq<TimedEvent>) -> MachineState
    decreases evs.len(),
{
    if evs.len() == 0 {
        s
    } else {
        let e = evs.last();
        step(run_events(s, evs.drop_last()), e.0, e.1, e.2).0
    }
}

/// What the `i`-th event of a sequence reports.
pub open spec fn report_at(s: MachineState, evs: Seq<TimedEvent>, i: int) -> Option<Action> {
    step(run_events(s, evs.take(i)), evs[i].0, evs[i].1, evs[i].2).1
}

/// The last action reported over a sequence of events, if any.
pub open spec fn last_report(s: MachineState, evs: Seq<TimedEvent>) -> Option<Action>
    decreases evs.len(),
{
    if evs.len() == 0 {
        None
    } else {
        let e = evs.last();
        match step(run_events(s, evs.drop_last()), e.0, e.1, e.2).1 {
            Some(a) => Some(a),
            None => last_report(s, evs.drop_last()),
        }
    }
}

/// Every change of the shown action is reported: after any sequence of
/// events, the shown action is the last one reported, or the starting one if
/// nothing was reported.
pub proof fn lemma_current_is_last_reported(s: MachineState, evs: Seq<TimedEvent>)
    ensures
        run_events(s, evs).current == match last_report(s, evs) {
            Some(a) => a,
            None => s.current,
        },
    decreases evs.len(),
{
    if evs.len() > 0 {
        lemma_current_is_last_reported(s, evs.drop_last());
        let e = evs.last();
        let prev = run_events(s, evs.drop_last());
        if step(prev, e.0, e.1, e.2).1 is Some {
            lemma_reported_action_is_current(prev, e.0, e.1, e.2);
        } else {
            lemma_silent_step_keeps_current(prev, e.0, e.1, e.2);
        }
    }
}

/// Anti-flicker over a run: when no event is an error and the clock never
/// goes back, every switch comes at least one minimum hold after the
/// previous change of the shown action (or the start of the run), including
/// delayed switches.
pub proof fn lemma_anti_flicker(s: MachineState, evs: Seq<TimedEvent>)
    requires
        switch_timing_aligned(s),
        forall|i: int| 0 <= i < evs.len() ==> #[trigger] evs[i].1 != "error"@,
        forall|i: int| 0 <= i < evs.len() ==> s.last_change <= #[trigger] evs[i].0,
        forall|i: int, j: int| 0 <= i <= j < evs.len() ==> #[trigger] evs[i].0 <= #[trigger] evs[j].0,
    ensures
        forall|i: int|
            0 <= i < evs.len() && #[trigger] report_at(s, evs, i) is Some ==> evs[i].0 - run_events(
                s,
                evs.take(i),
            ).last_change >= s.min_hold,
{
    assert forall|i: int|
        0 <= i < evs.len() && #[trigger] report_at(s, evs, i) is Some implies evs[i].0 - run_events(
        s,
        evs.take(i),
    ).last_change >= s.min_hold by {
        lemma_anti_flicker_prefix(s, evs, i);
        lemma_anti_flicker_step(run_events(s, evs.take(i)), evs[i].0, evs[i].1, evs[i].2);
    }
}

/// After the first `k` events of such a run, the timing is aligned, the
/// minimum hold is unchanged, and the last change lies no later than any
/// event still to come.
proof fn lemma_anti_flicker_prefix(s: MachineState, evs: Seq<TimedEvent>, k: int)
    requires
        switch_timing_aligned(s),
        forall|i: int| 0 <= i < evs.len() ==> #[trigger] evs[i].1 != "error"@,
        forall|i: int| 0 <= i < evs.len() ==> s.last_change <= #[trigger] evs[i].0,
        forall|i: int, j: int| 0 <= i <= j < evs.len() ==> #[trigger] evs[i].0 <= #[trigger] evs[j].0,
        0 <= k <= evs.len(),
    ensures
        switch_timing_aligned(run_events(s, evs.take(k))),
        run_events(s, evs.take(k)).min_hold == s.min_hold,
        forall|i: int| k <= i < evs.len() ==> run_events(s, evs.take(k)).last_change <= #[trigger] evs[i].0,
    decreases k,
{
    if k == 0 {
        assert(evs.take(0) =~= Seq::<TimedEvent>::empty());
    } else {
        lemma_anti_flicker_prefix(s, evs, k - 1);
        let prefix = evs.take(k);
        assert(prefix.drop_last() =~= evs.take(k - 1));
        assert(prefix.last() == evs[k - 1]);
        let prev = run_events(s, evs.take(k - 1));
        let e = evs[k - 1];
        assert(e.1 != "error"@);
        assert(prev.last_change <= e.0);
        lemma_anti_flicker_step(prev, e.0, e.1, e.2);
        assert forall|i: int| k <= i < evs.len() implies run_events(s, evs.take(k)).last_change
            <= #[trigger] evs[i].0 by {
            assert(evs[k - 1].0 <= evs[i].0);
        }
    }
}

/// A start, outside the error hold (or once it has passed), with no delayed
/// switch and the minimum hold elapsed since the last change, shows at once
/// the highest-priority running tool, counting the one just started,
/// whenever that differs from what is shown.
pub proof fn lemma_start_switches_to_running_choice(
    s: MachineState,
    now: int,
    tool: Seq<char>,
)
    requires
        s.error_until matches Some(u) ==> now >= u,
        s.pending is None,
        now >= s.last_change,
        now - s.last_change >= s.min_hold,
        chosen_action(s.overrides, with_started(s.active, tool)) != s.current,
    ensures
        step(s, now, "start"@, tool).1 == Some(chosen_action(s.overrides, with_started(s.active, tool))),
        step(s, now, "start"@, tool).0.current == chosen_action(s.overrides, with_started(s.active, tool)),
        step(s, now, "start"@, tool).0.last_change == now,
        step(s, now, "start"@, tool).0.active == with_started(s.active, tool),
{
}

} // verus!
