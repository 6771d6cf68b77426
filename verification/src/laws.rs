//! What holds of the compiler and of the engine on every input, stated
//! over their models and proved.

use crate::action::ActionView;
use crate::compile::{compiled, loads, same_verdict};
use crate::config::{
    ComponentConfigView, ComponentKindView, ConfigError, ScoreboardConfig, ScoreboardConfigView,
    single_line, sorted_by_id,
};
use crate::document::{Node, toml_document};
use crate::lookup::{KindTag, find_component, is_first_answer};
use crate::state::{
    RuntimeError, RuntimeStateView, fresh_labels, fresh_numbers, fresh_timers, fresh_toggles,
    turned,
};
use crate::text::{lemma_precedes_irreflexive, signed_decimal};
use crate::timer::{TimerRuntime, elapsed_ms, stopped_at, ticked, timer_text};
use vstd::prelude::*;

verus! {

/// Two results agree: both are schemas with the same view, or both are
/// errors with the same view.
pub open spec fn same_result(
    a: Result<ScoreboardConfig, ConfigError>,
    b: Result<ScoreboardConfig, ConfigError>,
) -> bool {
    match a {
        Ok(x) => b matches Ok(y) && x@ == y@,
        Err(e) => b matches Err(f) && e@ == f@,
    }
}

/// Compiling is deterministic: two results for the same document and the
/// same base directory hold the same components in the same order, with
/// the same fields.
pub proof fn law_compile_document_deterministic(
    doc: Node,
    base: Seq<char>,
    a: Result<ScoreboardConfig, ConfigError>,
    b: Result<ScoreboardConfig, ConfigError>,
)
    requires
        same_verdict(a, compiled(doc, base)),
        same_verdict(b, compiled(doc, base)),
    ensures
        same_result(a, b),
{
}

/// The same of a text that is well-formed TOML: two results of loading it
/// against the same base directory agree.
pub proof fn law_load_deterministic(
    content: Seq<char>,
    base: Seq<char>,
    a: Result<ScoreboardConfig, ConfigError>,
    b: Result<ScoreboardConfig, ConfigError>,
)
    requires
        toml_document(content) is Some,
        loads(a, content, base),
        loads(b, content, base),
    ensures
        same_result(a, b),
{
}

/// A counter at zero stays at zero when it is decreased, and no change is
/// reported.
pub proof fn law_decrease_at_zero(s: RuntimeStateView, id: Seq<char>, now: u128)
    requires
        s.numbers.contains_key(id),
        s.numbers[id] == 0,
    ensures
        s.after(ActionView::NumberDecrease { id }, now) == s,
        !s.changes(ActionView::NumberDecrease { id }, now),
{
    let action = ActionView::NumberDecrease { id };
    assert(s.number_after(action) == Some(0i32));
    assert(s.numbers.insert(id, 0i32) =~= s.numbers);
}

/// A stopped timer with nothing left does not start: it stays as it is,
/// and no change is reported.
pub proof fn law_start_with_nothing_left(s: RuntimeStateView, id: Seq<char>, now: u128)
    requires
        s.timers.contains_key(id),
        s.timers[id].remaining_ms == 0,
        !s.timers[id].running,
    ensures
        s.after(ActionView::TimerStart { id }, now) == s,
        !s.after(ActionView::TimerStart { id }, now).timers[id].running,
        !s.changes(ActionView::TimerStart { id }, now),
{
    let action = ActionView::TimerStart { id };
    assert(s.timer_after(action, now) == Some(s.timers[id]));
    assert(s.timers.insert(id, s.timers[id]) =~= s.timers);
}

/// A running timer on which at least as much time has elapsed as it had
/// left is stopped at zero by a tick, and the tick reports a change.
pub proof fn law_tick_runs_out(s: RuntimeStateView, id: Seq<char>, now: u128)
    requires
        s.timers.contains_key(id),
        s.timers[id].running,
        s.timers[id].remaining_ms > 0,
        elapsed_ms(s.timers[id].last_tick, now) >= s.timers[id].remaining_ms,
    ensures
        s.ticked(now).timers[id] == stopped_at(0),
        s.tick_changes(now),
{
    assert(ticked(s.timers[id], now) == stopped_at(0));
}

/// Where no timer runs, a tick changes nothing and reports no change.
pub proof fn law_tick_without_running_timers(s: RuntimeStateView, now: u128)
    requires
        forall|id: Seq<char>| #[trigger] s.timers.contains_key(id) ==> !s.timers[id].running,
    ensures
        s.ticked(now) == s,
        !s.tick_changes(now),
{
    assert(s.timers.map_values(|t: TimerRuntime| ticked(t, now)) =~= s.timers);
}

/// Forward from the last source leads to the first, backward from the
/// first to the last.
pub proof fn law_toggle_wraps(s: RuntimeStateView, id: Seq<char>, now: u128)
    requires
        s.source_count(id) matches Some(n) && n > 0 && n <= usize::MAX,
    ensures
        s.toggle_index(id) == s.source_count(id)->Some_0 - 1 ==> s.after(
            ActionView::ImageToggleForward { id },
            now,
        ).toggle_index(id) == 0,
        s.toggle_index(id) == 0 ==> s.after(
            ActionView::ImageToggleBackward { id },
            now,
        ).toggle_index(id) == s.source_count(id)->Some_0 - 1,
{
    let n = s.source_count(id)->Some_0;
    if s.toggle_index(id) == n - 1 {
        assert(turned(s.toggle_index(id), n as usize, true) == 0) by {
            assert((n as int) % (n as int) == 0) by (nonlinear_arith)
                requires
                    n > 0,
            ;
        }
    }
    if s.toggle_index(id) == 0 {
        assert(turned(0usize, n as usize, false) == n - 1) by {
            assert((n as int - 1) % (n as int) == n as int - 1) by (nonlinear_arith)
                requires
                    n > 0,
            ;
        }
    }
}

/// A text of more than one line is refused as a label, whatever the
/// component and whether or not it may be edited; the state stays as it
/// is.
pub proof fn law_multiline_label_refused(s: RuntimeStateView, id: Seq<char>, text: Seq<char>)
    requires
        !single_line(text),
    ensures
        s.label_request(id, text) == Err::<bool, RuntimeError>(RuntimeError::NotSingleLine),
        s.after_label_request(id, text) == s,
{
}

proof fn lemma_distinct_ids(cs: Seq<ComponentConfigView>, i: int, j: int)
    requires
        sorted_by_id(cs),
        0 <= i < j < cs.len(),
    ensures
        cs[i].id != cs[j].id,
{
    lemma_precedes_irreflexive(cs[i].id);
}

proof fn lemma_sorted_prefix(cs: Seq<ComponentConfigView>)
    requires
        sorted_by_id(cs),
        cs.len() > 0,
    ensures
        sorted_by_id(cs.drop_last()),
{
    let d = cs.drop_last();
    assert forall|i: int, j: int| 0 <= i < j < d.len() implies crate::text::precedes(
        #[trigger] d[i].id,
        #[trigger] d[j].id,
    ) by {
        assert(d[i] == cs[i] && d[j] == cs[j]);
    }
}

proof fn lemma_fresh_number(cs: Seq<ComponentConfigView>, i: int)
    requires
        sorted_by_id(cs),
        0 <= i < cs.len(),
        cs[i].kind is Number,
    ensures
        fresh_numbers(cs).contains_key(cs[i].id),
        cs[i].kind matches ComponentKindView::Number { default, keybind } && fresh_numbers(
            cs,
        )[cs[i].id] == default,
    decreases cs.len(),
{
    if i < cs.len() - 1 {
        lemma_sorted_prefix(cs);
        lemma_fresh_number(cs.drop_last(), i);
        lemma_distinct_ids(cs, i, cs.len() - 1);
    }
}

proof fn lemma_fresh_timer(cs: Seq<ComponentConfigView>, i: int)
    requires
        sorted_by_id(cs),
        0 <= i < cs.len(),
        cs[i].kind is Timer,
    ensures
        fresh_timers(cs).contains_key(cs[i].id),
        cs[i].kind matches ComponentKindView::Timer { default_ms, keybind, rounding }
            && fresh_timers(cs)[cs[i].id] == stopped_at(default_ms),
    decreases cs.len(),
{
    if i < cs.len() - 1 {
        lemma_sorted_prefix(cs);
        lemma_fresh_timer(cs.drop_last(), i);
        lemma_distinct_ids(cs, i, cs.len() - 1);
    }
}

proof fn lemma_fresh_label(cs: Seq<ComponentConfigView>, i: int)
    requires
        sorted_by_id(cs),
        0 <= i < cs.len(),
        cs[i].kind is Label,
    ensures
        fresh_labels(cs).contains_key(cs[i].id),
        cs[i].kind matches ComponentKindView::Label { default, edit } && fresh_labels(
            cs,
        )[cs[i].id] == default,
    decreases cs.len(),
{
    if i < cs.len() - 1 {
        lemma_sorted_prefix(cs);
        lemma_fresh_label(cs.drop_last(), i);
        lemma_distinct_ids(cs, i, cs.len() - 1);
    }
}

proof fn lemma_fresh_toggle(cs: Seq<ComponentConfigView>, i: int)
    requires
        sorted_by_id(cs),
        0 <= i < cs.len(),
        cs[i].kind is ImageToggle,
    ensures
        fresh_toggles(cs).contains_key(cs[i].id),
        fresh_toggles(cs)[cs[i].id] == 0,
    decreases cs.len(),
{
    if i < cs.len() - 1 {
        lemma_sorted_prefix(cs);
        lemma_fresh_toggle(cs.drop_last(), i);
        lemma_distinct_ids(cs, i, cs.len() - 1);
    }
}

/// What a component shows at its configured default.
pub open spec fn default_text(c: ComponentConfigView) -> Option<Seq<char>> {
    match c.kind {
        ComponentKindView::Number { default, keybind } => Some(signed_decimal(default as int)),
        ComponentKindView::Timer { default_ms, keybind, rounding } => Some(
            timer_text(default_ms, rounding),
        ),
        ComponentKindView::Label { default, edit } => Some(default),
        _ => None,
    }
}

/// The source that a component shows at its configured default.
pub open spec fn default_source(c: ComponentConfigView) -> Option<Seq<char>> {
    match c.kind {
        ComponentKindView::Image { source, width, height, opacity } => Some(source),
        ComponentKindView::ImageToggle { sources, width, height, opacity, keybind } => if sources.len()
            > 0 {
            Some(sources[0])
        } else {
            None
        },
        _ => None,
    }
}

/// Right after a schema is loaded the snapshot shows every component at
/// its configured default: the state after loading is a function of the
/// schema alone, so nothing that was held before can show. The
/// identifiers are in strict order, as those of every compiled schema
/// are: of two components under one identifier only one default could
/// show.
pub proof fn law_reload_shows_defaults(config: ScoreboardConfigView, i: int)
    requires
        sorted_by_id(config.components),
        0 <= i < config.components.len(),
    ensures
        RuntimeStateView::fresh(config).snapshot().components.len() == config.components.len(),
        RuntimeStateView::fresh(config).snapshot().components[i].id == config.components[i].id,
        RuntimeStateView::fresh(config).snapshot().components[i].text == default_text(
            config.components[i],
        ),
        RuntimeStateView::fresh(config).snapshot().components[i].source == default_source(
            config.components[i],
        ),
{
    let cs = config.components;
    let c = cs[i];
    match c.kind {
        ComponentKindView::Number { .. } => {
            lemma_fresh_number(cs, i);
        },
        ComponentKindView::Timer { .. } => {
            lemma_fresh_timer(cs, i);
        },
        ComponentKindView::Label { .. } => {
            lemma_fresh_label(cs, i);
        },
        ComponentKindView::Image { .. } => {},
        ComponentKindView::ImageToggle { sources, .. } => {
            lemma_fresh_toggle(cs, i);
            if sources.len() > 0 {
                assert(0int % (sources.len() as int) == 0) by (nonlinear_arith)
                    requires
                        sources.len() > 0,
                ;
            }
        },
    }
}

/// A timer is in one of its two states: stopped, with no clock reading
/// kept, or running, with something left and the reading from which it
/// runs. What is left is never negative.
pub open spec fn timer_in_order(t: TimerRuntime) -> bool {
    &&& t.remaining_ms >= 0
    &&& t.running ==> t.remaining_ms > 0 && t.last_tick is Some
    &&& !t.running ==> t.last_tick is None
}

/// Every timer of a state is in one of its two states.
pub open spec fn timers_in_order(s: RuntimeStateView) -> bool {
    forall|id: Seq<char>| #[trigger] s.timers.contains_key(id) ==> timer_in_order(s.timers[id])
}

/// No timer of the schema has a negative default.
pub open spec fn defaults_not_negative(cs: Seq<ComponentConfigView>) -> bool {
    forall|i: int|
        0 <= i < cs.len() ==> ((#[trigger] cs[i]).kind matches ComponentKindView::Timer {
            default_ms,
            keybind,
            rounding,
        } ==> default_ms >= 0)
}

proof fn lemma_fresh_timers_in_order(cs: Seq<ComponentConfigView>)
    requires
        defaults_not_negative(cs),
    ensures
        forall|id: Seq<char>| #[trigger]
            fresh_timers(cs).contains_key(id) ==> timer_in_order(fresh_timers(cs)[id]),
    decreases cs.len(),
{
    if cs.len() > 0 {
        let d = cs.drop_last();
        assert forall|i: int| 0 <= i < d.len() implies ((#[trigger] d[i]).kind matches ComponentKindView::Timer {
            default_ms,
            keybind,
            rounding,
        } ==> default_ms >= 0) by {
            assert(d[i] == cs[i]);
        }
        lemma_fresh_timers_in_order(d);
        let last = cs[cs.len() - 1];
        assert(cs.last() == last);
        assert forall|id: Seq<char>| #[trigger] fresh_timers(cs).contains_key(id) implies timer_in_order(
            fresh_timers(cs)[id],
        ) by {
            match last.kind {
                ComponentKindView::Timer { default_ms, keybind, rounding } => {
                    assert(default_ms >= 0);
                    if id != last.id {
                        assert(fresh_timers(d).contains_key(id));
                    }
                },
                _ => {
                    assert(fresh_timers(d).contains_key(id));
                },
            }
        }
    }
}

/// Right after a schema whose timer defaults are not negative is loaded,
/// every timer is stopped and in order.
pub proof fn law_fresh_timers_in_order(config: ScoreboardConfigView)
    requires
        defaults_not_negative(config.components),
    ensures
        timers_in_order(RuntimeStateView::fresh(config)),
{
    lemma_fresh_timers_in_order(config.components);
}

/// A schema that the compiler hands out has no negative timer default.
pub proof fn law_compiled_defaults_not_negative(config: ScoreboardConfigView)
    requires
        config.wf(),
    ensures
        defaults_not_negative(config.components),
{
    assert forall|i: int| 0 <= i < config.components.len() implies ((
    #[trigger] config.components[i]).kind matches ComponentKindView::Timer {
        default_ms,
        keybind,
        rounding,
    } ==> default_ms >= 0) by {
        assert(config.components[i].wf());
    }
}

/// No action takes a timer out of its two states: what is left never
/// turns negative, and a timer runs only while something is left.
pub proof fn law_action_keeps_timers_in_order(s: RuntimeStateView, action: ActionView, now: u128)
    requires
        timers_in_order(s),
        defaults_not_negative(s.components()),
    ensures
        timers_in_order(s.after(action, now)),
{
    let after = s.after(action, now);
    match s.timer_after(action, now) {
        Some(t) => {
            assert(timer_in_order(t)) by {
                match action {
                    ActionView::TimerReset { id } => {
                        assert(timer_in_order(s.timers[id]));
                        let i = find_component(s.components(), id, Some(KindTag::Timer))->Some_0;
                        assert(is_first_answer(s.components(), id, Some(KindTag::Timer), i));
                    },
                    ActionView::TimerStart { id }
                    | ActionView::TimerStop { id }
                    | ActionView::TimerIncrease { id }
                    | ActionView::TimerDecrease { id } => {
                        assert(timer_in_order(s.timers[id]));
                    },
                    _ => {},
                }
            }
            assert forall|k: Seq<char>| #[trigger] after.timers.contains_key(k) implies timer_in_order(
                after.timers[k],
            ) by {
                if s.timers.contains_key(k) {
                    assert(timer_in_order(s.timers[k]));
                }
            }
        },
        None => {
            assert forall|k: Seq<char>| #[trigger] after.timers.contains_key(k) implies timer_in_order(
                after.timers[k],
            ) by {
                assert(after.timers == s.timers);
                assert(timer_in_order(s.timers[k]));
            }
        },
    }
}

/// No tick takes a timer out of its two states.
pub proof fn law_tick_keeps_timers_in_order(s: RuntimeStateView, now: u128)
    requires
        timers_in_order(s),
    ensures
        timers_in_order(s.ticked(now)),
{
    let after = s.ticked(now);
    assert forall|k: Seq<char>| #[trigger] after.timers.contains_key(k) implies timer_in_order(
        after.timers[k],
    ) by {
        assert(s.timers.contains_key(k));
        assert(timer_in_order(s.timers[k]));
    }
}

} // verus!
