//! The runtime state engine: the live values that a schema drives, the
//! actions and the clock ticks that change them, and the snapshot that
//! shows them.

use crate::action::{Action, ActionView, HotkeyBinding, HotkeyBindingView, all_hotkeys, bindings_view, hotkeys_of};
use crate::config::{
    ComponentAlignment, ComponentConfig, ComponentConfigView, ComponentKind, ComponentKindView,
    ScoreboardConfig, ScoreboardConfigView, components_view, single_line, texts,
};
use crate::lookup::{KindTag, find_component, locate};
use crate::registry::{Registry, lemma_mapped_values};
use crate::snapshot::{UiComponent, UiComponentView, UiSnapshot, UiSnapshotView, records_view};
use crate::text::{push_signed_decimal, signed_decimal, text_of};
use crate::timer::{
    TimerRuntime, decrease_timer, decreased, format_ms, increase_timer, increased, reset_timer,
    reset_to, start_timer, started, stop_timer, stopped, stopped_at, tick_timer, ticked,
    timer_text, visibly_differ,
};
use std::time::Instant;
use vstd::prelude::*;

verus! {

/// `std::time::Instant`, a reading of the monotonic clock: held as the
/// point from which this engine counts, never looked into.
#[verifier::external_type_specification]
#[verifier::external_body]
pub struct ExInstant(Instant);

/// `Instant::now`: the present reading of the monotonic clock. Nothing is
/// claimed of it.
#[verifier::external_body]
fn clock_start() -> Instant {
    Instant::now()
}

/// `Instant::elapsed`, as `Duration::as_nanos` gives it: the nanoseconds
/// that have passed since `anchor` was read. Nothing is claimed of the
/// number.
#[verifier::external_body]
fn clock_reading(anchor: &Instant) -> u128 {
    anchor.elapsed().as_nanos()
}

/// Why the engine turns a request down.
#[derive(Clone, Copy, Debug, PartialEq, Eq, Structural)]
pub enum RuntimeError {
    /// The text holds a line feed or a carriage return.
    NotSingleLine,
    /// No schema is loaded.
    NoConfig,
    /// No component has the id.
    UnknownComponent,
    /// The component is no label.
    NotALabel,
    /// The label may not be edited.
    NotEditable,
}

// ---------------------------------------------------------------------------
// The model
// ---------------------------------------------------------------------------

/// The state as mathematics: the schema, and one map per kind of live
/// value, keyed by component id.
pub struct RuntimeStateView {
    pub config: Option<ScoreboardConfigView>,
    pub numbers: Map<Seq<char>, i32>,
    pub timers: Map<Seq<char>, TimerRuntime>,
    pub labels: Map<Seq<char>, Seq<char>>,
    pub toggles: Map<Seq<char>, usize>,
}

/// One more, as far as 32 bits reach.
pub open spec fn one_more(v: i32) -> i32 {
    if v < i32::MAX {
        (v + 1) as i32
    } else {
        v
    }
}

/// One less, never below zero.
pub open spec fn one_less(v: i32) -> i32 {
    if v - 1 > 0 {
        (v - 1) as i32
    } else {
        0
    }
}

/// The index after `index` in a cycle of `count` sources, in the given
/// direction.
pub open spec fn turned(index: usize, count: usize, forward: bool) -> usize
    recommends
        count > 0,
{
    if forward {
        ((index + 1) % (count as int)) as usize
    } else {
        ((index + count - 1) % (count as int)) as usize
    }
}

/// The number map of a freshly loaded schema: every number at its default.
pub open spec fn fresh_numbers(cs: Seq<ComponentConfigView>) -> Map<Seq<char>, i32>
    decreases cs.len(),
{
    if cs.len() == 0 {
        Map::empty()
    } else {
        let m = fresh_numbers(cs.drop_last());
        match cs.last().kind {
            ComponentKindView::Number { default, keybind } => m.insert(cs.last().id, default),
            _ => m,
        }
    }
}

/// The timer map of a freshly loaded schema: every timer stopped at its
/// default.
pub open spec fn fresh_timers(cs: Seq<ComponentConfigView>) -> Map<Seq<char>, TimerRuntime>
    decreases cs.len(),
{
    if cs.len() == 0 {
        Map::empty()
    } else {
        let m = fresh_timers(cs.drop_last());
        match cs.last().kind {
            ComponentKindView::Timer { default_ms, keybind, rounding } => m.insert(
                cs.last().id,
                stopped_at(default_ms),
            ),
            _ => m,
        }
    }
}

/// The label map of a freshly loaded schema: every label at its default.
pub open spec fn fresh_labels(cs: Seq<ComponentConfigView>) -> Map<Seq<char>, Seq<char>>
    decreases cs.len(),
{
    if cs.len() == 0 {
        Map::empty()
    } else {
        let m = fresh_labels(cs.drop_last());
        match cs.last().kind {
            ComponentKindView::Label { default, edit } => m.insert(cs.last().id, default),
            _ => m,
        }
    }
}

/// The toggle map of a freshly loaded schema: every toggle at its first
/// source.
pub open spec fn fresh_toggles(cs: Seq<ComponentConfigView>) -> Map<Seq<char>, usize>
    decreases cs.len(),
{
    if cs.len() == 0 {
        Map::empty()
    } else {
        let m = fresh_toggles(cs.drop_last());
        match cs.last().kind {
            ComponentKindView::ImageToggle { sources, width, height, opacity, keybind } => m.insert(
                cs.last().id,
                0usize,
            ),
            _ => m,
        }
    }
}

/// The type tag of a display record.
pub open spec fn kind_name(kind: ComponentKindView) -> Seq<char> {
    match kind {
        ComponentKindView::Number { .. } => "number"@,
        ComponentKindView::Timer { .. } => "timer"@,
        ComponentKindView::Label { .. } => "label"@,
        ComponentKindView::Image { .. } => "image"@,
        ComponentKindView::ImageToggle { .. } => "image-toggle"@,
    }
}

impl RuntimeStateView {
    /// The state before any schema is loaded.
    pub open spec fn empty() -> RuntimeStateView {
        RuntimeStateView {
            config: None,
            numbers: Map::empty(),
            timers: Map::empty(),
            labels: Map::empty(),
            toggles: Map::empty(),
        }
    }

    /// The state right after `config` is loaded: every live value is the
    /// default of its component, whatever was held before.
    pub open spec fn fresh(config: ScoreboardConfigView) -> RuntimeStateView {
        RuntimeStateView {
            config: Some(config),
            numbers: fresh_numbers(config.components),
            timers: fresh_timers(config.components),
            labels: fresh_labels(config.components),
            toggles: fresh_toggles(config.components),
        }
    }

    /// The components of the configuration; none where no configuration is
    /// loaded.
    pub open spec fn components(self) -> Seq<ComponentConfigView> {
        match self.config {
            Some(c) => c.components,
            None => Seq::empty(),
        }
    }

    /// The number shown for `id`: its live value, or zero where it has none.
    pub open spec fn number_shown(self, id: Seq<char>) -> i32 {
        if self.numbers.contains_key(id) {
            self.numbers[id]
        } else {
            0
        }
    }

    /// The milliseconds shown for `id`, or zero where it has no timer.
    pub open spec fn remaining_shown(self, id: Seq<char>) -> i64 {
        if self.timers.contains_key(id) {
            self.timers[id].remaining_ms
        } else {
            0
        }
    }

    /// The text shown for `id`, or none where it has no live text.
    pub open spec fn label_shown(self, id: Seq<char>) -> Seq<char> {
        if self.labels.contains_key(id) {
            self.labels[id]
        } else {
            Seq::empty()
        }
    }

    /// The cycle index held for `id`, or zero where it has none.
    pub open spec fn toggle_index(self, id: Seq<char>) -> usize {
        if self.toggles.contains_key(id) {
            self.toggles[id]
        } else {
            0
        }
    }

    /// The configured default of the first number with the id `id`.
    pub open spec fn number_default(self, id: Seq<char>) -> Option<i32> {
        match find_component(self.components(), id, Some(KindTag::Number)) {
            Some(i) => match self.components()[i].kind {
                ComponentKindView::Number { default, keybind } => Some(default),
                _ => None,
            },
            None => None,
        }
    }

    /// The configured default of the first timer with the id `id`.
    pub open spec fn timer_default(self, id: Seq<char>) -> Option<i64> {
        match find_component(self.components(), id, Some(KindTag::Timer)) {
            Some(i) => match self.components()[i].kind {
                ComponentKindView::Timer { default_ms, keybind, rounding } => Some(default_ms),
                _ => None,
            },
            None => None,
        }
    }

    /// How many sources the first image toggle with the id `id` cycles
    /// through.
    pub open spec fn source_count(self, id: Seq<char>) -> Option<nat> {
        match find_component(self.components(), id, Some(KindTag::ImageToggle)) {
            Some(i) => match self.components()[i].kind {
                ComponentKindView::ImageToggle { sources, width, height, opacity, keybind } => Some(
                    sources.len(),
                ),
                _ => None,
            },
            None => None,
        }
    }

    /// The state with the number `id` set to `v`.
    pub open spec fn with_number(self, id: Seq<char>, v: i32) -> RuntimeStateView {
        RuntimeStateView { numbers: self.numbers.insert(id, v), ..self }
    }

    /// The state with the timer `id` set to `t`.
    pub open spec fn with_timer(self, id: Seq<char>, t: TimerRuntime) -> RuntimeStateView {
        RuntimeStateView { timers: self.timers.insert(id, t), ..self }
    }

    /// The state with the label `id` set to `text`.
    pub open spec fn with_label(self, id: Seq<char>, text: Seq<char>) -> RuntimeStateView {
        RuntimeStateView { labels: self.labels.insert(id, text), ..self }
    }

    /// The state with the toggle `id` set to `index`.
    pub open spec fn with_toggle(self, id: Seq<char>, index: usize) -> RuntimeStateView {
        RuntimeStateView { toggles: self.toggles.insert(id, index), ..self }
    }

    /// The timer of `id` after `action`, read at `now`; `None` where the
    /// action does not apply: it is no timer action, the id has no timer,
    /// or a reset finds no timer of that id in the schema.
    pub open spec fn timer_after(self, action: ActionView, now: u128) -> Option<TimerRuntime> {
        match action {
            ActionView::TimerStart { id } => if self.timers.contains_key(id) {
                Some(started(self.timers[id], now))
            } else {
                None
            },
            ActionView::TimerStop { id } => if self.timers.contains_key(id) {
                Some(stopped(self.timers[id], now))
            } else {
                None
            },
            ActionView::TimerReset { id } => match self.timer_default(id) {
                Some(d) => if self.timers.contains_key(id) {
                    Some(reset_to(self.timers[id], d, now))
                } else {
                    None
                },
                None => None,
            },
            ActionView::TimerIncrease { id } => if self.timers.contains_key(id) {
                Some(increased(self.timers[id], now))
            } else {
                None
            },
            ActionView::TimerDecrease { id } => if self.timers.contains_key(id) {
                Some(decreased(self.timers[id], now))
            } else {
                None
            },
            _ => None,
        }
    }

    /// The number of `id` after `action`; `None` where the action does not
    /// apply.
    pub open spec fn number_after(self, action: ActionView) -> Option<i32> {
        match action {
            ActionView::NumberIncrease { id } => if self.numbers.contains_key(id) {
                Some(one_more(self.numbers[id]))
            } else {
                None
            },
            ActionView::NumberDecrease { id } => if self.numbers.contains_key(id) {
                Some(one_less(self.numbers[id]))
            } else {
                None
            },
            ActionView::NumberReset { id } => match self.number_default(id) {
                Some(d) => if self.numbers.contains_key(id) {
                    Some(d)
                } else {
                    None
                },
                None => None,
            },
            _ => None,
        }
    }

    /// The cycle index of `id` after `action`; `None` where the action does
    /// not apply: it is no toggle action, or the schema has no image toggle
    /// of that id with at least one source.
    pub open spec fn toggle_after(self, action: ActionView) -> Option<usize> {
        match action {
            ActionView::ImageToggleForward { id } => match self.source_count(id) {
                Some(n) => if n > 0 {
                    Some(turned(self.toggle_index(id), n as usize, true))
                } else {
                    None
                },
                None => None,
            },
            ActionView::ImageToggleBackward { id } => match self.source_count(id) {
                Some(n) => if n > 0 {
                    Some(turned(self.toggle_index(id), n as usize, false))
                } else {
                    None
                },
                None => None,
            },
            _ => None,
        }
    }

    /// The state after `action`, the clock read at `now`.
    pub open spec fn after(self, action: ActionView, now: u128) -> RuntimeStateView {
        match action {
            ActionView::NumberIncrease { id }
            | ActionView::NumberDecrease { id }
            | ActionView::NumberReset { id } => match self.number_after(action) {
                Some(v) => self.with_number(id, v),
                None => self,
            },
            ActionView::TimerStart { id }
            | ActionView::TimerStop { id }
            | ActionView::TimerReset { id }
            | ActionView::TimerIncrease { id }
            | ActionView::TimerDecrease { id } => match self.timer_after(action, now) {
                Some(t) => self.with_timer(id, t),
                None => self,
            },
            ActionView::ImageToggleForward { id }
            | ActionView::ImageToggleBackward { id } => match self.toggle_after(action) {
                Some(i) => self.with_toggle(id, i),
                None => self,
            },
        }
    }

    /// Whether `action` changes what a viewer can tell: a number, what
    /// remains of a timer or whether it runs, or the index of a toggle.
    pub open spec fn changes(self, action: ActionView, now: u128) -> bool {
        match action {
            ActionView::NumberIncrease { id }
            | ActionView::NumberDecrease { id }
            | ActionView::NumberReset { id } => match self.number_after(action) {
                Some(v) => v != self.numbers[id],
                None => false,
            },
            ActionView::TimerStart { id }
            | ActionView::TimerStop { id }
            | ActionView::TimerReset { id }
            | ActionView::TimerIncrease { id }
            | ActionView::TimerDecrease { id } => match self.timer_after(action, now) {
                Some(t) => visibly_differ(self.timers[id], t),
                None => false,
            },
            ActionView::ImageToggleForward { id }
            | ActionView::ImageToggleBackward { id } => match self.toggle_after(action) {
                Some(i) => i != self.toggle_index(id),
                None => false,
            },
        }
    }

    /// The state after a tick at `now`: every timer ticked.
    pub open spec fn ticked(self, now: u128) -> RuntimeStateView {
        RuntimeStateView { timers: self.timers.map_values(|t: TimerRuntime| ticked(t, now)), ..self }
    }

    /// Whether a tick at `now` changes what remains of some timer.
    pub open spec fn tick_changes(self, now: u128) -> bool {
        exists|id: Seq<char>| #[trigger]
            self.timers.contains_key(id) && ticked(self.timers[id], now).remaining_ms
                != self.timers[id].remaining_ms
    }

    /// What a request to set the label `id` to `text` comes to: the error
    /// that turns it down, or whether the text shown changes.
    pub open spec fn label_request(self, id: Seq<char>, text: Seq<char>) -> Result<
        bool,
        RuntimeError,
    > {
        if !single_line(text) {
            Err(RuntimeError::NotSingleLine)
        } else {
            match self.config {
                None => Err(RuntimeError::NoConfig),
                Some(config) => match find_component(config.components, id, None) {
                    None => Err(RuntimeError::UnknownComponent),
                    Some(i) => match config.components[i].kind {
                        ComponentKindView::Label { default, edit } => if !edit {
                            Err(RuntimeError::NotEditable)
                        } else {
                            Ok(self.label_shown(id) != text)
                        },
                        _ => Err(RuntimeError::NotALabel),
                    },
                },
            }
        }
    }

    /// The state after a request to set the label `id` to `text`.
    pub open spec fn after_label_request(self, id: Seq<char>, text: Seq<char>) -> RuntimeStateView {
        if self.label_request(id, text) == Ok::<bool, RuntimeError>(true) {
            self.with_label(id, text)
        } else {
            self
        }
    }

    /// The display record of one component.
    pub open spec fn record(self, c: ComponentConfigView) -> UiComponentView {
        UiComponentView {
            id: c.id,
            component_type: kind_name(c.kind),
            x: c.position.x,
            y: c.position.y,
            alignment: match c.alignment {
                Some(ComponentAlignment::Center) => Some("center"@),
                None => None,
            },
            font_family: c.font.family,
            font_size: c.font.size,
            font_color: c.font.color,
            text: match c.kind {
                ComponentKindView::Number { default, keybind } => Some(
                    signed_decimal(self.number_shown(c.id) as int),
                ),
                ComponentKindView::Timer { default_ms, keybind, rounding } => Some(
                    timer_text(self.remaining_shown(c.id), rounding),
                ),
                ComponentKindView::Label { default, edit } => Some(self.label_shown(c.id)),
                _ => None,
            },
            source: match c.kind {
                ComponentKindView::Image { source, width, height, opacity } => Some(source),
                ComponentKindView::ImageToggle { sources, width, height, opacity, keybind } => {
                    if sources.len() > 0 {
                        Some(sources[self.toggle_index(c.id) as int % sources.len() as int])
                    } else {
                        None
                    }
                },
                _ => None,
            },
            width: match c.kind {
                ComponentKindView::Image { source, width, height, opacity } => Some(width),
                ComponentKindView::ImageToggle { sources, width, height, opacity, keybind } => Some(
                    width,
                ),
                _ => None,
            },
            height: match c.kind {
                ComponentKindView::Image { source, width, height, opacity } => Some(height),
                ComponentKindView::ImageToggle { sources, width, height, opacity, keybind } => Some(
                    height,
                ),
                _ => None,
            },
            opacity: match c.kind {
                ComponentKindView::Image { source, width, height, opacity } => Some(opacity),
                ComponentKindView::ImageToggle { sources, width, height, opacity, keybind } => Some(
                    opacity,
                ),
                _ => None,
            },
            editable: match c.kind {
                ComponentKindView::Label { default, edit } => edit,
                _ => false,
            },
        }
    }

    /// What is shown: black and nothing before a schema is loaded, then the
    /// schema's background and one record per component, in schema order.
    pub open spec fn snapshot(self) -> UiSnapshotView {
        match self.config {
            None => UiSnapshotView { background_color: "#000000"@, components: Seq::empty() },
            Some(config) => UiSnapshotView {
                background_color: config.global.background_color,
                components: Seq::new(
                    config.components.len(),
                    |i: int| self.record(config.components[i]),
                ),
            },
        }
    }

    /// The shortcuts of the loaded schema with the actions they trigger.
    pub open spec fn hotkeys(self) -> Seq<HotkeyBindingView> {
        all_hotkeys(self.components())
    }
}

// ---------------------------------------------------------------------------
// The state
// ---------------------------------------------------------------------------

/// The engine: the loaded configuration, the live value of every
/// component that has one, and the clock that timers are read against.
#[derive(Debug)]
pub struct RuntimeState {
    pub config: Option<ScoreboardConfig>,
    number_values: Registry<i32>,
    timer_values: Registry<TimerRuntime>,
    label_values: Registry<String>,
    image_toggle_indices: Registry<usize>,
    clock: Instant,
}

impl View for RuntimeState {
    type V = RuntimeStateView;

    closed spec fn view(&self) -> RuntimeStateView {
        RuntimeStateView {
            config: match self.config {
                Some(c) => Some(c@),
                None => None,
            },
            numbers: self.number_values@,
            timers: self.timer_values@,
            labels: self.label_values@.map_values(|s: String| s@),
            toggles: self.image_toggle_indices@,
        }
    }
}

impl Clone for RuntimeState {
    /// A second state with the same schema and the same live values, on
    /// the same clock.
    fn clone(&self) -> (r: RuntimeState)
        ensures
            r@ == self@,
    {
        RuntimeState {
            config: match &self.config {
                Some(c) => Some(c.clone()),
                None => None,
            },
            number_values: self.number_values.duplicate(),
            timer_values: self.timer_values.duplicate(),
            label_values: self.label_values.duplicate_texts(),
            image_toggle_indices: self.image_toggle_indices.duplicate(),
            clock: self.clock,
        }
    }
}

/// Whether `s` holds neither a line feed nor a carriage return.
pub fn is_single_line(s: &str) -> (r: bool)
    ensures
        r == single_line(s@),
{
    let v = crate::text::chars_of(s);
    let mut i: usize = 0;
    while i < v.len()
        invariant
            i <= v.len(),
            v@ == s@,
            forall|k: int| 0 <= k < i ==> #[trigger] v@[k] != '\n' && v@[k] != '\r',
        decreases v.len() - i,
    {
        if v[i] == '\n' || v[i] == '\r' {
            return false;
        }
        i += 1;
    }
    true
}

impl RuntimeState {
    /// An engine without a configuration and without live values.
    pub fn new() -> (r: RuntimeState)
        ensures
            r@ == RuntimeStateView::empty(),
    {
        let r = RuntimeState {
            config: None,
            number_values: Registry::new(),
            timer_values: Registry::new(),
            label_values: Registry::new(),
            image_toggle_indices: Registry::new(),
            clock: clock_start(),
        };
        assert(r@.labels =~= Map::<Seq<char>, Seq<char>>::empty());
        r
    }

    /// The present reading of this engine's clock, in nanoseconds.
    pub fn now(&self) -> u128 {
        clock_reading(&self.clock)
    }

    /// Loads `config`: every live value is set to the default of its
    /// component, and nothing of what was held before stays.
    pub fn replace_config(&mut self, config: ScoreboardConfig)
        ensures
            final(self)@ == RuntimeStateView::fresh(config@),
    {
        self.number_values.clear();
        self.timer_values.clear();
        self.label_values.clear();
        self.image_toggle_indices.clear();
        let ghost cs = config@.components;
        let mut i: usize = 0;
        assert(cs.take(0) =~= Seq::<ComponentConfigView>::empty());
        assert(self.label_values@.map_values(|s: String| s@) =~= fresh_labels(cs.take(0)));
        while i < config.components.len()
            invariant
                i <= config.components.len(),
                cs == components_view(config.components@),
                self.number_values@ == fresh_numbers(cs.take(i as int)),
                self.timer_values@ == fresh_timers(cs.take(i as int)),
                self.label_values@.map_values(|s: String| s@) == fresh_labels(cs.take(i as int)),
                self.image_toggle_indices@ == fresh_toggles(cs.take(i as int)),
            decreases config.components.len() - i,
        {
            let component = &config.components[i];
            proof {
                let next = cs.take(i as int + 1);
                assert(next.drop_last() =~= cs.take(i as int));
                assert(next.last() == component@);
            }
            let ghost labels_before = self.label_values@;
            match &component.kind {
                ComponentKind::Number { default, .. } => {
                    self.number_values.insert(component.id.as_str(), *default);
                },
                ComponentKind::Timer { default_ms, .. } => {
                    self.timer_values.insert(
                        component.id.as_str(),
                        TimerRuntime { remaining_ms: *default_ms, running: false, last_tick: None },
                    );
                },
                ComponentKind::Label { default, .. } => {
                    let text = default.clone();
                    self.label_values.insert(component.id.as_str(), text);
                    assert(self.label_values@.map_values(|s: String| s@) =~= labels_before.map_values(
                        |s: String| s@,
                    ).insert(component.id@, default@));
                },
                ComponentKind::Image { .. } => {},
                ComponentKind::ImageToggle { .. } => {
                    self.image_toggle_indices.insert(component.id.as_str(), 0);
                },
            }
            i += 1;
        }
        assert(cs.take(config.components.len() as int) =~= cs);
        self.config = Some(config);
    }

    /// Sets the text of the editable label `id`, where the request is in
    /// order; says whether the text shown has changed.
    pub fn set_label_value(&mut self, id: &str, value: String) -> (r: Result<bool, RuntimeError>)
        ensures
            r == old(self)@.label_request(id@, value@),
            final(self)@ == old(self)@.after_label_request(id@, value@),
    {
        if !is_single_line(value.as_str()) {
            return Err(RuntimeError::NotSingleLine);
        }
        let editable = match &self.config {
            None => {
                return Err(RuntimeError::NoConfig);
            },
            Some(config) => match locate(&config.components, id, None) {
                None => {
                    return Err(RuntimeError::UnknownComponent);
                },
                Some(i) => {
                    assert(components_view(config.components@)[i as int] == config.components[i as int]@);
                    match &config.components[i].kind {
                        ComponentKind::Label { edit, .. } => *edit,
                        _ => {
                            return Err(RuntimeError::NotALabel);
                        },
                    }
                },
            },
        };
        if !editable {
            return Err(RuntimeError::NotEditable);
        }
        let same = match self.label_values.get(id) {
            Some(current) => {
                assert(self@.labels.contains_key(id@) && self@.labels[id@] == current@);
                crate::text::same_text(current.as_str(), value.as_str())
            },
            None => {
                assert(!self@.labels.contains_key(id@));
                value.as_str().unicode_len() == 0
            },
        };
        assert(value@.len() == 0 ==> value@ =~= Seq::<char>::empty());
        assert(same == (self@.label_shown(id@) == value@));
        if same {
            return Ok(false);
        }
        let ghost labels_before = self.label_values@;
        let ghost text = value@;
        self.label_values.insert(id, value);
        assert(self.label_values@.map_values(|s: String| s@) =~= labels_before.map_values(
            |s: String| s@,
        ).insert(id@, text));
        Ok(true)
    }

    /// The shortcuts of the loaded schema with the actions they trigger.
    pub fn collect_hotkeys(&self) -> (bindings: Vec<HotkeyBinding>)
        ensures
            bindings_view(bindings@) == self@.hotkeys(),
    {
        match &self.config {
            Some(config) => hotkeys_of(&config.components),
            None => {
                let bindings: Vec<HotkeyBinding> = Vec::new();
                assert(bindings_view(bindings@) =~= self@.hotkeys());
                bindings
            },
        }
    }

    /// The configured default of the first number with the id `id`.
    fn number_default_of(&self, id: &str) -> (r: Option<i32>)
        ensures
            r == self@.number_default(id@),
    {
        match &self.config {
            Some(config) => match locate(&config.components, id, Some(KindTag::Number)) {
                Some(i) => {
                    assert(components_view(config.components@)[i as int] == config.components[i as int]@);
                    match &config.components[i].kind {
                        ComponentKind::Number { default, .. } => Some(*default),
                        _ => None,
                    }
                },
                None => None,
            },
            None => {
                proof {
                    crate::lookup::lemma_no_answer(self@.components(), id@, Some(KindTag::Number));
                }
                None
            },
        }
    }

    /// The configured default of the first timer with the id `id`.
    fn timer_default_of(&self, id: &str) -> (r: Option<i64>)
        ensures
            r == self@.timer_default(id@),
    {
        match &self.config {
            Some(config) => match locate(&config.components, id, Some(KindTag::Timer)) {
                Some(i) => {
                    assert(components_view(config.components@)[i as int] == config.components[i as int]@);
                    match &config.components[i].kind {
                        ComponentKind::Timer { default_ms, .. } => Some(*default_ms),
                        _ => None,
                    }
                },
                None => None,
            },
            None => {
                proof {
                    crate::lookup::lemma_no_answer(self@.components(), id@, Some(KindTag::Timer));
                }
                None
            },
        }
    }

    /// How many sources the first image toggle with the id `id` has.
    fn source_count_of(&self, id: &str) -> (r: Option<usize>)
        ensures
            match r {
                Some(n) => self@.source_count(id@) == Some(n as nat),
                None => self@.source_count(id@) is None,
            },
    {
        match &self.config {
            Some(config) => match locate(&config.components, id, Some(KindTag::ImageToggle)) {
                Some(i) => {
                    assert(components_view(config.components@)[i as int] == config.components[i as int]@);
                    match &config.components[i].kind {
                        ComponentKind::ImageToggle { sources, .. } => Some(sources.len()),
                        _ => None,
                    }
                },
                None => None,
            },
            None => {
                proof {
                    crate::lookup::lemma_no_answer(
                        self@.components(),
                        id@,
                        Some(KindTag::ImageToggle),
                    );
                }
                None
            },
        }
    }

    fn apply_to_number(&mut self, action: &Action, id: &str) -> (changed: bool)
        requires
            action@ == (ActionView::NumberIncrease { id: id@ }) || action@ == (
            ActionView::NumberDecrease { id: id@ }) || action@ == (ActionView::NumberReset {
                id: id@,
            }),
        ensures
            forall|now: u128|
                final(self)@ == #[trigger] old(self)@.after(action@, now) && changed == old(
                    self,
                )@.changes(action@, now),
    {
        let default = match action {
            Action::NumberReset { .. } => self.number_default_of(id),
            _ => None,
        };
        match self.number_values.find(id) {
            Some(i) => {
                let current: i32 = *self.number_values.value_at(i);
                let next: Option<i32> = match action {
                    Action::NumberIncrease { .. } => Some(
                        if current < i32::MAX {
                            current + 1
                        } else {
                            current
                        },
                    ),
                    Action::NumberDecrease { .. } => Some(
                        if current > 1 {
                            current - 1
                        } else {
                            0
                        },
                    ),
                    _ => default,
                };
                assert(next == old(self)@.number_after(action@));
                match next {
                    Some(v) => {
                        self.number_values.set_value_at(i, v);
                        v != current
                    },
                    None => false,
                }
            },
            None => {
                assert(old(self)@.number_after(action@) is None);
                false
            },
        }
    }

    fn apply_to_timer(&mut self, action: &Action, id: &str, now: u128) -> (changed: bool)
        requires
            action@ == (ActionView::TimerStart { id: id@ }) || action@ == (ActionView::TimerStop {
                id: id@,
            }) || action@ == (ActionView::TimerReset { id: id@ }) || action@ == (
            ActionView::TimerIncrease { id: id@ }) || action@ == (ActionView::TimerDecrease {
                id: id@,
            }),
        ensures
            final(self)@ == old(self)@.after(action@, now),
            changed == old(self)@.changes(action@, now),
    {
        let default = match action {
            Action::TimerReset { .. } => self.timer_default_of(id),
            _ => None,
        };
        match self.timer_values.find(id) {
            Some(i) => {
                let current: TimerRuntime = *self.timer_values.value_at(i);
                let mut timer = current;
                let applies = match action {
                    Action::TimerStart { .. } => {
                        start_timer(&mut timer, now);
                        true
                    },
                    Action::TimerStop { .. } => {
                        stop_timer(&mut timer, now);
                        true
                    },
                    Action::TimerIncrease { .. } => {
                        increase_timer(&mut timer, now);
                        true
                    },
                    Action::TimerDecrease { .. } => {
                        decrease_timer(&mut timer, now);
                        true
                    },
                    _ => match default {
                        Some(d) => {
                            reset_timer(&mut timer, d, now);
                            true
                        },
                        None => false,
                    },
                };
                if applies {
                    assert(old(self)@.timer_after(action@, now) == Some(timer));
                    self.timer_values.set_value_at(i, timer);
                    timer.remaining_ms != current.remaining_ms || timer.running != current.running
                } else {
                    assert(old(self)@.timer_after(action@, now) is None);
                    false
                }
            },
            None => {
                assert(old(self)@.timer_after(action@, now) is None);
                false
            },
        }
    }

    fn apply_to_toggle(&mut self, action: &Action, id: &str, forward: bool) -> (changed: bool)
        requires
            forward ==> action@ == (ActionView::ImageToggleForward { id: id@ }),
            !forward ==> action@ == (ActionView::ImageToggleBackward { id: id@ }),
        ensures
            forall|now: u128|
                final(self)@ == #[trigger] old(self)@.after(action@, now) && changed == old(
                    self,
                )@.changes(action@, now),
    {
        match self.source_count_of(id) {
            Some(count) => {
                if count == 0 {
                    return false;
                }
                let current: usize = match self.image_toggle_indices.get(id) {
                    Some(index) => *index,
                    None => 0,
                };
                let wide: u128 = if forward {
                    (current as u128 + 1) % (count as u128)
                } else {
                    (current as u128 + count as u128 - 1) % (count as u128)
                };
                let next: usize = wide as usize;
                assert(next == turned(current, count, forward));
                assert(old(self)@.toggle_after(action@) == Some(next));
                self.image_toggle_indices.insert(id, next);
                next != current
            },
            None => false,
        }
    }

    /// Applies `action` with the clock read at `now`; says whether what a
    /// viewer can tell has changed.
    pub fn apply_action_at(&mut self, action: &Action, now: u128) -> (changed: bool)
        ensures
            final(self)@ == old(self)@.after(action@, now),
            changed == old(self)@.changes(action@, now),
    {
        match action {
            Action::NumberIncrease { id } | Action::NumberDecrease { id } | Action::NumberReset {
                id,
            } => self.apply_to_number(action, id.as_str()),
            Action::TimerStart { id }
            | Action::TimerStop { id }
            | Action::TimerReset { id }
            | Action::TimerIncrease { id }
            | Action::TimerDecrease { id } => self.apply_to_timer(action, id.as_str(), now),
            Action::ImageToggleForward { id } => self.apply_to_toggle(action, id.as_str(), true),
            Action::ImageToggleBackward { id } => self.apply_to_toggle(action, id.as_str(), false),
        }
    }

    /// Applies `action` at the present reading of the clock.
    pub fn apply_action(&mut self, action: &Action) -> (changed: bool)
        ensures
            exists|now: u128|
                final(self)@ == #[trigger] old(self)@.after(action@, now) && changed == old(
                    self,
                )@.changes(action@, now),
    {
        let now = self.now();
        self.apply_action_at(action, now)
    }

    /// Takes the time elapsed up to `now` off every running timer; says
    /// whether what remains of some timer has changed.
    pub fn tick_timers_at(&mut self, now: u128) -> (changed: bool)
        ensures
            final(self)@ == old(self)@.ticked(now),
            changed == old(self)@.tick_changes(now),
    {
        let ghost before = self.timer_values;
        let n = self.timer_values.len();
        let mut changed = false;
        let mut i: usize = 0;
        while i < n
            invariant
                i <= n,
                n == before.keys().len(),
                before.entries_agree(),
                self.timer_values.keys() == before.keys(),
                self.timer_values.values().len() == n,
                forall|j: int|
                    0 <= j < i ==> self.timer_values.values()[j] == ticked(
                        #[trigger] before.values()[j],
                        now,
                    ),
                forall|j: int|
                    i <= j < n ==> self.timer_values.values()[j] == #[trigger] before.values()[j],
                changed == exists|j: int|
                    0 <= j < i && ticked(#[trigger] before.values()[j], now).remaining_ms
                        != before.values()[j].remaining_ms,
                self.config == old(self).config,
                self.number_values == old(self).number_values,
                self.label_values == old(self).label_values,
                self.image_toggle_indices == old(self).image_toggle_indices,
            decreases n - i,
        {
            let current: TimerRuntime = *self.timer_values.value_at(i);
            assert(current == before.values()[i as int]);
            let mut timer = current;
            tick_timer(&mut timer, now);
            self.timer_values.set_value_at(i, timer);
            let ghost was = changed;
            if timer.remaining_ms != current.remaining_ms {
                changed = true;
            }
            proof {
                let differs = |j: int|
                    ticked(before.values()[j], now).remaining_ms != before.values()[j].remaining_ms;
                if changed {
                    if was {
                        let j = choose|j: int|
                            0 <= j < i && ticked(#[trigger] before.values()[j], now).remaining_ms
                                != before.values()[j].remaining_ms;
                        assert(0 <= j < i + 1 && differs(j));
                    } else {
                        assert(0 <= i < i + 1 && differs(i as int));
                    }
                } else {
                    assert forall|j: int| 0 <= j < i + 1 implies !(ticked(
                        #[trigger] before.values()[j],
                        now,
                    ).remaining_ms != before.values()[j].remaining_ms) by {
                        if j < i {
                        }
                    }
                }
            }
            i += 1;
        }
        proof {
            let f = |t: TimerRuntime| ticked(t, now);
            assert forall|j: int| 0 <= j < before.values().len() implies self.timer_values.values()[j]
                == f(#[trigger] before.values()[j]) by {}
            lemma_mapped_values(before, self.timer_values, f);
            if changed {
                let j = choose|j: int|
                    0 <= j < n && ticked(#[trigger] before.values()[j], now).remaining_ms
                        != before.values()[j].remaining_ms;
                let id = before.keys()[j];
                assert(before@.contains_key(id) && before@[id] == before.values()[j]);
                assert(old(self)@.timers.contains_key(id));
            } else {
                assert forall|id: Seq<char>| #[trigger]
                    before@.contains_key(id) implies ticked(before@[id], now).remaining_ms
                    == before@[id].remaining_ms by {
                    let j = before.keys().index_of(id);
                    assert(before.keys().contains(id));
                    assert(before@[id] == before.values()[j]);
                }
            }
        }
        changed
    }

    /// Ticks every timer at the present reading of the clock.
    pub fn tick_timers(&mut self) -> (changed: bool)
        ensures
            exists|now: u128|
                final(self)@ == #[trigger] old(self)@.ticked(now) && changed == old(
                    self,
                )@.tick_changes(now),
    {
        let now = self.now();
        self.tick_timers_at(now)
    }

    /// The display record of one component.
    fn record_of(&self, c: &ComponentConfig) -> (r: UiComponent)
        ensures
            r@ == self@.record(c@),
    {
        let id = c.id.as_str();
        let (text, source, width, height, opacity, editable) = match &c.kind {
            ComponentKind::Number { .. } => {
                let shown: i32 = match self.number_values.get(id) {
                    Some(v) => *v,
                    None => 0,
                };
                let mut out: Vec<char> = Vec::new();
                push_signed_decimal(&mut out, shown as i64);
                assert(out@ =~= signed_decimal(shown as int));
                (Some(text_of(&out)), None, None, None, None, false)
            },
            ComponentKind::Timer { rounding, .. } => {
                let shown: i64 = match self.timer_values.get(id) {
                    Some(t) => t.remaining_ms,
                    None => 0,
                };
                (Some(format_ms(shown, rounding)), None, None, None, None, false)
            },
            ComponentKind::Label { edit, .. } => {
                let shown: String = match self.label_values.get(id) {
                    Some(t) => t.clone(),
                    None => String::new(),
                };
                (Some(shown), None, None, None, None, *edit)
            },
            ComponentKind::Image { source, width, height, opacity } => (
                None,
                Some(source.clone()),
                Some(*width),
                Some(*height),
                Some(*opacity),
                false,
            ),
            ComponentKind::ImageToggle { sources, width, height, opacity, .. } => {
                let shown: Option<String> = if sources.len() > 0 {
                    let index: usize = match self.image_toggle_indices.get(id) {
                        Some(i) => *i,
                        None => 0,
                    };
                    let place = index % sources.len();
                    assert(texts(sources@)[place as int] == sources@[place as int]@);
                    Some(sources[place].clone())
                } else {
                    None
                };
                (None, shown, Some(*width), Some(*height), Some(*opacity), false)
            },
        };
        let component_type = match &c.kind {
            ComponentKind::Number { .. } => "number".to_owned(),
            ComponentKind::Timer { .. } => "timer".to_owned(),
            ComponentKind::Label { .. } => "label".to_owned(),
            ComponentKind::Image { .. } => "image".to_owned(),
            ComponentKind::ImageToggle { .. } => "image-toggle".to_owned(),
        };
        let alignment = match c.alignment {
            Some(ComponentAlignment::Center) => Some("center".to_owned()),
            None => None,
        };
        UiComponent {
            id: c.id.clone(),
            component_type,
            x: c.position.x,
            y: c.position.y,
            alignment,
            font_family: c.font.family.clone(),
            font_size: c.font.size,
            font_color: c.font.color.clone(),
            text,
            source,
            width,
            height,
            opacity,
            editable,
        }
    }

    /// What is shown now. The state is not changed.
    pub fn snapshot(&self) -> (s: UiSnapshot)
        ensures
            s@ == self@.snapshot(),
    {
        match &self.config {
            None => {
                let components: Vec<UiComponent> = Vec::new();
                assert(records_view(components@) =~= Seq::<UiComponentView>::empty());
                UiSnapshot { background_color: "#000000".to_owned(), components }
            },
            Some(config) => {
                let mut components: Vec<UiComponent> = Vec::new();
                let mut i: usize = 0;
                while i < config.components.len()
                    invariant
                        i <= config.components.len(),
                        components.len() == i,
                        forall|k: int|
                            0 <= k < i ==> components@[k]@ == self@.record(
                                #[trigger] config.components@[k]@,
                            ),
                    decreases config.components.len() - i,
                {
                    components.push(self.record_of(&config.components[i]));
                    i += 1;
                }
                assert(records_view(components@) =~= self@.snapshot().components);
                UiSnapshot { background_color: config.global.background_color.clone(), components }
            },
        }
    }
}

} // verus!
