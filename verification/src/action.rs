//! The discrete requests that the engine takes, and the table of the
//! shortcuts that trigger them.

use crate::config::{
    ComponentConfig, ComponentConfigView, ComponentKind, ComponentKindView, KeybindSpec,
    KeybindSpecView, components_view,
};
use vstd::prelude::*;

verus! {

/// A request that a shortcut or a caller makes of one component.
#[derive(Debug, PartialEq, Eq)]
pub enum Action {
    NumberIncrease { id: String },
    NumberDecrease { id: String },
    NumberReset { id: String },
    TimerStart { id: String },
    TimerStop { id: String },
    TimerReset { id: String },
    TimerIncrease { id: String },
    TimerDecrease { id: String },
    ImageToggleForward { id: String },
    ImageToggleBackward { id: String },
}

/// An action, with its identifier as a sequence of characters.
pub enum ActionView {
    NumberIncrease { id: Seq<char> },
    NumberDecrease { id: Seq<char> },
    NumberReset { id: Seq<char> },
    TimerStart { id: Seq<char> },
    TimerStop { id: Seq<char> },
    TimerReset { id: Seq<char> },
    TimerIncrease { id: Seq<char> },
    TimerDecrease { id: Seq<char> },
    ImageToggleForward { id: Seq<char> },
    ImageToggleBackward { id: Seq<char> },
}

impl View for Action {
    type V = ActionView;

    open spec fn view(&self) -> ActionView {
        match self {
            Action::NumberIncrease { id } => ActionView::NumberIncrease { id: id@ },
            Action::NumberDecrease { id } => ActionView::NumberDecrease { id: id@ },
            Action::NumberReset { id } => ActionView::NumberReset { id: id@ },
            Action::TimerStart { id } => ActionView::TimerStart { id: id@ },
            Action::TimerStop { id } => ActionView::TimerStop { id: id@ },
            Action::TimerReset { id } => ActionView::TimerReset { id: id@ },
            Action::TimerIncrease { id } => ActionView::TimerIncrease { id: id@ },
            Action::TimerDecrease { id } => ActionView::TimerDecrease { id: id@ },
            Action::ImageToggleForward { id } => ActionView::ImageToggleForward { id: id@ },
            Action::ImageToggleBackward { id } => ActionView::ImageToggleBackward { id: id@ },
        }
    }
}

impl Clone for Action {
    fn clone(&self) -> (r: Action)
        ensures
            r@ == self@,
    {
        match self {
            Action::NumberIncrease { id } => Action::NumberIncrease { id: id.clone() },
            Action::NumberDecrease { id } => Action::NumberDecrease { id: id.clone() },
            Action::NumberReset { id } => Action::NumberReset { id: id.clone() },
            Action::TimerStart { id } => Action::TimerStart { id: id.clone() },
            Action::TimerStop { id } => Action::TimerStop { id: id.clone() },
            Action::TimerReset { id } => Action::TimerReset { id: id.clone() },
            Action::TimerIncrease { id } => Action::TimerIncrease { id: id.clone() },
            Action::TimerDecrease { id } => Action::TimerDecrease { id: id.clone() },
            Action::ImageToggleForward { id } => Action::ImageToggleForward { id: id.clone() },
            Action::ImageToggleBackward { id } => Action::ImageToggleBackward { id: id.clone() },
        }
    }
}

/// One line of the shortcut table: the shortcut as text, and the action
/// that it triggers.
#[derive(Debug, PartialEq, Eq)]
pub struct HotkeyBinding {
    pub shortcut: String,
    pub action: Action,
}

/// A binding, with its texts as sequences of characters.
pub struct HotkeyBindingView {
    pub shortcut: Seq<char>,
    pub action: ActionView,
}

impl View for HotkeyBinding {
    type V = HotkeyBindingView;

    open spec fn view(&self) -> HotkeyBindingView {
        HotkeyBindingView { shortcut: self.shortcut@, action: self.action@ }
    }
}

impl Clone for HotkeyBinding {
    fn clone(&self) -> (r: HotkeyBinding)
        ensures
            r@ == self@,
    {
        HotkeyBinding { shortcut: self.shortcut.clone(), action: self.action.clone() }
    }
}

/// The views of a sequence of bindings.
pub open spec fn bindings_view(v: Seq<HotkeyBinding>) -> Seq<HotkeyBindingView> {
    Seq::new(v.len(), |i: int| v[i]@)
}

/// The binding of one chord, where the chord is present.
pub open spec fn bound(chord: Option<KeybindSpecView>, action: ActionView) -> Seq<
    HotkeyBindingView,
> {
    match chord {
        Some(k) => seq![HotkeyBindingView { shortcut: k.shortcut(), action }],
        None => Seq::empty(),
    }
}

/// `acc` followed by the binding of `chord`, where the chord is present.
pub open spec fn appended(
    acc: Seq<HotkeyBindingView>,
    chord: Option<KeybindSpecView>,
    action: ActionView,
) -> Seq<HotkeyBindingView> {
    acc + bound(chord, action)
}

/// `acc` followed by the bindings of one component, in the order in which
/// its actions are listed; a component without key bindings adds none.
pub open spec fn with_component(acc: Seq<HotkeyBindingView>, c: ComponentConfigView) -> Seq<
    HotkeyBindingView,
> {
    match c.kind {
        ComponentKindView::Number { default, keybind: Some(k) } => {
            let a = appended(acc, k.increase, ActionView::NumberIncrease { id: c.id });
            let b = appended(a, k.decrease, ActionView::NumberDecrease { id: c.id });
            appended(b, k.reset, ActionView::NumberReset { id: c.id })
        },
        ComponentKindView::Timer { default_ms, keybind: Some(k), rounding } => {
            let a = appended(acc, k.start, ActionView::TimerStart { id: c.id });
            let b = appended(a, k.stop, ActionView::TimerStop { id: c.id });
            let d = appended(b, k.reset, ActionView::TimerReset { id: c.id });
            let e = appended(d, k.increase, ActionView::TimerIncrease { id: c.id });
            appended(e, k.decrease, ActionView::TimerDecrease { id: c.id })
        },
        ComponentKindView::ImageToggle { sources, width, height, opacity, keybind: Some(k) } => {
            let a = appended(acc, k.forward, ActionView::ImageToggleForward { id: c.id });
            appended(a, k.backward, ActionView::ImageToggleBackward { id: c.id })
        },
        _ => acc,
    }
}

/// The bindings of all components, component by component.
pub open spec fn all_hotkeys(cs: Seq<ComponentConfigView>) -> Seq<HotkeyBindingView>
    decreases cs.len(),
{
    if cs.len() == 0 {
        Seq::empty()
    } else {
        with_component(all_hotkeys(cs.drop_last()), cs.last())
    }
}

/// Which action a chord of a component triggers.
#[derive(Clone, Copy, Debug, PartialEq, Eq, Structural)]
enum Trigger {
    NumberIncrease,
    NumberDecrease,
    NumberReset,
    TimerStart,
    TimerStop,
    TimerReset,
    TimerIncrease,
    TimerDecrease,
    ImageToggleForward,
    ImageToggleBackward,
}

spec fn triggered(trigger: Trigger, id: Seq<char>) -> ActionView {
    match trigger {
        Trigger::NumberIncrease => ActionView::NumberIncrease { id },
        Trigger::NumberDecrease => ActionView::NumberDecrease { id },
        Trigger::NumberReset => ActionView::NumberReset { id },
        Trigger::TimerStart => ActionView::TimerStart { id },
        Trigger::TimerStop => ActionView::TimerStop { id },
        Trigger::TimerReset => ActionView::TimerReset { id },
        Trigger::TimerIncrease => ActionView::TimerIncrease { id },
        Trigger::TimerDecrease => ActionView::TimerDecrease { id },
        Trigger::ImageToggleForward => ActionView::ImageToggleForward { id },
        Trigger::ImageToggleBackward => ActionView::ImageToggleBackward { id },
    }
}

fn action_of(trigger: Trigger, id: &String) -> (a: Action)
    ensures
        a@ == triggered(trigger, id@),
{
    match trigger {
        Trigger::NumberIncrease => Action::NumberIncrease { id: id.clone() },
        Trigger::NumberDecrease => Action::NumberDecrease { id: id.clone() },
        Trigger::NumberReset => Action::NumberReset { id: id.clone() },
        Trigger::TimerStart => Action::TimerStart { id: id.clone() },
        Trigger::TimerStop => Action::TimerStop { id: id.clone() },
        Trigger::TimerReset => Action::TimerReset { id: id.clone() },
        Trigger::TimerIncrease => Action::TimerIncrease { id: id.clone() },
        Trigger::TimerDecrease => Action::TimerDecrease { id: id.clone() },
        Trigger::ImageToggleForward => Action::ImageToggleForward { id: id.clone() },
        Trigger::ImageToggleBackward => Action::ImageToggleBackward { id: id.clone() },
    }
}

/// Appends the binding of `chord`, where it is present.
fn push_binding(
    bindings: &mut Vec<HotkeyBinding>,
    chord: &Option<KeybindSpec>,
    trigger: Trigger,
    id: &String,
)
    ensures
        bindings_view(final(bindings)@) == appended(
            bindings_view(old(bindings)@),
            crate::config::chord_view(*chord),
            triggered(trigger, id@),
        ),
{
    match chord {
        Some(k) => {
            bindings.push(HotkeyBinding { shortcut: k.to_shortcut(), action: action_of(trigger, id) });
        },
        None => {},
    }
    assert(bindings_view(bindings@) =~= appended(
        bindings_view(old(bindings)@),
        crate::config::chord_view(*chord),
        triggered(trigger, id@),
    ));
}

/// Appends the bindings of one component.
fn push_component_hotkeys(bindings: &mut Vec<HotkeyBinding>, c: &ComponentConfig)
    ensures
        bindings_view(final(bindings)@) == with_component(bindings_view(old(bindings)@), c@),
{
    match &c.kind {
        ComponentKind::Number { default, keybind: Some(k) } => {
            push_binding(bindings, &k.increase, Trigger::NumberIncrease, &c.id);
            push_binding(bindings, &k.decrease, Trigger::NumberDecrease, &c.id);
            push_binding(bindings, &k.reset, Trigger::NumberReset, &c.id);
        },
        ComponentKind::Timer { default_ms, keybind: Some(k), rounding } => {
            push_binding(bindings, &k.start, Trigger::TimerStart, &c.id);
            push_binding(bindings, &k.stop, Trigger::TimerStop, &c.id);
            push_binding(bindings, &k.reset, Trigger::TimerReset, &c.id);
            push_binding(bindings, &k.increase, Trigger::TimerIncrease, &c.id);
            push_binding(bindings, &k.decrease, Trigger::TimerDecrease, &c.id);
        },
        ComponentKind::ImageToggle { sources, width, height, opacity, keybind: Some(k) } => {
            push_binding(bindings, &k.forward, Trigger::ImageToggleForward, &c.id);
            push_binding(bindings, &k.backward, Trigger::ImageToggleBackward, &c.id);
        },
        _ => {},
    }
}

/// The bindings of all components of a schema.
pub fn hotkeys_of(components: &Vec<ComponentConfig>) -> (bindings: Vec<HotkeyBinding>)
    ensures
        bindings_view(bindings@) == all_hotkeys(components_view(components@)),
{
    let ghost cs = components_view(components@);
    let mut bindings: Vec<HotkeyBinding> = Vec::new();
    let mut i: usize = 0;
    assert(bindings_view(bindings@) =~= all_hotkeys(cs.take(0)));
    while i < components.len()
        invariant
            i <= components.len(),
            cs == components_view(components@),
            bindings_view(bindings@) == all_hotkeys(cs.take(i as int)),
        decreases components.len() - i,
    {
        push_component_hotkeys(&mut bindings, &components[i]);
        proof {
            let next = cs.take(i as int + 1);
            assert(next.drop_last() =~= cs.take(i as int));
            assert(next.last() == components[i as int]@);
        }
        i += 1;
    }
    assert(cs.take(components.len() as int) =~= cs);
    bindings
}

/// The button that a shortcut names where it is bound to a gamepad: what
/// follows the prefix `Gamepad:`. A shortcut without the prefix is a
/// keyboard shortcut.
pub open spec fn gamepad_button_of(shortcut: Seq<char>) -> Option<Seq<char>> {
    let prefix = "Gamepad:"@;
    if prefix.is_prefix_of(shortcut) {
        Some(shortcut.skip(prefix.len() as int))
    } else {
        None
    }
}

/// The gamepad button that `shortcut` names, if it names one.
pub fn gamepad_button(shortcut: &str) -> (r: Option<String>)
    ensures
        match r {
            Some(button) => gamepad_button_of(shortcut@) == Some(button@),
            None => gamepad_button_of(shortcut@) is None,
        },
{
    let s = crate::text::chars_of(shortcut);
    let prefix = crate::text::chars_of("Gamepad:");
    if prefix.len() > s.len() {
        return None;
    }
    let mut i: usize = 0;
    while i < prefix.len()
        invariant
            i <= prefix.len() <= s.len(),
            s@ == shortcut@,
            prefix@ == "Gamepad:"@,
            forall|k: int| 0 <= k < i ==> s@[k] == prefix@[k],
        decreases prefix.len() - i,
    {
        if s[i] != prefix[i] {
            assert(s@.subrange(0, prefix@.len() as int)[i as int] != prefix@[i as int]);
            return None;
        }
        i += 1;
    }
    assert(prefix@ =~= s@.subrange(0, prefix@.len() as int));
    let mut rest: Vec<char> = Vec::new();
    let mut j: usize = prefix.len();
    while j < s.len()
        invariant
            prefix.len() <= j <= s.len(),
            rest@ == s@.subrange(prefix.len() as int, j as int),
        decreases s.len() - j,
    {
        rest.push(s[j]);
        j += 1;
    }
    assert(rest@ =~= s@.skip(prefix.len() as int));
    Some(crate::text::text_of(&rest))
}

} // verus!
