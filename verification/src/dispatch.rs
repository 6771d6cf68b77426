//! From a trigger to the action that it stands for: the two tables into
//! which the bindings of a configuration fall, one served by the keyboard
//! and one by the gamepad, the lookup in a table, and what the engine does
//! with a trigger that arrives.

use crate::action::{
    Action, ActionView, HotkeyBinding, HotkeyBindingView, bindings_view, gamepad_button,
    gamepad_button_of,
};
use crate::state::{RuntimeState, RuntimeStateView};
use crate::text::same_text;
use vstd::prelude::*;

verus! {

/// The bindings that the keyboard serves: those whose shortcut names no
/// gamepad button, in the order of `bs`.
pub open spec fn keyboard_table(bs: Seq<HotkeyBindingView>) -> Seq<HotkeyBindingView>
    decreases bs.len(),
{
    if bs.len() == 0 {
        Seq::empty()
    } else {
        let rest = keyboard_table(bs.drop_last());
        match gamepad_button_of(bs.last().shortcut) {
            Some(_) => rest,
            None => rest.push(bs.last()),
        }
    }
}

/// The bindings that the gamepad serves: those whose shortcut names a
/// button, each under the name of its button, in the order of `bs`.
pub open spec fn gamepad_table(bs: Seq<HotkeyBindingView>) -> Seq<HotkeyBindingView>
    decreases bs.len(),
{
    if bs.len() == 0 {
        Seq::empty()
    } else {
        let rest = gamepad_table(bs.drop_last());
        match gamepad_button_of(bs.last().shortcut) {
            Some(button) => rest.push(
                HotkeyBindingView { shortcut: button, action: bs.last().action },
            ),
            None => rest,
        }
    }
}

/// The action that `trigger` stands for in a table: that of the last
/// binding under this shortcut, as in a map that is filled in the order of
/// the table.
pub open spec fn action_for(table: Seq<HotkeyBindingView>, trigger: Seq<char>) -> Option<
    ActionView,
>
    decreases table.len(),
{
    if table.len() == 0 {
        None
    } else if table.last().shortcut == trigger {
        Some(table.last().action)
    } else {
        action_for(table.drop_last(), trigger)
    }
}

/// Splits bindings into those of the keyboard and those of the gamepad.
pub fn split_bindings(bindings: &Vec<HotkeyBinding>) -> (tables: (
    Vec<HotkeyBinding>,
    Vec<HotkeyBinding>,
))
    ensures
        bindings_view(tables.0@) == keyboard_table(bindings_view(bindings@)),
        bindings_view(tables.1@) == gamepad_table(bindings_view(bindings@)),
{
    let ghost bs = bindings_view(bindings@);
    let mut keyboard: Vec<HotkeyBinding> = Vec::new();
    let mut gamepad: Vec<HotkeyBinding> = Vec::new();
    let mut i: usize = 0;
    assert(bindings_view(keyboard@) =~= keyboard_table(bs.take(0)));
    assert(bindings_view(gamepad@) =~= gamepad_table(bs.take(0)));
    while i < bindings.len()
        invariant
            i <= bindings.len(),
            bs == bindings_view(bindings@),
            bindings_view(keyboard@) == keyboard_table(bs.take(i as int)),
            bindings_view(gamepad@) == gamepad_table(bs.take(i as int)),
        decreases bindings.len() - i,
    {
        let ghost keyboard_before = bindings_view(keyboard@);
        let ghost gamepad_before = bindings_view(gamepad@);
        let binding = &bindings[i];
        proof {
            let next = bs.take(i as int + 1);
            assert(next.drop_last() =~= bs.take(i as int));
            assert(next.last() == binding@);
        }
        match gamepad_button(binding.shortcut.as_str()) {
            Some(button) => {
                gamepad.push(HotkeyBinding { shortcut: button, action: binding.action.clone() });
                assert(bindings_view(gamepad@) =~= gamepad_before.push(
                    HotkeyBindingView { shortcut: button@, action: binding@.action },
                ));
            },
            None => {
                keyboard.push(binding.clone());
                assert(bindings_view(keyboard@) =~= keyboard_before.push(binding@));
            },
        }
        i += 1;
    }
    assert(bs.take(bindings.len() as int) =~= bs);
    (keyboard, gamepad)
}

/// The action that `trigger` stands for in `table`, if it stands for one.
pub fn find_action<'a>(table: &'a Vec<HotkeyBinding>, trigger: &str) -> (r: Option<&'a Action>)
    ensures
        match r {
            Some(action) => action_for(bindings_view(table@), trigger@) == Some(action@),
            None => action_for(bindings_view(table@), trigger@) is None,
        },
{
    let ghost bs = bindings_view(table@);
    let mut i: usize = table.len();
    assert(bs.take(i as int) =~= bs);
    while i > 0
        invariant
            i <= table.len(),
            bs == bindings_view(table@),
            action_for(bs, trigger@) == action_for(bs.take(i as int), trigger@),
        decreases i,
    {
        let ghost part = bs.take(i as int);
        i -= 1;
        proof {
            assert(part.last() == table[i as int]@);
            assert(part.drop_last() =~= bs.take(i as int));
        }
        if same_text(table[i].shortcut.as_str(), trigger) {
            return Some(&table[i].action);
        }
    }
    None
}

impl RuntimeStateView {
    /// The state after a trigger: as it was while triggers are paused and
    /// where the table binds nothing to the trigger, else the state after
    /// the action that the trigger stands for.
    pub open spec fn after_trigger(
        self,
        table: Seq<HotkeyBindingView>,
        paused: bool,
        trigger: Seq<char>,
        now: u128,
    ) -> RuntimeStateView {
        if paused {
            self
        } else {
            match action_for(table, trigger) {
                Some(action) => self.after(action, now),
                None => self,
            }
        }
    }

    /// Whether a trigger changes what a viewer can tell.
    pub open spec fn trigger_changes(
        self,
        table: Seq<HotkeyBindingView>,
        paused: bool,
        trigger: Seq<char>,
        now: u128,
    ) -> bool {
        if paused {
            false
        } else {
            match action_for(table, trigger) {
                Some(action) => self.changes(action, now),
                None => false,
            }
        }
    }
}

/// Handles a trigger with the clock read at `now`: while triggers are not
/// paused, applies the action that the table binds to it. Says whether what
/// a viewer can tell has changed.
pub fn handle_trigger_at(
    state: &mut RuntimeState,
    table: &Vec<HotkeyBinding>,
    paused: bool,
    trigger: &str,
    now: u128,
) -> (changed: bool)
    ensures
        final(state)@ == old(state)@.after_trigger(bindings_view(table@), paused, trigger@, now),
        changed == old(state)@.trigger_changes(bindings_view(table@), paused, trigger@, now),
{
    if paused {
        return false;
    }
    match find_action(table, trigger) {
        Some(action) => state.apply_action_at(action, now),
        None => false,
    }
}

/// Handles a trigger at the present reading of the clock.
pub fn handle_trigger(
    state: &mut RuntimeState,
    table: &Vec<HotkeyBinding>,
    paused: bool,
    trigger: &str,
) -> (changed: bool)
    ensures
        exists|now: u128|
            final(state)@ == #[trigger] old(state)@.after_trigger(
                bindings_view(table@),
                paused,
                trigger@,
                now,
            ) && changed == old(state)@.trigger_changes(
                bindings_view(table@),
                paused,
                trigger@,
                now,
            ),
{
    let now = state.now();
    handle_trigger_at(state, table, paused, trigger, now)
}

} // verus!
