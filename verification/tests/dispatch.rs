use scoreboard::action::{Action, HotkeyBinding};
use scoreboard::compile::load_config_from_str_with_base;
use scoreboard::dispatch::{find_action, handle_trigger, handle_trigger_at, split_bindings};
use scoreboard::state::RuntimeState;

const PANEL: &str = r##"
[home]
type = "number"
default = 0
position = { x = 1, y = 1 }
keybind = { increase = { key = "Up" }, decrease = { key = "Gamepad:A" } }

[shot]
type = "timer"
default = "00:00:24"
position = { x = 2, y = 2 }
keybind = { start = { key = "Gamepad:START" }, stop = { key = "S", ctrl = true } }
"##;

fn panel() -> RuntimeState {
    let config = load_config_from_str_with_base(PANEL, "/p").unwrap();
    let mut state = RuntimeState::new();
    state.replace_config(config);
    state
}

fn binding(shortcut: &str, action: Action) -> HotkeyBinding {
    HotkeyBinding { shortcut: shortcut.to_string(), action }
}

fn number_of(state: &RuntimeState, id: &str) -> String {
    let snapshot = state.snapshot();
    let found = snapshot.components.iter().find(|c| c.id == id).unwrap();
    found.text.clone().unwrap()
}

#[test]
fn bindings_split_by_device() {
    let state = panel();
    let (keyboard, gamepad) = split_bindings(&state.collect_hotkeys());
    assert_eq!(
        keyboard,
        vec![
            binding("Up", Action::NumberIncrease { id: "home".to_string() }),
            binding("Ctrl+S", Action::TimerStop { id: "shot".to_string() }),
        ]
    );
    assert_eq!(
        gamepad,
        vec![
            binding("A", Action::NumberDecrease { id: "home".to_string() }),
            binding("START", Action::TimerStart { id: "shot".to_string() }),
        ]
    );
}

#[test]
fn split_of_nothing_is_nothing() {
    let (keyboard, gamepad) = split_bindings(&Vec::new());
    assert!(keyboard.is_empty());
    assert!(gamepad.is_empty());
}

#[test]
fn prefix_alone_names_the_empty_button() {
    let all = vec![
        binding("Gamepad:", Action::NumberReset { id: "a".to_string() }),
        binding("gamepad:A", Action::NumberReset { id: "b".to_string() }),
    ];
    let (keyboard, gamepad) = split_bindings(&all);
    assert_eq!(keyboard, vec![binding("gamepad:A", Action::NumberReset { id: "b".to_string() })]);
    assert_eq!(gamepad, vec![binding("", Action::NumberReset { id: "a".to_string() })]);
}

#[test]
fn last_binding_of_a_shortcut_wins() {
    let table = vec![
        binding("Up", Action::NumberIncrease { id: "a".to_string() }),
        binding("Down", Action::NumberDecrease { id: "a".to_string() }),
        binding("Up", Action::NumberReset { id: "b".to_string() }),
    ];
    assert_eq!(find_action(&table, "Up"), Some(&Action::NumberReset { id: "b".to_string() }));
    assert_eq!(find_action(&table, "Down"), Some(&Action::NumberDecrease { id: "a".to_string() }));
    assert_eq!(find_action(&table, "up"), None);
    assert_eq!(find_action(&Vec::new(), "Up"), None);
}

#[test]
fn trigger_applies_the_bound_action() {
    let mut state = panel();
    let (keyboard, gamepad) = split_bindings(&state.collect_hotkeys());
    assert!(handle_trigger_at(&mut state, &keyboard, false, "Up", 0));
    assert!(handle_trigger_at(&mut state, &keyboard, false, "Up", 0));
    assert_eq!(number_of(&state, "home"), "2");
    assert!(handle_trigger_at(&mut state, &gamepad, false, "A", 0));
    assert_eq!(number_of(&state, "home"), "1");
}

#[test]
fn paused_trigger_changes_nothing() {
    let mut state = panel();
    let (keyboard, _) = split_bindings(&state.collect_hotkeys());
    assert!(!handle_trigger_at(&mut state, &keyboard, true, "Up", 0));
    assert_eq!(number_of(&state, "home"), "0");
}

#[test]
fn unbound_trigger_changes_nothing() {
    let mut state = panel();
    let (keyboard, gamepad) = split_bindings(&state.collect_hotkeys());
    assert!(!handle_trigger_at(&mut state, &keyboard, false, "A", 0));
    assert!(!handle_trigger_at(&mut state, &gamepad, false, "Up", 0));
    assert_eq!(number_of(&state, "home"), "0");
}

#[test]
fn trigger_without_visible_change_reports_none() {
    let mut state = panel();
    let (_, gamepad) = split_bindings(&state.collect_hotkeys());
    assert!(!handle_trigger_at(&mut state, &gamepad, false, "A", 0));
    assert_eq!(number_of(&state, "home"), "0");
}

#[test]
fn trigger_reads_the_clock() {
    let mut state = panel();
    let (keyboard, gamepad) = split_bindings(&state.collect_hotkeys());
    assert!(handle_trigger(&mut state, &gamepad, false, "START"));
    assert!(!handle_trigger(&mut state, &gamepad, false, "START"));
    assert!(handle_trigger(&mut state, &keyboard, false, "Ctrl+S"));
    assert!(!handle_trigger(&mut state, &keyboard, true, "Up"));
}
