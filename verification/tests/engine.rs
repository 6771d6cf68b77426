use scoreboard::action::{Action, HotkeyBinding};
use scoreboard::compile::load_config_from_str_with_base;
use scoreboard::config::{
    ComponentConfig, ComponentKind, Font, GlobalSettings, Opacity, Position, ScoreboardConfig,
    TimerRounding,
};
use scoreboard::report::describe_runtime_error;
use scoreboard::state::{RuntimeError, RuntimeState};

const BOARD: &str = r##"
[global]
background_color = "#202020"

[score]
type = "number"
default = 2
position = { x = 1, y = 1 }
keybind = { increase = { key = "Up" }, reset = { key = "R", ctrl = true } }

[clock]
type = "timer"
default = "00:00:02"
position = { x = 2, y = 2 }
rounding = "basketball"
keybind = { start = { key = "S" }, stop = { key = "Gamepad:B" } }

[title]
type = "label"
default = "Home"
edit = true
position = { x = 3, y = 3 }

[fixed]
type = "label"
default = "Fixed"
position = { x = 4, y = 4 }

[logo]
type = "image"
source = "logo.png"
size = { width = 10, height = 20 }
opacity = 0.5
position = { x = 5, y = 5 }

[side]
type = "image-toggle"
sources = ["a.png", "/abs/b.png", "c.png"]
size = { width = 30, height = 40 }
position = { x = 6, y = 6 }
keybind = { forward = { key = "Right" }, backward = { key = "Left" } }
"##;

const MS: u128 = 1_000_000;

fn loaded() -> RuntimeState {
    let config = load_config_from_str_with_base(BOARD, "/b").unwrap();
    let mut state = RuntimeState::new();
    state.replace_config(config);
    state
}

fn id(s: &str) -> String {
    s.to_string()
}

fn text_of(state: &RuntimeState, id: &str) -> String {
    let snapshot = state.snapshot();
    let c = snapshot.components.iter().find(|c| c.id == id).unwrap();
    c.text.clone().unwrap()
}

fn source_of(state: &RuntimeState, id: &str) -> String {
    let snapshot = state.snapshot();
    let c = snapshot.components.iter().find(|c| c.id == id).unwrap();
    c.source.clone().unwrap()
}

#[test]
fn empty_state_shows_black_and_nothing() {
    let state = RuntimeState::new();
    let snapshot = state.snapshot();
    assert_eq!(snapshot.background_color, "#000000");
    assert!(snapshot.components.is_empty());
    assert!(state.collect_hotkeys().is_empty());
}

#[test]
fn snapshot_after_load_shows_defaults() {
    let state = loaded();
    let snapshot = state.snapshot();
    assert_eq!(snapshot.background_color, "#202020");
    let ids: Vec<&str> = snapshot.components.iter().map(|c| c.id.as_str()).collect();
    assert_eq!(ids, vec!["clock", "fixed", "logo", "score", "side", "title"]);
    let kinds: Vec<&str> = snapshot.components.iter().map(|c| c.component_type.as_str()).collect();
    assert_eq!(kinds, vec!["timer", "label", "image", "number", "image-toggle", "label"]);
    assert_eq!(text_of(&state, "score"), "2");
    assert_eq!(text_of(&state, "clock"), "2.0");
    assert_eq!(text_of(&state, "title"), "Home");
    assert_eq!(source_of(&state, "logo"), "/b/logo.png");
    assert_eq!(source_of(&state, "side"), "/b/a.png");
    let logo = &snapshot.components[2];
    assert_eq!(logo.width, Some(10));
    assert_eq!(logo.height, Some(20));
    assert_eq!(logo.opacity, Some(Opacity { bits: 0.5f64.to_bits() }));
    assert_eq!(logo.text, None);
    assert!(!logo.editable);
    let side = &snapshot.components[4];
    assert_eq!(side.opacity, Some(Opacity::full()));
    assert!(snapshot.components[5].editable);
    assert!(!snapshot.components[1].editable);
    assert_eq!(snapshot.components[0].font_family, "Segoe UI");
    assert_eq!(snapshot.components[0].font_size, 28);
    assert_eq!(snapshot.components[0].font_color, "#FFFFFF");
    assert_eq!((snapshot.components[3].x, snapshot.components[3].y), (1, 1));
    assert_eq!(snapshot.components[3].alignment, None);
}

#[test]
fn number_actions() {
    let mut state = loaded();
    assert!(state.apply_action_at(&Action::NumberIncrease { id: id("score") }, 0));
    assert_eq!(text_of(&state, "score"), "3");
    assert!(state.apply_action_at(&Action::NumberReset { id: id("score") }, 0));
    assert_eq!(text_of(&state, "score"), "2");
    assert!(!state.apply_action_at(&Action::NumberReset { id: id("score") }, 0));
    assert!(state.apply_action_at(&Action::NumberDecrease { id: id("score") }, 0));
    assert!(state.apply_action_at(&Action::NumberDecrease { id: id("score") }, 0));
    assert_eq!(text_of(&state, "score"), "0");
    assert!(!state.apply_action_at(&Action::NumberIncrease { id: id("nobody") }, 0));
    assert!(!state.apply_action_at(&Action::NumberIncrease { id: id("clock") }, 0));
}

#[test]
fn number_decrease_at_zero_reports_no_change() {
    let mut state = loaded();
    state.apply_action_at(&Action::NumberDecrease { id: id("score") }, 0);
    state.apply_action_at(&Action::NumberDecrease { id: id("score") }, 0);
    assert_eq!(text_of(&state, "score"), "0");
    assert!(!state.apply_action_at(&Action::NumberDecrease { id: id("score") }, 0));
    assert_eq!(text_of(&state, "score"), "0");
}

fn board_with(kind: ComponentKind) -> ScoreboardConfig {
    let font = Font { family: "Arial".to_string(), size: 10, color: "#ffffff".to_string() };
    ScoreboardConfig {
        global: GlobalSettings {
            background_color: "#000000".to_string(),
            font: Font { family: "Arial".to_string(), size: 10, color: "#ffffff".to_string() },
        },
        components: vec![ComponentConfig {
            id: "x".to_string(),
            position: Position { x: 0, y: 0 },
            alignment: None,
            font,
            kind,
        }],
    }
}

fn timer_board(default_ms: i64) -> RuntimeState {
    let mut state = RuntimeState::new();
    state.replace_config(board_with(ComponentKind::Timer {
        default_ms,
        keybind: None,
        rounding: TimerRounding::Standard,
    }));
    state
}

#[test]
fn timer_with_nothing_left_does_not_start() {
    let mut state = timer_board(0);
    assert!(!state.apply_action_at(&Action::TimerStart { id: id("x") }, 5 * MS));
    assert!(!state.tick_timers_at(10_000 * MS));
    assert!(!state.apply_action_at(&Action::TimerStop { id: id("x") }, 11_000 * MS));
    assert_eq!(text_of(&state, "x"), "00:00");
}

#[test]
fn tick_runs_a_timer_out() {
    let mut state = timer_board(500);
    assert!(state.apply_action_at(&Action::TimerStart { id: id("x") }, 100 * MS));
    assert!(!state.apply_action_at(&Action::TimerStart { id: id("x") }, 100 * MS));
    assert!(state.tick_timers_at(600 * MS));
    assert_eq!(text_of(&state, "x"), "00:00");
    assert!(!state.tick_timers_at(700 * MS));
    assert!(!state.apply_action_at(&Action::TimerStop { id: id("x") }, 800 * MS));
    assert!(!state.apply_action_at(&Action::TimerStart { id: id("x") }, 800 * MS));
}

#[test]
fn tick_takes_whole_milliseconds() {
    let mut state = timer_board(61_000);
    assert!(state.apply_action_at(&Action::TimerStart { id: id("x") }, 0));
    assert!(!state.tick_timers_at(999_999));
    assert!(state.tick_timers_at(1_000 * MS));
    assert_eq!(text_of(&state, "x"), "01:00");
    assert!(state.tick_timers_at(1_000 * MS + 1_500_000));
    assert!(!state.tick_timers_at(1_000 * MS + 1_500_000));
    assert!(state.apply_action_at(&Action::TimerStop { id: id("x") }, 2_000 * MS));
    assert_eq!(text_of(&state, "x"), "00:59");
    assert!(!state.tick_timers_at(50_000 * MS));
    assert_eq!(text_of(&state, "x"), "00:59");
}

#[test]
fn timer_adjustments() {
    let mut state = timer_board(2_000);
    assert!(state.apply_action_at(&Action::TimerIncrease { id: id("x") }, 0));
    assert_eq!(text_of(&state, "x"), "00:03");
    assert!(state.apply_action_at(&Action::TimerDecrease { id: id("x") }, 0));
    assert!(state.apply_action_at(&Action::TimerDecrease { id: id("x") }, 0));
    assert_eq!(text_of(&state, "x"), "00:01");
    assert!(state.apply_action_at(&Action::TimerDecrease { id: id("x") }, 0));
    assert!(!state.apply_action_at(&Action::TimerDecrease { id: id("x") }, 0));
    assert_eq!(text_of(&state, "x"), "00:00");
    assert!(state.apply_action_at(&Action::TimerReset { id: id("x") }, 0));
    assert!(!state.apply_action_at(&Action::TimerReset { id: id("x") }, 0));
    assert_eq!(text_of(&state, "x"), "00:02");
    assert!(state.apply_action_at(&Action::TimerStart { id: id("x") }, 10 * MS));
    assert!(state.apply_action_at(&Action::TimerDecrease { id: id("x") }, 510 * MS));
    assert_eq!(text_of(&state, "x"), "00:00");
    assert!(state.tick_timers_at(1_010 * MS));
    assert_eq!(text_of(&state, "x"), "00:00");
    assert!(state.apply_action_at(&Action::TimerReset { id: id("x") }, 1_500 * MS));
    assert!(!state.apply_action_at(&Action::TimerStop { id: id("x") }, 1_600 * MS));
    assert!(!state.apply_action_at(&Action::TimerReset { id: id("nobody") }, 0));
}

#[test]
fn reset_of_a_running_timer_keeps_it_running() {
    let mut state = timer_board(5_000);
    assert!(state.apply_action_at(&Action::TimerStart { id: id("x") }, 0));
    assert!(state.tick_timers_at(2_000 * MS));
    assert!(state.apply_action_at(&Action::TimerReset { id: id("x") }, 2_000 * MS));
    assert_eq!(text_of(&state, "x"), "00:05");
    assert!(state.tick_timers_at(3_000 * MS));
    assert_eq!(text_of(&state, "x"), "00:04");
}

#[test]
fn image_toggle_wraps_around() {
    let mut state = loaded();
    let forward = Action::ImageToggleForward { id: id("side") };
    let backward = Action::ImageToggleBackward { id: id("side") };
    assert!(state.apply_action_at(&forward, 0));
    assert_eq!(source_of(&state, "side"), "/abs/b.png");
    assert!(state.apply_action_at(&forward, 0));
    assert_eq!(source_of(&state, "side"), "/b/c.png");
    assert!(state.apply_action_at(&forward, 0));
    assert_eq!(source_of(&state, "side"), "/b/a.png");
    assert!(state.apply_action_at(&backward, 0));
    assert_eq!(source_of(&state, "side"), "/b/c.png");
    assert!(!state.apply_action_at(&Action::ImageToggleForward { id: id("logo") }, 0));
}

#[test]
fn image_toggle_without_sources_is_left_alone() {
    let mut state = RuntimeState::new();
    state.replace_config(board_with(ComponentKind::ImageToggle {
        sources: vec![],
        width: 1,
        height: 1,
        opacity: Opacity::full(),
        keybind: None,
    }));
    assert!(!state.apply_action_at(&Action::ImageToggleForward { id: id("x") }, 0));
    assert!(!state.apply_action_at(&Action::ImageToggleBackward { id: id("x") }, 0));
    assert_eq!(state.snapshot().components[0].source, None);
}

#[test]
fn image_toggle_with_one_source_reports_no_change() {
    let mut state = RuntimeState::new();
    state.replace_config(board_with(ComponentKind::ImageToggle {
        sources: vec!["only.png".to_string()],
        width: 1,
        height: 1,
        opacity: Opacity::full(),
        keybind: None,
    }));
    assert!(!state.apply_action_at(&Action::ImageToggleForward { id: id("x") }, 0));
    assert_eq!(source_of(&state, "x"), "only.png");
}

#[test]
fn label_requests() {
    let mut state = RuntimeState::new();
    assert_eq!(state.set_label_value("title", id("A")), Err(RuntimeError::NoConfig));
    let mut state = loaded();
    assert_eq!(state.set_label_value("title", id("Guests")), Ok(true));
    assert_eq!(text_of(&state, "title"), "Guests");
    assert_eq!(state.set_label_value("title", id("Guests")), Ok(false));
    assert_eq!(state.set_label_value("nobody", id("A")), Err(RuntimeError::UnknownComponent));
    assert_eq!(state.set_label_value("score", id("A")), Err(RuntimeError::NotALabel));
    assert_eq!(state.set_label_value("fixed", id("A")), Err(RuntimeError::NotEditable));
    assert_eq!(text_of(&state, "fixed"), "Fixed");
    assert_eq!(state.set_label_value("title", id("")), Ok(true));
    assert_eq!(text_of(&state, "title"), "");
}

#[test]
fn multiline_label_is_always_refused() {
    let mut state = loaded();
    for target in ["title", "fixed", "score", "nobody"] {
        assert_eq!(state.set_label_value(target, id("a\nb")), Err(RuntimeError::NotSingleLine));
        assert_eq!(state.set_label_value(target, id("a\rb")), Err(RuntimeError::NotSingleLine));
    }
    let mut empty = RuntimeState::new();
    assert_eq!(empty.set_label_value("title", id("\n")), Err(RuntimeError::NotSingleLine));
    assert_eq!(text_of(&state, "title"), "Home");
}

#[test]
fn reload_drops_every_live_value() {
    let mut state = loaded();
    state.apply_action_at(&Action::NumberIncrease { id: id("score") }, 0);
    state.apply_action_at(&Action::TimerStart { id: id("clock") }, 0);
    state.tick_timers_at(1_000 * MS);
    state.set_label_value("title", id("Changed")).unwrap();
    state.apply_action_at(&Action::ImageToggleForward { id: id("side") }, 0);
    let reloaded = load_config_from_str_with_base(BOARD, "/b").unwrap();
    state.replace_config(reloaded);
    assert_eq!(state.snapshot(), loaded().snapshot());
    assert!(!state.tick_timers_at(5_000 * MS));
    let other = "[score]\ntype = \"label\"\ndefault = \"text now\"\nposition = { x = 0, y = 0 }\n";
    state.replace_config(load_config_from_str_with_base(other, "/b").unwrap());
    let snapshot = state.snapshot();
    assert_eq!(snapshot.components.len(), 1);
    assert_eq!(snapshot.components[0].text, Some("text now".to_string()));
    assert!(!state.apply_action_at(&Action::NumberIncrease { id: id("score") }, 0));
    assert!(!state.apply_action_at(&Action::TimerStart { id: id("clock") }, 0));
}

#[test]
fn hotkeys_in_schema_order() {
    let state = loaded();
    let expected = vec![
        HotkeyBinding { shortcut: id("S"), action: Action::TimerStart { id: id("clock") } },
        HotkeyBinding { shortcut: id("Gamepad:B"), action: Action::TimerStop { id: id("clock") } },
        HotkeyBinding { shortcut: id("Up"), action: Action::NumberIncrease { id: id("score") } },
        HotkeyBinding { shortcut: id("Ctrl+R"), action: Action::NumberReset { id: id("score") } },
        HotkeyBinding { shortcut: id("Right"), action: Action::ImageToggleForward { id: id("side") } },
        HotkeyBinding { shortcut: id("Left"), action: Action::ImageToggleBackward { id: id("side") } },
    ];
    assert_eq!(state.collect_hotkeys(), expected);
}

#[test]
fn clone_is_independent() {
    let mut state = loaded();
    let copy = state.clone();
    state.apply_action_at(&Action::NumberIncrease { id: id("score") }, 0);
    assert_eq!(text_of(&state, "score"), "3");
    assert_eq!(text_of(&copy, "score"), "2");
    assert_eq!(copy.snapshot(), loaded().snapshot());
}

#[test]
fn clock_driven_entry_points() {
    let mut state = loaded();
    let before = state.now();
    assert!(state.apply_action(&Action::NumberIncrease { id: id("score") }));
    assert!(!state.tick_timers());
    assert!(state.apply_action(&Action::TimerStart { id: id("clock") }));
    assert!(state.now() >= before);
    assert!(state.apply_action(&Action::TimerStop { id: id("clock") }));
}

#[test]
fn number_saturates_at_the_top() {
    let mut state = RuntimeState::new();
    state.replace_config(board_with(ComponentKind::Number { default: i32::MAX, keybind: None }));
    assert!(!state.apply_action_at(&Action::NumberIncrease { id: id("x") }, 0));
    assert_eq!(text_of(&state, "x"), "2147483647");
    state.replace_config(board_with(ComponentKind::Number { default: i32::MIN, keybind: None }));
    assert_eq!(text_of(&state, "x"), "-2147483648");
    assert!(state.apply_action_at(&Action::NumberDecrease { id: id("x") }, 0));
    assert_eq!(text_of(&state, "x"), "0");
}

#[test]
fn runtime_errors_in_words() {
    assert_eq!(describe_runtime_error(RuntimeError::NotSingleLine), "Label text must be a single-line string");
    assert_eq!(describe_runtime_error(RuntimeError::NoConfig), "No config loaded");
    assert_eq!(describe_runtime_error(RuntimeError::UnknownComponent), "Unknown component");
    assert_eq!(describe_runtime_error(RuntimeError::NotALabel), "Component is not a label");
    assert_eq!(describe_runtime_error(RuntimeError::NotEditable), "Component is not editable");
}
