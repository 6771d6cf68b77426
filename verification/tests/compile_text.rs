use scoreboard::compile::load_config_from_str_with_base;
use scoreboard::config::{ComponentKind, ConfigError, Rule, TimerRounding};

const SAMPLE: &str = r##"
[global]
background_color = "#101010"
font = { family = "Arial", size = 30 }

[home]
type = "number"
default = 3
position = { x = 10, y = 20 }
keybind = { increase = { key = "F1", ctrl = true }, decrease = { key = " F2 " } }

[clock]
type = { name = "timer", rounding = "Basketball" }
default = "00:10:00"
position = { x = 639, y = 479 }

[banner]
type = "label"
default = "Hello"
edit = true
position = { x = 0, y = 0 }
alignment = "center"
font = { color = "#00ff00" }
"##;

#[test]
fn compiles_a_document_and_sorts_by_id() {
    let config = load_config_from_str_with_base(SAMPLE, "/base").unwrap();
    assert_eq!(config.global.background_color, "#101010");
    assert_eq!(config.global.font.family, "Arial");
    assert_eq!(config.global.font.size, 30);
    assert_eq!(config.global.font.color, "#FFFFFF");
    let ids: Vec<&str> = config.components.iter().map(|c| c.id.as_str()).collect();
    assert_eq!(ids, vec!["banner", "clock", "home"]);
    assert_eq!(config.components[0].font.color, "#00ff00");
    assert_eq!(config.components[0].font.family, "Arial");
    match &config.components[1].kind {
        ComponentKind::Timer { default_ms, rounding, keybind } => {
            assert_eq!(*default_ms, 600_000);
            assert_eq!(*rounding, TimerRounding::Basketball);
            assert!(keybind.is_none());
        }
        other => panic!("unexpected kind {:?}", other),
    }
    match &config.components[2].kind {
        ComponentKind::Number { default, keybind } => {
            assert_eq!(*default, 3);
            let k = keybind.as_ref().unwrap();
            assert_eq!(k.increase.as_ref().unwrap().to_shortcut(), "Ctrl+F1");
            assert_eq!(k.decrease.as_ref().unwrap().to_shortcut(), "F2");
            assert!(k.reset.is_none());
        }
        other => panic!("unexpected kind {:?}", other),
    }
}

#[test]
fn syntax_error_is_a_parse_error() {
    let r = load_config_from_str_with_base("[a\nx = ", "/base");
    assert!(matches!(r, Err(ConfigError::Parse { .. })));
}

fn rule_of(text: &str) -> (String, Rule) {
    match load_config_from_str_with_base(text, "/base") {
        Err(ConfigError::Schema { id, rule }) => (id, rule),
        other => panic!("expected a schema error, got {:?}", other),
    }
}

fn number_at(x: i64, y: i64) -> String {
    format!("[n]\ntype = \"number\"\ndefault = 0\nposition = {{ x = {x}, y = {y} }}\n")
}

#[test]
fn position_validation() {
    assert_eq!(rule_of(&number_at(640, 0)), ("n".to_string(), Rule::PositionOutside));
    assert_eq!(rule_of(&number_at(-1, 0)), ("n".to_string(), Rule::PositionOutside));
    assert_eq!(rule_of(&number_at(0, 480)), ("n".to_string(), Rule::PositionOutside));
    assert!(load_config_from_str_with_base(&number_at(639, 479), "/base").is_ok());
    assert!(load_config_from_str_with_base(&number_at(0, 0), "/base").is_ok());
}

#[test]
fn unsupported_type_names_the_component() {
    let text = "[thing]\ntype = \"gauge\"\nposition = { x = 1, y = 1 }\n";
    assert_eq!(rule_of(text), ("thing".to_string(), Rule::UnsupportedType));
}

#[test]
fn edit_only_on_labels() {
    let text = "[n]\ntype = \"number\"\ndefault = 0\nedit = true\nposition = { x = 1, y = 1 }\n";
    assert_eq!(rule_of(text), ("n".to_string(), Rule::EditNotAllowed));
}
