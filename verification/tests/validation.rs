use scoreboard::compile::parse_keybind;
use scoreboard::config::{ConfigError, Font, KeybindSpec, Opacity, Position, Rule, TimerRounding};
use scoreboard::document::{Entry, Node};
use scoreboard::paths::{pick_source, resolve_image_source};
use scoreboard::action::gamepad_button;
use scoreboard::text::{chars_of, is_blank, lowercase, rank, same_text, trim, Rank};
use scoreboard::validate::{
    color_is_valid, parse_timer_default, parse_timer_rounding, resolve_font, validate_color,
    validate_font, validate_id, validate_position, FontOverride,
};

fn schema(id: &str, rule: Rule) -> ConfigError {
    ConfigError::Schema { id: id.to_string(), rule }
}

#[test]
fn color_validation() {
    assert!(validate_color("c", "#ZZZZZZ").is_err());
    assert!(validate_color("c", "#FFF").is_err());
    assert!(validate_color("c", "FFFFFF").is_err());
    assert!(validate_color("c", "#00ff00").is_ok());
    assert!(validate_color("c", "#00FF00").is_ok());
    assert!(validate_color("c", "  #A1b2C3 ").is_ok());
    assert!(validate_color("c", "").is_err());
    assert!(validate_color("c", "#12345").is_err());
    assert!(validate_color("c", "#1234567").is_err());
    assert!(validate_color("c", "#12345g").is_err());
    assert_eq!(validate_color("top.color", "red"), Err(schema("top.color", Rule::ColorInvalid)));
    assert!(color_is_valid("#000000"));
    assert!(!color_is_valid("#00000\u{e9}"));
}

#[test]
fn timer_default_parsing() {
    assert_eq!(parse_timer_default("01:02:03"), Ok(3_723_000));
    assert_eq!(parse_timer_default("00:60:00"), Err(Rule::TimerDefaultShape));
    assert_eq!(parse_timer_default("25:00:00"), Ok(90_000_000));
    assert_eq!(parse_timer_default("00:00:00"), Ok(0));
    assert_eq!(parse_timer_default("00:00:59"), Ok(59_000));
    assert_eq!(parse_timer_default("00:00:60"), Err(Rule::TimerDefaultShape));
    assert_eq!(parse_timer_default("+1:+2:+3"), Ok(3_723_000));
}

#[test]
fn timer_default_errors() {
    assert_eq!(parse_timer_default(""), Err(Rule::TimerDefaultShape));
    assert_eq!(parse_timer_default("10:00"), Err(Rule::TimerDefaultShape));
    assert_eq!(parse_timer_default("1:2:3:4"), Err(Rule::TimerDefaultShape));
    assert_eq!(parse_timer_default("x:00:00"), Err(Rule::TimerHoursInvalid));
    assert_eq!(parse_timer_default(":00:00"), Err(Rule::TimerHoursInvalid));
    assert_eq!(parse_timer_default("00:y:00"), Err(Rule::TimerMinutesInvalid));
    assert_eq!(parse_timer_default("00:00: 1"), Err(Rule::TimerSecondsInvalid));
    assert_eq!(parse_timer_default("-1:00:00"), Err(Rule::TimerDefaultShape));
    assert_eq!(parse_timer_default("00:-1:00"), Err(Rule::TimerDefaultShape));
    assert_eq!(
        parse_timer_default("99999999999999999999:00:00"),
        Err(Rule::TimerHoursInvalid)
    );
    assert_eq!(
        parse_timer_default("9223372036854775807:00:00"),
        Err(Rule::TimerDefaultTooLarge)
    );
    assert_eq!(parse_timer_default("2562047788015:12:55"), Ok(9_223_372_036_854_775_000));
    assert_eq!(parse_timer_default("2562047788015:12:56"), Err(Rule::TimerDefaultTooLarge));
}

#[test]
fn timer_rounding_names() {
    assert_eq!(parse_timer_rounding("t", None, None), Ok(TimerRounding::Standard));
    assert_eq!(parse_timer_rounding("t", None, Some("basketball")), Ok(TimerRounding::Basketball));
    assert_eq!(parse_timer_rounding("t", Some("STANDARD"), Some("basketball")), Ok(TimerRounding::Standard));
    assert_eq!(parse_timer_rounding("t", Some("BasketBall"), None), Ok(TimerRounding::Basketball));
    assert_eq!(
        parse_timer_rounding("t", Some("hockey"), Some("standard")),
        Err(schema("t", Rule::UnsupportedRounding))
    );
}

#[test]
fn id_validation() {
    assert!(validate_id("home").is_ok());
    assert_eq!(validate_id(""), Err(schema("", Rule::EmptyId)));
    assert_eq!(validate_id(" \t\u{a0}"), Err(schema(" \t\u{a0}", Rule::EmptyId)));
}

#[test]
fn position_bounds() {
    assert!(validate_position("p", &Position { x: 0, y: 0 }).is_ok());
    assert!(validate_position("p", &Position { x: 639, y: 479 }).is_ok());
    for (x, y) in [(640, 0), (-1, 0), (0, 480), (0, -1)] {
        assert_eq!(
            validate_position("p", &Position { x, y }),
            Err(schema("p", Rule::PositionOutside))
        );
    }
}

fn font(family: &str, size: i32, color: &str) -> Font {
    Font { family: family.to_string(), size, color: color.to_string() }
}

#[test]
fn font_validation() {
    assert!(validate_font("f", &font("Arial", 12, "#ffffff")).is_ok());
    assert_eq!(validate_font("f", &font("  ", 12, "#ffffff")), Err(schema("f", Rule::FontFamilyEmpty)));
    assert_eq!(validate_font("f", &font("Arial", 0, "#ffffff")), Err(schema("f", Rule::FontSizeNotPositive)));
    assert_eq!(validate_font("f", &font("Arial", 12, "white")), Err(schema("f", Rule::FontColorInvalid)));
    assert_eq!(validate_font("f", &font("", 0, "white")), Err(schema("f", Rule::FontFamilyEmpty)));
}

#[test]
fn font_fields_fall_back_one_by_one() {
    let base = font("Segoe UI", 28, "#FFFFFF");
    assert_eq!(resolve_font(&base, None), Ok(font("Segoe UI", 28, "#FFFFFF")));
    let over = FontOverride { family: None, size: Some(40), color: None };
    assert_eq!(resolve_font(&base, Some(&over)), Ok(font("Segoe UI", 40, "#FFFFFF")));
    let over = FontOverride {
        family: Some("Arial".to_string()),
        size: None,
        color: Some("#000000".to_string()),
    };
    assert_eq!(resolve_font(&base, Some(&over)), Ok(font("Arial", 28, "#000000")));
}

#[test]
fn shortcut_is_canonical() {
    let chord = KeybindSpec {
        key: "  F5 ".to_string(),
        ctrl: true,
        alt: true,
        shift: true,
        win: true,
    };
    assert_eq!(chord.to_shortcut(), "Ctrl+Alt+Shift+Super+F5");
    let chord = KeybindSpec {
        key: "Gamepad:A".to_string(),
        ctrl: false,
        alt: false,
        shift: false,
        win: false,
    };
    assert_eq!(chord.to_shortcut(), "Gamepad:A");
    let chord = KeybindSpec { key: "K".to_string(), ctrl: false, alt: true, shift: false, win: true };
    assert_eq!(chord.to_shortcut(), "Alt+Super+K");
}

fn text(s: &str) -> Node {
    Node::Text(s.to_string())
}

fn entry(key: &str, value: Node) -> Entry {
    Entry { key: key.to_string(), value }
}

#[test]
fn keybind_lookup() {
    let binds = vec![
        entry("increase", Node::Table(vec![entry("key", text("F1")), entry("shift", Node::Flag(true))])),
        entry("decrease", Node::Table(vec![entry("key", text("   "))])),
        entry("reset", text("F3")),
        entry("start", Node::Table(vec![entry("ctrl", Node::Flag(true))])),
    ];
    let found = parse_keybind("n", &binds, "increase").unwrap().unwrap();
    assert_eq!(found.key, "F1");
    assert!(found.shift && !found.ctrl && !found.alt && !found.win);
    assert_eq!(parse_keybind("n", &binds, "stop"), Ok(None));
    assert_eq!(parse_keybind("n", &binds, "decrease"), Err(schema("n", Rule::KeybindKeyEmpty)));
    assert_eq!(parse_keybind("n", &binds, "reset"), Err(schema("n", Rule::ComponentMalformed)));
    assert_eq!(parse_keybind("n", &binds, "start"), Err(schema("n", Rule::ComponentMalformed)));
}

#[test]
fn image_sources_are_resolved() {
    assert_eq!(resolve_image_source("/boards", "/abs/logo.png"), "/abs/logo.png");
    assert_eq!(resolve_image_source("/boards", "logo.png"), "/boards/logo.png");
    assert_eq!(resolve_image_source("/boards/", "img/logo.png"), "/boards/img/logo.png");
    assert_eq!(pick_source("a.png", true, "/b/a.png".to_string()), "a.png");
    assert_eq!(pick_source("a.png", false, "/b/a.png".to_string()), "/b/a.png");
}

#[test]
fn gamepad_shortcuts_are_told_apart() {
    assert_eq!(gamepad_button("Gamepad:A"), Some("A".to_string()));
    assert_eq!(gamepad_button("Gamepad:DPAD_UP"), Some("DPAD_UP".to_string()));
    assert_eq!(gamepad_button("Gamepad:"), Some(String::new()));
    assert_eq!(gamepad_button("Ctrl+Gamepad:A"), None);
    assert_eq!(gamepad_button("gamepad:A"), None);
    assert_eq!(gamepad_button("Gamepad"), None);
    assert_eq!(gamepad_button(""), None);
}

#[test]
fn timer_fields_are_signed_64_bit_numbers() {
    assert_eq!(parse_timer_default("-0:00:00"), Ok(0));
    assert_eq!(parse_timer_default("007:08:09"), Ok(25_689_000));
    assert_eq!(parse_timer_default("0:0:0"), Ok(0));
    assert_eq!(parse_timer_default("-:0:0"), Err(Rule::TimerHoursInvalid));
    assert_eq!(parse_timer_default("+:0:0"), Err(Rule::TimerHoursInvalid));
    assert_eq!(parse_timer_default("1 :0:0"), Err(Rule::TimerHoursInvalid));
    assert_eq!(parse_timer_default("0:9223372036854775808:0"), Err(Rule::TimerMinutesInvalid));
    assert_eq!(parse_timer_default("0:-9223372036854775808:0"), Err(Rule::TimerDefaultShape));
    assert_eq!(parse_timer_default("0:0:-9223372036854775809"), Err(Rule::TimerSecondsInvalid));
}

#[test]
fn opacity_range_on_bit_patterns() {
    assert!(Opacity { bits: 0.0f64.to_bits() }.is_in_unit_range());
    assert!(Opacity { bits: (-0.0f64).to_bits() }.is_in_unit_range());
    assert!(Opacity { bits: 0.5f64.to_bits() }.is_in_unit_range());
    assert!(Opacity { bits: 1.0f64.to_bits() }.is_in_unit_range());
    assert!(!Opacity { bits: 1.0000001f64.to_bits() }.is_in_unit_range());
    assert!(!Opacity { bits: (-0.1f64).to_bits() }.is_in_unit_range());
    assert!(!Opacity { bits: f64::NAN.to_bits() }.is_in_unit_range());
    assert!(!Opacity { bits: f64::INFINITY.to_bits() }.is_in_unit_range());
    assert_eq!(Opacity::full().bits, 1.0f64.to_bits());
}

#[test]
fn text_helpers() {
    assert_eq!(trim(" \t hello world \n"), chars_of("hello world"));
    assert_eq!(trim("\u{3000}x\u{2003}"), chars_of("x"));
    assert!(is_blank(" \r\n"));
    assert!(!is_blank(" . "));
    assert_eq!(lowercase("BasketBALL-\u{c9}"), "basketball-\u{c9}");
    assert!(same_text("a\u{e9}", "a\u{e9}"));
    assert!(!same_text("a", "A"));
    assert_eq!(rank("a", "b"), Rank::Before);
    assert_eq!(rank("b", "a"), Rank::After);
    assert_eq!(rank("ab", "ab"), Rank::Same);
    assert_eq!(rank("ab", "abc"), Rank::Before);
    assert_eq!(rank("Z", "a"), Rank::Before);
    assert_eq!(rank("\u{e9}", "z"), Rank::After);
}
