use scoreboard::compile::{compile_document, load_config_from_str_with_base};
use scoreboard::config::{
    ComponentAlignment, ComponentKind, ConfigError, Opacity, Rule, ScoreboardConfig,
};
use scoreboard::document::{parse_document, Entry, Node};
use scoreboard::report::describe_rule;

fn load(text: &str) -> Result<ScoreboardConfig, ConfigError> {
    load_config_from_str_with_base(text, "/base")
}

fn broken(text: &str) -> (String, Rule) {
    match load(text) {
        Err(ConfigError::Schema { id, rule }) => (id, rule),
        other => panic!("expected a schema error, got {:?}", other),
    }
}

fn broken_at(id: &str, rule: Rule, text: &str) {
    assert_eq!(broken(text), (id.to_string(), rule));
}

const AT: &str = "position = { x = 1, y = 2 }\n";

fn component(body: &str) -> String {
    format!("[c]\n{AT}{body}")
}

#[test]
fn empty_document_is_an_empty_board() {
    let config = load("").unwrap();
    assert!(config.components.is_empty());
    assert_eq!(config.global.background_color, "#000000");
    assert_eq!(config.global.font.family, "Segoe UI");
    assert_eq!(config.global.font.size, 28);
    assert_eq!(config.global.font.color, "#FFFFFF");
}

#[test]
fn compile_is_deterministic() {
    let text = "[b]\ntype = \"label\"\ndefault = \"x\"\nposition = { x = 1, y = 1 }\n\
                [a]\ntype = \"number\"\ndefault = 1\nposition = { x = 2, y = 2 }\n";
    let first = load(text);
    let second = load(text);
    assert_eq!(first, second);
    let config = first.unwrap();
    assert_eq!(config.components[0].id, "a");
    assert_eq!(config.components[1].id, "b");
}

#[test]
fn global_rules() {
    broken_at("global", Rule::GlobalMalformed, "global = 3\n");
    broken_at("global", Rule::GlobalMalformed, "[global]\nbackground_color = 7\n");
    broken_at("global", Rule::GlobalMalformed, "[global]\nfont = \"Arial\"\n");
    broken_at("global", Rule::GlobalMalformed, "[global]\nfont = { size = \"big\" }\n");
    broken_at("global", Rule::GlobalMalformed, "[global]\nfont = { size = 4294967296 }\n");
    broken_at("global", Rule::FontFamilyEmpty, "[global]\nfont = { family = \" \" }\n");
    broken_at("global", Rule::FontSizeNotPositive, "[global]\nfont = { size = 0 }\n");
    broken_at("global", Rule::FontColorInvalid, "[global]\nfont = { color = \"white\" }\n");
    broken_at("global", Rule::BackgroundColorInvalid, "[global]\nbackground_color = \"#FFF\"\n");
    assert!(load("[global]\nbackground_color = \"#00ff00\"\nextra = 1\n").is_ok());
}

#[test]
fn component_shape_rules() {
    broken_at("c", Rule::ComponentMalformed, "c = 1\n");
    broken_at("c", Rule::ComponentMalformed, "[c]\ntype = \"number\"\ndefault = 1\n");
    broken_at("c", Rule::ComponentMalformed, "[c]\nposition = { x = 1, y = 2 }\ndefault = 1\n");
    broken_at("c", Rule::ComponentMalformed, "[c]\ntype = \"number\"\nposition = { x = 1 }\n");
    broken_at("c", Rule::ComponentMalformed, "[c]\ntype = \"number\"\nposition = { x = 1.5, y = 1 }\n");
    broken_at("c", Rule::ComponentMalformed, &component("type = \"label\"\ndefault = \"a\"\nedit = \"yes\"\n"));
    broken_at("c", Rule::ComponentMalformed, &component("type = \"label\"\ndefault = \"a\"\nalignment = \"left\"\n"));
    broken_at("c", Rule::ComponentMalformed, &component("type = \"label\"\ndefault = \"a\"\nsource = 3\n"));
    broken_at("c", Rule::ComponentMalformed, &component("type = \"label\"\ndefault = \"a\"\nsources = [1]\n"));
    broken_at("c", Rule::ComponentMalformed, &component("type = \"label\"\ndefault = \"a\"\nsize = { width = 1 }\n"));
    broken_at("c", Rule::ComponentMalformed, &component("type = \"label\"\ndefault = \"a\"\nopacity = \"half\"\n"));
    broken_at("c", Rule::ComponentMalformed, &component("type = \"label\"\ndefault = \"a\"\nrounding = 1\n"));
    broken_at("c", Rule::ComponentMalformed, &component("type = \"label\"\ndefault = \"a\"\nkeybind = { other = 1 }\n"));
    broken_at("c", Rule::ComponentMalformed, &component("type = \"label\"\ndefault = \"a\"\nkeybind = { other = { key = 1 } }\n"));
}

#[test]
fn component_rules() {
    broken_at("c", Rule::PositionOutside, "[c]\ntype = \"label\"\ndefault = \"a\"\nposition = { x = 640, y = 0 }\n");
    broken_at("c", Rule::FontSizeNotPositive, &component("type = \"label\"\ndefault = \"a\"\nfont = { size = -1 }\n"));
    broken_at("c", Rule::FontFamilyEmpty, &component("type = \"label\"\ndefault = \"a\"\nfont = { family = \"\" }\n"));
    broken_at("c", Rule::FontColorInvalid, &component("type = \"label\"\ndefault = \"a\"\nfont = { color = \"#12\" }\n"));
    broken_at("c", Rule::TypeMalformed, &component("type = 5\n"));
    broken_at("c", Rule::TypeNameMissing, &component("type = { rounding = \"standard\" }\n"));
    broken_at("c", Rule::TypeNameMissing, &component("type = { name = 1, kind = \"timer\" }\n"));
    broken_at("c", Rule::UnsupportedType, &component("type = \"Number\"\n"));
    broken_at("c", Rule::EditNotAllowed, &component("type = \"timer\"\ndefault = \"00:00:01\"\nedit = false\n"));
    broken_at("c", Rule::EditNotAllowed, &component("type = \"image\"\nedit = true\n"));
    broken_at("c", Rule::EditNotAllowed, &component("type = \"image-toggle\"\nedit = true\n"));
    broken_at("c", Rule::DefaultNotInteger, &component("type = \"number\"\n"));
    broken_at("c", Rule::DefaultNotInteger, &component("type = \"number\"\ndefault = \"1\"\n"));
    broken_at("c", Rule::DefaultNotInteger, &component("type = \"number\"\ndefault = 2147483648\n"));
    broken_at("c", Rule::DefaultNotTimerText, &component("type = \"timer\"\ndefault = 10\n"));
    broken_at("c", Rule::DefaultNotText, &component("type = \"label\"\ndefault = 10\n"));
    broken_at("c", Rule::LabelNotSingleLine, &component("type = \"label\"\ndefault = \"a\\nb\"\n"));
    broken_at("c", Rule::UnsupportedRounding, &component("type = \"timer\"\ndefault = \"00:00:01\"\nrounding = \"up\"\n"));
    broken_at("c", Rule::TimerDefaultShape, &component("type = \"timer\"\ndefault = \"00:60:00\"\n"));
    broken_at("c", Rule::TimerHoursInvalid, &component("type = \"timer\"\ndefault = \"h:00:00\"\n"));
    broken_at("c", Rule::TimerMinutesInvalid, &component("type = \"timer\"\ndefault = \"0:m:00\"\n"));
    broken_at("c", Rule::TimerSecondsInvalid, &component("type = \"timer\"\ndefault = \"0:0:s\"\n"));
    broken_at("c", Rule::TimerDefaultTooLarge, &component("type = \"timer\"\ndefault = \"9223372036854775807:0:0\"\n"));
    broken_at("c", Rule::KeybindKeyEmpty, &component("type = \"number\"\ndefault = 1\nkeybind = { reset = { key = \" \" } }\n"));
    broken_at("c", Rule::ImageSourceMissing, &component("type = \"image\"\nsize = { width = 1, height = 1 }\n"));
    broken_at("c", Rule::ImageSizeMissing, &component("type = \"image\"\nsource = \"a.png\"\n"));
    broken_at("c", Rule::ImageSizeNotPositive, &component("type = \"image\"\nsource = \"a.png\"\nsize = { width = 0, height = 1 }\n"));
    broken_at("c", Rule::OpacityOutOfRange, &component("type = \"image\"\nsource = \"a.png\"\nsize = { width = 1, height = 1 }\nopacity = 1.5\n"));
    broken_at("c", Rule::OpacityOutOfRange, &component("type = \"image\"\nsource = \"a.png\"\nsize = { width = 1, height = 1 }\nopacity = -0.25\n"));
    broken_at("c", Rule::OpacityOutOfRange, &component("type = \"image\"\nsource = \"a.png\"\nsize = { width = 1, height = 1 }\nopacity = 2\n"));
    broken_at("c", Rule::ImageSourcesMissing, &component("type = \"image-toggle\"\nsize = { width = 1, height = 1 }\n"));
    broken_at("c", Rule::ImageSourcesMissing, &component("type = \"image-toggle\"\nsources = []\nsize = { width = 1, height = 1 }\n"));
    broken_at(" ", Rule::EmptyId, "[\" \"]\ntype = \"label\"\ndefault = \"a\"\nposition = { x = 1, y = 2 }\n");
}

#[test]
fn first_error_in_entry_order_wins() {
    let text = "[z]\ntype = \"nope\"\nposition = { x = 1, y = 1 }\n\
                [a]\ntype = \"label\"\nposition = { x = 1, y = 1 }\n";
    broken_at("a", Rule::DefaultNotText, text);
    let text = "[global]\nbackground_color = \"red\"\n[a]\ntype = \"nope\"\nposition = { x = 1, y = 1 }\n";
    broken_at("global", Rule::BackgroundColorInvalid, text);
}

#[test]
fn kinds_are_decoded() {
    let text = r##"
[pic]
type = "image"
source = "/abs/a.png"
size = { width = 3, height = 4 }
opacity = 1
position = { x = 1, y = 1 }
alignment = "center"

[turn]
type = { kind = "image-toggle" }
sources = ["x.png"]
size = { width = 5, height = 6 }
opacity = 0
position = { x = 1, y = 1 }

[t]
type = { name = "timer", kind = "label", rounding = "basketball" }
rounding = "standard"
default = "1:00:00"
position = { x = 1, y = 1 }
keybind = { reset = { key = "r" }, increase = { key = "i" }, decrease = { key = "d", win = true } }

[l]
type = "label"
default = "plain"
position = { x = 1, y = 1 }
"##;
    let config = load(text).unwrap();
    let ids: Vec<&str> = config.components.iter().map(|c| c.id.as_str()).collect();
    assert_eq!(ids, vec!["l", "pic", "t", "turn"]);
    assert_eq!(
        config.components[0].kind,
        ComponentKind::Label { default: "plain".to_string(), edit: false }
    );
    assert_eq!(config.components[0].alignment, None);
    assert_eq!(config.components[1].alignment, Some(ComponentAlignment::Center));
    assert_eq!(
        config.components[1].kind,
        ComponentKind::Image {
            source: "/abs/a.png".to_string(),
            width: 3,
            height: 4,
            opacity: Opacity { bits: 1.0f64.to_bits() },
        }
    );
    match &config.components[2].kind {
        ComponentKind::Timer { default_ms, keybind, rounding } => {
            assert_eq!(*default_ms, 3_600_000);
            assert_eq!(*rounding, scoreboard::config::TimerRounding::Basketball);
            let k = keybind.as_ref().unwrap();
            assert!(k.start.is_none() && k.stop.is_none());
            assert_eq!(k.reset.as_ref().unwrap().to_shortcut(), "r");
            assert_eq!(k.increase.as_ref().unwrap().to_shortcut(), "i");
            assert_eq!(k.decrease.as_ref().unwrap().to_shortcut(), "Super+d");
        }
        other => panic!("unexpected kind {:?}", other),
    }
    assert_eq!(
        config.components[3].kind,
        ComponentKind::ImageToggle {
            sources: vec!["/base/x.png".to_string()],
            width: 5,
            height: 6,
            opacity: Opacity { bits: 0 },
            keybind: None,
        }
    );
}

fn text(s: &str) -> Node {
    Node::Text(s.to_string())
}

fn entry(key: &str, value: Node) -> Entry {
    Entry { key: key.to_string(), value }
}

fn label(x: i64) -> Node {
    Node::Table(vec![
        entry("type", text("label")),
        entry("default", text("hi")),
        entry("position", Node::Table(vec![entry("x", Node::Integer(x)), entry("y", Node::Integer(0))])),
    ])
}

#[test]
fn compiles_a_tree_in_any_entry_order() {
    let doc = Node::Table(vec![entry("zeta", label(1)), entry("alpha", label(2)), entry("mid", label(3))]);
    let config = compile_document(&doc, "/base").unwrap();
    let ids: Vec<&str> = config.components.iter().map(|c| c.id.as_str()).collect();
    assert_eq!(ids, vec!["alpha", "mid", "zeta"]);
    assert_eq!(config.components[0].position.x, 2);
}

#[test]
fn tree_rules_that_no_text_can_break() {
    let doc = Node::Table(vec![entry("twice", label(1)), entry("other", label(2)), entry("twice", label(3))]);
    assert_eq!(
        compile_document(&doc, "/base"),
        Err(ConfigError::Schema { id: "twice".to_string(), rule: Rule::DuplicateId })
    );
    assert_eq!(
        compile_document(&Node::Integer(1), "/base"),
        Err(ConfigError::Schema { id: String::new(), rule: Rule::RootNotTable })
    );
    assert_eq!(
        compile_document(&Node::List(vec![]), "/base"),
        Err(ConfigError::Schema { id: String::new(), rule: Rule::RootNotTable })
    );
}

#[test]
fn parser_hands_out_a_tree() {
    let doc = parse_document("b = 1.0\na = [true, \"x\"]\n[t]\nk = 2\n").unwrap();
    let expected = Node::Table(vec![
        entry("a", Node::List(vec![Node::Flag(true), text("x")])),
        entry("b", Node::Real(1.0f64.to_bits())),
        entry("t", Node::Table(vec![entry("k", Node::Integer(2))])),
    ]);
    assert_eq!(doc, expected);
    assert!(parse_document("a = ").is_err());
    match parse_document("d = 1979-05-27\n").unwrap() {
        Node::Table(entries) => assert_eq!(entries[0].value, Node::Moment("1979-05-27".to_string())),
        other => panic!("unexpected tree {:?}", other),
    }
}

#[test]
fn errors_in_words() {
    let e = ConfigError::Schema { id: "home".to_string(), rule: Rule::PositionOutside };
    assert_eq!(e.message(), "'home' position is outside 640x480");
    let e = ConfigError::Parse { message: "line 1".to_string() };
    assert_eq!(e.message(), "TOML parse error: line 1");
    assert_eq!(describe_rule(Rule::EditNotAllowed), "edit is only supported for label components");
    assert_eq!(describe_rule(Rule::DuplicateId), "id is used more than once");
    match load("x = ") {
        Err(e) => assert!(e.message().starts_with("TOML parse error: ")),
        Ok(_) => panic!("expected a parse error"),
    }
}
