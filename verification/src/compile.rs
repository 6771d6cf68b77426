//! The configuration compiler: from the tree of a document to a validated
//! schema, or to the first rule that the document breaks.

use crate::config::{
    CANVAS_HEIGHT, CANVAS_WIDTH, ComponentAlignment, ComponentConfig, ComponentConfigView,
    ComponentKind, ComponentKindView, ConfigError, ConfigErrorView, Font, FontView, GlobalSettings,
    GlobalSettingsView, ImageToggleKeybind, ImageToggleKeybindView, KeybindSpec, KeybindSpecView,
    NumberKeybind, NumberKeybindView, OPACITY_FULL_BITS, Opacity, Position, Rule, ScoreboardConfig,
    ScoreboardConfigView, TimerKeybind, TimerKeybindView, broken, color_ok, components_view,
    in_canvas, schema_error, single_line, sorted_by_id, texts,
};
use crate::document::{
    Entry, Node, absent, flag_at, get, get_flag, get_integer, get_list, get_table, get_text,
    integer_at, is_absent, list_at, lookup, parse_document, table_at, text_at, toml_document,
};
use crate::paths::{resolve_image_source, resolved_source};
use crate::shape::{
    component_shape, fits_i32, global_shape, is_component_shape, is_global_shape, is_i32,
};
use crate::state::is_single_line;
use crate::text::{
    Rank, is_blank, lemma_precedes_irreflexive, lemma_precedes_total, lemma_precedes_transitive,
    precedes, rank, same_text, trimmed,
};
use crate::validate::{
    FontOverride, FontOverrideView, check_font, chosen_rounding, color_is_valid, font_fault,
    merged_font, parse_timer_default, parse_timer_rounding, resolve_font, rounding_named,
    timer_default_ms,
};
use vstd::prelude::*;

verus! {

// ---------------------------------------------------------------------------
// How a result of the code stands to a result of the model
// ---------------------------------------------------------------------------

/// The view of an optional value.
pub open spec fn opt_view<T: View>(o: Option<T>) -> Option<T::V> {
    match o {
        Some(v) => Some(v@),
        None => None,
    }
}

/// The code came to what the model says: the same value by its view, or
/// the same broken rule.
pub open spec fn same_outcome<T: View>(r: Result<T, Rule>, s: Result<T::V, Rule>) -> bool {
    match r {
        Ok(v) => s == Ok::<T::V, Rule>(v@),
        Err(rule) => s == Err::<T::V, Rule>(rule),
    }
}

/// The same for a value that may be absent.
pub open spec fn same_optional_outcome<T: View>(
    r: Result<Option<T>, Rule>,
    s: Result<Option<T::V>, Rule>,
) -> bool {
    match r {
        Ok(v) => s == Ok::<Option<T::V>, Rule>(opt_view(v)),
        Err(rule) => s == Err::<Option<T::V>, Rule>(rule),
    }
}

/// The same for a result that names the component at fault.
pub open spec fn same_verdict<T: View>(
    r: Result<T, ConfigError>,
    s: Result<T::V, ConfigErrorView>,
) -> bool {
    match r {
        Ok(v) => s == Ok::<T::V, ConfigErrorView>(v@),
        Err(e) => s == Err::<T::V, ConfigErrorView>(e@),
    }
}

// ---------------------------------------------------------------------------
// Fields of a component
// ---------------------------------------------------------------------------

/// The 32-bit integer under `key`, or zero where none stands there.
pub open spec fn i32_at(t: Seq<Entry>, key: Seq<char>) -> i32 {
    match integer_at(t, key) {
        Some(i) => if fits_i32(i) {
            i as i32
        } else {
            0
        },
        None => 0,
    }
}

fn read_i32(t: &Vec<Entry>, key: &str) -> (r: i32)
    ensures
        r == i32_at(t@, key@),
{
    match get_integer(t, key) {
        Some(i) => if is_i32(i) {
            i as i32
        } else {
            0
        },
        None => 0,
    }
}

/// What the font section of a table sets.
pub open spec fn font_override_at(t: Seq<Entry>) -> FontOverrideView {
    match table_at(t, "font"@) {
        Some(f) => FontOverrideView {
            family: text_at(f, "family"@),
            size: match integer_at(f, "size"@) {
                Some(i) => if fits_i32(i) {
                    Some(i as i32)
                } else {
                    None
                },
                None => None,
            },
            color: text_at(f, "color"@),
        },
        None => FontOverrideView::nothing(),
    }
}

fn read_font_override(t: &Vec<Entry>) -> (r: FontOverride)
    ensures
        r@ == font_override_at(t@),
{
    match get_table(t, "font") {
        Some(f) => FontOverride {
            family: match get_text(f, "family") {
                Some(s) => Some(s.clone()),
                None => None,
            },
            size: match get_integer(f, "size") {
                Some(i) => if is_i32(i) {
                    Some(i as i32)
                } else {
                    None
                },
                None => None,
            },
            color: match get_text(f, "color") {
                Some(s) => Some(s.clone()),
                None => None,
            },
        },
        None => FontOverride { family: None, size: None, color: None },
    }
}

/// The position that a component table gives.
pub open spec fn position_of(t: Seq<Entry>) -> Position {
    match table_at(t, "position"@) {
        Some(p) => Position { x: i32_at(p, "x"@), y: i32_at(p, "y"@) },
        None => Position { x: 0, y: 0 },
    }
}

fn read_position(t: &Vec<Entry>) -> (r: Position)
    ensures
        r == position_of(t@),
{
    match get_table(t, "position") {
        Some(p) => Position { x: read_i32(p, "x"), y: read_i32(p, "y") },
        None => Position { x: 0, y: 0 },
    }
}

// ---------------------------------------------------------------------------
// Key chords
// ---------------------------------------------------------------------------

/// The chord that a chord table spells: a modifier that is not set is off.
pub open spec fn chord_of(c: Seq<Entry>) -> KeybindSpecView {
    KeybindSpecView {
        key: match text_at(c, "key"@) {
            Some(s) => s,
            None => Seq::empty(),
        },
        ctrl: flag_at(c, "ctrl"@) == Some(true),
        alt: flag_at(c, "alt"@) == Some(true),
        shift: flag_at(c, "shift"@) == Some(true),
        win: flag_at(c, "win"@) == Some(true),
    }
}

fn read_chord(c: &Vec<Entry>) -> (k: KeybindSpec)
    ensures
        k@ == chord_of(c@),
{
    let key = match get_text(c, "key") {
        Some(s) => s.clone(),
        None => String::new(),
    };
    let ctrl = match get_flag(c, "ctrl") {
        Some(b) => b,
        None => false,
    };
    let alt = match get_flag(c, "alt") {
        Some(b) => b,
        None => false,
    };
    let shift = match get_flag(c, "shift") {
        Some(b) => b,
        None => false,
    };
    let win = match get_flag(c, "win") {
        Some(b) => b,
        None => false,
    };
    KeybindSpec { key, ctrl, alt, shift, win }
}

/// The chord bound to `action` in a key binding table: none where the
/// action is not bound; a chord must be a table with a text key that is
/// not blank.
pub open spec fn chord_at(binds: Seq<Entry>, action: Seq<char>) -> Result<
    Option<KeybindSpecView>,
    Rule,
> {
    match lookup(binds, action) {
        None => Ok(None),
        Some(Node::Table(c)) => if text_at(c@, "key"@) is None {
            Err(Rule::ComponentMalformed)
        } else if trimmed(chord_of(c@).key).len() == 0 {
            Err(Rule::KeybindKeyEmpty)
        } else {
            Ok(Some(chord_of(c@)))
        },
        Some(_) => Err(Rule::ComponentMalformed),
    }
}

fn read_chord_at(binds: &Vec<Entry>, action: &str) -> (r: Result<Option<KeybindSpec>, Rule>)
    ensures
        same_optional_outcome(r, chord_at(binds@, action@)),
        r matches Ok(Some(k)) ==> k@.wf(),
{
    match get(binds, action) {
        None => Ok(None),
        Some(Node::Table(c)) => {
            if get_text(c, "key").is_none() {
                return Err(Rule::ComponentMalformed);
            }
            let chord = read_chord(c);
            if is_blank(chord.key.as_str()) {
                Err(Rule::KeybindKeyEmpty)
            } else {
                Ok(Some(chord))
            }
        },
        Some(_) => Err(Rule::ComponentMalformed),
    }
}

/// The chord bound to `key` among `binds`, if one is bound; the error
/// names the component `id`.
pub fn parse_keybind(id: &str, binds: &Vec<Entry>, key: &str) -> (r: Result<
    Option<KeybindSpec>,
    ConfigError,
>)
    ensures
        match r {
            Ok(k) => chord_at(binds@, key@) == Ok::<Option<KeybindSpecView>, Rule>(opt_view(k)),
            Err(e) => chord_at(binds@, key@) matches Err(rule) && e@ == broken(id@, rule),
        },
{
    match read_chord_at(binds, key) {
        Ok(k) => Ok(k),
        Err(rule) => Err(schema_error(id, rule)),
    }
}

/// The key bindings of a number: none without a `keybind` table, else the
/// chords under `increase`, `decrease` and `reset`, read in that order.
pub open spec fn number_keybind(t: Seq<Entry>) -> Result<Option<NumberKeybindView>, Rule> {
    match table_at(t, "keybind"@) {
        None => Ok(None),
        Some(kb) => match chord_at(kb, "increase"@) {
            Err(rule) => Err(rule),
            Ok(increase) => match chord_at(kb, "decrease"@) {
                Err(rule) => Err(rule),
                Ok(decrease) => match chord_at(kb, "reset"@) {
                    Err(rule) => Err(rule),
                    Ok(reset) => Ok(Some(NumberKeybindView { increase, decrease, reset })),
                },
            },
        },
    }
}

fn read_number_keybind(t: &Vec<Entry>) -> (r: Result<Option<NumberKeybind>, Rule>)
    ensures
        same_optional_outcome(r, number_keybind(t@)),
        r matches Ok(Some(k)) ==> k@.wf(),
{
    match get_table(t, "keybind") {
        None => Ok(None),
        Some(kb) => {
            let increase = match read_chord_at(kb, "increase") {
                Ok(k) => k,
                Err(rule) => {
                    return Err(rule);
                },
            };
            let decrease = match read_chord_at(kb, "decrease") {
                Ok(k) => k,
                Err(rule) => {
                    return Err(rule);
                },
            };
            let reset = match read_chord_at(kb, "reset") {
                Ok(k) => k,
                Err(rule) => {
                    return Err(rule);
                },
            };
            Ok(Some(NumberKeybind { increase, decrease, reset }))
        },
    }
}

/// The key bindings of a timer: none without a `keybind` table, else the
/// chords under `start`, `stop`, `reset`, `increase` and `decrease`, read in
/// that order.
pub open spec fn timer_keybind(t: Seq<Entry>) -> Result<Option<TimerKeybindView>, Rule> {
    match table_at(t, "keybind"@) {
        None => Ok(None),
        Some(kb) => match chord_at(kb, "start"@) {
            Err(rule) => Err(rule),
            Ok(start) => match chord_at(kb, "stop"@) {
                Err(rule) => Err(rule),
                Ok(stop) => match chord_at(kb, "reset"@) {
                    Err(rule) => Err(rule),
                    Ok(reset) => match chord_at(kb, "increase"@) {
                        Err(rule) => Err(rule),
                        Ok(increase) => match chord_at(kb, "decrease"@) {
                            Err(rule) => Err(rule),
                            Ok(decrease) => Ok(
                                Some(TimerKeybindView { start, stop, reset, increase, decrease }),
                            ),
                        },
                    },
                },
            },
        },
    }
}

fn read_timer_keybind(t: &Vec<Entry>) -> (r: Result<Option<TimerKeybind>, Rule>)
    ensures
        same_optional_outcome(r, timer_keybind(t@)),
        r matches Ok(Some(k)) ==> k@.wf(),
{
    match get_table(t, "keybind") {
        None => Ok(None),
        Some(kb) => {
            let start = match read_chord_at(kb, "start") {
                Ok(k) => k,
                Err(rule) => {
                    return Err(rule);
                },
            };
            let stop = match read_chord_at(kb, "stop") {
                Ok(k) => k,
                Err(rule) => {
                    return Err(rule);
                },
            };
            let reset = match read_chord_at(kb, "reset") {
                Ok(k) => k,
                Err(rule) => {
                    return Err(rule);
                },
            };
            let increase = match read_chord_at(kb, "increase") {
                Ok(k) => k,
                Err(rule) => {
                    return Err(rule);
                },
            };
            let decrease = match read_chord_at(kb, "decrease") {
                Ok(k) => k,
                Err(rule) => {
                    return Err(rule);
                },
            };
            Ok(Some(TimerKeybind { start, stop, reset, increase, decrease }))
        },
    }
}

/// The key bindings of an image toggle: none without a `keybind` table, else
/// the chords under `forward` and `backward`, read in that order.
pub open spec fn toggle_keybind(t: Seq<Entry>) -> Result<Option<ImageToggleKeybindView>, Rule> {
    match table_at(t, "keybind"@) {
        None => Ok(None),
        Some(kb) => match chord_at(kb, "forward"@) {
            Err(rule) => Err(rule),
            Ok(forward) => match chord_at(kb, "backward"@) {
                Err(rule) => Err(rule),
                Ok(backward) => Ok(Some(ImageToggleKeybindView { forward, backward })),
            },
        },
    }
}

fn read_toggle_keybind(t: &Vec<Entry>) -> (r: Result<Option<ImageToggleKeybind>, Rule>)
    ensures
        same_optional_outcome(r, toggle_keybind(t@)),
        r matches Ok(Some(k)) ==> k@.wf(),
{
    match get_table(t, "keybind") {
        None => Ok(None),
        Some(kb) => {
            let forward = match read_chord_at(kb, "forward") {
                Ok(k) => k,
                Err(rule) => {
                    return Err(rule);
                },
            };
            let backward = match read_chord_at(kb, "backward") {
                Ok(k) => k,
                Err(rule) => {
                    return Err(rule);
                },
            };
            Ok(Some(ImageToggleKeybind { forward, backward }))
        },
    }
}

// ---------------------------------------------------------------------------
// The type of a component
// ---------------------------------------------------------------------------

/// The type that a component names: a bare text, or a table with the text
/// under `name`, else under `kind`, which may add a rounding.
pub open spec fn type_of(t: Seq<Entry>) -> Result<(Seq<char>, Option<Seq<char>>), Rule> {
    match lookup(t, "type"@) {
        Some(Node::Text(s)) => Ok((s@, None)),
        Some(Node::Table(tt)) => {
            let named = match lookup(tt@, "name"@) {
                Some(n) => Some(n),
                None => lookup(tt@, "kind"@),
            };
            match named {
                Some(Node::Text(s)) => Ok((s@, text_at(tt@, "rounding"@))),
                _ => Err(Rule::TypeNameMissing),
            }
        },
        _ => Err(Rule::TypeMalformed),
    }
}

/// Reads the `type` of a component: its name and, where the type is written
/// as a table, the rounding that it may carry.
pub fn parse_component_type<'a>(t: &'a Vec<Entry>) -> (r: Result<(&'a String, Option<&'a String>), Rule>)
    ensures
        match r {
            Ok((name, rounding)) => type_of(t@) == Ok::<(Seq<char>, Option<Seq<char>>), Rule>(
                (
                    name@,
                    match rounding {
                        Some(s) => Some(s@),
                        None => None,
                    },
                ),
            ),
            Err(rule) => type_of(t@) == Err::<(Seq<char>, Option<Seq<char>>), Rule>(rule),
        },
{
    match get(t, "type") {
        Some(Node::Text(s)) => Ok((s, None)),
        Some(Node::Table(tt)) => {
            let named = match get(tt, "name") {
                Some(n) => Some(n),
                None => get(tt, "kind"),
            };
            match named {
                Some(Node::Text(s)) => Ok((s, get_text(tt, "rounding"))),
                _ => Err(Rule::TypeNameMissing),
            }
        },
        _ => Err(Rule::TypeMalformed),
    }
}

// ---------------------------------------------------------------------------
// The kinds
// ---------------------------------------------------------------------------

/// A number: an integer default of 32 bits, no `edit`, and its key bindings.
pub open spec fn number_kind(t: Seq<Entry>) -> Result<ComponentKindView, Rule> {
    if !absent(t, "edit"@) {
        Err(Rule::EditNotAllowed)
    } else {
        match integer_at(t, "default"@) {
            None => Err(Rule::DefaultNotInteger),
            Some(d) => if !fits_i32(d) {
                Err(Rule::DefaultNotInteger)
            } else {
                match number_keybind(t) {
                    Err(rule) => Err(rule),
                    Ok(keybind) => Ok(ComponentKindView::Number { default: d as i32, keybind }),
                }
            },
        }
    }
}

fn read_number_kind(t: &Vec<Entry>) -> (r: Result<ComponentKind, Rule>)
    ensures
        same_outcome(r, number_kind(t@)),
        r matches Ok(k) ==> k@.wf(),
{
    if !is_absent(t, "edit") {
        return Err(Rule::EditNotAllowed);
    }
    let default = match get_integer(t, "default") {
        Some(d) => d,
        None => {
            return Err(Rule::DefaultNotInteger);
        },
    };
    if !is_i32(default) {
        return Err(Rule::DefaultNotInteger);
    }
    match read_number_keybind(t) {
        Ok(keybind) => Ok(ComponentKind::Number { default: default as i32, keybind }),
        Err(rule) => Err(rule),
    }
}

/// A timer: a default as text, turned into milliseconds, its rounding, no
/// `edit`, and its key bindings.
pub open spec fn timer_kind(t: Seq<Entry>, type_rounding: Option<Seq<char>>) -> Result<
    ComponentKindView,
    Rule,
> {
    if !absent(t, "edit"@) {
        Err(Rule::EditNotAllowed)
    } else {
        match text_at(t, "default"@) {
            None => Err(Rule::DefaultNotTimerText),
            Some(text) => match rounding_named(
                chosen_rounding(type_rounding, text_at(t, "rounding"@)),
            ) {
                None => Err(Rule::UnsupportedRounding),
                Some(rounding) => match timer_default_ms(text) {
                    Err(rule) => Err(rule),
                    Ok(default_ms) => match timer_keybind(t) {
                        Err(rule) => Err(rule),
                        Ok(keybind) => Ok(
                            ComponentKindView::Timer { default_ms, keybind, rounding },
                        ),
                    },
                },
            },
        }
    }
}

fn read_timer_kind(t: &Vec<Entry>, type_rounding: Option<&String>) -> (r: Result<
    ComponentKind,
    Rule,
>)
    ensures
        same_outcome(
            r,
            timer_kind(
                t@,
                match type_rounding {
                    Some(s) => Some(s@),
                    None => None,
                },
            ),
        ),
        r matches Ok(k) ==> k@.wf(),
{
    if !is_absent(t, "edit") {
        return Err(Rule::EditNotAllowed);
    }
    let text = match get_text(t, "default") {
        Some(s) => s,
        None => {
            return Err(Rule::DefaultNotTimerText);
        },
    };
    let from_type: Option<&str> = match type_rounding {
        Some(s) => Some(s.as_str()),
        None => None,
    };
    let from_component: Option<&str> = match get_text(t, "rounding") {
        Some(s) => Some(s.as_str()),
        None => None,
    };
    let rounding = match parse_timer_rounding("", from_type, from_component) {
        Ok(rounding) => rounding,
        Err(_) => {
            return Err(Rule::UnsupportedRounding);
        },
    };
    let default_ms = match parse_timer_default(text.as_str()) {
        Ok(ms) => ms,
        Err(rule) => {
            return Err(rule);
        },
    };
    match read_timer_keybind(t) {
        Ok(keybind) => Ok(ComponentKind::Timer { default_ms, keybind, rounding }),
        Err(rule) => Err(rule),
    }
}

/// A label: a default of one line, and whether it may be edited.
pub open spec fn label_kind(t: Seq<Entry>) -> Result<ComponentKindView, Rule> {
    match text_at(t, "default"@) {
        None => Err(Rule::DefaultNotText),
        Some(default) => if !single_line(default) {
            Err(Rule::LabelNotSingleLine)
        } else {
            Ok(ComponentKindView::Label { default, edit: flag_at(t, "edit"@) == Some(true) })
        },
    }
}

fn read_label_kind(t: &Vec<Entry>) -> (r: Result<ComponentKind, Rule>)
    ensures
        same_outcome(r, label_kind(t@)),
        r matches Ok(k) ==> k@.wf(),
{
    let default = match get_text(t, "default") {
        Some(s) => s,
        None => {
            return Err(Rule::DefaultNotText);
        },
    };
    if !is_single_line(default.as_str()) {
        return Err(Rule::LabelNotSingleLine);
    }
    let edit = match get_flag(t, "edit") {
        Some(b) => b,
        None => false,
    };
    Ok(ComponentKind::Label { default: default.clone(), edit })
}

/// The opacity that a component gives: fully opaque where it gives none;
/// the integers 0 and 1 stand for `0.0` and `1.0`. `None` where the number
/// lies outside `0.0` to `1.0`.
pub open spec fn opacity_of(t: Seq<Entry>) -> Option<Opacity> {
    match lookup(t, "opacity"@) {
        None => Some(Opacity { bits: OPACITY_FULL_BITS }),
        Some(Node::Real(bits)) => if (Opacity { bits }).in_unit_range() {
            Some(Opacity { bits })
        } else {
            None
        },
        Some(Node::Integer(i)) => if i == 0 {
            Some(Opacity { bits: 0 })
        } else if i == 1 {
            Some(Opacity { bits: OPACITY_FULL_BITS })
        } else {
            None
        },
        Some(_) => None,
    }
}

fn read_opacity(t: &Vec<Entry>) -> (r: Option<Opacity>)
    ensures
        r == opacity_of(t@),
        r matches Some(o) ==> o.in_unit_range(),
{
    match get(t, "opacity") {
        None => Some(Opacity::full()),
        Some(Node::Real(bits)) => {
            let o = Opacity { bits: *bits };
            if o.is_in_unit_range() {
                Some(o)
            } else {
                None
            }
        },
        Some(Node::Integer(i)) => if *i == 0 {
            Some(Opacity { bits: 0 })
        } else if *i == 1 {
            Some(Opacity::full())
        } else {
            None
        },
        Some(_) => None,
    }
}

/// Width, height and opacity of an image: the size is required and
/// positive, the opacity lies between `0.0` and `1.0`.
pub open spec fn geometry_of(t: Seq<Entry>) -> Result<(i32, i32, Opacity), Rule> {
    match table_at(t, "size"@) {
        None => Err(Rule::ImageSizeMissing),
        Some(size) => if i32_at(size, "width"@) <= 0 || i32_at(size, "height"@) <= 0 {
            Err(Rule::ImageSizeNotPositive)
        } else {
            match opacity_of(t) {
                None => Err(Rule::OpacityOutOfRange),
                Some(opacity) => Ok((i32_at(size, "width"@), i32_at(size, "height"@), opacity)),
            }
        },
    }
}

fn read_geometry(t: &Vec<Entry>) -> (r: Result<(i32, i32, Opacity), Rule>)
    ensures
        r == geometry_of(t@),
        r matches Ok(g) ==> g.0 > 0 && g.1 > 0 && g.2.in_unit_range(),
{
    let size = match get_table(t, "size") {
        Some(s) => s,
        None => {
            return Err(Rule::ImageSizeMissing);
        },
    };
    let width = read_i32(size, "width");
    let height = read_i32(size, "height");
    if width <= 0 || height <= 0 {
        return Err(Rule::ImageSizeNotPositive);
    }
    match read_opacity(t) {
        Some(opacity) => Ok((width, height, opacity)),
        None => Err(Rule::OpacityOutOfRange),
    }
}

/// An image: no `edit`, a source, resolved against `base`, a size and an
/// opacity.
pub open spec fn image_kind(t: Seq<Entry>, base: Seq<char>) -> Result<ComponentKindView, Rule> {
    if !absent(t, "edit"@) {
        Err(Rule::EditNotAllowed)
    } else {
        match text_at(t, "source"@) {
            None => Err(Rule::ImageSourceMissing),
            Some(source) => match geometry_of(t) {
                Err(rule) => Err(rule),
                Ok((width, height, opacity)) => Ok(
                    ComponentKindView::Image {
                        source: resolved_source(base, source),
                        width,
                        height,
                        opacity,
                    },
                ),
            },
        }
    }
}

fn read_image_kind(t: &Vec<Entry>, base_dir: &str) -> (r: Result<ComponentKind, Rule>)
    ensures
        same_outcome(r, image_kind(t@, base_dir@)),
        r matches Ok(k) ==> k@.wf(),
{
    if !is_absent(t, "edit") {
        return Err(Rule::EditNotAllowed);
    }
    let source = match get_text(t, "source") {
        Some(s) => s,
        None => {
            return Err(Rule::ImageSourceMissing);
        },
    };
    match read_geometry(t) {
        Ok((width, height, opacity)) => Ok(
            ComponentKind::Image {
                source: resolve_image_source(base_dir, source.as_str()),
                width,
                height,
                opacity,
            },
        ),
        Err(rule) => Err(rule),
    }
}

/// The text of a node that is a text; nothing for any other node.
pub open spec fn text_of_node(node: Node) -> Seq<char> {
    match node {
        Node::Text(s) => s@,
        _ => Seq::empty(),
    }
}

/// Every source of a list, resolved against `base`.
pub open spec fn resolved_sources(list: Seq<Node>, base: Seq<char>) -> Seq<Seq<char>> {
    Seq::new(list.len(), |i: int| resolved_source(base, text_of_node(list[i])))
}

fn read_sources(list: &Vec<Node>, base_dir: &str) -> (r: Vec<String>)
    ensures
        texts(r@) == resolved_sources(list@, base_dir@),
{
    let mut out: Vec<String> = Vec::new();
    let mut i: usize = 0;
    while i < list.len()
        invariant
            i <= list.len(),
            out.len() == i,
            forall|k: int|
                0 <= k < i ==> (#[trigger] out@[k])@ == resolved_source(
                    base_dir@,
                    text_of_node(list@[k]),
                ),
        decreases list.len() - i,
    {
        let resolved = match &list[i] {
            Node::Text(s) => resolve_image_source(base_dir, s.as_str()),
            _ => {
                proof {
                    reveal_strlit("");
                }
                assert(""@ =~= Seq::<char>::empty());
                resolve_image_source(base_dir, "")
            },
        };
        out.push(resolved);
        i += 1;
    }
    assert(texts(out@) =~= resolved_sources(list@, base_dir@));
    out
}

/// An image toggle: at least one source, each resolved against `base`, a
/// size, an opacity, and its key bindings.
pub open spec fn toggle_kind(t: Seq<Entry>, base: Seq<char>) -> Result<ComponentKindView, Rule> {
    if !absent(t, "edit"@) {
        Err(Rule::EditNotAllowed)
    } else {
        match list_at(t, "sources"@) {
            None => Err(Rule::ImageSourcesMissing),
            Some(list) => if list.len() == 0 {
                Err(Rule::ImageSourcesMissing)
            } else {
                match geometry_of(t) {
                    Err(rule) => Err(rule),
                    Ok((width, height, opacity)) => match toggle_keybind(t) {
                        Err(rule) => Err(rule),
                        Ok(keybind) => Ok(
                            ComponentKindView::ImageToggle {
                                sources: resolved_sources(list, base),
                                width,
                                height,
                                opacity,
                                keybind,
                            },
                        ),
                    },
                }
            },
        }
    }
}

fn read_toggle_kind(t: &Vec<Entry>, base_dir: &str) -> (r: Result<ComponentKind, Rule>)
    ensures
        same_outcome(r, toggle_kind(t@, base_dir@)),
        r matches Ok(k) ==> k@.wf(),
{
    if !is_absent(t, "edit") {
        return Err(Rule::EditNotAllowed);
    }
    let list = match get_list(t, "sources") {
        Some(l) => l,
        None => {
            return Err(Rule::ImageSourcesMissing);
        },
    };
    if list.len() == 0 {
        return Err(Rule::ImageSourcesMissing);
    }
    let (width, height, opacity) = match read_geometry(t) {
        Ok(g) => g,
        Err(rule) => {
            return Err(rule);
        },
    };
    match read_toggle_keybind(t) {
        Ok(keybind) => Ok(
            ComponentKind::ImageToggle {
                sources: read_sources(list, base_dir),
                width,
                height,
                opacity,
                keybind,
            },
        ),
        Err(rule) => Err(rule),
    }
}

/// The kind of a component, by the name of its type.
pub open spec fn kind_of(t: Seq<Entry>, base: Seq<char>) -> Result<ComponentKindView, Rule> {
    match type_of(t) {
        Err(rule) => Err(rule),
        Ok((name, type_rounding)) => if name == "number"@ {
            number_kind(t)
        } else if name == "timer"@ {
            timer_kind(t, type_rounding)
        } else if name == "label"@ {
            label_kind(t)
        } else if name == "image"@ {
            image_kind(t, base)
        } else if name == "image-toggle"@ {
            toggle_kind(t, base)
        } else {
            Err(Rule::UnsupportedType)
        },
    }
}

fn read_kind(t: &Vec<Entry>, base_dir: &str) -> (r: Result<ComponentKind, Rule>)
    ensures
        same_outcome(r, kind_of(t@, base_dir@)),
        r matches Ok(k) ==> k@.wf(),
{
    let (name, type_rounding) = match parse_component_type(t) {
        Ok(pair) => pair,
        Err(rule) => {
            return Err(rule);
        },
    };
    if same_text(name.as_str(), "number") {
        read_number_kind(t)
    } else if same_text(name.as_str(), "timer") {
        read_timer_kind(t, type_rounding)
    } else if same_text(name.as_str(), "label") {
        read_label_kind(t)
    } else if same_text(name.as_str(), "image") {
        read_image_kind(t, base_dir)
    } else if same_text(name.as_str(), "image-toggle") {
        read_toggle_kind(t, base_dir)
    } else {
        Err(Rule::UnsupportedType)
    }
}

// ---------------------------------------------------------------------------
// One component
// ---------------------------------------------------------------------------

/// The component that a table spells, by the rule that it breaks first:
/// shape, id, position, font, then what its kind asks for.
pub open spec fn component_rule(global_font: FontView, id: Seq<char>, value: Node, base: Seq<char>) -> Result<
    ComponentConfigView,
    Rule,
> {
    match value {
        Node::Table(table) => {
            let t = table@;
            let font = merged_font(global_font, font_override_at(t));
            if !component_shape(t) {
                Err(Rule::ComponentMalformed)
            } else if trimmed(id).len() == 0 {
                Err(Rule::EmptyId)
            } else if !in_canvas(position_of(t)) {
                Err(Rule::PositionOutside)
            } else {
                match font_fault(font) {
                    Some(rule) => Err(rule),
                    None => match kind_of(t, base) {
                        Err(rule) => Err(rule),
                        Ok(kind) => Ok(
                            ComponentConfigView {
                                id,
                                position: position_of(t),
                                alignment: if absent(t, "alignment"@) {
                                    None
                                } else {
                                    Some(ComponentAlignment::Center)
                                },
                                font,
                                kind,
                            },
                        ),
                    },
                }
            }
        },
        _ => Err(Rule::ComponentMalformed),
    }
}

/// The component that the entry `id` of a document spells, or the error
/// that names `id` and the rule broken first.
pub open spec fn component_of(global_font: FontView, id: Seq<char>, value: Node, base: Seq<char>) -> Result<
    ComponentConfigView,
    ConfigErrorView,
> {
    match component_rule(global_font, id, value, base) {
        Ok(c) => Ok(c),
        Err(rule) => Err(broken(id, rule)),
    }
}

fn compile_component_rule(global_font: &Font, id: &str, value: &Node, base_dir: &str) -> (r:
    Result<ComponentConfig, Rule>)
    ensures
        same_outcome(r, component_rule(global_font@, id@, *value, base_dir@)),
        r matches Ok(c) ==> c@.wf(),
{
    let t = match value {
        Node::Table(table) => table,
        _ => {
            return Err(Rule::ComponentMalformed);
        },
    };
    if !is_component_shape(t) {
        return Err(Rule::ComponentMalformed);
    }
    let over = read_font_override(t);
    let font = match resolve_font(global_font, Some(&over)) {
        Ok(font) => font,
        Err(_) => {
            return Err(Rule::ComponentMalformed);
        },
    };
    if is_blank(id) {
        return Err(Rule::EmptyId);
    }
    let position = read_position(t);
    if position.x < 0 || position.x >= CANVAS_WIDTH || position.y < 0 || position.y
        >= CANVAS_HEIGHT {
        return Err(Rule::PositionOutside);
    }
    match check_font(&font) {
        Some(rule) => {
            return Err(rule);
        },
        None => {},
    }
    let kind = match read_kind(t, base_dir) {
        Ok(kind) => kind,
        Err(rule) => {
            return Err(rule);
        },
    };
    let alignment = if is_absent(t, "alignment") {
        None
    } else {
        Some(ComponentAlignment::Center)
    };
    Ok(ComponentConfig { id: id.to_owned(), position, alignment, font, kind })
}

/// Compiles one component of a document.
pub fn compile_component(global_font: &Font, id: &str, value: &Node, base_dir: &str) -> (r: Result<
    ComponentConfig,
    ConfigError,
>)
    ensures
        same_verdict(r, component_of(global_font@, id@, *value, base_dir@)),
        r matches Ok(c) ==> c@.wf(),
{
    match compile_component_rule(global_font, id, value, base_dir) {
        Ok(c) => Ok(c),
        Err(rule) => Err(schema_error(id, rule)),
    }
}

// ---------------------------------------------------------------------------
// The global section
// ---------------------------------------------------------------------------

/// The font that stands where a document sets none.
pub open spec fn fallback_font() -> FontView {
    FontView { family: "Segoe UI"@, size: 28, color: "#FFFFFF"@ }
}

/// The entries of a node that is a table; none for any other node.
pub open spec fn entries_of(node: Option<Node>) -> Seq<Entry> {
    match node {
        Some(Node::Table(t)) => t@,
        _ => Seq::empty(),
    }
}

/// The global settings of a document: what its global section sets, laid
/// over the fallbacks, by the rule that it breaks first.
pub open spec fn global_rule(entries: Seq<Entry>) -> Result<GlobalSettingsView, Rule> {
    let node = lookup(entries, "global"@);
    let g = entries_of(node);
    let font = merged_font(fallback_font(), font_override_at(g));
    let background_color = match text_at(g, "background_color"@) {
        Some(c) => c,
        None => "#000000"@,
    };
    if !global_shape(node) {
        Err(Rule::GlobalMalformed)
    } else {
        match font_fault(font) {
            Some(rule) => Err(rule),
            None => if !color_ok(background_color) {
                Err(Rule::BackgroundColorInvalid)
            } else {
                Ok(GlobalSettingsView { background_color, font })
            },
        }
    }
}

/// The global settings of a `global` table, or the first rule that it
/// breaks, reported under the name `global`.
pub open spec fn global_of(entries: Seq<Entry>) -> Result<GlobalSettingsView, ConfigErrorView> {
    match global_rule(entries) {
        Ok(g) => Ok(g),
        Err(rule) => Err(broken("global"@, rule)),
    }
}

fn parse_global_rule(entries: &Vec<Entry>) -> (r: Result<GlobalSettings, Rule>)
    ensures
        same_outcome(r, global_rule(entries@)),
        r matches Ok(g) ==> g@.wf(),
{
    let node = get(entries, "global");
    if !is_global_shape(node) {
        return Err(Rule::GlobalMalformed);
    }
    let fallback = Font {
        family: "Segoe UI".to_owned(),
        size: 28,
        color: "#FFFFFF".to_owned(),
    };
    let nothing: Vec<Entry> = Vec::new();
    let g: &Vec<Entry> = match node {
        Some(Node::Table(t)) => t,
        _ => &nothing,
    };
    assert(g@ =~= entries_of(lookup(entries@, "global"@)));
    let over = read_font_override(g);
    let font = match resolve_font(&fallback, Some(&over)) {
        Ok(font) => font,
        Err(_) => {
            return Err(Rule::GlobalMalformed);
        },
    };
    match check_font(&font) {
        Some(rule) => {
            return Err(rule);
        },
        None => {},
    }
    let background_color = match get_text(g, "background_color") {
        Some(c) => c.clone(),
        None => "#000000".to_owned(),
    };
    if !color_is_valid(background_color.as_str()) {
        return Err(Rule::BackgroundColorInvalid);
    }
    Ok(GlobalSettings { background_color, font })
}

/// The global settings of a document.
pub fn parse_global_settings(entries: &Vec<Entry>) -> (r: Result<GlobalSettings, ConfigError>)
    ensures
        same_verdict(r, global_of(entries@)),
        r matches Ok(g) ==> g@.wf(),
{
    match parse_global_rule(entries) {
        Ok(g) => Ok(g),
        Err(rule) => Err(schema_error("global", rule)),
    }
}

// ---------------------------------------------------------------------------
// The order of components
// ---------------------------------------------------------------------------

/// How many components at the head of `acc` have an id before `id`.
pub open spec fn insertion_point(acc: Seq<ComponentConfigView>, id: Seq<char>) -> int
    decreases acc.len(),
{
    if acc.len() > 0 && precedes(acc[0].id, id) {
        1 + insertion_point(acc.drop_first(), id)
    } else {
        0
    }
}

/// `acc` with `c` put in at its place in the order of ids; an error where
/// the id stands there already.
pub open spec fn inserted(acc: Seq<ComponentConfigView>, c: ComponentConfigView) -> Result<
    Seq<ComponentConfigView>,
    ConfigErrorView,
> {
    let k = insertion_point(acc, c.id);
    if k < acc.len() && acc[k].id == c.id {
        Err(broken(c.id, Rule::DuplicateId))
    } else {
        Ok(acc.insert(k, c))
    }
}

/// The insertion point lies within `acc`, behind every identifier that
/// precedes `id` from the front and before one that does not.
pub proof fn lemma_insertion_point(acc: Seq<ComponentConfigView>, id: Seq<char>)
    ensures
        0 <= insertion_point(acc, id) <= acc.len(),
        forall|j: int|
            0 <= j < insertion_point(acc, id) ==> precedes((#[trigger] acc[j]).id, id),
        insertion_point(acc, id) < acc.len() ==> !precedes(acc[insertion_point(acc, id)].id, id),
    decreases acc.len(),
{
    if acc.len() > 0 && precedes(acc[0].id, id) {
        let rest = acc.drop_first();
        lemma_insertion_point(rest, id);
        let k = insertion_point(rest, id);
        assert forall|j: int| 0 <= j < k + 1 implies precedes((#[trigger] acc[j]).id, id) by {
            if j > 0 {
                assert(acc[j] == rest[j - 1]);
            }
        }
        if k < rest.len() {
            assert(acc[k + 1] == rest[k]);
        }
    }
}

/// Putting a component in at its place keeps the order of ids.
pub proof fn lemma_inserted_sorted(acc: Seq<ComponentConfigView>, c: ComponentConfigView)
    requires
        sorted_by_id(acc),
        inserted(acc, c) is Ok,
    ensures
        sorted_by_id(inserted(acc, c)->Ok_0),
{
    let k = insertion_point(acc, c.id);
    lemma_insertion_point(acc, c.id);
    let out = acc.insert(k, c);
    assert forall|i: int, j: int| 0 <= i < j < out.len() implies precedes(
        #[trigger] out[i].id,
        #[trigger] out[j].id,
    ) by {
        if j < k {
            assert(out[i] == acc[i] && out[j] == acc[j]);
        } else if j == k {
            assert(out[i] == acc[i]);
        } else if i == k {
            assert(out[j] == acc[j - 1]);
            lemma_precedes_total(acc[k].id, c.id);
            if j - 1 > k {
                assert(precedes(acc[k].id, acc[j - 1].id));
                lemma_precedes_transitive(c.id, acc[k].id, acc[j - 1].id);
            }
        } else if i < k {
            assert(out[i] == acc[i] && out[j] == acc[j - 1]);
        } else {
            assert(out[i] == acc[i - 1] && out[j] == acc[j - 1]);
        }
    }
}

/// Puts `c` into `components` at its place in the order of ids.
pub fn insert_sorted(components: &mut Vec<ComponentConfig>, c: ComponentConfig) -> (r: Result<
    (),
    ConfigError,
>)
    ensures
        match r {
            Ok(()) => inserted(components_view(old(components)@), c@) == Ok::<
                Seq<ComponentConfigView>,
                ConfigErrorView,
            >(components_view(final(components)@)),
            Err(e) => inserted(components_view(old(components)@), c@) == Err::<
                Seq<ComponentConfigView>,
                ConfigErrorView,
            >(e@) && final(components)@ == old(components)@,
        },
{
    let ghost acc = components_view(components@);
    let mut i: usize = 0;
    let mut found = false;
    assert(acc.skip(0) == acc);
    while i < components.len() && !found
        invariant
            i <= components.len(),
            acc == components_view(components@),
            components@ == old(components)@,
            !found ==> insertion_point(acc, c@.id) == i + insertion_point(acc.skip(i as int), c@.id),
            found ==> i < components.len() && insertion_point(acc, c@.id) == i,
        decreases components.len() - i + (if found { 0int } else { 1int }),
    {
        assert(acc.skip(i as int)[0] == components@[i as int]@);
        match rank(components[i].id.as_str(), c.id.as_str()) {
            Rank::Before => {
                proof {
                    lemma_precedes_irreflexive(c@.id);
                    assert(acc.skip(i as int).drop_first() == acc.skip(i as int + 1));
                }
                i += 1;
            },
            _ => {
                proof {
                    lemma_precedes_irreflexive(c@.id);
                }
                found = true;
            },
        }
    }
    if i < components.len() && same_text(components[i].id.as_str(), c.id.as_str()) {
        assert(acc[i as int] == components@[i as int]@);
        return Err(schema_error(c.id.as_str(), Rule::DuplicateId));
    }
    proof {
        if i < components.len() {
            assert(acc[i as int] == components@[i as int]@);
        }
    }
    components.insert(i, c);
    assert(components_view(components@) =~= acc.insert(i as int, c@));
    Ok(())
}

// ---------------------------------------------------------------------------
// The document
// ---------------------------------------------------------------------------

/// The components so far with one more entry of the document taken in:
/// the entry `global` adds nothing, every other entry is compiled and put
/// in at its place.
pub open spec fn with_entry(
    acc: Seq<ComponentConfigView>,
    entry: Entry,
    global_font: FontView,
    base: Seq<char>,
) -> Result<Seq<ComponentConfigView>, ConfigErrorView> {
    if entry.key@ == "global"@ {
        Ok(acc)
    } else {
        match component_of(global_font, entry.key@, entry.value, base) {
            Err(e) => Err(e),
            Ok(c) => inserted(acc, c),
        }
    }
}

/// The components of a document, in the order of their ids: every entry
/// is taken in in turn, and the first error ends the run.
pub open spec fn components_of(entries: Seq<Entry>, global_font: FontView, base: Seq<char>) -> Result<
    Seq<ComponentConfigView>,
    ConfigErrorView,
>
    decreases entries.len(),
{
    if entries.len() == 0 {
        Ok(Seq::empty())
    } else {
        match components_of(entries.drop_last(), global_font, base) {
            Err(e) => Err(e),
            Ok(acc) => with_entry(acc, entries.last(), global_font, base),
        }
    }
}

/// The schema that a document comes to.
pub open spec fn compiled(doc: Node, base: Seq<char>) -> Result<
    ScoreboardConfigView,
    ConfigErrorView,
> {
    match doc {
        Node::Table(entries) => match global_of(entries@) {
            Err(e) => Err(e),
            Ok(global) => match components_of(entries@, global.font, base) {
                Err(e) => Err(e),
                Ok(components) => Ok(ScoreboardConfigView { global, components }),
            },
        },
        _ => Err(broken(Seq::empty(), Rule::RootNotTable)),
    }
}

/// Whether every component of a sequence obeys the rules of a schema.
pub open spec fn all_wf(cs: Seq<ComponentConfigView>) -> bool {
    forall|i: int| 0 <= i < cs.len() ==> (#[trigger] cs[i]).wf()
}

/// Putting a component that obeys the rules among components that do
/// leaves components that do.
pub proof fn lemma_inserted_wf(acc: Seq<ComponentConfigView>, c: ComponentConfigView)
    requires
        all_wf(acc),
        c.wf(),
        inserted(acc, c) is Ok,
    ensures
        all_wf(inserted(acc, c)->Ok_0),
{
    lemma_insertion_point(acc, c.id);
    let k = insertion_point(acc, c.id);
    let out = acc.insert(k, c);
    assert forall|j: int| 0 <= j < out.len() implies (#[trigger] out[j]).wf() by {
        if j < k {
            assert(out[j] == acc[j]);
        } else if j == k {
            assert(out[j] == c);
        } else {
            assert(out[j] == acc[j - 1]);
        }
    }
}

/// Takes one entry of the document in.
fn add_entry(
    components: &mut Vec<ComponentConfig>,
    entry: &Entry,
    global_font: &Font,
    base_dir: &str,
) -> (r: Result<(), ConfigError>)
    requires
        sorted_by_id(components_view(old(components)@)),
        all_wf(components_view(old(components)@)),
    ensures
        match r {
            Ok(()) => with_entry(
                components_view(old(components)@),
                *entry,
                global_font@,
                base_dir@,
            ) == Ok::<Seq<ComponentConfigView>, ConfigErrorView>(
                components_view(final(components)@),
            ),
            Err(e) => with_entry(
                components_view(old(components)@),
                *entry,
                global_font@,
                base_dir@,
            ) == Err::<Seq<ComponentConfigView>, ConfigErrorView>(e@),
        },
        sorted_by_id(components_view(final(components)@)),
        all_wf(components_view(final(components)@)),
{
    if same_text(entry.key.as_str(), "global") {
        return Ok(());
    }
    let ghost before = components_view(components@);
    let c = match compile_component(global_font, entry.key.as_str(), &entry.value, base_dir) {
        Ok(c) => c,
        Err(e) => {
            return Err(e);
        },
    };
    let ghost cv = c@;
    match insert_sorted(components, c) {
        Ok(()) => {
            proof {
                lemma_inserted_sorted(before, cv);
                lemma_inserted_wf(before, cv);
            }
            Ok(())
        },
        Err(e) => Err(e),
    }
}

/// Compiles the tree of a document into a schema.
pub fn compile_document(doc: &Node, base_dir: &str) -> (r: Result<ScoreboardConfig, ConfigError>)
    ensures
        same_verdict(r, compiled(*doc, base_dir@)),
        r matches Ok(config) ==> config@.wf(),
{
    let entries = match doc {
        Node::Table(entries) => entries,
        _ => {
            let e = schema_error("", Rule::RootNotTable);
            assert(e@ == broken(Seq::empty(), Rule::RootNotTable)) by {
                assert(""@ =~= Seq::<char>::empty()) by {
                    reveal_strlit("");
                }
            }
            return Err(e);
        },
    };
    let global = match parse_global_settings(entries) {
        Ok(g) => g,
        Err(e) => {
            return Err(e);
        },
    };
    match compile_components(entries, &global.font, base_dir) {
        Ok(components) => Ok(ScoreboardConfig { global, components }),
        Err(e) => Err(e),
    }
}

/// Compiles the components of a document, in the order of their ids.
pub fn compile_components(entries: &Vec<Entry>, global_font: &Font, base_dir: &str) -> (r: Result<
    Vec<ComponentConfig>,
    ConfigError,
>)
    ensures
        match r {
            Ok(components) => components_of(entries@, global_font@, base_dir@) == Ok::<
                Seq<ComponentConfigView>,
                ConfigErrorView,
            >(components_view(components@)) && sorted_by_id(components_view(components@))
                && all_wf(components_view(components@)),
            Err(e) => components_of(entries@, global_font@, base_dir@) == Err::<
                Seq<ComponentConfigView>,
                ConfigErrorView,
            >(e@),
        },
{
    let mut components: Vec<ComponentConfig> = Vec::new();
    let mut i: usize = 0;
    assert(entries@.take(0) =~= Seq::<Entry>::empty());
    assert(components_view(components@) =~= Seq::<ComponentConfigView>::empty());
    while i < entries.len()
        invariant
            i <= entries.len(),
            components_of(entries@.take(i as int), global_font@, base_dir@) == Ok::<
                Seq<ComponentConfigView>,
                ConfigErrorView,
            >(components_view(components@)),
            sorted_by_id(components_view(components@)),
            all_wf(components_view(components@)),
        decreases entries.len() - i,
    {
        proof {
            let next = entries@.take(i as int + 1);
            assert(next.drop_last() =~= entries@.take(i as int));
            assert(next.last() == entries@[i as int]);
        }
        match add_entry(&mut components, &entries[i], global_font, base_dir) {
            Ok(()) => {},
            Err(e) => {
                proof {
                    lemma_components_error(entries@, i as int + 1, global_font@, base_dir@);
                }
                return Err(e);
            },
        }
        i += 1;
    }
    assert(entries@.take(entries.len() as int) =~= entries@);
    Ok(components)
}

/// An error among the first `n` entries is the error of the whole run.
pub proof fn lemma_components_error(
    entries: Seq<Entry>,
    n: int,
    global_font: FontView,
    base: Seq<char>,
)
    requires
        0 <= n <= entries.len(),
        components_of(entries.take(n), global_font, base) is Err,
    ensures
        components_of(entries, global_font, base) == components_of(
            entries.take(n),
            global_font,
            base,
        ),
    decreases entries.len() - n,
{
    if n < entries.len() {
        let next = entries.take(n + 1);
        assert(next.drop_last() =~= entries.take(n));
        lemma_components_error(entries, n + 1, global_font, base);
    } else {
        assert(entries.take(n) =~= entries);
    }
}

/// What a text comes to: the schema of the document that it spells; a
/// parse error where it spells none.
pub open spec fn loads(r: Result<ScoreboardConfig, ConfigError>, content: Seq<char>, base: Seq<char>) -> bool {
    match toml_document(content) {
        Some(doc) => same_verdict(r, compiled(doc, base)),
        None => r matches Err(e) && e is Parse,
    }
}

/// Compiles a configuration text; image sources that are not absolute are
/// resolved against `base_dir`.
pub fn load_config_from_str_with_base(content: &str, base_dir: &str) -> (r: Result<
    ScoreboardConfig,
    ConfigError,
>)
    ensures
        loads(r, content@, base_dir@),
        r matches Ok(config) ==> config@.wf(),
{
    match parse_document(content) {
        Ok(doc) => compile_document(&doc, base_dir),
        Err(message) => Err(ConfigError::Parse { message }),
    }
}

} // verus!
