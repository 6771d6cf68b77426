//! The shape that the tables of a document must have before their fields
//! are read: which keys are required, and what kind of value stands under
//! each key that is present.

use crate::document::{Entry, Node, absent, flag_at, get, get_text, integer_at, lookup, text_at};
use crate::text::same_text;
use vstd::prelude::*;

verus! {

/// Whether an integer of 64 bits fits in 32.
pub open spec fn fits_i32(i: i64) -> bool {
    i32::MIN <= i <= i32::MAX
}

/// Nothing, or a text, under `key`.
pub open spec fn optional_text(t: Seq<Entry>, key: Seq<char>) -> bool {
    absent(t, key) || text_at(t, key) is Some
}

/// Nothing, or a boolean, under `key`.
pub open spec fn optional_flag(t: Seq<Entry>, key: Seq<char>) -> bool {
    absent(t, key) || flag_at(t, key) is Some
}

/// Nothing, or an integer of 32 bits, under `key`.
pub open spec fn optional_i32(t: Seq<Entry>, key: Seq<char>) -> bool {
    absent(t, key) || (integer_at(t, key) matches Some(i) && fits_i32(i))
}

/// An integer of 32 bits under `key`.
pub open spec fn required_i32(t: Seq<Entry>, key: Seq<char>) -> bool {
    integer_at(t, key) matches Some(i) && fits_i32(i)
}

/// A font section: absent, or a table with a text family, a 32-bit size
/// and a text colour, each optional.
pub open spec fn font_shape(node: Option<Node>) -> bool {
    match node {
        None => true,
        Some(Node::Table(f)) => optional_text(f@, "family"@) && optional_i32(f@, "size"@)
            && optional_text(f@, "color"@),
        Some(_) => false,
    }
}

/// A key chord: a table with a text `key` and optional boolean modifiers.
pub open spec fn chord_shape(node: Node) -> bool {
    match node {
        Node::Table(c) => text_at(c@, "key"@) is Some && optional_flag(c@, "ctrl"@)
            && optional_flag(c@, "alt"@) && optional_flag(c@, "shift"@) && optional_flag(
            c@,
            "win"@,
        ),
        _ => false,
    }
}

/// A key binding section: absent, or a table of key chords.
pub open spec fn keybind_shape(node: Option<Node>) -> bool {
    match node {
        None => true,
        Some(Node::Table(kb)) => forall|i: int|
            0 <= i < kb@.len() ==> chord_shape((#[trigger] kb@[i]).value),
        Some(_) => false,
    }
}

/// A position: a table with 32-bit `x` and `y`.
pub open spec fn position_shape(node: Option<Node>) -> bool {
    match node {
        Some(Node::Table(p)) => required_i32(p@, "x"@) && required_i32(p@, "y"@),
        _ => false,
    }
}

/// An image size: absent, or a table with 32-bit `width` and `height`.
pub open spec fn size_shape(node: Option<Node>) -> bool {
    match node {
        None => true,
        Some(Node::Table(s)) => required_i32(s@, "width"@) && required_i32(s@, "height"@),
        Some(_) => false,
    }
}

/// A list of sources: absent, or an array of texts.
pub open spec fn sources_shape(node: Option<Node>) -> bool {
    match node {
        None => true,
        Some(Node::List(l)) => forall|i: int| 0 <= i < l@.len() ==> (#[trigger] l@[i]) is Text,
        Some(_) => false,
    }
}

/// An opacity: absent, or a number.
pub open spec fn opacity_shape(node: Option<Node>) -> bool {
    match node {
        None => true,
        Some(Node::Real(_)) => true,
        Some(Node::Integer(_)) => true,
        Some(_) => false,
    }
}

/// An alignment: absent, or the text `center`.
pub open spec fn alignment_shape(node: Option<Node>) -> bool {
    match node {
        None => true,
        Some(Node::Text(s)) => s@ == "center"@,
        Some(_) => false,
    }
}

/// A component: `type` and `position` are there, and every field that is
/// there has the shape that its name asks for.
pub open spec fn component_shape(t: Seq<Entry>) -> bool {
    &&& !absent(t, "type"@)
    &&& position_shape(lookup(t, "position"@))
    &&& font_shape(lookup(t, "font"@))
    &&& keybind_shape(lookup(t, "keybind"@))
    &&& optional_text(t, "source"@)
    &&& sources_shape(lookup(t, "sources"@))
    &&& size_shape(lookup(t, "size"@))
    &&& opacity_shape(lookup(t, "opacity"@))
    &&& optional_text(t, "rounding"@)
    &&& optional_flag(t, "edit"@)
    &&& alignment_shape(lookup(t, "alignment"@))
}

/// The global section: absent, or a table with an optional text
/// `background_color` and an optional font section.
pub open spec fn global_shape(node: Option<Node>) -> bool {
    match node {
        None => true,
        Some(Node::Table(g)) => optional_text(g@, "background_color"@) && font_shape(
            lookup(g@, "font"@),
        ),
        Some(_) => false,
    }
}

fn has_optional_text(t: &Vec<Entry>, key: &str) -> (r: bool)
    ensures
        r == optional_text(t@, key@),
{
    match get(t, key) {
        None => true,
        Some(Node::Text(_)) => true,
        Some(_) => false,
    }
}

fn has_optional_flag(t: &Vec<Entry>, key: &str) -> (r: bool)
    ensures
        r == optional_flag(t@, key@),
{
    match get(t, key) {
        None => true,
        Some(Node::Flag(_)) => true,
        Some(_) => false,
    }
}

pub(crate) fn is_i32(i: i64) -> (r: bool)
    ensures
        r == fits_i32(i),
{
    -2147483648 <= i && i <= 2147483647
}

fn has_optional_i32(t: &Vec<Entry>, key: &str) -> (r: bool)
    ensures
        r == optional_i32(t@, key@),
{
    match get(t, key) {
        None => true,
        Some(Node::Integer(i)) => is_i32(*i),
        Some(_) => false,
    }
}

fn has_required_i32(t: &Vec<Entry>, key: &str) -> (r: bool)
    ensures
        r == required_i32(t@, key@),
{
    match get(t, key) {
        Some(Node::Integer(i)) => is_i32(*i),
        _ => false,
    }
}

fn is_font_shape(node: Option<&Node>) -> (r: bool)
    ensures
        r == font_shape(
            match node {
                Some(n) => Some(*n),
                None => None,
            },
        ),
{
    match node {
        None => true,
        Some(Node::Table(f)) => has_optional_text(f, "family") && has_optional_i32(f, "size")
            && has_optional_text(f, "color"),
        Some(_) => false,
    }
}

fn is_chord_shape(node: &Node) -> (r: bool)
    ensures
        r == chord_shape(*node),
{
    match node {
        Node::Table(c) => get_text(c, "key").is_some() && has_optional_flag(c, "ctrl")
            && has_optional_flag(c, "alt") && has_optional_flag(c, "shift") && has_optional_flag(
            c,
            "win",
        ),
        _ => false,
    }
}

#[verifier::loop_isolation(false)]
fn is_keybind_shape(node: Option<&Node>) -> (r: bool)
    ensures
        r == keybind_shape(
            match node {
                Some(n) => Some(*n),
                None => None,
            },
        ),
{
    match node {
        None => true,
        Some(Node::Table(kb)) => {
            let mut i: usize = 0;
            while i < kb.len()
                invariant
                    i <= kb.len(),
                    forall|j: int| 0 <= j < i ==> chord_shape((#[trigger] kb@[j]).value),
                decreases kb.len() - i,
            {
                if !is_chord_shape(&kb[i].value) {
                    assert(!chord_shape(kb@[i as int].value));
                    return false;
                }
                i += 1;
            }
            true
        },
        Some(_) => false,
    }
}

fn is_position_shape(node: Option<&Node>) -> (r: bool)
    ensures
        r == position_shape(
            match node {
                Some(n) => Some(*n),
                None => None,
            },
        ),
{
    match node {
        Some(Node::Table(p)) => has_required_i32(p, "x") && has_required_i32(p, "y"),
        _ => false,
    }
}

fn is_size_shape(node: Option<&Node>) -> (r: bool)
    ensures
        r == size_shape(
            match node {
                Some(n) => Some(*n),
                None => None,
            },
        ),
{
    match node {
        None => true,
        Some(Node::Table(s)) => has_required_i32(s, "width") && has_required_i32(s, "height"),
        Some(_) => false,
    }
}

#[verifier::loop_isolation(false)]
fn is_sources_shape(node: Option<&Node>) -> (r: bool)
    ensures
        r == sources_shape(
            match node {
                Some(n) => Some(*n),
                None => None,
            },
        ),
{
    match node {
        None => true,
        Some(Node::List(l)) => {
            let mut i: usize = 0;
            while i < l.len()
                invariant
                    i <= l.len(),
                    forall|j: int| 0 <= j < i ==> (#[trigger] l@[j]) is Text,
                decreases l.len() - i,
            {
                match &l[i] {
                    Node::Text(_) => {},
                    _ => {
                        assert(!(l@[i as int] is Text));
                        return false;
                    },
                }
                i += 1;
            }
            true
        },
        Some(_) => false,
    }
}

fn is_opacity_shape(node: Option<&Node>) -> (r: bool)
    ensures
        r == opacity_shape(
            match node {
                Some(n) => Some(*n),
                None => None,
            },
        ),
{
    match node {
        None => true,
        Some(Node::Real(_)) => true,
        Some(Node::Integer(_)) => true,
        Some(_) => false,
    }
}

fn is_alignment_shape(node: Option<&Node>) -> (r: bool)
    ensures
        r == alignment_shape(
            match node {
                Some(n) => Some(*n),
                None => None,
            },
        ),
{
    match node {
        None => true,
        Some(Node::Text(s)) => same_text(s.as_str(), "center"),
        Some(_) => false,
    }
}

/// Whether a component table has the shape that its fields ask for.
pub(crate) fn is_component_shape(t: &Vec<Entry>) -> (r: bool)
    ensures
        r == component_shape(t@),
{
    get(t, "type").is_some() && is_position_shape(get(t, "position")) && is_font_shape(
        get(t, "font"),
    ) && is_keybind_shape(get(t, "keybind")) && has_optional_text(t, "source")
        && is_sources_shape(get(t, "sources")) && is_size_shape(get(t, "size"))
        && is_opacity_shape(get(t, "opacity")) && has_optional_text(t, "rounding")
        && has_optional_flag(t, "edit") && is_alignment_shape(get(t, "alignment"))
}

/// Whether the global section has the shape that its fields ask for.
pub(crate) fn is_global_shape(node: Option<&Node>) -> (r: bool)
    ensures
        r == global_shape(
            match node {
                Some(n) => Some(*n),
                None => None,
            },
        ),
{
    match node {
        None => true,
        Some(Node::Table(g)) => has_optional_text(g, "background_color") && is_font_shape(
            get(g, "font"),
        ),
        Some(_) => false,
    }
}

} // verus!
