//! The rules that single values of a schema obey, each with the check
//! that enforces it.

use crate::config::{
    CANVAS_HEIGHT, CANVAS_WIDTH, ConfigError, Font, FontView, Position, Rule, TimerRounding, broken,
    color_ok, in_canvas, schema_error,
};
use crate::text::{
    chars_of, find_from, is_blank, is_hex, is_hex_digit, lowercase, lowered, parse_i64,
    parse_integer, same_text, three_fields, trim, trimmed,
};
use vstd::prelude::*;

verus! {

// ---------------------------------------------------------------------------
// Colours
// ---------------------------------------------------------------------------

/// Whether `color` is written `#RRGGBB`.
pub fn color_is_valid(color: &str) -> (r: bool)
    ensures
        r == color_ok(color@),
{
    let t = trim(color);
    if t.len() != 7 {
        return false;
    }
    if t[0] != '#' {
        return false;
    }
    let mut i: usize = 1;
    while i < 7
        invariant
            1 <= i <= 7,
            t.len() == 7,
            t@ == trimmed(color@),
            t@[0] == '#',
            forall|k: int| 1 <= k < i ==> is_hex_digit(#[trigger] t@[k]),
        decreases 7 - i,
    {
        if !is_hex(t[i]) {
            assert(!is_hex_digit(trimmed(color@)[i as int]));
            return false;
        }
        i += 1;
    }
    true
}

/// A colour passes where it is written `#RRGGBB`; where it is not, the
/// error names `name`.
pub fn validate_color(name: &str, color: &str) -> (r: Result<(), ConfigError>)
    ensures
        r is Ok <==> color_ok(color@),
        r matches Err(e) ==> e@ == broken(name@, Rule::ColorInvalid),
{
    if color_is_valid(color) {
        Ok(())
    } else {
        Err(schema_error(name, Rule::ColorInvalid))
    }
}

// ---------------------------------------------------------------------------
// Ids, positions, fonts
// ---------------------------------------------------------------------------

/// An id passes where it is not blank.
pub fn validate_id(id: &str) -> (r: Result<(), ConfigError>)
    ensures
        r is Ok <==> trimmed(id@).len() > 0,
        r matches Err(e) ==> e@ == broken(id@, Rule::EmptyId),
{
    if is_blank(id) {
        Err(schema_error(id, Rule::EmptyId))
    } else {
        Ok(())
    }
}

/// A position passes where it lies on the canvas.
pub fn validate_position(id: &str, p: &Position) -> (r: Result<(), ConfigError>)
    ensures
        r is Ok <==> in_canvas(*p),
        r matches Err(e) ==> e@ == broken(id@, Rule::PositionOutside),
{
    if p.x < 0 || p.x >= CANVAS_WIDTH || p.y < 0 || p.y >= CANVAS_HEIGHT {
        Err(schema_error(id, Rule::PositionOutside))
    } else {
        Ok(())
    }
}

/// The first rule that a font breaks: family, then size, then colour.
pub open spec fn font_fault(font: FontView) -> Option<Rule> {
    if trimmed(font.family).len() == 0 {
        Some(Rule::FontFamilyEmpty)
    } else if font.size <= 0 {
        Some(Rule::FontSizeNotPositive)
    } else if !color_ok(font.color) {
        Some(Rule::FontColorInvalid)
    } else {
        None
    }
}

/// The first rule that `font` breaks, if it breaks one.
pub fn check_font(font: &Font) -> (r: Option<Rule>)
    ensures
        r == font_fault(font@),
        r is None <==> font@.wf(),
{
    if is_blank(font.family.as_str()) {
        Some(Rule::FontFamilyEmpty)
    } else if font.size <= 0 {
        Some(Rule::FontSizeNotPositive)
    } else if !color_is_valid(font.color.as_str()) {
        Some(Rule::FontColorInvalid)
    } else {
        None
    }
}

/// A font passes where its family is not blank, its size is positive and
/// its colour is written `#RRGGBB`.
pub fn validate_font(id: &str, font: &Font) -> (r: Result<(), ConfigError>)
    ensures
        r is Ok <==> font@.wf(),
        r matches Err(e) ==> font_fault(font@) matches Some(rule) && e@ == broken(id@, rule),
{
    match check_font(font) {
        Some(rule) => Err(schema_error(id, rule)),
        None => Ok(()),
    }
}

/// What a document sets of a font; what it leaves out comes from the
/// font it is laid over.
#[derive(Clone, Debug, PartialEq, Eq)]
pub struct FontOverride {
    pub family: Option<String>,
    pub size: Option<i32>,
    pub color: Option<String>,
}

/// A font override, with its texts as sequences of characters.
pub struct FontOverrideView {
    pub family: Option<Seq<char>>,
    pub size: Option<i32>,
    pub color: Option<Seq<char>>,
}

impl View for FontOverride {
    type V = FontOverrideView;

    open spec fn view(&self) -> FontOverrideView {
        FontOverrideView {
            family: match self.family {
                Some(s) => Some(s@),
                None => None,
            },
            size: self.size,
            color: match self.color {
                Some(s) => Some(s@),
                None => None,
            },
        }
    }
}

impl FontOverrideView {
    /// The override that sets nothing.
    pub open spec fn nothing() -> FontOverrideView {
        FontOverrideView { family: None, size: None, color: None }
    }
}

/// `base` with the fields that `over` sets, field by field.
pub open spec fn merged_font(base: FontView, over: FontOverrideView) -> FontView {
    FontView {
        family: match over.family {
            Some(f) => f,
            None => base.family,
        },
        size: match over.size {
            Some(s) => s,
            None => base.size,
        },
        color: match over.color {
            Some(c) => c,
            None => base.color,
        },
    }
}

/// The view of an override that may be missing: missing sets nothing.
pub open spec fn override_view(over: Option<&FontOverride>) -> FontOverrideView {
    match over {
        Some(o) => o@,
        None => FontOverrideView::nothing(),
    }
}

/// Lays `override_font` over `base`; each of family, size and colour
/// falls back to `base` on its own.
pub fn resolve_font(base: &Font, override_font: Option<&FontOverride>) -> (r: Result<
    Font,
    ConfigError,
>)
    ensures
        r matches Ok(font) && font@ == merged_font(base@, override_view(override_font)),
{
    let font = match override_font {
        Some(over) => Font {
            family: match &over.family {
                Some(f) => f.clone(),
                None => base.family.clone(),
            },
            size: match over.size {
                Some(s) => s,
                None => base.size,
            },
            color: match &over.color {
                Some(c) => c.clone(),
                None => base.color.clone(),
            },
        },
        None => base.clone(),
    };
    Ok(font)
}

// ---------------------------------------------------------------------------
// Timers
// ---------------------------------------------------------------------------

/// The milliseconds that hours, minutes and seconds come to.
pub open spec fn milliseconds(h: int, m: int, s: int) -> int {
    ((h * 3600) + (m * 60) + s) * 1000
}

/// What a timer default spells: exactly three fields between colons, each
/// a whole number, minutes and seconds from 0 to 59 and hours not
/// negative, in milliseconds.
pub open spec fn timer_default_ms(value: Seq<char>) -> Result<i64, Rule> {
    match three_fields(value, ':') {
        None => Err(Rule::TimerDefaultShape),
        Some((hours, minutes, seconds)) => match parse_integer(hours) {
            None => Err(Rule::TimerHoursInvalid),
            Some(h) => match parse_integer(minutes) {
                None => Err(Rule::TimerMinutesInvalid),
                Some(m) => match parse_integer(seconds) {
                    None => Err(Rule::TimerSecondsInvalid),
                    Some(s) => if !(0 <= m < 60) || !(0 <= s < 60) || h < 0 {
                        Err(Rule::TimerDefaultShape)
                    } else if milliseconds(h, m, s) > i64::MAX {
                        Err(Rule::TimerDefaultTooLarge)
                    } else {
                        Ok(milliseconds(h, m, s) as i64)
                    },
                },
            },
        },
    }
}

/// Reads a timer default written `HH:MM:SS`.
pub fn parse_timer_default(value: &str) -> (r: Result<i64, Rule>)
    ensures
        r == timer_default_ms(value@),
        r matches Ok(ms) ==> ms >= 0,
{
    let v = chars_of(value);
    let n = v.len();
    let ghost s = v@;
    assert(s.skip(0) == s);
    let first = find_from(&v, 0, ':');
    if first >= n {
        return Err(Rule::TimerDefaultShape);
    }
    let ghost rest = s.skip(first as int + 1);
    let second = find_from(&v, first + 1, ':');
    if second >= n {
        return Err(Rule::TimerDefaultShape);
    }
    let ghost tail = rest.skip(second as int - first as int);
    assert(tail == s.skip(second as int + 1));
    let third = find_from(&v, second + 1, ':');
    if third < n {
        return Err(Rule::TimerDefaultShape);
    }
    proof {
        assert(s.take(first as int) == s.subrange(0, first as int));
        assert(rest.take(second as int - first as int - 1) == s.subrange(
            first as int + 1,
            second as int,
        ));
        assert(tail == s.subrange(second as int + 1, n as int));
        assert(three_fields(s, ':') == Some(
            (s.take(first as int), rest.take(second as int - first as int - 1), tail),
        ));
    }
    let h = match parse_i64(&v, 0, first) {
        Some(h) => h,
        None => {
            return Err(Rule::TimerHoursInvalid);
        },
    };
    let m = match parse_i64(&v, first + 1, second) {
        Some(m) => m,
        None => {
            return Err(Rule::TimerMinutesInvalid);
        },
    };
    let sec = match parse_i64(&v, second + 1, n) {
        Some(x) => x,
        None => {
            return Err(Rule::TimerSecondsInvalid);
        },
    };
    if m < 0 || m >= 60 || sec < 0 || sec >= 60 || h < 0 {
        return Err(Rule::TimerDefaultShape);
    }
    let total: i128 = ((h as i128) * 3600 + (m as i128) * 60 + (sec as i128)) * 1000;
    if total > 9223372036854775807i128 {
        return Err(Rule::TimerDefaultTooLarge);
    }
    Ok(total as i64)
}

/// The rounding that is named: what the type table says, else what the
/// component says, else `standard`.
pub open spec fn chosen_rounding(
    type_rounding: Option<Seq<char>>,
    component_rounding: Option<Seq<char>>,
) -> Seq<char> {
    match type_rounding {
        Some(r) => r,
        None => match component_rounding {
            Some(r) => r,
            None => "standard"@,
        },
    }
}

/// The rounding that a name stands for, in either case of its letters.
pub open spec fn rounding_named(name: Seq<char>) -> Option<TimerRounding> {
    if lowered(name) == "standard"@ {
        Some(TimerRounding::Standard)
    } else if lowered(name) == "basketball"@ {
        Some(TimerRounding::Basketball)
    } else {
        None
    }
}

/// The view of an optional text.
pub open spec fn opt_str_view(s: Option<&str>) -> Option<Seq<char>> {
    match s {
        Some(t) => Some(t@),
        None => None,
    }
}

/// The rounding of a timer: the one its type table names, else the one
/// the component names, else standard.
pub fn parse_timer_rounding(
    id: &str,
    type_rounding: Option<&str>,
    component_rounding: Option<&str>,
) -> (r: Result<TimerRounding, ConfigError>)
    ensures
        match r {
            Ok(rounding) => rounding_named(
                chosen_rounding(opt_str_view(type_rounding), opt_str_view(component_rounding)),
            ) == Some(rounding),
            Err(e) => rounding_named(
                chosen_rounding(opt_str_view(type_rounding), opt_str_view(component_rounding)),
            ) is None && e@ == broken(id@, Rule::UnsupportedRounding),
        },
{
    let chosen: &str = match type_rounding {
        Some(r) => r,
        None => match component_rounding {
            Some(r) => r,
            None => "standard",
        },
    };
    let name = lowercase(chosen);
    if same_text(name.as_str(), "standard") {
        Ok(TimerRounding::Standard)
    } else if same_text(name.as_str(), "basketball") {
        Ok(TimerRounding::Basketball)
    } else {
        Err(schema_error(id, Rule::UnsupportedRounding))
    }
}

} // verus!
