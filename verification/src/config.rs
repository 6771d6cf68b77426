//! The schema of a scoreboard: global appearance and an ordered list of
//! components, each with its mathematical view, and the rules that a value
//! of the schema obeys.

use crate::text::{is_hex_digit, precedes, push_str, text_of, trim, trimmed};
use vstd::prelude::*;
use vstd::string::*;

verus! {

/// The width of the canvas: `x` runs from zero to below it.
pub const CANVAS_WIDTH: i32 = 640;

/// The height of the canvas: `y` runs from zero to below it.
pub const CANVAS_HEIGHT: i32 = 480;

/// The bit pattern of `1.0` as an IEEE-754 double.
pub const OPACITY_FULL_BITS: u64 = 0x3FF0_0000_0000_0000;

/// The bit pattern of `-0.0` as an IEEE-754 double.
pub const OPACITY_NEGATIVE_ZERO_BITS: u64 = 0x8000_0000_0000_0000;

// ---------------------------------------------------------------------------
// Plain values
// ---------------------------------------------------------------------------

/// Where a component stands on the canvas.
#[derive(Clone, Copy, Debug, PartialEq, Eq, Structural)]
pub struct Position {
    pub x: i32,
    pub y: i32,
}

/// How the time left on a timer is written.
#[derive(Clone, Copy, Debug, PartialEq, Eq, Structural)]
pub enum TimerRounding {
    Standard,
    Basketball,
}

/// How a component is placed about its position.
#[derive(Clone, Copy, Debug, PartialEq, Eq, Structural)]
pub enum ComponentAlignment {
    Center,
}

/// How opaque an image is drawn, held as the bit pattern of an IEEE-754
/// double. Among the doubles that are not negative, a larger pattern is a
/// larger number, so the interval from `0.0` to `1.0` is one integer range,
/// to which negative zero is added.
#[derive(Clone, Copy, Debug, PartialEq, Eq, Structural)]
pub struct Opacity {
    pub bits: u64,
}

impl Opacity {
    /// Whether the number lies between `0.0` and `1.0`, both included.
    pub open spec fn in_unit_range(self) -> bool {
        self.bits <= OPACITY_FULL_BITS || self.bits == OPACITY_NEGATIVE_ZERO_BITS
    }

    /// Whether the number lies between `0.0` and `1.0`, both included.
    pub fn is_in_unit_range(&self) -> (r: bool)
        ensures
            r == self.in_unit_range(),
    {
        self.bits <= OPACITY_FULL_BITS || self.bits == OPACITY_NEGATIVE_ZERO_BITS
    }

    /// Fully opaque: `1.0`.
    pub fn full() -> (r: Opacity)
        ensures
            r.bits == OPACITY_FULL_BITS,
            r.in_unit_range(),
    {
        Opacity { bits: OPACITY_FULL_BITS }
    }
}

// ---------------------------------------------------------------------------
// Font
// ---------------------------------------------------------------------------

/// How a text is drawn: family, size, and colour as `#RRGGBB`.
#[derive(Debug, PartialEq, Eq)]
pub struct Font {
    pub family: String,
    pub size: i32,
    pub color: String,
}

/// A font, with its texts as sequences of characters.
pub struct FontView {
    pub family: Seq<char>,
    pub size: i32,
    pub color: Seq<char>,
}

impl View for Font {
    type V = FontView;

    open spec fn view(&self) -> FontView {
        FontView { family: self.family@, size: self.size, color: self.color@ }
    }
}

impl Clone for Font {
    fn clone(&self) -> (r: Font)
        ensures
            r@ == self@,
    {
        Font { family: self.family.clone(), size: self.size, color: self.color.clone() }
    }
}

// ---------------------------------------------------------------------------
// Key chords
// ---------------------------------------------------------------------------

/// A key chord: a key, and the modifiers held with it.
#[derive(Debug, PartialEq, Eq)]
pub struct KeybindSpec {
    pub key: String,
    pub ctrl: bool,
    pub alt: bool,
    pub shift: bool,
    pub win: bool,
}

/// A chord, with its key as a sequence of characters.
pub struct KeybindSpecView {
    pub key: Seq<char>,
    pub ctrl: bool,
    pub alt: bool,
    pub shift: bool,
    pub win: bool,
}

impl KeybindSpecView {
    /// The canonical shortcut: the names of the modifiers that are set, in
    /// the order Ctrl, Alt, Shift, Super, each followed by `+`, then the
    /// trimmed key.
    pub open spec fn shortcut(self) -> Seq<char> {
        (if self.ctrl {
            "Ctrl+"@
        } else {
            Seq::empty()
        }) + (if self.alt {
            "Alt+"@
        } else {
            Seq::empty()
        }) + (if self.shift {
            "Shift+"@
        } else {
            Seq::empty()
        }) + (if self.win {
            "Super+"@
        } else {
            Seq::empty()
        }) + trimmed(self.key)
    }

    /// A chord names a key: its key is not blank.
    pub open spec fn wf(self) -> bool {
        trimmed(self.key).len() > 0
    }
}

impl View for KeybindSpec {
    type V = KeybindSpecView;

    open spec fn view(&self) -> KeybindSpecView {
        KeybindSpecView {
            key: self.key@,
            ctrl: self.ctrl,
            alt: self.alt,
            shift: self.shift,
            win: self.win,
        }
    }
}

impl Clone for KeybindSpec {
    fn clone(&self) -> (r: KeybindSpec)
        ensures
            r@ == self@,
    {
        KeybindSpec {
            key: self.key.clone(),
            ctrl: self.ctrl,
            alt: self.alt,
            shift: self.shift,
            win: self.win,
        }
    }
}

impl KeybindSpec {
    /// The chord as one text: the modifiers that are held, then the key,
    /// joined by `+`.
    pub fn to_shortcut(&self) -> (r: String)
        ensures
            r@ == self@.shortcut(),
    {
        let mut out: Vec<char> = Vec::new();
        if self.ctrl {
            push_str(&mut out, "Ctrl+");
        }
        if self.alt {
            push_str(&mut out, "Alt+");
        }
        if self.shift {
            push_str(&mut out, "Shift+");
        }
        if self.win {
            push_str(&mut out, "Super+");
        }
        let key = trim(self.key.as_str());
        let mut i: usize = 0;
        let ghost head = out@;
        while i < key.len()
            invariant
                i <= key.len(),
                out@ == head + key@.take(i as int),
            decreases key.len() - i,
        {
            out.push(key[i]);
            i += 1;
        }
        assert(key@.take(key.len() as int) == key@);
        assert(out@ == self@.shortcut());
        text_of(&out)
    }
}

/// The view of an optional chord.
pub open spec fn chord_view(chord: Option<KeybindSpec>) -> Option<KeybindSpecView> {
    match chord {
        Some(k) => Some(k@),
        None => None,
    }
}

/// A chord that is present names a key.
pub open spec fn chord_wf(chord: Option<KeybindSpecView>) -> bool {
    chord matches Some(k) ==> k.wf()
}

fn clone_chord(chord: &Option<KeybindSpec>) -> (r: Option<KeybindSpec>)
    ensures
        chord_view(r) == chord_view(*chord),
{
    match chord {
        Some(k) => Some(k.clone()),
        None => None,
    }
}

/// The chords of a number; each may be missing.
#[derive(Debug, PartialEq, Eq)]
pub struct NumberKeybind {
    pub increase: Option<KeybindSpec>,
    pub decrease: Option<KeybindSpec>,
    pub reset: Option<KeybindSpec>,
}

/// The chords of a number, each by its view.
pub struct NumberKeybindView {
    pub increase: Option<KeybindSpecView>,
    pub decrease: Option<KeybindSpecView>,
    pub reset: Option<KeybindSpecView>,
}

impl NumberKeybindView {
    /// Every chord that is present names a key.
    pub open spec fn wf(self) -> bool {
        chord_wf(self.increase) && chord_wf(self.decrease) && chord_wf(self.reset)
    }
}

impl View for NumberKeybind {
    type V = NumberKeybindView;

    open spec fn view(&self) -> NumberKeybindView {
        NumberKeybindView {
            increase: chord_view(self.increase),
            decrease: chord_view(self.decrease),
            reset: chord_view(self.reset),
        }
    }
}

impl Clone for NumberKeybind {
    fn clone(&self) -> (r: NumberKeybind)
        ensures
            r@ == self@,
    {
        NumberKeybind {
            increase: clone_chord(&self.increase),
            decrease: clone_chord(&self.decrease),
            reset: clone_chord(&self.reset),
        }
    }
}

/// The chords of a timer; each may be missing.
#[derive(Debug, PartialEq, Eq)]
pub struct TimerKeybind {
    pub start: Option<KeybindSpec>,
    pub stop: Option<KeybindSpec>,
    pub reset: Option<KeybindSpec>,
    pub increase: Option<KeybindSpec>,
    pub decrease: Option<KeybindSpec>,
}

/// The chords of a timer, each by its view.
pub struct TimerKeybindView {
    pub start: Option<KeybindSpecView>,
    pub stop: Option<KeybindSpecView>,
    pub reset: Option<KeybindSpecView>,
    pub increase: Option<KeybindSpecView>,
    pub decrease: Option<KeybindSpecView>,
}

impl TimerKeybindView {
    /// Every chord that is present names a key.
    pub open spec fn wf(self) -> bool {
        chord_wf(self.start) && chord_wf(self.stop) && chord_wf(self.reset) && chord_wf(
            self.increase,
        ) && chord_wf(self.decrease)
    }
}

impl View for TimerKeybind {
    type V = TimerKeybindView;

    open spec fn view(&self) -> TimerKeybindView {
        TimerKeybindView {
            start: chord_view(self.start),
            stop: chord_view(self.stop),
            reset: chord_view(self.reset),
            increase: chord_view(self.increase),
            decrease: chord_view(self.decrease),
        }
    }
}

impl Clone for TimerKeybind {
    fn clone(&self) -> (r: TimerKeybind)
        ensures
            r@ == self@,
    {
        TimerKeybind {
            start: clone_chord(&self.start),
            stop: clone_chord(&self.stop),
            reset: clone_chord(&self.reset),
            increase: clone_chord(&self.increase),
            decrease: clone_chord(&self.decrease),
        }
    }
}

/// The chords of an image toggle; each may be missing.
#[derive(Debug, PartialEq, Eq)]
pub struct ImageToggleKeybind {
    pub forward: Option<KeybindSpec>,
    pub backward: Option<KeybindSpec>,
}

/// The chords of an image toggle, each by its view.
pub struct ImageToggleKeybindView {
    pub forward: Option<KeybindSpecView>,
    pub backward: Option<KeybindSpecView>,
}

impl ImageToggleKeybindView {
    /// Every chord that is present names a key.
    pub open spec fn wf(self) -> bool {
        chord_wf(self.forward) && chord_wf(self.backward)
    }
}

impl View for ImageToggleKeybind {
    type V = ImageToggleKeybindView;

    open spec fn view(&self) -> ImageToggleKeybindView {
        ImageToggleKeybindView {
            forward: chord_view(self.forward),
            backward: chord_view(self.backward),
        }
    }
}

impl Clone for ImageToggleKeybind {
    fn clone(&self) -> (r: ImageToggleKeybind)
        ensures
            r@ == self@,
    {
        ImageToggleKeybind {
            forward: clone_chord(&self.forward),
            backward: clone_chord(&self.backward),
        }
    }
}

// ---------------------------------------------------------------------------
// Components
// ---------------------------------------------------------------------------

/// The views of a sequence of strings.
pub open spec fn texts(v: Seq<String>) -> Seq<Seq<char>> {
    Seq::new(v.len(), |i: int| v[i]@)
}

fn clone_strings(v: &Vec<String>) -> (r: Vec<String>)
    ensures
        texts(r@) == texts(v@),
{
    let mut r: Vec<String> = Vec::new();
    let mut i: usize = 0;
    while i < v.len()
        invariant
            i <= v.len(),
            r.len() == i,
            forall|k: int| 0 <= k < i ==> r@[k]@ == v@[k]@,
        decreases v.len() - i,
    {
        r.push(v[i].clone());
        i += 1;
    }
    assert(texts(r@) =~= texts(v@));
    r
}

/// What a component is, with what belongs to that kind alone.
#[derive(Debug, PartialEq, Eq)]
pub enum ComponentKind {
    Number { default: i32, keybind: Option<NumberKeybind> },
    Timer { default_ms: i64, keybind: Option<TimerKeybind>, rounding: TimerRounding },
    Label { default: String, edit: bool },
    Image { source: String, width: i32, height: i32, opacity: Opacity },
    ImageToggle {
        sources: Vec<String>,
        width: i32,
        height: i32,
        opacity: Opacity,
        keybind: Option<ImageToggleKeybind>,
    },
}

/// A kind, with its texts as sequences of characters.
pub enum ComponentKindView {
    Number { default: i32, keybind: Option<NumberKeybindView> },
    Timer { default_ms: i64, keybind: Option<TimerKeybindView>, rounding: TimerRounding },
    Label { default: Seq<char>, edit: bool },
    Image { source: Seq<char>, width: i32, height: i32, opacity: Opacity },
    ImageToggle {
        sources: Seq<Seq<char>>,
        width: i32,
        height: i32,
        opacity: Opacity,
        keybind: Option<ImageToggleKeybindView>,
    },
}

/// A text of one line: no line feed and no carriage return.
pub open spec fn single_line(s: Seq<char>) -> bool {
    forall|i: int| 0 <= i < s.len() ==> #[trigger] s[i] != '\n' && s[i] != '\r'
}

impl ComponentKindView {
    /// What holds of each kind in a valid configuration: a timer's default is
    /// not negative, a label's default is one line, an image and a toggle
    /// have a positive size and an opacity within the unit range, a toggle
    /// at least one source, and every chord names a key.
    pub open spec fn wf(self) -> bool {
        match self {
            ComponentKindView::Number { default, keybind } => keybind matches Some(k) ==> k.wf(),
            ComponentKindView::Timer { default_ms, keybind, rounding } => {
                &&& default_ms >= 0
                &&& keybind matches Some(k) ==> k.wf()
            },
            ComponentKindView::Label { default, edit } => single_line(default),
            ComponentKindView::Image { source, width, height, opacity } => {
                &&& width > 0
                &&& height > 0
                &&& opacity.in_unit_range()
            },
            ComponentKindView::ImageToggle { sources, width, height, opacity, keybind } => {
                &&& sources.len() > 0
                &&& width > 0
                &&& height > 0
                &&& opacity.in_unit_range()
                &&& keybind matches Some(k) ==> k.wf()
            },
        }
    }
}

impl View for ComponentKind {
    type V = ComponentKindView;

    open spec fn view(&self) -> ComponentKindView {
        match self {
            ComponentKind::Number { default, keybind } => ComponentKindView::Number {
                default: *default,
                keybind: match keybind {
                    Some(k) => Some(k@),
                    None => None,
                },
            },
            ComponentKind::Timer { default_ms, keybind, rounding } => ComponentKindView::Timer {
                default_ms: *default_ms,
                keybind: match keybind {
                    Some(k) => Some(k@),
                    None => None,
                },
                rounding: *rounding,
            },
            ComponentKind::Label { default, edit } => ComponentKindView::Label {
                default: default@,
                edit: *edit,
            },
            ComponentKind::Image { source, width, height, opacity } => ComponentKindView::Image {
                source: source@,
                width: *width,
                height: *height,
                opacity: *opacity,
            },
            ComponentKind::ImageToggle {
                sources,
                width,
                height,
                opacity,
                keybind,
            } => ComponentKindView::ImageToggle {
                sources: texts(sources@),
                width: *width,
                height: *height,
                opacity: *opacity,
                keybind: match keybind {
                    Some(k) => Some(k@),
                    None => None,
                },
            },
        }
    }
}

impl Clone for ComponentKind {
    fn clone(&self) -> (r: ComponentKind)
        ensures
            r@ == self@,
    {
        match self {
            ComponentKind::Number { default, keybind } => ComponentKind::Number {
                default: *default,
                keybind: match keybind {
                    Some(k) => Some(k.clone()),
                    None => None,
                },
            },
            ComponentKind::Timer { default_ms, keybind, rounding } => ComponentKind::Timer {
                default_ms: *default_ms,
                keybind: match keybind {
                    Some(k) => Some(k.clone()),
                    None => None,
                },
                rounding: *rounding,
            },
            ComponentKind::Label { default, edit } => ComponentKind::Label {
                default: default.clone(),
                edit: *edit,
            },
            ComponentKind::Image { source, width, height, opacity } => ComponentKind::Image {
                source: source.clone(),
                width: *width,
                height: *height,
                opacity: *opacity,
            },
            ComponentKind::ImageToggle {
                sources,
                width,
                height,
                opacity,
                keybind,
            } => ComponentKind::ImageToggle {
                sources: clone_strings(sources),
                width: *width,
                height: *height,
                opacity: *opacity,
                keybind: match keybind {
                    Some(k) => Some(k.clone()),
                    None => None,
                },
            },
        }
    }
}

/// One component of the overlay.
#[derive(Debug, PartialEq, Eq)]
pub struct ComponentConfig {
    pub id: String,
    pub position: Position,
    pub alignment: Option<ComponentAlignment>,
    pub font: Font,
    pub kind: ComponentKind,
}

/// A component, with its texts as sequences of characters.
pub struct ComponentConfigView {
    pub id: Seq<char>,
    pub position: Position,
    pub alignment: Option<ComponentAlignment>,
    pub font: FontView,
    pub kind: ComponentKindView,
}

impl View for ComponentConfig {
    type V = ComponentConfigView;

    open spec fn view(&self) -> ComponentConfigView {
        ComponentConfigView {
            id: self.id@,
            position: self.position,
            alignment: self.alignment,
            font: self.font@,
            kind: self.kind@,
        }
    }
}

impl Clone for ComponentConfig {
    fn clone(&self) -> (r: ComponentConfig)
        ensures
            r@ == self@,
    {
        ComponentConfig {
            id: self.id.clone(),
            position: self.position,
            alignment: self.alignment,
            font: self.font.clone(),
            kind: self.kind.clone(),
        }
    }
}

/// What holds for the whole overlay: the background colour, and the font
/// that components fall back on.
#[derive(Debug, PartialEq, Eq)]
pub struct GlobalSettings {
    pub background_color: String,
    pub font: Font,
}

/// The global settings, with their texts as sequences of characters.
pub struct GlobalSettingsView {
    pub background_color: Seq<char>,
    pub font: FontView,
}

impl View for GlobalSettings {
    type V = GlobalSettingsView;

    open spec fn view(&self) -> GlobalSettingsView {
        GlobalSettingsView { background_color: self.background_color@, font: self.font@ }
    }
}

impl Clone for GlobalSettings {
    fn clone(&self) -> (r: GlobalSettings)
        ensures
            r@ == self@,
    {
        GlobalSettings { background_color: self.background_color.clone(), font: self.font.clone() }
    }
}

/// The views of a sequence of components.
pub open spec fn components_view(v: Seq<ComponentConfig>) -> Seq<ComponentConfigView> {
    Seq::new(v.len(), |i: int| v[i]@)
}

fn clone_components(v: &Vec<ComponentConfig>) -> (r: Vec<ComponentConfig>)
    ensures
        components_view(r@) == components_view(v@),
{
    let mut r: Vec<ComponentConfig> = Vec::new();
    let mut i: usize = 0;
    while i < v.len()
        invariant
            i <= v.len(),
            r.len() == i,
            forall|k: int| 0 <= k < i ==> r@[k]@ == v@[k]@,
        decreases v.len() - i,
    {
        r.push(v[i].clone());
        i += 1;
    }
    assert(components_view(r@) =~= components_view(v@));
    r
}

/// A configuration: the global settings and the components, ordered by
/// identifier.
#[derive(Debug, PartialEq, Eq)]
pub struct ScoreboardConfig {
    pub global: GlobalSettings,
    pub components: Vec<ComponentConfig>,
}

/// A configuration, with its texts as sequences of characters.
pub struct ScoreboardConfigView {
    pub global: GlobalSettingsView,
    pub components: Seq<ComponentConfigView>,
}

impl View for ScoreboardConfig {
    type V = ScoreboardConfigView;

    open spec fn view(&self) -> ScoreboardConfigView {
        ScoreboardConfigView {
            global: self.global@,
            components: components_view(self.components@),
        }
    }
}

impl Clone for ScoreboardConfig {
    fn clone(&self) -> (r: ScoreboardConfig)
        ensures
            r@ == self@,
    {
        ScoreboardConfig {
            global: self.global.clone(),
            components: clone_components(&self.components),
        }
    }
}

// ---------------------------------------------------------------------------
// The rules of a schema
// ---------------------------------------------------------------------------

/// A colour is written `#RRGGBB`, white space around it aside: a hash
/// sign and six hexadecimal digits of either case.
pub open spec fn color_ok(color: Seq<char>) -> bool {
    let t = trimmed(color);
    &&& t.len() == 7
    &&& t[0] == '#'
    &&& forall|i: int| 1 <= i < 7 ==> is_hex_digit(#[trigger] t[i])
}

/// Whether a position lies on the canvas.
pub open spec fn in_canvas(p: Position) -> bool {
    0 <= p.x < CANVAS_WIDTH && 0 <= p.y < CANVAS_HEIGHT
}

impl FontView {
    /// A family that is not blank, a positive size, and a colour.
    pub open spec fn wf(self) -> bool {
        &&& trimmed(self.family).len() > 0
        &&& self.size > 0
        &&& color_ok(self.color)
    }
}

impl GlobalSettingsView {
    /// A valid fallback font and a valid background colour.
    pub open spec fn wf(self) -> bool {
        self.font.wf() && color_ok(self.background_color)
    }
}

impl ComponentConfigView {
    /// An identifier that is not blank, a position on the canvas, a valid font
    /// and a valid kind.
    pub open spec fn wf(self) -> bool {
        &&& trimmed(self.id).len() > 0
        &&& in_canvas(self.position)
        &&& self.font.wf()
        &&& self.kind.wf()
    }
}

/// Components stand in the strict order of their ids: no id occurs twice.
pub open spec fn sorted_by_id(components: Seq<ComponentConfigView>) -> bool {
    forall|i: int, j: int|
        0 <= i < j < components.len() ==> precedes(
            #[trigger] components[i].id,
            #[trigger] components[j].id,
        )
}

impl ScoreboardConfigView {
    /// What holds of every schema that the compiler hands out.
    pub open spec fn wf(self) -> bool {
        &&& self.global.wf()
        &&& sorted_by_id(self.components)
        &&& forall|i: int| 0 <= i < self.components.len() ==> (#[trigger] self.components[i]).wf()
    }
}

// ---------------------------------------------------------------------------
// Errors
// ---------------------------------------------------------------------------

/// The rule that a document breaks.
#[derive(Clone, Copy, Debug, PartialEq, Eq, Structural)]
pub enum Rule {
    /// The document is not a table at its root.
    RootNotTable,
    /// The global section is not a table, or one of its fields has the
    /// wrong shape.
    GlobalMalformed,
    /// A component is not a table, lacks `type` or `position`, or has a
    /// field of the wrong shape.
    ComponentMalformed,
    /// The id is blank.
    EmptyId,
    /// Two components share one id.
    DuplicateId,
    /// The position lies outside the canvas.
    PositionOutside,
    FontFamilyEmpty,
    FontSizeNotPositive,
    FontColorInvalid,
    BackgroundColorInvalid,
    /// A colour that is not written `#RRGGBB`.
    ColorInvalid,
    /// The image toggle lacks `sources`, or lists none.
    ImageSourcesMissing,
    /// `type` is neither a string nor a table.
    TypeMalformed,
    /// `type` is a table without a string under `name` or `kind`.
    TypeNameMissing,
    UnsupportedType,
    UnsupportedRounding,
    /// `edit` stands on a component that is no label.
    EditNotAllowed,
    DefaultNotInteger,
    DefaultNotTimerText,
    DefaultNotText,
    LabelNotSingleLine,
    /// A timer default without exactly three fields, or with minutes or
    /// seconds outside 0 to 59, or with negative hours.
    TimerDefaultShape,
    TimerHoursInvalid,
    TimerMinutesInvalid,
    TimerSecondsInvalid,
    /// A timer default whose milliseconds do not fit in 64 bits.
    TimerDefaultTooLarge,
    /// A key chord with a blank key.
    KeybindKeyEmpty,
    ImageSourceMissing,
    ImageSizeMissing,
    ImageSizeNotPositive,
    OpacityOutOfRange,
}

/// Why a text gives no configuration.
#[derive(Clone, Debug, PartialEq, Eq)]
pub enum ConfigError {
    /// The text is no well-formed document.
    Parse { message: String },
    /// The document breaks a rule; `id` names the component, or `global`.
    Schema { id: String, rule: Rule },
}

/// An error, with its texts as sequences of characters.
pub enum ConfigErrorView {
    Parse { message: Seq<char> },
    Schema { id: Seq<char>, rule: Rule },
}

impl View for ConfigError {
    type V = ConfigErrorView;

    open spec fn view(&self) -> ConfigErrorView {
        match self {
            ConfigError::Parse { message } => ConfigErrorView::Parse { message: message@ },
            ConfigError::Schema { id, rule } => ConfigErrorView::Schema { id: id@, rule: *rule },
        }
    }
}

/// The error of a rule broken by the component `id`.
pub open spec fn broken(id: Seq<char>, rule: Rule) -> ConfigErrorView {
    ConfigErrorView::Schema { id, rule }
}

/// The error of a rule broken by the component `id`.
pub fn schema_error(id: &str, rule: Rule) -> (e: ConfigError)
    ensures
        e@ == broken(id@, rule),
{
    ConfigError::Schema { id: id.to_owned(), rule }
}

} // verus!
