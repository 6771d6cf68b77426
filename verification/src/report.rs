//! Errors as sentences for a person to read.

use crate::config::{ConfigError, ConfigErrorView, Rule};
use crate::state::RuntimeError;
use crate::text::{push_str, text_of};
use vstd::prelude::*;

verus! {

/// What a rule asks for, in words.
pub open spec fn rule_text(rule: Rule) -> Seq<char> {
    match rule {
        Rule::RootNotTable => "config root must be a table"@,
        Rule::GlobalMalformed => "section is not of the expected shape"@,
        Rule::ComponentMalformed => "is not of the expected shape"@,
        Rule::EmptyId => "component id cannot be empty"@,
        Rule::DuplicateId => "id is used more than once"@,
        Rule::PositionOutside => "position is outside 640x480"@,
        Rule::FontFamilyEmpty => "font.family cannot be empty"@,
        Rule::FontSizeNotPositive => "font.size must be > 0"@,
        Rule::FontColorInvalid => "font.color must be #RRGGBB"@,
        Rule::BackgroundColorInvalid => "background_color must be #RRGGBB"@,
        Rule::ColorInvalid => "must be #RRGGBB"@,
        Rule::ImageSourcesMissing => "image-toggle requires at least one source"@,
        Rule::TypeMalformed => "type must be a string or table"@,
        Rule::TypeNameMissing => "type table requires 'name' or 'kind' as a string"@,
        Rule::UnsupportedType => "has an unsupported type"@,
        Rule::UnsupportedRounding =>
            "has an unsupported timer rounding (expected 'standard' or 'basketball')"@,
        Rule::EditNotAllowed => "edit is only supported for label components"@,
        Rule::DefaultNotInteger => "default must be an integer"@,
        Rule::DefaultNotTimerText => "default must be a timer string HH:MM:SS"@,
        Rule::DefaultNotText => "default must be a string"@,
        Rule::LabelNotSingleLine => "default must be a single-line string"@,
        Rule::TimerDefaultShape => "timer default must be HH:MM:SS"@,
        Rule::TimerHoursInvalid => "timer default has invalid hours"@,
        Rule::TimerMinutesInvalid => "timer default has invalid minutes"@,
        Rule::TimerSecondsInvalid => "timer default has invalid seconds"@,
        Rule::TimerDefaultTooLarge => "timer default is too large"@,
        Rule::KeybindKeyEmpty => "keybind key cannot be empty"@,
        Rule::ImageSourceMissing => "image requires source"@,
        Rule::ImageSizeMissing => "image requires size.width and size.height"@,
        Rule::ImageSizeNotPositive => "image size must be > 0"@,
        Rule::OpacityOutOfRange => "opacity must be between 0.0 and 1.0"@,
    }
}

/// What a rule asks for, in words.
pub fn describe_rule(rule: Rule) -> (r: &'static str)
    ensures
        r@ == rule_text(rule),
{
    match rule {
        Rule::RootNotTable => "config root must be a table",
        Rule::GlobalMalformed => "section is not of the expected shape",
        Rule::ComponentMalformed => "is not of the expected shape",
        Rule::EmptyId => "component id cannot be empty",
        Rule::DuplicateId => "id is used more than once",
        Rule::PositionOutside => "position is outside 640x480",
        Rule::FontFamilyEmpty => "font.family cannot be empty",
        Rule::FontSizeNotPositive => "font.size must be > 0",
        Rule::FontColorInvalid => "font.color must be #RRGGBB",
        Rule::BackgroundColorInvalid => "background_color must be #RRGGBB",
        Rule::ColorInvalid => "must be #RRGGBB",
        Rule::ImageSourcesMissing => "image-toggle requires at least one source",
        Rule::TypeMalformed => "type must be a string or table",
        Rule::TypeNameMissing => "type table requires 'name' or 'kind' as a string",
        Rule::UnsupportedType => "has an unsupported type",
        Rule::UnsupportedRounding =>
            "has an unsupported timer rounding (expected 'standard' or 'basketball')",
        Rule::EditNotAllowed => "edit is only supported for label components",
        Rule::DefaultNotInteger => "default must be an integer",
        Rule::DefaultNotTimerText => "default must be a timer string HH:MM:SS",
        Rule::DefaultNotText => "default must be a string",
        Rule::LabelNotSingleLine => "default must be a single-line string",
        Rule::TimerDefaultShape => "timer default must be HH:MM:SS",
        Rule::TimerHoursInvalid => "timer default has invalid hours",
        Rule::TimerMinutesInvalid => "timer default has invalid minutes",
        Rule::TimerSecondsInvalid => "timer default has invalid seconds",
        Rule::TimerDefaultTooLarge => "timer default is too large",
        Rule::KeybindKeyEmpty => "keybind key cannot be empty",
        Rule::ImageSourceMissing => "image requires source",
        Rule::ImageSizeMissing => "image requires size.width and size.height",
        Rule::ImageSizeNotPositive => "image size must be > 0",
        Rule::OpacityOutOfRange => "opacity must be between 0.0 and 1.0",
    }
}

impl ConfigErrorView {
    /// The error as a sentence: a parse error with the parser's message, a
    /// broken rule with the id of the component at fault in quotes.
    pub open spec fn message(self) -> Seq<char> {
        match self {
            ConfigErrorView::Parse { message } => "TOML parse error: "@ + message,
            ConfigErrorView::Schema { id, rule } => "'"@ + id + "' "@ + rule_text(rule),
        }
    }
}

impl ConfigError {
    /// The error as a sentence.
    pub fn message(&self) -> (r: String)
        ensures
            r@ == self@.message(),
    {
        let mut out: Vec<char> = Vec::new();
        match self {
            ConfigError::Parse { message } => {
                push_str(&mut out, "TOML parse error: ");
                push_str(&mut out, message.as_str());
            },
            ConfigError::Schema { id, rule } => {
                push_str(&mut out, "'");
                push_str(&mut out, id.as_str());
                push_str(&mut out, "' ");
                push_str(&mut out, describe_rule(*rule));
            },
        }
        assert(out@ =~= self@.message());
        text_of(&out)
    }
}

/// Why the engine turns a request down, in words.
pub open spec fn runtime_error_text(error: RuntimeError) -> Seq<char> {
    match error {
        RuntimeError::NotSingleLine => "Label text must be a single-line string"@,
        RuntimeError::NoConfig => "No config loaded"@,
        RuntimeError::UnknownComponent => "Unknown component"@,
        RuntimeError::NotALabel => "Component is not a label"@,
        RuntimeError::NotEditable => "Component is not editable"@,
    }
}

/// Why the engine turns a request down, in words.
pub fn describe_runtime_error(error: RuntimeError) -> (r: &'static str)
    ensures
        r@ == runtime_error_text(error),
{
    match error {
        RuntimeError::NotSingleLine => "Label text must be a single-line string",
        RuntimeError::NoConfig => "No config loaded",
        RuntimeError::UnknownComponent => "Unknown component",
        RuntimeError::NotALabel => "Component is not a label",
        RuntimeError::NotEditable => "Component is not editable",
    }
}

} // verus!
