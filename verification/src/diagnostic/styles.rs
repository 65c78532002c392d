//! Styling for diagnostic output.
//!
//! Styles always render ANSI escape codes. The stream that the output goes
//! through removes them where they are not wanted.

use crate::text::decimal;
use anstyle::{AnsiColor, Color, Effects, RgbColor, Style};
use vstd::prelude::*;

verus! {

/// The text weights in use.
#[derive(Debug, Clone, Copy, PartialEq, Eq, Structural)]
pub enum Weight {
    Normal,
    Bold,
}

/// The text colours in use.
#[derive(Debug, Clone, Copy, PartialEq, Eq, Structural)]
pub enum Hue {
    Red,
    Yellow,
    Green,
    Cyan,
    Rgb(u8, u8, u8),
}

/// The escape code of a weight.
pub open spec fn weight_code(weight: Weight) -> Seq<char> {
    match weight {
        Weight::Normal => seq![],
        Weight::Bold => "\u{1b}[1m"@,
    }
}

/// The escape code of a text colour.
pub open spec fn hue_code(hue: Option<Hue>) -> Seq<char> {
    match hue {
        None => seq![],
        Some(Hue::Red) => "\u{1b}[31m"@,
        Some(Hue::Green) => "\u{1b}[32m"@,
        Some(Hue::Yellow) => "\u{1b}[33m"@,
        Some(Hue::Cyan) => "\u{1b}[36m"@,
        Some(Hue::Rgb(r, g, b)) => "\u{1b}[38;2;"@ + decimal(r as nat) + ";"@ + decimal(g as nat)
            + ";"@ + decimal(b as nat) + "m"@,
    }
}

/// A text in a style: the codes of the style, the text, and the reset code
/// where there is something to reset.
pub open spec fn painted(weight: Weight, hue: Option<Hue>, text: Seq<char>) -> Seq<char> {
    weight_code(weight) + hue_code(hue) + text + (if weight == Weight::Normal && hue is None {
        seq![]
    } else {
        "\u{1b}[0m"@
    })
}

/// `anstyle::Style` as it is displayed around a text: plain display gives the
/// codes of its effects and then of its colour, alternate display the reset
/// code, or nothing for the plain style.
#[verifier::external_body]
pub(crate) fn paint(weight: Weight, hue: Option<Hue>, text: &str) -> (r: String)
    ensures
        r@ == painted(weight, hue, text@),
{
    let effects = match weight { Weight::Normal => Effects::new(), Weight::Bold => Effects::BOLD };
    let color: Option<Color> = match hue {
        None => None,
        Some(Hue::Red) => Some(AnsiColor::Red.into()),
        Some(Hue::Green) => Some(AnsiColor::Green.into()),
        Some(Hue::Yellow) => Some(AnsiColor::Yellow.into()),
        Some(Hue::Cyan) => Some(AnsiColor::Cyan.into()),
        Some(Hue::Rgb(r, g, b)) => Some(RgbColor(r, g, b).into()),
    };
    let style = Style::new().fg_color(color).effects(effects);
    format!("{style}{text}{style:#}")
}

/// Configuration for color output.
///
/// Removing codes is left to the output stream, so `Auto` is the only mode.
#[derive(Debug, Clone, Copy, PartialEq, Eq, Structural)]
pub enum ColorConfig {
    Auto,
}

/// The colour of secondary labels and line numbers.
pub open spec fn accent() -> Hue {
    Hue::Rgb(0x60, 0xa5, 0xfa)
}

/// Renders text wrapped in ANSI style codes for diagnostic output.
#[derive(Default)]
pub struct Styles;

impl Styles {
    pub fn new(_config: ColorConfig) -> (r: Self) {
        Self
    }

    pub fn error(&self, text: &str) -> (r: String)
        ensures
            r@ == painted(Weight::Bold, Some(Hue::Red), text@),
    {
        paint(Weight::Bold, Some(Hue::Red), text)
    }

    pub fn warning(&self, text: &str) -> (r: String)
        ensures
            r@ == painted(Weight::Bold, Some(Hue::Yellow), text@),
    {
        paint(Weight::Bold, Some(Hue::Yellow), text)
    }

    pub fn note(&self, text: &str) -> (r: String)
        ensures
            r@ == painted(Weight::Bold, Some(Hue::Cyan), text@),
    {
        paint(Weight::Bold, Some(Hue::Cyan), text)
    }

    pub fn help(&self, text: &str) -> (r: String)
        ensures
            r@ == painted(Weight::Bold, Some(Hue::Cyan), text@),
    {
        paint(Weight::Bold, Some(Hue::Cyan), text)
    }

    pub fn bold(&self, text: &str) -> (r: String)
        ensures
            r@ == painted(Weight::Bold, None, text@),
    {
        paint(Weight::Bold, None, text)
    }

    pub fn location(&self, text: &str) -> (r: String)
        ensures
            r@ == painted(Weight::Normal, Some(Hue::Cyan), text@),
    {
        paint(Weight::Normal, Some(Hue::Cyan), text)
    }

    pub fn primary_label(&self, text: &str) -> (r: String)
        ensures
            r@ == painted(Weight::Normal, Some(Hue::Red), text@),
    {
        paint(Weight::Normal, Some(Hue::Red), text)
    }

    pub fn secondary_label(&self, text: &str) -> (r: String)
        ensures
            r@ == painted(Weight::Normal, Some(accent()), text@),
    {
        paint(Weight::Normal, Some(Hue::Rgb(0x60, 0xa5, 0xfa)), text)
    }

    pub fn line_number(&self, text: &str) -> (r: String)
        ensures
            r@ == painted(Weight::Bold, Some(accent()), text@),
    {
        paint(Weight::Bold, Some(Hue::Rgb(0x60, 0xa5, 0xfa)), text)
    }
}

/// Styling a text puts codes around it and leaves it as it is.
pub proof fn styling_keeps_the_text(weight: Weight, hue: Option<Hue>, text: Seq<char>)
    ensures
        ({
            let front = weight_code(weight) + hue_code(hue);
            painted(weight, hue, text).subrange(
                front.len() as int,
                (front.len() + text.len()) as int,
            ) == text
        }),
{
    let front = weight_code(weight) + hue_code(hue);
    assert(painted(weight, hue, text).subrange(
        front.len() as int,
        (front.len() + text.len()) as int,
    ) =~= text);
}

} // verus!
