//! Colours and the escape codes that carry them.

use crate::string::decimal_text;
use vstd::prelude::*;

verus! {

/// A foreground colour of the checklist.
#[derive(Debug, Clone, Copy, PartialEq, Eq, Structural)]
pub enum Color {
    Blue,
    White,
    Rgb { r: u8, g: u8, b: u8 },
}

/// The escape code that sets the foreground colour.
pub open spec fn fg_code(color: Color) -> Seq<char> {
    match color {
        Color::Blue => "\x1b[38;5;12m"@,
        Color::White => "\x1b[38;5;15m"@,
        Color::Rgb { r, g, b } => "\x1b[38;2;"@ + decimal_text(r as nat) + seq![';']
            + decimal_text(g as nat) + seq![';'] + decimal_text(b as nat) + seq!['m'],
    }
}

/// A text with something before and something after it.
pub open spec fn wrapped(before: Seq<char>, text: Seq<char>, after: Seq<char>) -> Seq<char> {
    before + text + after
}

/// Whether `styled` is `text` painted in `color`: the text itself, before it
/// the code that sets the colour or nothing, after it the code that ends all
/// colouring or nothing.
pub open spec fn painted_as(styled: Seq<char>, text: Seq<char>, color: Color) -> bool {
    exists|before: Seq<char>, after: Seq<char>|
        {
            &&& styled == #[trigger] wrapped(before, text, after)
            &&& (before == Seq::<char>::empty() || before == fg_code(color))
            &&& (after == Seq::<char>::empty() || after == reset_code())
        }
}

/// Calls `crossterm::style(text).with(color).to_string()`, which formats the
/// text as it is to appear in the given foreground colour. crossterm writes
/// the text itself, unchanged. Where it talks to the console in escape codes
/// it writes the colour's code before the text and the reset code after it;
/// on a console that takes no escape codes it sets the colour by other means
/// and writes neither. Which of the two holds is not claimed.
#[verifier::external_body]
pub(crate) fn paint(text: &str, color: Color) -> (styled: String)
    ensures
        painted_as(styled@, text@, color),
{
    let foreground = match color {
        Color::Blue => crossterm::Color::Blue,
        Color::White => crossterm::Color::White,
        Color::Rgb { r, g, b } => crossterm::Color::Rgb { r, g, b },
    };
    crossterm::style(text).with(foreground).to_string()
}

/// The escape code that ends all colouring.
pub open spec fn reset_code() -> Seq<char> {
    seq!['\x1b', '[', '0', 'm']
}

/// The escape code that ends all colouring, to close a styled line with.
pub fn reset_display() -> (code: String)
    ensures
        code@ == reset_code(),
{
    proof {
        reveal_strlit("\x1b[0m");
    }
    let code = "\x1b[0m".to_owned();
    assert(code@ =~= reset_code());
    code
}

} // verus!
