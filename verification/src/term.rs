//! Text for the terminal: styles with their escape codes, and the sequences
//! that move the cursor and clear the screen.
use vstd::prelude::*;
use vstd::string::*;
use ansi_term::{Colour, Style};
use crate::text::decimal;

verus! {

/// `ansi_term::Colour`: the eight colours, a colour of the palette of 256
/// by its number, or a colour by its red, green and blue.
#[verifier::external_type_specification]
pub struct ExColour(Colour);

/// `ansi_term::Style`: a foreground and a background colour, each optional,
/// and eight properties.
#[verifier::external_type_specification]
pub struct ExStyle(Style);

/// The style with no colour and no property set.
pub open spec fn plain() -> Style {
    Style {
        foreground: None,
        background: None,
        is_bold: false,
        is_dimmed: false,
        is_italic: false,
        is_underline: false,
        is_blink: false,
        is_reverse: false,
        is_hidden: false,
        is_strikethrough: false,
    }
}

/// `ansi_term::Style::new` returns the style with nothing set.
pub assume_specification[ Style::new ]() -> (r: Style)
    ensures
        r == plain(),
;

/// `ansi_term::Style::bold` returns the style with the bold property set.
pub assume_specification[ Style::bold ](style: &Style) -> (r: Style)
    ensures
        r == (Style { is_bold: true, ..*style }),
;

/// `ansi_term::Style::dimmed` returns the style with the dimmed property set.
pub assume_specification[ Style::dimmed ](style: &Style) -> (r: Style)
    ensures
        r == (Style { is_dimmed: true, ..*style }),
;

/// `ansi_term::Style::underline` returns the style with the underline
/// property set.
pub assume_specification[ Style::underline ](style: &Style) -> (r: Style)
    ensures
        r == (Style { is_underline: true, ..*style }),
;

/// `ansi_term::Colour::normal` returns the style with this foreground colour
/// and nothing else set.
pub assume_specification[ Colour::normal ](colour: Colour) -> (r: Style)
    ensures
        r == (Style { foreground: Some(colour), ..plain() }),
;

/// `ansi_term::Colour::bold` returns the bold style with this foreground
/// colour.
pub assume_specification[ Colour::bold ](colour: Colour) -> (r: Style)
    ensures
        r == (Style { foreground: Some(colour), is_bold: true, ..plain() }),
;

/// The code that selects `colour` for the text.
pub open spec fn foreground_code(colour: Colour) -> Seq<char> {
    match colour {
        Colour::Black => "30"@,
        Colour::Red => "31"@,
        Colour::Green => "32"@,
        Colour::Yellow => "33"@,
        Colour::Blue => "34"@,
        Colour::Purple => "35"@,
        Colour::Cyan => "36"@,
        Colour::White => "37"@,
        Colour::Fixed(n) => "38;5;"@ + decimal(n as nat),
        Colour::RGB(r, g, b) => "38;2;"@ + decimal(r as nat) + ";"@ + decimal(g as nat) + ";"@
            + decimal(b as nat),
    }
}

/// The code that selects `colour` for the background.
pub open spec fn background_code(colour: Colour) -> Seq<char> {
    match colour {
        Colour::Black => "40"@,
        Colour::Red => "41"@,
        Colour::Green => "42"@,
        Colour::Yellow => "43"@,
        Colour::Blue => "44"@,
        Colour::Purple => "45"@,
        Colour::Cyan => "46"@,
        Colour::White => "47"@,
        Colour::Fixed(n) => "48;5;"@ + decimal(n as nat),
        Colour::RGB(r, g, b) => "48;2;"@ + decimal(r as nat) + ";"@ + decimal(g as nat) + ";"@
            + decimal(b as nat),
    }
}

/// `code` alone where `set` holds, else nothing.
pub open spec fn code_if(set: bool, code: Seq<char>) -> Seq<Seq<char>> {
    if set {
        seq![code]
    } else {
        Seq::empty()
    }
}

/// The codes of a style in the order in which they are written: the
/// properties, the background, the foreground.
pub open spec fn codes(style: Style) -> Seq<Seq<char>> {
    code_if(style.is_bold, "1"@) + code_if(style.is_dimmed, "2"@) + code_if(style.is_italic, "3"@)
        + code_if(style.is_underline, "4"@) + code_if(style.is_blink, "5"@) + code_if(
        style.is_reverse,
        "7"@,
    ) + code_if(style.is_hidden, "8"@) + code_if(style.is_strikethrough, "9"@) + (match style.background {
        Some(colour) => seq![background_code(colour)],
        None => Seq::empty(),
    }) + (match style.foreground {
        Some(colour) => seq![foreground_code(colour)],
        None => Seq::empty(),
    })
}

/// The codes, separated by semicolons.
pub open spec fn joined(codes: Seq<Seq<char>>) -> Seq<char>
    decreases codes.len(),
{
    if codes.len() == 0 {
        Seq::empty()
    } else if codes.len() == 1 {
        codes[0]
    } else {
        joined(codes.drop_last()) + ";"@ + codes.last()
    }
}

/// `text` as it is written in `style`: between the escape sequence that sets
/// the style and the one that resets it, or bare where the style is plain.
pub open spec fn painted(style: Style, text: Seq<char>) -> Seq<char> {
    if style == plain() {
        text
    } else {
        "\x1B["@ + joined(codes(style)) + "m"@ + text + "\x1B[0m"@
    }
}

/// `ansi_term::Style::paint`, displayed: the text between the escape codes
/// of the style, as `ansi_term` writes them.
#[verifier::external_body]
pub(crate) fn paint(style: Style, text: &str) -> (r: String)
    ensures
        r@ == painted(style, text@),
{
    style.paint(text).to_string()
}

/// The sequence that moves the cursor to column `x` of row `y`, both counted
/// from one.
pub open spec fn goto_sequence(x: u16, y: u16) -> Seq<char> {
    "\x1B["@ + decimal(y as nat) + ";"@ + decimal(x as nat) + "H"@
}

/// `termion::cursor::Goto`, displayed. It is refused for the position
/// (0, 0), which is outside a screen counted from one.
#[verifier::external_body]
pub(crate) fn goto(x: u16, y: u16) -> (r: String)
    requires
        x != 0 || y != 0,
    ensures
        r@ == goto_sequence(x, y),
{
    termion::cursor::Goto(x, y).to_string()
}

/// `termion::clear::All`, displayed: the sequence that clears the screen.
#[verifier::external_body]
pub(crate) fn clear_all() -> (r: String)
    ensures
        r@ == "\x1B[2J"@,
{
    termion::clear::All.to_string()
}

/// `termion::cursor::Hide`, displayed: the sequence that hides the cursor.
#[verifier::external_body]
pub(crate) fn hide_cursor() -> (r: String)
    ensures
        r@ == "\x1B[?25l"@,
{
    termion::cursor::Hide.to_string()
}

/// `termion::cursor::Show`, displayed: the sequence that shows the cursor.
#[verifier::external_body]
pub(crate) fn show_cursor() -> (r: String)
    ensures
        r@ == "\x1B[?25h"@,
{
    termion::cursor::Show.to_string()
}

} // verus!
