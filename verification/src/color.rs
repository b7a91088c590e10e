//! The colour in which a task is shown: eight values, their names, and the
//! escape sequences that paint a line of text.

use vstd::prelude::*;
use vstd::string::StringExecFns;
use crate::text::str_eq;

verus! {

/// The colour of a task. It changes nothing but how the task is displayed.
#[derive(Debug, Copy, Clone, PartialEq, Eq, Structural)]
pub enum TodoColor {
    Black,
    Red,
    Green,
    Yellow,
    Blue,
    Purple,
    Cyan,
    White,
}

/// The name under which a colour is stored.
pub open spec fn color_name(color: TodoColor) -> Seq<char> {
    match color {
        TodoColor::Black => "Black"@,
        TodoColor::Red => "Red"@,
        TodoColor::Green => "Green"@,
        TodoColor::Yellow => "Yellow"@,
        TodoColor::Blue => "Blue"@,
        TodoColor::Purple => "Purple"@,
        TodoColor::Cyan => "Cyan"@,
        TodoColor::White => "White"@,
    }
}

/// The colour that `name` names; white where it names none.
pub open spec fn color_named(name: Seq<char>) -> TodoColor {
    if name == "Black"@ {
        TodoColor::Black
    }     else if name == "Red"@ {
        TodoColor::Red
    }     else if name == "Green"@ {
        TodoColor::Green
    }     else if name == "Yellow"@ {
        TodoColor::Yellow
    }     else if name == "Blue"@ {
        TodoColor::Blue
    }     else if name == "Purple"@ {
        TodoColor::Purple
    }     else if name == "Cyan"@ {
        TodoColor::Cyan
    } else {
        TodoColor::White
    }
}

/// Every colour is found again under its name, and no name is empty or
/// contains a tab, a line break or a carriage return.
pub proof fn lemma_color_names(color: TodoColor)
    ensures
        color_named(color_name(color)) == color,
        crate::text::free_of(color_name(color), '\t'),
        crate::text::free_of(color_name(color), '\n'),
        crate::text::free_of(color_name(color), '\r'),
        color_name(color).len() > 0,
{
    reveal_strlit("Black");
    reveal_strlit("Red");
    reveal_strlit("Green");
    reveal_strlit("Yellow");
    reveal_strlit("Blue");
    reveal_strlit("Purple");
    reveal_strlit("Cyan");
    reveal_strlit("White");
    assert("Black"@.len() == 5);
    assert("Black"@[0] == 'B');
    assert("Red"@.len() == 3);
    assert("Red"@[0] == 'R');
    assert("Green"@.len() == 5);
    assert("Green"@[0] == 'G');
    assert("Yellow"@.len() == 6);
    assert("Yellow"@[0] == 'Y');
    assert("Blue"@.len() == 4);
    assert("Blue"@[0] == 'B');
    assert("Purple"@.len() == 6);
    assert("Purple"@[0] == 'P');
    assert("Cyan"@.len() == 4);
    assert("Cyan"@[0] == 'C');
    assert("White"@.len() == 5);
    assert("White"@[0] == 'W');
}

/// The name of a colour.
pub fn color_to_string(c: TodoColor) -> (s: String)
    ensures
        s@ == color_name(c),
{
    match c {
        TodoColor::Black => String::from_str("Black"),
        TodoColor::Red => String::from_str("Red"),
        TodoColor::Green => String::from_str("Green"),
        TodoColor::Yellow => String::from_str("Yellow"),
        TodoColor::Blue => String::from_str("Blue"),
        TodoColor::Purple => String::from_str("Purple"),
        TodoColor::Cyan => String::from_str("Cyan"),
        TodoColor::White => String::from_str("White"),
    }
}

/// The colour that `s` names. A text that names no colour gives white and is
/// no error.
pub fn string_to_color_or_white(s: &str) -> (c: TodoColor)
    ensures
        c == color_named(s@),
{
    if str_eq(s, "Black") {
        TodoColor::Black
    }     else if str_eq(s, "Red") {
        TodoColor::Red
    }     else if str_eq(s, "Green") {
        TodoColor::Green
    }     else if str_eq(s, "Yellow") {
        TodoColor::Yellow
    }     else if str_eq(s, "Blue") {
        TodoColor::Blue
    }     else if str_eq(s, "Purple") {
        TodoColor::Purple
    }     else if str_eq(s, "Cyan") {
        TodoColor::Cyan
    } else {
        TodoColor::White
    }
}

/// The number by which a terminal knows a foreground colour.
pub open spec fn color_code(color: TodoColor) -> Seq<char> {
    match color {
        TodoColor::Black => "30"@,
        TodoColor::Red => "31"@,
        TodoColor::Green => "32"@,
        TodoColor::Yellow => "33"@,
        TodoColor::Blue => "34"@,
        TodoColor::Purple => "35"@,
        TodoColor::Cyan => "36"@,
        TodoColor::White => "37"@,
    }
}

/// `text` between the escape sequence that switches to `color` and the one
/// that resets the terminal.
pub open spec fn painted(color: TodoColor, text: Seq<char>) -> Seq<char> {
    "\x1B["@ + color_code(color) + "m"@ + text + "\x1B[0m"@
}

/// Paints `text` in `color`.
///
/// Trusted: `ansi_term::Colour::paint` followed by `to_string`. For a plain
/// foreground colour the crate writes `ESC [`, the colour's code (30 for
/// black up to 37 for white), `m`, the text unchanged, and the reset
/// sequence `ESC [ 0 m`.
#[verifier::external_body]
pub(crate) fn paint(color: TodoColor, text: &str) -> (s: String)
    ensures
        s@ == painted(color, text@),
{
    let colour = match color {
        TodoColor::Black => ansi_term::Colour::Black,
        TodoColor::Red => ansi_term::Colour::Red,
        TodoColor::Green => ansi_term::Colour::Green,
        TodoColor::Yellow => ansi_term::Colour::Yellow,
        TodoColor::Blue => ansi_term::Colour::Blue,
        TodoColor::Purple => ansi_term::Colour::Purple,
        TodoColor::Cyan => ansi_term::Colour::Cyan,
        TodoColor::White => ansi_term::Colour::White,
    };
    colour.paint(text).to_string()
}

} // verus!
