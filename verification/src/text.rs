//! Building text: what the standard library and the `colored` crate do for
//! the printed forms of squares, plies and boards.

use vstd::prelude::*;
use colored::Colorize;

verus! {

/// `String::push`: appends the given character to the end of the string.
pub assume_specification[ String::push ](s: &mut String, c: char)
    ensures
        final(s)@ == old(s)@.push(c),
;

/// The escape sequence that switches to bold green.
pub open spec fn bold_green_on() -> Seq<char> {
    seq!['\u{1b}', '[', '1', ';', '3', '2', 'm']
}

/// The escape sequence that switches all styles off.
pub open spec fn styles_off() -> Seq<char> {
    seq!['\u{1b}', '[', '0', 'm']
}

/// The text between the escape sequences for bold green and for no style.
pub open spec fn in_bold_green(text: Seq<char>) -> Seq<char> {
    bold_green_on() + text + styles_off()
}

/// `Colorize::bold` and `Colorize::green` of the `colored` crate, and the
/// `to_string` of the `ColoredString` they give. Whether colors are used
/// depends on the environment and on the crate's override switch: the result
/// is the text itself where they are not, and the text between the escape
/// sequences for bold green and for no style where they are. A text that
/// holds an escape character is left out here, since the crate then repeats
/// the style inside the text.
#[verifier::external_body]
pub(crate) fn highlight(text: &str) -> (r: String)
    requires
        !text@.contains('\u{1b}'),
    ensures
        r@ == text@ || r@ == in_bold_green(text@),
{
    text.bold().green().to_string()
}

} // verus!
