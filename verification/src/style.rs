//! Text styles for the terminal.
//!
//! Styling is done by `owo_colors`. A styled text is the text between two
//! escape sequences: one that switches the style on and one that resets
//! the terminal.

use owo_colors::OwoColorize;
use vstd::prelude::*;

verus! {

/// Code of the escape sequence for bold text.
pub const BOLD: char = '1';

/// Code of the escape sequence for dimmed text.
pub const DIMMED: char = '2';

/// Code of the escape sequence for italic text.
pub const ITALIC: char = '3';

/// Code of the escape sequence for underlined text.
pub const UNDERLINE: char = '4';

/// `text` between the escape sequence that switches a style on and the one
/// that resets the terminal.
pub open spec fn styled(code: char, text: Seq<char>) -> Seq<char> {
    seq!['\u{1b}', '[', code, 'm'] + text + seq!['\u{1b}', '[', '0', 'm']
}

/// `OwoColorize::bold`, printed: `text` between `ESC[1m` and `ESC[0m`.
#[verifier::external_body]
pub(crate) fn bold(text: &str) -> (r: String)
    ensures
        r@ == styled(BOLD, text@),
{
    format!("{}", text.bold())
}

/// `OwoColorize::dimmed`, printed: `text` between `ESC[2m` and `ESC[0m`.
#[verifier::external_body]
pub(crate) fn dimmed(text: &str) -> (r: String)
    ensures
        r@ == styled(DIMMED, text@),
{
    format!("{}", text.dimmed())
}

/// `OwoColorize::italic`, printed: `text` between `ESC[3m` and `ESC[0m`.
#[verifier::external_body]
pub(crate) fn italic(text: &str) -> (r: String)
    ensures
        r@ == styled(ITALIC, text@),
{
    format!("{}", text.italic())
}

/// `OwoColorize::underline`, printed: `text` between `ESC[4m` and `ESC[0m`.
#[verifier::external_body]
pub(crate) fn underline(text: &str) -> (r: String)
    ensures
        r@ == styled(UNDERLINE, text@),
{
    format!("{}", text.underline())
}

} // verus!
