//! Terminal styles: texts wrapped in ANSI escape sequences.

use owo_colors::OwoColorize;
use vstd::prelude::*;

verus! {

/// `text` in green.
pub open spec fn green(text: Seq<char>) -> Seq<char> {
    "\x1b[32m"@ + text + "\x1b[39m"@
}

/// `text` in yellow.
pub open spec fn yellow(text: Seq<char>) -> Seq<char> {
    "\x1b[33m"@ + text + "\x1b[39m"@
}

/// `text` in blue.
pub open spec fn blue(text: Seq<char>) -> Seq<char> {
    "\x1b[34m"@ + text + "\x1b[39m"@
}

/// `text` in magenta.
pub open spec fn magenta(text: Seq<char>) -> Seq<char> {
    "\x1b[35m"@ + text + "\x1b[39m"@
}

/// `text` in cyan.
pub open spec fn cyan(text: Seq<char>) -> Seq<char> {
    "\x1b[36m"@ + text + "\x1b[39m"@
}

/// `text` in bold.
pub open spec fn bold(text: Seq<char>) -> Seq<char> {
    "\x1b[1m"@ + text + "\x1b[0m"@
}

/// `text` in italics.
pub open spec fn italic(text: Seq<char>) -> Seq<char> {
    "\x1b[3m"@ + text + "\x1b[0m"@
}

/// `owo_colors::OwoColorize::green`, formatted: the text between the escape sequence that sets
/// the foreground colour to green and the one that resets the foreground colour.
#[verifier::external_body]
pub(crate) fn paint_green(text: &str) -> (out: String)
    ensures
        out@ == green(text@),
{
    format!("{}", text.green())
}

/// `owo_colors::OwoColorize::yellow`, formatted: the text between the escape sequence that
/// sets the foreground colour to yellow and the one that resets the foreground colour.
#[verifier::external_body]
pub(crate) fn paint_yellow(text: &str) -> (out: String)
    ensures
        out@ == yellow(text@),
{
    format!("{}", text.yellow())
}

/// `owo_colors::OwoColorize::blue`, formatted: the text between the escape sequence that sets
/// the foreground colour to blue and the one that resets the foreground colour.
#[verifier::external_body]
pub(crate) fn paint_blue(text: &str) -> (out: String)
    ensures
        out@ == blue(text@),
{
    format!("{}", text.blue())
}

/// `owo_colors::OwoColorize::magenta`, formatted: the text between the escape sequence that
/// sets the foreground colour to magenta and the one that resets the foreground colour.
#[verifier::external_body]
pub(crate) fn paint_magenta(text: &str) -> (out: String)
    ensures
        out@ == magenta(text@),
{
    format!("{}", text.magenta())
}

/// `owo_colors::OwoColorize::cyan`, formatted: the text between the escape sequence that sets
/// the foreground colour to cyan and the one that resets the foreground colour.
#[verifier::external_body]
pub(crate) fn paint_cyan(text: &str) -> (out: String)
    ensures
        out@ == cyan(text@),
{
    format!("{}", text.cyan())
}

/// `owo_colors::OwoColorize::bold`, formatted: the text between the escape sequence that
/// switches bold on and the one that resets all styles.
#[verifier::external_body]
pub(crate) fn paint_bold(text: &str) -> (out: String)
    ensures
        out@ == bold(text@),
{
    format!("{}", text.bold())
}

/// `owo_colors::OwoColorize::italic`, formatted: the text between the escape sequence that
/// switches italics on and the one that resets all styles.
#[verifier::external_body]
pub(crate) fn paint_italic(text: &str) -> (out: String)
    ensures
        out@ == italic(text@),
{
    format!("{}", text.italic())
}

} // verus!
