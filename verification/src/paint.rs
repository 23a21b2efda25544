//! Terminal colours for log lines, through the `colored` crate.
//!
//! `colored` decides once per process, from the environment (`CLICOLOR`,
//! `CLICOLOR_FORCE`, `NO_COLOR`) and from whether standard output is a
//! terminal, whether it colours at all. So each call below either hands the
//! text back as it was, or wraps it in the escape codes of its style; which
//! of the two is not stated.

use colored::Colorize;
use vstd::prelude::*;

verus! {

/// The escape code that ends any styling.
pub open spec fn reset_code() -> Seq<char> {
    seq!['\x1b', '[', '0', 'm']
}

/// `s` with `style` put back right after every reset code inside it, so
/// that text nested in a coloured piece keeps the outer colour.
pub open spec fn escape_resets(s: Seq<char>, style: Seq<char>) -> Seq<char>
    decreases s.len(),
{
    if s.len() < 4 {
        s
    } else if s.take(4) == reset_code() {
        reset_code() + style + escape_resets(s.skip(4), style)
    } else {
        seq![s[0]] + escape_resets(s.skip(1), style)
    }
}

/// `r` is `s` shown in the style whose escape code is `style`: either `s`
/// untouched (colours off), or the code, `s` with inner resets escaped, and
/// a reset.
pub open spec fn painted(r: Seq<char>, s: Seq<char>, style: Seq<char>) -> bool {
    r == s || r == style + escape_resets(s, style) + reset_code()
}

/// Bold yellow: `ESC[1;33m`.
pub open spec fn warn_code() -> Seq<char> {
    seq!['\x1b', '[', '1', ';', '3', '3', 'm']
}

/// Bold green: `ESC[1;32m`.
pub open spec fn info_code() -> Seq<char> {
    seq!['\x1b', '[', '1', ';', '3', '2', 'm']
}

/// Bold red: `ESC[1;31m`.
pub open spec fn error_code() -> Seq<char> {
    seq!['\x1b', '[', '1', ';', '3', '1', 'm']
}

/// Bold purple: `ESC[1;35m`.
pub open spec fn debug_code() -> Seq<char> {
    seq!['\x1b', '[', '1', ';', '3', '5', 'm']
}

/// Bright black: `ESC[90m`.
pub open spec fn dim_code() -> Seq<char> {
    seq!['\x1b', '[', '9', '0', 'm']
}

/// `s.yellow().bold()` shown as text: `s` in bold yellow, or `s` as it is
/// when `colored` does not colour.
#[verifier::external_body]
pub fn paint_warn(s: &str) -> (r: String)
    ensures
        painted(r@, s@, warn_code()),
{
    s.yellow().bold().to_string()
}

/// `s.green().bold()` shown as text: `s` in bold green, or `s` as it is
/// when `colored` does not colour.
#[verifier::external_body]
pub fn paint_info(s: &str) -> (r: String)
    ensures
        painted(r@, s@, info_code()),
{
    s.green().bold().to_string()
}

/// `s.red().bold()` shown as text: `s` in bold red, or `s` as it is when
/// `colored` does not colour.
#[verifier::external_body]
pub fn paint_error(s: &str) -> (r: String)
    ensures
        painted(r@, s@, error_code()),
{
    s.red().bold().to_string()
}

/// `s.purple().bold()` shown as text: `s` in bold purple, or `s` as it is
/// when `colored` does not colour.
#[verifier::external_body]
pub fn paint_debug(s: &str) -> (r: String)
    ensures
        painted(r@, s@, debug_code()),
{
    s.purple().bold().to_string()
}

/// `s.bright_black()` shown as text: `s` in bright black, or `s` as it is
/// when `colored` does not colour.
#[verifier::external_body]
pub fn paint_dim(s: &str) -> (r: String)
    ensures
        painted(r@, s@, dim_code()),
{
    s.bright_black().to_string()
}

} // verus!
