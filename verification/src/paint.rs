//! Terminal colors and styles, through the `colored` crate.
//!
//! Whether `colored` writes escape codes at all is decided by the
//! environment (`NO_COLOR`, `CLICOLOR`, `CLICOLOR_FORCE`, whether standard
//! output is a terminal) or by an override set at run time. So of each
//! painted text what holds either way is stated: it is the text unchanged,
//! or the style's own control sequence, the text with its inner resets
//! re-opened, and the reset sequence.
use vstd::prelude::*;
use crate::text::{is_prefix, is_suffix};
use colored::Colorize;

verus! {

/// Whether `r` is `t` as `colored` may write it: unchanged when colors are
/// off, else opened by `ESC [` and closed by `ESC [0m`.
pub open spec fn painted(t: Seq<char>, r: Seq<char>) -> bool {
    r == t || (is_prefix("\x1b["@, r) && is_suffix("\x1b[0m"@, r))
}

/// `t` with the control sequence `open` written after each reset sequence
/// `ESC [0m` in it, so that an inner reset does not end the outer style.
pub open spec fn reopened(t: Seq<char>, open: Seq<char>) -> Seq<char>
    decreases t.len(),
{
    if t.len() == 0 {
        t
    } else if t.len() >= 4 && t[0] == '\x1b' && t[1] == '[' && t[2] == '0' && t[3] == 'm' {
        t.take(4) + open + reopened(t.skip(4), open)
    } else {
        seq![t[0]] + reopened(t.skip(1), open)
    }
}

/// The control sequence that sets the style with the codes `code`.
pub open spec fn style_open(code: Seq<char>) -> Seq<char> {
    "\x1b["@ + code + "m"@
}

/// Whether `r` is `t` as `colored` writes it in the style with the codes
/// `code` (`1` bold, `3` italic, `30`-`37` and `90`-`97` the colors,
/// joined by `;`): unchanged when colors are off, else the style's control
/// sequence, the text with its inner resets re-opened, and the reset.
pub open spec fn painted_in(t: Seq<char>, r: Seq<char>, code: Seq<char>) -> bool {
    r == t || r == style_open(code) + reopened(t, style_open(code)) + "\x1b[0m"@
}

/// A text painted in a given style is painted.
pub proof fn lemma_painted_in(t: Seq<char>, r: Seq<char>, code: Seq<char>)
    requires
        painted_in(t, r, code),
    ensures
        painted(t, r),
{
    reveal_strlit("\x1b[");
    reveal_strlit("\x1b[0m");
    reveal_strlit("m");
    if r != t {
        let o = style_open(code);
        let body = reopened(t, o);
        assert(r == o + body + "\x1b[0m"@);
        assert(r.take(2) =~= "\x1b["@);
        assert(r.skip(r.len() - 4) =~= "\x1b[0m"@);
    }
}

/// Painting a painted text again gives a text painted from the first.
pub proof fn lemma_painted_twice(t: Seq<char>, a: Seq<char>, b: Seq<char>)
    requires
        painted(t, a),
        painted(a, b),
    ensures
        painted(t, b),
{
}

/// `colored`'s `bold`, written out with `to_string`.
#[verifier::external_body]
pub(crate) fn bold(t: &str) -> (r: String)
    ensures
        painted_in(t@, r@, "1"@),
{
    t.bold().to_string()
}

/// `colored`'s `italic`, written out with `to_string`.
#[verifier::external_body]
pub(crate) fn italic(t: &str) -> (r: String)
    ensures
        painted_in(t@, r@, "3"@),
{
    t.italic().to_string()
}

/// `colored`'s `black`, written out with `to_string`.
#[verifier::external_body]
pub(crate) fn black(t: &str) -> (r: String)
    ensures
        painted_in(t@, r@, "30"@),
{
    t.black().to_string()
}

/// `colored`'s `red`, written out with `to_string`.
#[verifier::external_body]
pub(crate) fn red(t: &str) -> (r: String)
    ensures
        painted_in(t@, r@, "31"@),
{
    t.red().to_string()
}

/// `colored`'s `green`, written out with `to_string`.
#[verifier::external_body]
pub(crate) fn green(t: &str) -> (r: String)
    ensures
        painted_in(t@, r@, "32"@),
{
    t.green().to_string()
}

/// `colored`'s `yellow`, written out with `to_string`.
#[verifier::external_body]
pub(crate) fn yellow(t: &str) -> (r: String)
    ensures
        painted_in(t@, r@, "33"@),
{
    t.yellow().to_string()
}

/// `colored`'s `blue`, written out with `to_string`.
#[verifier::external_body]
pub(crate) fn blue(t: &str) -> (r: String)
    ensures
        painted_in(t@, r@, "34"@),
{
    t.blue().to_string()
}

/// `colored`'s `magenta`, written out with `to_string`.
#[verifier::external_body]
pub(crate) fn magenta(t: &str) -> (r: String)
    ensures
        painted_in(t@, r@, "35"@),
{
    t.magenta().to_string()
}

/// `colored`'s `cyan`, written out with `to_string`.
#[verifier::external_body]
pub(crate) fn cyan(t: &str) -> (r: String)
    ensures
        painted_in(t@, r@, "36"@),
{
    t.cyan().to_string()
}

/// `colored`'s `white`, written out with `to_string`.
#[verifier::external_body]
pub(crate) fn white(t: &str) -> (r: String)
    ensures
        painted_in(t@, r@, "37"@),
{
    t.white().to_string()
}

/// `colored`'s `bright_black`, written out with `to_string`.
#[verifier::external_body]
pub(crate) fn bright_black(t: &str) -> (r: String)
    ensures
        painted_in(t@, r@, "90"@),
{
    t.bright_black().to_string()
}

/// `colored`'s `bright_red`, written out with `to_string`.
#[verifier::external_body]
pub(crate) fn bright_red(t: &str) -> (r: String)
    ensures
        painted_in(t@, r@, "91"@),
{
    t.bright_red().to_string()
}

/// `colored`'s `bright_green`, written out with `to_string`.
#[verifier::external_body]
pub(crate) fn bright_green(t: &str) -> (r: String)
    ensures
        painted_in(t@, r@, "92"@),
{
    t.bright_green().to_string()
}

/// `colored`'s `bright_yellow`, written out with `to_string`.
#[verifier::external_body]
pub(crate) fn bright_yellow(t: &str) -> (r: String)
    ensures
        painted_in(t@, r@, "93"@),
{
    t.bright_yellow().to_string()
}

/// `colored`'s `bright_blue`, written out with `to_string`.
#[verifier::external_body]
pub(crate) fn bright_blue(t: &str) -> (r: String)
    ensures
        painted_in(t@, r@, "94"@),
{
    t.bright_blue().to_string()
}

/// `colored`'s `bright_magenta`, written out with `to_string`.
#[verifier::external_body]
pub(crate) fn bright_magenta(t: &str) -> (r: String)
    ensures
        painted_in(t@, r@, "95"@),
{
    t.bright_magenta().to_string()
}

/// `colored`'s `bright_cyan`, written out with `to_string`.
#[verifier::external_body]
pub(crate) fn bright_cyan(t: &str) -> (r: String)
    ensures
        painted_in(t@, r@, "96"@),
{
    t.bright_cyan().to_string()
}

/// `colored`'s `bright_white`, written out with `to_string`.
#[verifier::external_body]
pub(crate) fn bright_white(t: &str) -> (r: String)
    ensures
        painted_in(t@, r@, "97"@),
{
    t.bright_white().to_string()
}

/// `colored`'s `bold` and then `bright_green` on the same text (one
/// control sequence for both), written out with `to_string`.
#[verifier::external_body]
pub(crate) fn bold_bright_green(t: &str) -> (r: String)
    ensures
        painted_in(t@, r@, "1;92"@),
{
    t.bold().bright_green().to_string()
}

/// `colored`'s `bold` and then `bright_red` on the same text (one control
/// sequence for both), written out with `to_string`.
#[verifier::external_body]
pub(crate) fn bold_bright_red(t: &str) -> (r: String)
    ensures
        painted_in(t@, r@, "1;91"@),
{
    t.bold().bright_red().to_string()
}

} // verus!
