//! The dimmed echo of a command, printed before the command runs.
use vstd::prelude::*;

verus! {

/// The terminal sequence that starts dimmed text.
pub open spec fn dim_on() -> Seq<char> {
    seq!['\x1b', '[', '2', 'm']
}

/// The terminal sequence that resets all styling.
pub open spec fn style_reset() -> Seq<char> {
    seq!['\x1b', '[', '0', 'm']
}

/// What dimming `s` may give: `s` itself when colouring is off for this
/// process, else `s` framed by the dim and reset sequences. Only where `s`
/// holds an escape character of its own can the framed text differ from `s`.
pub open spec fn is_dimmed_form(s: Seq<char>, d: Seq<char>) -> bool {
    ||| d == s
    ||| {
        &&& d.len() >= 8
        &&& d.subrange(0, 4) == dim_on()
        &&& d.subrange(d.len() - 4, d.len() as int) == style_reset()
        &&& !s.contains('\x1b') ==> d == dim_on() + s + style_reset()
    }
}

/// Relies on colored's `Colorize::dimmed` for `&str` and the `Display` of
/// `ColoredString`: the text is written unchanged when colouring is off
/// (decided by an override, the environment
/// and whether stdout is a terminal), else as `ESC[2m`, the text with `ESC[2m`
/// added after each reset it holds, and `ESC[0m`.
#[verifier::external_body]
fn dimmed(s: &str) -> (r: String)
    ensures
        is_dimmed_form(s@, r@),
{
    colored::Colorize::dimmed(s).to_string()
}

/// The text echoed before a command runs: `$ `, the dimmed command, and a
/// blank line.
pub open spec fn is_echo_of(script: Seq<char>, text: Seq<char>) -> bool {
    exists|d: Seq<char>|
        is_dimmed_form(script, d) && text == seq!['$', ' '] + d + seq!['\n', '\n']
}

/// Builds the echo of a command, for the caller to print before spawning it.
pub fn echo_text(script: &str) -> (r: String)
    ensures
        is_echo_of(script@, r@),
{
    let d = dimmed(script);
    let mut out = String::from_str("$ ");
    out.append(d.as_str());
    out.append("\n\n");
    proof {
        reveal_strlit("$ ");
        reveal_strlit("\n\n");
        assert(out@ =~= seq!['$', ' '] + d@ + seq!['\n', '\n']);
    }
    out
}

} // verus!
