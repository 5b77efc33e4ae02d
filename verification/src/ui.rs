//! Terminal presentation: the status lines `emu` prints and the colouring
//! of logcat lines by their priority letter.
use vstd::prelude::*;
use crate::host::{ansi_reset, paint, string_push, style_codes};
use crate::text::{chars_of, string_of};

verus! {

/// The `console` dotted style of a logcat priority letter in `-v brief`
/// output: V dim, D blue, I green, W yellow, E red bold, F red bold on white.
pub open spec fn priority_style(c: char) -> Option<Seq<char>> {
    if c == 'V' {
        Some("dim"@)
    } else if c == 'D' {
        Some("blue"@)
    } else if c == 'I' {
        Some("green"@)
    } else if c == 'W' {
        Some("yellow"@)
    } else if c == 'E' {
        Some("red.bold"@)
    } else if c == 'F' {
        Some("red.bold.on_white"@)
    } else {
        None
    }
}

/// The style of a logcat priority letter, if it is one.
pub fn logcat_priority_style(c: char) -> (r: Option<&'static str>)
    ensures
        r matches Some(s) ==> priority_style(c) == Some(s@),
        r is None ==> priority_style(c) is None,
{
    if c == 'V' {
        Some("dim")
    } else if c == 'D' {
        Some("blue")
    } else if c == 'I' {
        Some("green")
    } else if c == 'W' {
        Some("yellow")
    } else if c == 'E' {
        Some("red.bold")
    } else if c == 'F' {
        Some("red.bold.on_white")
    } else {
        None
    }
}

/// `text` painted in `style`: between the style's codes and the reset code
/// where colours are on, else the text alone.
pub open spec fn painted(style: Seq<char>, text: Seq<char>, colors: bool) -> Seq<char> {
    if colors {
        style_codes(style) + text + ansi_reset()
    } else {
        text
    }
}

/// A `-v brief` logcat line with its leading priority letter painted in the
/// letter's style; an empty line, or one that does not start with a
/// priority letter, stays as it is.
pub open spec fn colored_logcat(line: Seq<char>, colors: bool) -> Seq<char> {
    if line.len() == 0 {
        line
    } else {
        match priority_style(line[0]) {
            Some(st) => painted(st, seq![line[0]], colors) + line.skip(1),
            None => line,
        }
    }
}

/// Colours the leading priority letter of a `-v brief` logcat line and
/// keeps the rest of the line as it is; `colors` tells whether the terminal
/// takes colour. An empty line stays empty; a line that does not start with
/// a priority letter comes back unchanged. The line must be empty or start
/// with an ASCII character (the rest of the line is taken from its second
/// byte on).
pub fn colorize_logcat(line: &str, colors: bool) -> (r: String)
    requires
        line@.len() == 0 || (line@[0] as u32) < 0x80,
    ensures
        r@ == colored_logcat(line@, colors),
{
    let cs = chars_of(line);
    if cs.len() == 0 {
        return String::new();
    }
    let c = cs[0];
    let rest = string_of(&cs, 1, cs.len());
    assert(cs@.subrange(1, cs.len() as int) == cs@.skip(1));
    match logcat_priority_style(c) {
        None => {
            let whole = string_of(&cs, 0, cs.len());
            assert(cs@.subrange(0, cs.len() as int) == cs@);
            whole
        },
        Some(st) => {
            let mut head = String::new();
            string_push(&mut head, c);
            assert(head@ == seq![c]);
            let mut out = paint(st, head.as_str(), colors);
            out.append(rest.as_str());
            out
        },
    }
}

/// The line that reports a value: a dim `›`, the label, a colon and the
/// value in cyan.
pub fn info_line(label: &str, value: &str, colors: bool) -> (r: String)
    ensures
        r@ == painted("dim"@, "›"@, colors) + " "@ + label@ + ": "@ + painted("cyan"@, value@, colors),
{
    let mut out = paint("dim", "›", colors);
    out.append(" ");
    out.append(label);
    out.append(": ");
    let v = paint("cyan", value, colors);
    out.append(v.as_str());
    out
}

/// The line that reports success: a green bold `✓` and the message.
pub fn success_line(msg: &str, colors: bool) -> (r: String)
    ensures
        r@ == painted("green.bold"@, "✓"@, colors) + " "@ + msg@,
{
    let mut out = paint("green.bold", "✓", colors);
    out.append(" ");
    out.append(msg);
    out
}

/// The line that reports an error: a red `✗` and the message.
pub fn error_line(msg: &str, colors: bool) -> (r: String)
    ensures
        r@ == painted("red"@, "✗"@, colors) + " "@ + msg@,
{
    let mut out = paint("red", "✗", colors);
    out.append(" ");
    out.append(msg);
    out
}

/// The line that announces a failed build: the message in red bold.
pub fn build_failed_line(msg: &str, colors: bool) -> (r: String)
    ensures
        r@ == painted("red.bold"@, msg@, colors),
{
    paint("red.bold", msg, colors)
}

} // verus!
