//! Trusted calls into std and outside crates that Verus has no
//! specification for. Each contract says only what the called function's
//! documentation or source shows.
use vstd::prelude::*;

verus! {

/// Calls `String::push`, which appends one character to the string.
#[verifier::external_body]
pub(crate) fn string_push(s: &mut String, c: char)
    ensures
        final(s)@ == old(s)@.push(c),
{
    s.push(c);
}

} // verus!

verus! {

/// The ANSI escape sequence that `console` writes before a value painted
/// with one of the dotted styles this library uses.
pub open spec fn style_codes(style: Seq<char>) -> Seq<char> {
    if style == "dim"@ {
        "\x1b[2m"@
    } else if style == "blue"@ {
        "\x1b[34m"@
    } else if style == "green"@ {
        "\x1b[32m"@
    } else if style == "yellow"@ {
        "\x1b[33m"@
    } else if style == "red.bold"@ {
        "\x1b[31m\x1b[1m"@
    } else if style == "cyan"@ {
        "\x1b[36m"@
    } else if style == "green.bold"@ {
        "\x1b[32m\x1b[1m"@
    } else if style == "red"@ {
        "\x1b[31m"@
    } else {
        "\x1b[31m\x1b[47m\x1b[1m"@
    }
}

/// The dotted styles this library paints with.
pub open spec fn known_style(style: Seq<char>) -> bool {
    ||| style == "dim"@
    ||| style == "blue"@
    ||| style == "green"@
    ||| style == "yellow"@
    ||| style == "red.bold"@
    ||| style == "red.bold.on_white"@
    ||| style == "cyan"@
    ||| style == "green.bold"@
    ||| style == "red"@
}

/// The sequence `console` writes after a painted value.
pub open spec fn ansi_reset() -> Seq<char> {
    "\x1b[0m"@
}

/// Formats `text` through
/// `console::Style::from_dotted_str(style).force_styling(colors).apply_to`.
/// With `colors` the text stands between the style's escape codes and the
/// reset code; without, the text is written alone.
#[verifier::external_body]
pub(crate) fn paint(style: &str, text: &str, colors: bool) -> (r: String)
    requires
        known_style(style@),
    ensures
        colors ==> r@ == style_codes(style@) + text@ + ansi_reset(),
        !colors ==> r@ == text@,
{
    format!("{}", console::Style::from_dotted_str(style).force_styling(colors).apply_to(text))
}

} // verus!

verus! {

/// What `Path::join` gives for `base` joined with `part` (on the target
/// platform the library is built for).
pub uninterp spec fn spec_path_join(base: Seq<char>, part: Seq<char>) -> Seq<char>;

/// What `Path::parent` gives for `p`.
pub uninterp spec fn spec_path_parent(p: Seq<char>) -> Option<Seq<char>>;

/// What `Path::extension` gives for `p`.
pub uninterp spec fn spec_path_extension(p: Seq<char>) -> Option<Seq<char>>;

/// What `Path::strip_prefix` gives for `p` and `base`, where it succeeds.
pub uninterp spec fn spec_path_strip_prefix(p: Seq<char>, base: Seq<char>) -> Option<Seq<char>>;

/// What `String::from_utf8_lossy` gives for `bytes`.
pub uninterp spec fn spec_utf8_lossy(bytes: Seq<u8>) -> Seq<char>;

/// Calls `Path::join`: `base` extended by `part` (or `part` itself where
/// `part` is absolute). The contract names the result.
#[verifier::external_body]
pub(crate) fn path_join(base: &str, part: &str) -> (r: String)
    ensures
        r@ == spec_path_join(base@, part@),
{
    std::path::Path::new(base).join(part).to_string_lossy().into_owned()
}

/// Calls `Path::parent`: the path without its final component, or `None`
/// where the path ends in a root or prefix or is empty. The contract names
/// the result and states, as the documentation describes the result as the
/// path less one component, that a parent is shorter than the path.
#[verifier::external_body]
pub(crate) fn path_parent(p: &str) -> (r: Option<String>)
    ensures
        r matches Some(q) ==> spec_path_parent(p@) == Some(q@) && q@.len() < p@.len(),
        r is None ==> spec_path_parent(p@) is None,
{
    match std::path::Path::new(p).parent() {
        Some(q) => Some(q.to_string_lossy().into_owned()),
        None => None,
    }
}

/// Calls `Path::extension`: the part of the file name after its last dot,
/// if any. The contract names the result.
#[verifier::external_body]
pub(crate) fn path_extension(p: &str) -> (r: Option<String>)
    ensures
        r matches Some(e) ==> spec_path_extension(p@) == Some(e@),
        r is None ==> spec_path_extension(p@) is None,
{
    match std::path::Path::new(p).extension() {
        Some(e) => Some(e.to_string_lossy().into_owned()),
        None => None,
    }
}

/// Calls `Path::strip_prefix`: `p` relative to `base`, or `None` where
/// `base` is not a prefix of `p`. The contract names the result.
#[verifier::external_body]
pub(crate) fn path_strip_prefix(p: &str, base: &str) -> (r: Option<String>)
    ensures
        r matches Some(q) ==> spec_path_strip_prefix(p@, base@) == Some(q@),
        r is None ==> spec_path_strip_prefix(p@, base@) is None,
{
    match std::path::Path::new(p).strip_prefix(base) {
        Ok(q) => Some(q.to_string_lossy().into_owned()),
        Err(_) => None,
    }
}

/// Calls `dirs::home_dir`. The answer depends on the environment and the
/// user database of the host, so nothing is stated of it. A home directory
/// whose path is not valid Unicode is reported as `None`, as the library
/// holds paths as strings.
#[verifier::external_body]
pub(crate) fn home_dir() -> Option<String> {
    match dirs::home_dir() {
        Some(h) => match h.to_str() {
            Some(s) => Some(s.to_owned()),
            None => None,
        },
        None => None,
    }
}

/// Calls `String::from_utf8_lossy`: the text of `bytes`, with each invalid
/// sequence replaced by U+FFFD. The contract names the result and states
/// that valid UTF-8 is decoded unchanged.
#[verifier::external_body]
pub(crate) fn utf8_lossy(bytes: &[u8]) -> (r: String)
    ensures
        r@ == spec_utf8_lossy(bytes@),
        vstd::utf8::valid_utf8(bytes@) ==> r@ == vstd::utf8::decode_utf8(bytes@),
{
    String::from_utf8_lossy(bytes).into_owned()
}

} // verus!
