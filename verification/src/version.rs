//! The `version` command's JSON document.
use crate::text::cat;
use vstd::prelude::*;

verus! {

/// The API version every JSON document of the CLI carries.
pub const CLI_API_VERSION: &'static str = "vzctl.dev/v1";

/// How serde_json writes a character inside a string: a quote and a
/// backslash behind a backslash, backspace, tab, line feed, form feed and
/// carriage return as `\b`, `\t`, `\n`, `\f`, `\r`, the other control
/// characters below U+0020 as `\u00` and two lower-case hex digits, and
/// every other character as it is.
pub open spec fn json_escape_char(c: char) -> Seq<char> {
    if c == '"' {
        seq!['\\', '"']
    } else if c == '\\' {
        seq!['\\', '\\']
    } else if c == '\u{8}' {
        seq!['\\', 'b']
    } else if c == '\t' {
        seq!['\\', 't']
    } else if c == '\n' {
        seq!['\\', 'n']
    } else if c == '\u{c}' {
        seq!['\\', 'f']
    } else if c == '\r' {
        seq!['\\', 'r']
    } else if (c as u32) < 0x20 {
        seq!['\\', 'u', '0', '0', hex_digit((c as u32) / 16), hex_digit((c as u32) % 16)]
    } else {
        seq![c]
    }
}

/// A lower-case hex digit.
pub open spec fn hex_digit(d: u32) -> char {
    if d < 10 {
        (('0' as u32) + d) as char
    } else {
        (('a' as u32) + d - 10) as char
    }
}

pub open spec fn json_escape(s: Seq<char>) -> Seq<char>
    decreases s.len(),
{
    if s.len() == 0 {
        Seq::empty()
    } else {
        json_escape(s.drop_last()) + json_escape_char(s.last())
    }
}

/// The JSON string literal of a text, as serde_json writes it: the escaped
/// text in double quotes.
pub open spec fn json_quoted_of(s: Seq<char>) -> Seq<char> {
    seq!['"'] + json_escape(s) + seq!['"']
}

/// A text as a JSON string literal (`serde_json::to_string` of a `str`),
/// quotes included. Writing a `str` into a `Vec` cannot fail, so the empty
/// fallback is never taken.
#[verifier::external_body]
pub(crate) fn json_quoted(s: &str) -> (r: String)
    ensures
        r@ == json_quoted_of(s@),
{
    serde_json::to_string(s).unwrap_or_default()
}

/// The document around the two JSON strings: the keys in the order
/// serde_json keeps them, and no spaces.
pub open spec fn version_document_spec(message: Seq<char>, cli: Seq<char>) -> Seq<char> {
    "{\"apiVersion\":\"vzctl.dev/v1\",\"command\":\"version\",\"exit_code\":0,\"status\":\"ok\",\"summary\":{\"message\":"@
        + message + "},\"version\":{\"cli\":"@ + cli + "}}"@
}

/// The `version` document, given the message and the version as JSON strings.
pub fn version_document(message: &str, cli: &str) -> (r: String)
    ensures
        r@ == version_document_spec(message@, cli@),
{
    let a = cat(
        "{\"apiVersion\":\"vzctl.dev/v1\",\"command\":\"version\",\"exit_code\":0,\"status\":\"ok\",\"summary\":{\"message\":",
        message,
    );
    let b = cat(a.as_str(), "},\"version\":{\"cli\":");
    let c = cat(b.as_str(), cli);
    cat(c.as_str(), "}}")
}

/// The `version` document of the CLI at `version`: the message `vzctl
/// <version>` and the version itself.
pub fn version_json(version: &str) -> (r: String)
    ensures
        r@ == version_document_spec(json_quoted_of("vzctl "@ + version@), json_quoted_of(version@)),
{
    let text = cat("vzctl ", version);
    let message = json_quoted(text.as_str());
    let cli = json_quoted(version);
    version_document(message.as_str(), cli.as_str())
}

} // verus!
