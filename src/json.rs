use vstd::prelude::*;
use vstd::string::*;

use crate::password::hex_digit;

verus! {

/// How one character stands inside a JSON string literal: `"` and `\` get a
/// backslash, the control characters below U+0020 their short escape or
/// `\u00xx` (lowercase hex), and every other character stands as it is.
pub open spec fn json_escape_char(c: char) -> Seq<char> {
    if c == '"' {
        seq!['\\', '"']
    } else if c == '\\' {
        seq!['\\', '\\']
    } else if c == '\u{8}' {
        seq!['\\', 'b']
    } else if c == '\t' {
        seq!['\\', 't']
    } else if c == '\n' {
        seq!['\\', 'n']
    } else if c == '\u{c}' {
        seq!['\\', 'f']
    } else if c == '\r' {
        seq!['\\', 'r']
    } else if (c as u32) < 0x20 {
        seq!['\\', 'u', '0', '0', hex_digit((c as u32) as int / 16), hex_digit((c as u32) as int % 16)]
    } else {
        seq![c]
    }
}

/// The escaped characters of a text, in order.
pub open spec fn json_escaped(s: Seq<char>) -> Seq<char>
    decreases s.len(),
{
    if s.len() == 0 {
        Seq::empty()
    } else {
        json_escaped(s.drop_last()) + json_escape_char(s.last())
    }
}

/// The JSON string literal of a text: a quote, the escaped characters, a quote.
pub open spec fn json_string_of(s: Seq<char>) -> Seq<char> {
    seq!['"'] + json_escaped(s) + seq!['"']
}

/// Relies on `serde_json::to_string` on a `str`: the JSON string literal of
/// the text, escaped by serde_json's escape table (writing into a `Vec` does
/// not fail).
#[verifier::external_body]
pub(crate) fn json_string(s: &str) -> (r: String)
    ensures
        r@ == json_string_of(s@),
{
    serde_json::to_string(s).unwrap_or_default()
}

/// `"key":<json string of value>`
pub open spec fn json_field(key: Seq<char>, value: Seq<char>) -> Seq<char> {
    seq!['"'] + key + "\":"@ + json_string_of(value)
}

/// Appends `"key":<json string of value>` to `out`.
pub(crate) fn push_field(out: &mut String, key: &str, value: &str)
    ensures
        final(out)@ == old(out)@ + json_field(key@, value@),
{
    let q = json_string(value);
    out.append("\"");
    out.append(key);
    out.append("\":");
    out.append(q.as_str());
    proof {
        reveal_strlit("\"");
        assert(final(out)@ =~= old(out)@ + json_field(key@, value@));
    }
}

/// `{"status":"ok"}`
pub open spec fn ok_body_of() -> Seq<char> {
    "{\"status\":\"ok\"}"@
}

/// The body of a success with nothing more to say.
pub fn ok_body() -> (r: String)
    ensures
        r@ == ok_body_of(),
{
    String::from_str("{\"status\":\"ok\"}")
}

/// `{"reason":<reason>,"status":"error"}`
pub open spec fn error_body_of(reason: Seq<char>) -> Seq<char> {
    "{"@ + json_field("reason"@, reason) + ",\"status\":\"error\"}"@
}

/// The body of an in-band error with a reason.
pub fn error_body(reason: &str) -> (r: String)
    ensures
        r@ == error_body_of(reason@),
{
    let mut r = String::from_str("{");
    push_field(&mut r, "reason", reason);
    r.append(",\"status\":\"error\"}");
    r
}

/// `{"status":"ok","token":<token>}`
pub open spec fn login_body_of(token: Seq<char>) -> Seq<char> {
    "{\"status\":\"ok\","@ + json_field("token"@, token) + "}"@
}

/// The body of a successful login.
pub fn login_body(token: &str) -> (r: String)
    ensures
        r@ == login_body_of(token@),
{
    let mut r = String::from_str("{\"status\":\"ok\",");
    push_field(&mut r, "token", token);
    r.append("}");
    r
}

} // verus!
