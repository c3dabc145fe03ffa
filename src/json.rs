//! Compact JSON text for the discovery messages. String literals come from
//! serde_json; this module lays out objects and arrays around them.

use vstd::prelude::*;

verus! {

/// The lower-case hexadecimal digit of `n`, for `n` below 16.
pub open spec fn lower_hex_digit(n: u32) -> char {
    "0123456789abcdef"@[n as int]
}

/// How serde_json writes one character inside a string literal: quote and
/// backslash escaped, the control characters below U+0020 written as a short
/// escape or as `\u00XX`, every other character as it is.
pub open spec fn json_escape_char(c: char) -> Seq<char> {
    let v = c as u32;
    if c == '"' {
        "\\\""@
    } else if c == '\\' {
        "\\\\"@
    } else if v == 0x08 {
        "\\b"@
    } else if v == 0x09 {
        "\\t"@
    } else if v == 0x0A {
        "\\n"@
    } else if v == 0x0C {
        "\\f"@
    } else if v == 0x0D {
        "\\r"@
    } else if v < 0x20 {
        "\\u00"@ + seq![lower_hex_digit(v / 16), lower_hex_digit(v % 16)]
    } else {
        seq![c]
    }
}

/// Every character of `s` escaped, in order.
pub open spec fn json_escaped(s: Seq<char>) -> Seq<char>
    decreases s.len(),
{
    if s.len() == 0 {
        Seq::empty()
    } else {
        json_escaped(s.drop_last()) + json_escape_char(s.last())
    }
}

/// The JSON string literal that serde_json writes for `s`, quotes included.
pub open spec fn json_quoted(s: Seq<char>) -> Seq<char> {
    "\""@ + json_escaped(s) + "\""@
}

/// Relies on serde_json::to_string for a `str` (format_escaped_str with the
/// compact formatter): the string between quotes, each character escaped as
/// `json_escape_char` says. Writing a `str` into a byte buffer cannot fail.
#[verifier::external_body]
fn quote(s: &str) -> (r: String)
    ensures
        r@ == json_quoted(s@),
{
    serde_json::to_string(s).unwrap_or_default()
}

/// `s` as a JSON string literal.
pub fn json_string(s: &str) -> (r: String)
    ensures
        r@ == json_quoted(s@),
{
    quote(s)
}

/// The items separated by commas.
pub open spec fn json_join(items: Seq<Seq<char>>) -> Seq<char>
    decreases items.len(),
{
    if items.len() == 0 {
        Seq::empty()
    } else if items.len() == 1 {
        items[0]
    } else {
        json_join(items.drop_last()) + ","@ + items.last()
    }
}

/// `"key":value`, where `value` is JSON text already.
pub open spec fn json_member(key: Seq<char>, value: Seq<char>) -> Seq<char> {
    "\""@ + key + "\":"@ + value
}

pub open spec fn json_members(members: Seq<(Seq<char>, Seq<char>)>) -> Seq<Seq<char>> {
    members.map_values(|m: (Seq<char>, Seq<char>)| json_member(m.0, m.1))
}

/// An object with the given keys and values, in that order.
pub open spec fn json_object(members: Seq<(Seq<char>, Seq<char>)>) -> Seq<char> {
    "{"@ + json_join(json_members(members)) + "}"@
}

/// An array of the given JSON texts.
pub open spec fn json_array(items: Seq<Seq<char>>) -> Seq<char> {
    "["@ + json_join(items) + "]"@
}

pub open spec fn texts(v: Seq<String>) -> Seq<Seq<char>> {
    v.map_values(|s: String| s@)
}

pub open spec fn member_texts(v: Seq<(String, String)>) -> Seq<(Seq<char>, Seq<char>)> {
    v.map_values(|m: (String, String)| (m.0@, m.1@))
}

fn join(items: &Vec<String>) -> (r: String)
    ensures
        r@ == json_join(texts(items@)),
{
    let mut out = String::new();
    let mut i: usize = 0;
    while i < items.len()
        invariant
            i <= items.len(),
            out@ == json_join(texts(items@.take(i as int))),
        decreases items.len() - i,
    {
        let ghost before = texts(items@.take(i as int));
        let ghost after = texts(items@.take(i as int + 1));
        assert(after.drop_last() =~= before);
        assert(after.last() == items@[i as int]@);
        if i > 0 {
            out.append(",");
        }
        out.append(items[i].as_str());
        i = i + 1;
    }
    assert(items@.take(items.len() as int) =~= items@);
    out
}

/// An array of JSON texts, each already written.
pub fn write_array(items: &Vec<String>) -> (r: String)
    ensures
        r@ == json_array(texts(items@)),
{
    let mut out = String::from_str("[");
    let inner = join(items);
    out.append(inner.as_str());
    out.append("]");
    out
}

/// An object of keys and values, each value JSON text already.
pub fn write_object(members: &Vec<(String, String)>) -> (r: String)
    ensures
        r@ == json_object(member_texts(members@)),
{
    let mut parts: Vec<String> = Vec::new();
    let mut i: usize = 0;
    while i < members.len()
        invariant
            i <= members.len(),
            texts(parts@) == json_members(member_texts(members@.take(i as int))),
        decreases members.len() - i,
    {
        let mut part = String::from_str("\"");
        part.append(members[i].0.as_str());
        part.append("\":");
        part.append(members[i].1.as_str());
        assert(part@ == json_member(members@[i as int].0@, members@[i as int].1@));
        let ghost prev = texts(parts@);
        parts.push(part);
        assert(texts(parts@) =~= prev.push(part@));
        assert(member_texts(members@.take(i as int + 1)) =~= member_texts(members@.take(i as int)).push(
            (members@[i as int].0@, members@[i as int].1@),
        ));
        assert(texts(parts@) =~= json_members(member_texts(members@.take(i as int + 1))));
        i = i + 1;
    }
    assert(members@.take(members.len() as int) =~= members@);
    let mut out = String::from_str("{");
    let inner = join(&parts);
    out.append(inner.as_str());
    out.append("}");
    out
}

} // verus!
