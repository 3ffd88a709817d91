//! The JSON-RPC 2.0 envelope: framing a request, and what a response says.

use vstd::prelude::*;
use vstd::string::*;
use crate::json::Json;
use crate::text::{decimal, digit_char, digit_str, push_decimal};

verus! {

/// The lower-case hexadecimal digit for `n` (taken modulo sixteen).
pub open spec fn hex_digit(n: int) -> char {
    let r = n % 16;
    if r < 10 { digit_char(r as nat) }
    else if r == 10 { 'a' }
    else if r == 11 { 'b' }
    else if r == 12 { 'c' }
    else if r == 13 { 'd' }
    else if r == 14 { 'e' }
    else { 'f' }
}

/// How JSON renders the character `c` inside a string: `"` and `\` behind a
/// backslash, backspace, tab, line feed, form feed and carriage return by
/// their short escapes, any other character below U+0020 as `\u00` and two
/// lower-case hex digits, every other character as itself.
pub open spec fn escape_char(c: char) -> Seq<char> {
    if c == '"' {
        seq!['\\', '"']
    } else if c == '\\' {
        seq!['\\', '\\']
    } else if c == '\u{8}' {
        seq!['\\', 'b']
    } else if c == '\t' {
        seq!['\\', 't']
    } else if c == '\n' {
        seq!['\\', 'n']
    } else if c == '\u{c}' {
        seq!['\\', 'f']
    } else if c == '\r' {
        seq!['\\', 'r']
    } else if (c as int) < 32 {
        seq!['\\', 'u', '0', '0', hex_digit((c as int) / 16), hex_digit(c as int)]
    } else {
        seq![c]
    }
}

/// The characters of `s`, each rendered as `escape_char` renders it.
pub open spec fn escaped(s: Seq<char>) -> Seq<char>
    decreases s.len(),
{
    if s.len() == 0 {
        Seq::empty()
    } else {
        escaped(s.drop_last()) + escape_char(s.last())
    }
}

/// The JSON string literal for `s`, as `serde_json` renders a string: quoted,
/// with every character rendered by `escape_char`.
pub open spec fn json_string_literal(s: Seq<char>) -> Seq<char> {
    seq!['"'] + escaped(s) + seq!['"']
}

/// The hexadecimal digit for `n` as a string.
fn hex_str(n: u32) -> (t: &'static str)
    requires
        n < 16,
    ensures
        t@ == seq![hex_digit(n as int)],
{
    if n < 10 {
        digit_str(n as u64)
    } else if n == 10 {
        proof { reveal_strlit("a"); }
        "a"
    } else if n == 11 {
        proof { reveal_strlit("b"); }
        "b"
    } else if n == 12 {
        proof { reveal_strlit("c"); }
        "c"
    } else if n == 13 {
        proof { reveal_strlit("d"); }
        "d"
    } else if n == 14 {
        proof { reveal_strlit("e"); }
        "e"
    } else {
        proof { reveal_strlit("f"); }
        "f"
    }
}

/// Appends the JSON rendering of the character `s[i]` to `out`.
fn push_escaped_char(out: &mut String, s: &str, i: usize)
    requires
        i < s@.len() <= usize::MAX,
    ensures
        final(out)@ == old(out)@ + escape_char(s@[i as int]),
{
    let c = s.get_char(i);
    if c == '"' {
        proof { reveal_strlit("\\\""); }
        out.append("\\\"");
    } else if c == '\\' {
        proof { reveal_strlit("\\\\"); }
        out.append("\\\\");
    } else if c == '\u{8}' {
        proof { reveal_strlit("\\b"); }
        out.append("\\b");
    } else if c == '\t' {
        proof { reveal_strlit("\\t"); }
        out.append("\\t");
    } else if c == '\n' {
        proof { reveal_strlit("\\n"); }
        out.append("\\n");
    } else if c == '\u{c}' {
        proof { reveal_strlit("\\f"); }
        out.append("\\f");
    } else if c == '\r' {
        proof { reveal_strlit("\\r"); }
        out.append("\\r");
    } else if (c as u32) < 32 {
        proof { reveal_strlit("\\u00"); }
        out.append("\\u00");
        let code = c as u32;
        out.append(hex_str(code / 16));
        out.append(hex_str(code % 16));
        assert(hex_digit((code % 16) as int) == hex_digit(code as int));
    } else {
        let one = s.substring_char(i, i + 1);
        assert(one@ =~= seq![c]);
        out.append(one);
    }
}

/// Renders `s` as a JSON string literal.
pub fn quote_json_string(s: &str) -> (t: String)
    ensures
        t@ == json_string_literal(s@),
{
    proof { reveal_strlit("\""); }
    let mut t = String::from_str("\"");
    let n = s.unicode_len();
    let mut i: usize = 0;
    while i < n
        invariant
            n == s@.len(),
            i <= n,
            t@ == seq!['"'] + escaped(s@.take(i as int)),
        decreases n - i,
    {
        let ghost before = t@;
        push_escaped_char(&mut t, s, i);
        proof {
            assert(s@.take(i + 1).drop_last() =~= s@.take(i as int));
            assert(t@ =~= seq!['"'] + escaped(s@.take(i + 1)));
        }
        i = i + 1;
    }
    assert(s@.take(n as int) =~= s@);
    t.append("\"");
    t
}

/// The text of the request object `{"jsonrpc": "2.0", "id": id, "method":
/// method, "params": params}` as `serde_json` renders it: compact, members
/// in key order.
pub open spec fn request_text(id: nat, method: Seq<char>, params: Seq<char>) -> Seq<char> {
    "{\"id\":"@ + decimal(id) + ",\"jsonrpc\":\"2.0\",\"method\":"@ + json_string_literal(method)
        + ",\"params\":"@ + params + "}"@
}

/// Frames a JSON-RPC request: `params` is the JSON text of the parameters.
pub fn frame_request(id: u64, method: &str, params: &str) -> (body: String)
    ensures
        body@ == request_text(id as nat, method@, params@),
{
    let mut body = String::from_str("{\"id\":");
    push_decimal(&mut body, id);
    body.append(",\"jsonrpc\":\"2.0\",\"method\":");
    let quoted = quote_json_string(method);
    body.append(quoted.as_str());
    body.append(",\"params\":");
    body.append(params);
    body.append("}");
    body
}

/// What a response object answers to its request: the `result` member, or
/// the `error` member, which is yet to be read as an error object.
#[derive(Debug, PartialEq)]
pub enum Reply {
    Result(Json),
    ErrorObject(Json),
}

/// The `error` member of a response, where it is present and not `null`.
pub open spec fn error_member(frame: Json) -> Option<Json> {
    match frame.field("error"@) {
        Some(e) => if e is Null { None } else { Some(e) },
        None => None,
    }
}

/// Takes the `error` member out of a response where it is present and not
/// `null`; hands the response back otherwise.
pub fn take_error_member(frame: Json) -> (r: Result<Json, Json>)
    ensures
        match r {
            Ok(e) => error_member(frame) == Some(e),
            Err(f) => error_member(frame) is None && f == frame,
        },
{
    let present = match frame.get("error") {
        Some(e) => !e.is_null(),
        None => false,
    };
    if present {
        match frame.into_field("error") {
            Some(e) => Ok(e),
            None => vstd::pervasive::unreached(),
        }
    } else {
        Err(frame)
    }
}

} // verus!

verus! {

/// The texts of `items` joined by commas.
pub open spec fn join_commas(items: Seq<Seq<char>>) -> Seq<char>
    decreases items.len(),
{
    if items.len() == 0 {
        Seq::empty()
    } else if items.len() == 1 {
        items[0]
    } else {
        join_commas(items.drop_last()) + ","@ + items.last()
    }
}

/// The compact JSON array whose elements have the texts `items`.
pub open spec fn array_text(items: Seq<Seq<char>>) -> Seq<char> {
    "["@ + join_commas(items) + "]"@
}

/// The texts of a vector of strings.
pub open spec fn texts(items: Seq<String>) -> Seq<Seq<char>> {
    items.map_values(|s: String| s@)
}

/// Frames positional parameters: the JSON array of the element texts `items`.
pub fn params_text(items: &Vec<String>) -> (t: String)
    ensures
        t@ == array_text(texts(items@)),
{
    let mut t = String::from_str("[");
    let mut i: usize = 0;
    while i < items.len()
        invariant
            i <= items@.len(),
            t@ == "["@ + join_commas(texts(items@).take(i as int)),
        decreases items@.len() - i,
    {
        let ghost before = t@;
        if i > 0 {
            t.append(",");
        }
        t.append(items[i].as_str());
        proof {
            let s = texts(items@);
            assert(s.take(i + 1).drop_last() =~= s.take(i as int));
            assert(s.take(i + 1).last() == items@[i as int]@);
            if i == 0 {
                assert(join_commas(s.take(0)) =~= Seq::<char>::empty());
                assert(join_commas(s.take(1)) == s.take(1)[0]);
                assert(t@ =~= "["@ + join_commas(s.take(1)));
            } else {
                assert(t@ =~= "["@ + join_commas(s.take(i + 1)));
            }
        }
        i = i + 1;
    }
    proof {
        assert(texts(items@).take(i as int) =~= texts(items@));
    }
    t.append("]");
    t
}

/// Frames at most one positional parameter: an absent one is left out of
/// the array altogether rather than sent as `null`.
pub fn optional_params_text(item: Option<&str>) -> (t: String)
    ensures
        t@ == match item {
            Some(x) => array_text(seq![x@]),
            None => array_text(Seq::empty()),
        },
{
    let mut t = String::from_str("[");
    match item {
        Some(x) => {
            t.append(x);
            assert(join_commas(seq![x@]) == x@);
        },
        None => {
            assert(join_commas(Seq::<Seq<char>>::empty()) =~= Seq::<char>::empty());
            assert(t@ =~= "["@ + Seq::<char>::empty());
        },
    }
    t.append("]");
    t
}

} // verus!

verus! {

/// A string with no quote, no backslash and no character below U+0020 is
/// rendered as itself between quotes.
pub proof fn law_plain_strings_are_quoted_as_they_are(s: Seq<char>)
    requires
        forall|i: int| 0 <= i < s.len() ==> {
            let c = #[trigger] s[i];
            c != '"' && c != '\\' && (c as int) >= 32
        },
    ensures
        json_string_literal(s) == seq!['"'] + s + seq!['"'],
    decreases s.len(),
{
    lemma_plain_escaped(s);
}

proof fn lemma_plain_escaped(s: Seq<char>)
    requires
        forall|i: int| 0 <= i < s.len() ==> {
            let c = #[trigger] s[i];
            c != '"' && c != '\\' && (c as int) >= 32
        },
    ensures
        escaped(s) == s,
    decreases s.len(),
{
    if s.len() > 0 {
        assert forall|i: int| 0 <= i < s.drop_last().len() implies {
            let c = #[trigger] s.drop_last()[i];
            c != '"' && c != '\\' && (c as int) >= 32
        } by {
            assert(s.drop_last()[i] == s[i]);
        }
        lemma_plain_escaped(s.drop_last());
        let c = s.last();
        assert(c != '"' && c != '\\' && (c as int) >= 32);
        assert(escape_char(c) == seq![c]);
        assert(s.drop_last() + seq![c] =~= s);
    } else {
        assert(escaped(s) =~= s);
    }
}

/// A quote or a backslash is rendered behind a backslash, and a control
/// character below U+0020 never stands in the literal as itself.
pub proof fn law_special_characters_are_escaped(c: char)
    ensures
        c == '"' ==> escape_char(c) == seq!['\\', '"'],
        c == '\\' ==> escape_char(c) == seq!['\\', '\\'],
        (c as int) < 32 ==> escape_char(c).len() >= 2 && escape_char(c)[0] == '\\',
        (c as int) >= 32 && c != '"' && c != '\\' ==> escape_char(c) == seq![c],
{
}

} // verus!
