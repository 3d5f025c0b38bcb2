//! Compact JSON text, in the shape that `serde_json::to_string` writes it.
//!
//! String escaping is delegated to `serde_json`; objects and arrays are
//! framed here. Object keys are written in the order given, which callers
//! choose to be ascending, the order of `serde_json`'s default map.

use vstd::prelude::*;

verus! {

#[verifier::external_type_specification]
#[verifier::external_body]
pub struct ExSerdeJsonError(serde_json::Error);

/// The error that a JSON document may report while it is written.
#[derive(Debug, Clone, Copy, PartialEq, Eq)]
pub enum JsonError {
    Serialize,
}

/// A hex digit of `n` (`0 <= n < 16`), lower case.
pub open spec fn hex_digit(n: int) -> char {
    if n < 10 {
        (48 + n) as char
    } else {
        (87 + n) as char
    }
}

/// How one character of a string appears inside a JSON string literal.
pub open spec fn json_escape_char(c: char) -> Seq<char> {
    if c == '"' {
        seq!['\\', '"']
    } else if c == '\\' {
        seq!['\\', '\\']
    } else if c == '\x08' {
        seq!['\\', 'b']
    } else if c == '\t' {
        seq!['\\', 't']
    } else if c == '\n' {
        seq!['\\', 'n']
    } else if c == '\x0c' {
        seq!['\\', 'f']
    } else if c == '\r' {
        seq!['\\', 'r']
    } else if (c as int) < 32 {
        seq!['\\', 'u', '0', '0', hex_digit((c as int) / 16), hex_digit((c as int) % 16)]
    } else {
        seq![c]
    }
}

/// The escaped contents of a JSON string literal for `s`.
pub open spec fn json_escape(s: Seq<char>) -> Seq<char>
    decreases s.len(),
{
    if s.len() == 0 {
        Seq::empty()
    } else {
        json_escape(s.drop_last()) + json_escape_char(s.last())
    }
}

/// The JSON string literal for `s`, quotes included.
pub open spec fn json_string_literal(s: Seq<char>) -> Seq<char> {
    seq!['"'] + json_escape(s) + seq!['"']
}

/// The items joined with `sep` between each neighbouring pair.
pub open spec fn join(items: Seq<Seq<char>>, sep: Seq<char>) -> Seq<char>
    decreases items.len(),
{
    if items.len() == 0 {
        Seq::empty()
    } else if items.len() == 1 {
        items[0]
    } else {
        join(items.drop_last(), sep) + sep + items.last()
    }
}

/// A JSON array whose elements have the given texts.
pub open spec fn json_array(items: Seq<Seq<char>>) -> Seq<char> {
    seq!['['] + join(items, seq![',']) + seq![']']
}

/// The text of one member of a JSON object.
pub open spec fn json_member(key: Seq<char>, value: Seq<char>) -> Seq<char> {
    json_string_literal(key) + seq![':'] + value
}

/// The members of a JSON object, in order, from keys and value texts.
pub open spec fn json_members(entries: Seq<(Seq<char>, Seq<char>)>) -> Seq<Seq<char>> {
    Seq::new(entries.len(), |i: int| json_member(entries[i].0, entries[i].1))
}

/// The (key, value text) pairs held by a vector of strings.
pub open spec fn entry_views(entries: Seq<(String, String)>) -> Seq<(Seq<char>, Seq<char>)> {
    entries.map_values(|e: (String, String)| (e.0@, e.1@))
}

/// A JSON object with the given (key, value text) members in that order.
pub open spec fn json_object(entries: Seq<(Seq<char>, Seq<char>)>) -> Seq<char> {
    seq!['{'] + join(json_members(entries), seq![',']) + seq!['}']
}

/// `serde_json::to_string` on a string slice. Its contract claims that
/// serializing a `&str` into the in-memory buffer always succeeds and
/// yields the quoted literal: `"` and `\` and the control characters
/// below U+0020 escaped (`\b \t \n \f \r` by name, the others as
/// `\u00XX` in lower-case hex), every other character kept as it is.
#[verifier::external_body]
fn serde_json_string(s: &str) -> (r: Result<String, serde_json::Error>)
    ensures
        r is Ok,
        r->Ok_0@ == json_string_literal(s@),
{
    serde_json::to_string(s)
}

/// The JSON string literal of `s`.
pub fn json_string(s: &str) -> (r: Result<String, JsonError>)
    ensures
        r matches Ok(t) && t@ == json_string_literal(s@),
{
    match serde_json_string(s) {
        Ok(t) => Ok(t),
        Err(_) => Err(JsonError::Serialize),
    }
}

/// Joining one more item appends the separator and the item.
pub proof fn lemma_join_push(items: Seq<Seq<char>>, sep: Seq<char>, x: Seq<char>)
    ensures
        join(items.push(x), sep) == if items.len() == 0 {
            x
        } else {
            join(items, sep) + sep + x
        },
{
    assert(items.push(x).drop_last() =~= items);
}

/// The items joined with `,`, between `open` and `close`.
fn frame(items: &Vec<String>, open: &str, close: &str) -> (r: String)
    ensures
        r@ == open@ + join(items@.map_values(|s: String| s@), seq![',']) + close@,
{
    let mut res = String::from_str(open);
    let ghost views = items@.map_values(|s: String| s@);
    let mut i: usize = 0;
    while i < items.len()
        invariant
            i <= items.len(),
            views == items@.map_values(|s: String| s@),
            res@ == open@ + join(views.take(i as int), seq![',']),
        decreases items.len() - i,
    {
        proof {
            lemma_join_push(views.take(i as int), seq![','], views[i as int]);
            assert(views.take(i as int).push(views[i as int]) =~= views.take(i + 1));
        }
        if i > 0 {
            res.append(",");
            proof {
                reveal_strlit(",");
            }
        }
        res.append(items[i].as_str());
        i = i + 1;
    }
    proof {
        assert(views.take(items.len() as int) =~= views);
    }
    res.append(close);
    res
}

/// A JSON array of the given element texts, as `serde_json` writes it.
pub fn json_array_of(items: &Vec<String>) -> (r: String)
    ensures
        r@ == json_array(items@.map_values(|s: String| s@)),
{
    proof {
        reveal_strlit("[");
        reveal_strlit("]");
    }
    frame(items, "[", "]")
}

/// A JSON object of the given (key, value text) members, as `serde_json`
/// writes a map whose keys come in this order.
pub fn json_object_of(entries: &Vec<(String, String)>) -> (r: Result<String, JsonError>)
    ensures
        r matches Ok(t) && t@ == json_object(entry_views(entries@)),
{
    let mut members: Vec<String> = Vec::new();
    let mut i: usize = 0;
    while i < entries.len()
        invariant
            i <= entries.len(),
            members@.len() == i,
            forall|j: int|
                0 <= j < i ==> #[trigger] members@[j]@ == json_member(entries@[j].0@, entries@[j].1@),
        decreases entries.len() - i,
    {
        let key = match json_string(entries[i].0.as_str()) {
            Ok(k) => k,
            Err(e) => return Err(e),
        };
        let mut member = key;
        member.append(":");
        member.append(entries[i].1.as_str());
        proof {
            reveal_strlit(":");
        }
        members.push(member);
        i = i + 1;
    }
    proof {
        reveal_strlit("{");
        reveal_strlit("}");
        assert(members@.map_values(|s: String| s@) =~= json_members(entry_views(entries@)));
    }
    Ok(frame(&members, "{", "}"))
}

/// Whether `c` stands for itself inside a JSON string literal.
pub open spec fn is_plain_json_char(c: char) -> bool {
    c != '"' && c != '\\' && (c as int) >= 32
}

proof fn lemma_plain_json_escape(s: Seq<char>)
    requires
        forall|i: int| 0 <= i < s.len() ==> is_plain_json_char(#[trigger] s[i]),
    ensures
        json_escape(s) == s,
    decreases s.len(),
{
    if s.len() > 0 {
        lemma_plain_json_escape(s.drop_last());
        let c = s[s.len() - 1];
        assert(is_plain_json_char(c));
        assert(json_escape_char(c) == seq![c]);
        assert(s.drop_last().push(c) =~= s);
    }
}

/// A string with no quote, backslash or control character is written
/// between quotes as it is.
pub proof fn lemma_plain_json_string(s: Seq<char>)
    requires
        forall|i: int| 0 <= i < s.len() ==> is_plain_json_char(#[trigger] s[i]),
    ensures
        json_string_literal(s) == seq!['"'] + s + seq!['"'],
{
    lemma_plain_json_escape(s);
}

} // verus!
