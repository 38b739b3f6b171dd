//! A plain model of parsed JSON documents and the lenient accessors that the
//! web API's responses are read with (numbers that may arrive as strings,
//! booleans that may arrive as numbers or words).
use vstd::prelude::*;
use crate::text;
use crate::text::{decimal, signed_decimal, spec_parse_u64, spec_eq_ignore_ascii_case};

verus! {

/// A JSON number as the accessors see it: its value as an unsigned and as a
/// signed 64-bit integer, where it has one.
#[derive(Clone, Copy, Debug, PartialEq, Eq, Structural)]
pub struct JsonNumber {
    pub as_u64: Option<u64>,
    pub as_i64: Option<i64>,
}

impl JsonNumber {
    /// A non-negative integer.
    pub fn from_u64(n: u64) -> (r: JsonNumber)
        ensures
            r.as_u64 == Some(n),
            r.as_i64 == (if n <= i64::MAX { Some(n as i64) } else { None::<i64> }),
    {
        let i: Option<i64> = if n <= 9223372036854775807u64 { Some(n as i64) } else { None };
        JsonNumber { as_u64: Some(n), as_i64: i }
    }

    /// A signed integer.
    pub fn from_i64(n: i64) -> (r: JsonNumber)
        ensures
            r.as_i64 == Some(n),
            r.as_u64 == (if n >= 0 { Some(n as u64) } else { None::<u64> }),
    {
        let u: Option<u64> = if n >= 0 { Some(n as u64) } else { None };
        JsonNumber { as_u64: u, as_i64: Some(n) }
    }

    /// A number with a fractional part or an exponent.
    pub fn fractional() -> (r: JsonNumber)
        ensures
            r.as_u64.is_none(),
            r.as_i64.is_none(),
    {
        JsonNumber { as_u64: None, as_i64: None }
    }
}

/// A JSON value. An object keeps its members in order; a key is looked up at
/// its first occurrence.
#[derive(Debug)]
pub enum Json {
    Null,
    Bool(bool),
    Number(JsonNumber),
    Str(String),
    Array(Vec<Json>),
    Object(Vec<(String, Json)>),
}

/// The member of an object stored under a key (first occurrence).
pub open spec fn spec_find(entries: Seq<(String, Json)>, key: Seq<char>) -> Option<Json>
    decreases entries.len(),
{
    if entries.len() == 0 {
        None
    } else if entries[0].0@ == key {
        Some(entries[0].1)
    } else {
        spec_find(entries.drop_first(), key)
    }
}

/// `Value::get(key)`: the member under a key when the value is an object.
pub open spec fn spec_get(v: Json, key: Seq<char>) -> Option<Json> {
    match v {
        Json::Object(entries) => spec_find(entries@, key),
        _ => None,
    }
}

/// `value.get(key).unwrap_or(&Value::Null)`.
pub open spec fn spec_get_or_null(v: Json, key: Seq<char>) -> Json {
    match spec_get(v, key) {
        Some(x) => x,
        None => Json::Null,
    }
}

/// Whether the value is JSON `null`.
pub open spec fn is_null(v: Json) -> bool {
    v is Null
}

/// `Value::as_u64`.
pub open spec fn spec_as_u64(v: Json) -> Option<u64> {
    match v {
        Json::Number(n) => n.as_u64,
        _ => None,
    }
}

/// `Value::as_i64`.
pub open spec fn spec_as_i64(v: Json) -> Option<i64> {
    match v {
        Json::Number(n) => n.as_i64,
        _ => None,
    }
}

/// The elements of an array value.
pub open spec fn spec_as_array(v: Json) -> Option<Seq<Json>> {
    match v {
        Json::Array(items) => Some(items@),
        _ => None,
    }
}

/// An unsigned number, or a string holding one.
pub open spec fn spec_value_as_u64(v: Json) -> Option<u64> {
    match spec_as_u64(v) {
        Some(n) => Some(n),
        None => match v {
            Json::Str(s) => spec_parse_u64(s@),
            _ => None,
        },
    }
}

/// A string, or the decimal text of an integer; empty for anything else.
pub open spec fn spec_value_as_string(v: Json) -> Seq<char> {
    match v {
        Json::Str(s) => s@,
        _ => match spec_as_u64(v) {
            Some(n) => decimal(n as nat),
            None => match spec_as_i64(v) {
                Some(i) => signed_decimal(i as int),
                None => Seq::empty(),
            },
        },
    }
}

/// The lenient string of a member; empty when the member is missing.
pub open spec fn spec_value_child_string(v: Json, key: Seq<char>) -> Seq<char> {
    match spec_get(v, key) {
        Some(x) => spec_value_as_string(x),
        None => Seq::empty(),
    }
}

/// A boolean, a non-zero integer, or one of the words "true" (any ASCII
/// case), "1" and "like"; false for anything else.
pub open spec fn spec_value_as_bool(v: Json) -> bool {
    match v {
        Json::Bool(b) => b,
        _ => match spec_as_i64(v) {
            Some(i) => i != 0,
            None => match spec_as_u64(v) {
                Some(u) => u != 0,
                None => match v {
                    Json::Str(s) => spec_eq_ignore_ascii_case(s@, seq!['t', 'r', 'u', 'e'])
                        || s@ == seq!['1'] || s@ == seq!['l', 'i', 'k', 'e'],
                    _ => false,
                },
            },
        },
    }
}

/// The member under a key of an object value.
pub fn json_get<'a>(v: &'a Json, key: &str) -> (r: Option<&'a Json>)
    ensures
        match r {
            Some(x) => spec_get(*v, key@) == Some(*x),
            None => spec_get(*v, key@).is_none(),
        },
{
    match v {
        Json::Object(entries) => {
            let k = text::str_chars(key);
            let mut i: usize = 0;
            assert(entries@.subrange(0, entries@.len() as int) =~= entries@);
            while i < entries.len()
                invariant
                    i <= entries.len(),
                    k@ == key@,
                    spec_get(*v, key@) == spec_find(entries@, key@),
                    spec_find(entries@.subrange(i as int, entries@.len() as int), key@) == spec_find(entries@, key@),
                decreases entries.len() - i,
            {
                let name = text::str_chars(entries[i].0.as_str());
                let ghost rest = entries@.subrange(i as int, entries@.len() as int);
                assert(rest[0] == entries@[i as int]);
                if text::chars_eq(name.as_slice(), k.as_slice()) {
                    assert(rest.len() > 0 && rest[0].0@ == key@);
                    assert(spec_find(rest, key@) == Some(rest[0].1));
                    assert(entries[i as int].1 == rest[0].1);
                    return Some(&entries[i].1);
                }
                assert(rest.drop_first() =~= entries@.subrange(i + 1, entries@.len() as int));
                i += 1;
            }
            assert(entries@.subrange(i as int, entries@.len() as int) =~= Seq::<(String, Json)>::empty());
            None
        },
        _ => None,
    }
}

/// `Value::as_u64`.
pub fn json_as_u64(v: &Json) -> (r: Option<u64>)
    ensures
        r == spec_as_u64(*v),
{
    match v {
        Json::Number(n) => n.as_u64,
        _ => None,
    }
}

/// `Value::as_i64`.
pub fn json_as_i64(v: &Json) -> (r: Option<i64>)
    ensures
        r == spec_as_i64(*v),
{
    match v {
        Json::Number(n) => n.as_i64,
        _ => None,
    }
}

/// `Value::is_null`.
pub fn json_is_null(v: &Json) -> (r: bool)
    ensures
        r == is_null(*v),
{
    match v {
        Json::Null => true,
        _ => false,
    }
}

/// An unsigned number, or a string holding one in decimal.
pub fn value_as_u64(v: &Json) -> (r: Option<u64>)
    ensures
        r == spec_value_as_u64(*v),
{
    match json_as_u64(v) {
        Some(n) => Some(n),
        None => match v {
            Json::Str(s) => {
                let cs = text::str_chars(s.as_str());
                text::parse_u64(cs.as_slice())
            },
            _ => None,
        },
    }
}

/// `value.get(key).and_then(value_as_u64)`.
pub fn child_u64(v: &Json, key: &str) -> (r: Option<u64>)
    ensures
        r == match spec_get(*v, key@) {
            Some(x) => spec_value_as_u64(x),
            None => None,
        },
{
    match json_get(v, key) {
        Some(x) => value_as_u64(x),
        None => None,
    }
}

/// The lenient string form of a value.
pub fn value_as_string(v: &Json) -> (r: String)
    ensures
        r@ == spec_value_as_string(*v),
{
    match v {
        Json::Str(s) => text::str_to_string(s.as_str()),
        _ => match json_as_u64(v) {
            Some(n) => text::u64_to_string(n),
            None => match json_as_i64(v) {
                Some(i) => text::i64_to_string(i),
                None => String::new(),
            },
        },
    }
}

/// The lenient string of the member under a key; empty when it is missing.
pub fn value_child_string(v: &Json, key: &str) -> (r: String)
    ensures
        r@ == spec_value_child_string(*v, key@),
{
    match json_get(v, key) {
        Some(x) => value_as_string(x),
        None => String::new(),
    }
}

/// The lenient boolean form of a value.
pub fn value_as_bool(v: &Json) -> (r: bool)
    ensures
        r == spec_value_as_bool(*v),
{
    match v {
        Json::Bool(b) => *b,
        _ => match json_as_i64(v) {
            Some(i) => i != 0,
            None => match json_as_u64(v) {
                Some(u) => u != 0,
                None => match v {
                    Json::Str(s) => {
                        let cs = text::str_chars(s.as_str());
                        let t = ['t', 'r', 'u', 'e'];
                        let one = ['1'];
                        let like = ['l', 'i', 'k', 'e'];
                        assert(t@ =~= seq!['t', 'r', 'u', 'e']);
                        assert(one@ =~= seq!['1']);
                        assert(like@ =~= seq!['l', 'i', 'k', 'e']);
                        text::eq_ignore_ascii_case(cs.as_slice(), t.as_slice())
                            || text::chars_eq(cs.as_slice(), one.as_slice())
                            || text::chars_eq(cs.as_slice(), like.as_slice())
                    },
                    _ => false,
                },
            },
        },
    }
}

/// `value.get(key).map(value_as_bool).unwrap_or_default()`.
pub fn child_bool(v: &Json, key: &str) -> (r: bool)
    ensures
        r == match spec_get(*v, key@) {
            Some(x) => spec_value_as_bool(x),
            None => false,
        },
{
    match json_get(v, key) {
        Some(x) => value_as_bool(x),
        None => false,
    }
}

/// The JSON string literal of a text, as `serde_json` writes it: quotes
/// around the text, with '"', '\\' and the control characters escaped.
pub open spec fn json_escaped_char(c: char) -> Seq<char> {
    if c == '"' {
        seq!['\\', '"']
    } else if c == '\\' {
        seq!['\\', '\\']
    } else if c == '\x08' {
        seq!['\\', 'b']
    } else if c == '\t' {
        seq!['\\', 't']
    } else if c == '\n' {
        seq!['\\', 'n']
    } else if c == '\x0C' {
        seq!['\\', 'f']
    } else if c == '\r' {
        seq!['\\', 'r']
    } else if (c as u32) < 0x20 {
        seq!['\\', 'u', '0', '0', hex_lower_digit((c as u32 / 16) as nat), hex_lower_digit((c as u32 % 16) as nat)]
    } else {
        seq![c]
    }
}

/// A lower-case hexadecimal digit.
pub open spec fn hex_lower_digit(d: nat) -> char {
    if d < 10 { text::digit_char(d) } else if d == 10 { 'a' } else if d == 11 { 'b' } else if d == 12 { 'c' }
    else if d == 13 { 'd' } else if d == 14 { 'e' } else { 'f' }
}

/// The escaped body of a JSON string literal.
pub open spec fn json_escaped(s: Seq<char>) -> Seq<char>
    decreases s.len(),
{
    if s.len() == 0 {
        Seq::empty()
    } else {
        json_escaped(s.drop_last()) + json_escaped_char(s.last())
    }
}

/// The JSON string literal of a text.
pub open spec fn json_string_literal(s: Seq<char>) -> Seq<char> {
    seq!['"'] + json_escaped(s) + seq!['"']
}

/// `serde_json::to_string` of a string: the JSON string literal, quotes and
/// escapes included.
#[verifier::external_body]
fn json_quote(s: &str) -> (r: String)
    ensures
        r@ == json_string_literal(s@),
{
    serde_json::to_string(s).unwrap_or_default()
}

/// The members of a JSON object whose values are all strings, in order.
pub open spec fn json_object_members(pairs: Seq<(Seq<char>, Seq<char>)>) -> Seq<char>
    decreases pairs.len(),
{
    if pairs.len() == 0 {
        Seq::empty()
    } else {
        let last = pairs.last();
        let member = json_string_literal(last.0) + seq![':'] + json_string_literal(last.1);
        if pairs.len() == 1 {
            member
        } else {
            json_object_members(pairs.drop_last()) + seq![','] + member
        }
    }
}

/// The compact JSON text of an object of string members, in the order given.
pub open spec fn json_object_text(pairs: Seq<(Seq<char>, Seq<char>)>) -> Seq<char> {
    seq!['{'] + json_object_members(pairs) + seq!['}']
}

/// The view of a list of string pairs.
pub open spec fn pairs_view(pairs: Seq<(String, String)>) -> Seq<(Seq<char>, Seq<char>)> {
    pairs.map_values(|p: (String, String)| (p.0@, p.1@))
}

/// Whether no two members of an object share a name.
pub open spec fn keys_distinct(pairs: Seq<(Seq<char>, Seq<char>)>) -> bool {
    forall|i: int, j: int| 0 <= i < j < pairs.len() ==> #[trigger] pairs[i].0 != #[trigger] pairs[j].0
}

/// Writes an object of string members (no two with the same name) as
/// compact JSON text, members in the order given.
pub fn string_object_to_json(pairs: &Vec<(String, String)>) -> (r: String)
    requires
        keys_distinct(pairs_view(pairs@)),
    ensures
        r@ == json_object_text(pairs_view(pairs@)),
{
    let mut out = String::from_str("{");
    proof { reveal_strlit("{"); }
    assert(out@ =~= seq!['{']);
    let mut i: usize = 0;
    while i < pairs.len()
        invariant
            i <= pairs.len(),
            out@ =~= seq!['{'] + json_object_members(pairs_view(pairs@.take(i as int))),
        decreases pairs.len() - i,
    {
        if i > 0 {
            out.append(",");
            proof { reveal_strlit(","); }
        }
        let k = json_quote(pairs[i].0.as_str());
        let v = json_quote(pairs[i].1.as_str());
        out.append(k.as_str());
        out.append(":");
        proof { reveal_strlit(":"); }
        out.append(v.as_str());
        let ghost pv = pairs_view(pairs@.take(i + 1));
        assert(pv.drop_last() =~= pairs_view(pairs@.take(i as int)));
        assert(pv.last() == (pairs@[i as int].0@, pairs@[i as int].1@));
        i += 1;
    }
    out.append("}");
    proof { reveal_strlit("}"); }
    assert(pairs@.take(pairs.len() as int) =~= pairs@);
    out
}

} // verus!
