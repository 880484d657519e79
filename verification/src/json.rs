//! A JSON value model with the lookups the protocol logic needs and a
//! serializer for outbound frames.

use crate::text::{push_char, str_eq};
use vstd::string::*;
use vstd::prelude::*;

verus! {

/// A JSON value. Numbers keep their source text; object members keep their
/// order.
#[derive(Debug)]
pub enum JsonValue {
    /// `null`.
    Null,
    /// `true` or `false`.
    Bool(bool),
    /// A number, as written.
    Number(String),
    /// A string.
    Str(String),
    /// An array.
    Array(Vec<JsonValue>),
    /// An object, as its members in order.
    Object(Vec<JsonMember>),
}

/// One member of a JSON object.
#[derive(Debug)]
pub struct JsonMember {
    /// The member name.
    pub key: String,
    /// The member value.
    pub value: JsonValue,
}

/// The first member named `key`, if `v` is an object that has one.
pub open spec fn spec_get(v: JsonValue, key: Seq<char>) -> Option<JsonValue> {
    match v {
        JsonValue::Object(members) => first_member(members@, key),
        _ => None,
    }
}

/// The value of the first member named `key`.
pub open spec fn first_member(members: Seq<JsonMember>, key: Seq<char>) -> Option<
    JsonValue,
>
    decreases members.len(),
{
    if members.len() == 0 {
        None
    } else if members[0].key@ == key {
        Some(members[0].value)
    } else {
        first_member(members.drop_first(), key)
    }
}

/// The text of a string value.
pub open spec fn spec_as_str(v: JsonValue) -> Option<Seq<char>> {
    match v {
        JsonValue::Str(s) => Some(s@),
        _ => None,
    }
}

/// The string member `key` of an object, if present and a string.
pub open spec fn spec_get_str(v: Option<JsonValue>, key: Seq<char>) -> Option<Seq<char>> {
    match v {
        Some(o) => match spec_get(o, key) {
            Some(m) => spec_as_str(m),
            None => None,
        },
        None => None,
    }
}

/// The boolean member `key` of an object, if present and a boolean.
pub open spec fn spec_get_bool(v: JsonValue, key: Seq<char>) -> Option<bool> {
    match spec_get(v, key) {
        Some(JsonValue::Bool(b)) => Some(b),
        _ => None,
    }
}

impl JsonValue {
    /// The first member named `key`, if this is an object that has one.
    pub fn get(&self, key: &str) -> (r: Option<&JsonValue>)
        ensures
            match r {
                Some(x) => spec_get(*self, key@) == Some(*x),
                None => spec_get(*self, key@) is None,
            },
    {
        match self {
            JsonValue::Object(members) => {
                let mut i: usize = 0;
                assert(members@.subrange(0, members@.len() as int) =~= members@);
                while i < members.len()
                    invariant
                        i <= members.len(),
                        *self == JsonValue::Object(*members),
                        first_member(members@, key@) == first_member(
                            members@.subrange(i as int, members@.len() as int),
                            key@,
                        ),
                    decreases members.len() - i,
                {
                    let ghost rest = members@.subrange(i as int, members@.len() as int);
                    assert(rest[0] == members@[i as int]);
                    assert(rest.drop_first() =~= members@.subrange(i + 1, members@.len() as int));
                    if str_eq(members[i].key.as_str(), key) {
                        assert(first_member(rest, key@) == Some(members@[i as int].value));
                        return Some(&members[i].value);
                    }
                    i = i + 1;
                }
                None
            },
            _ => None,
        }
    }

    /// The text, if this is a string.
    pub fn as_str(&self) -> (r: Option<&str>)
        ensures
            match r {
                Some(s) => spec_as_str(*self) == Some(s@),
                None => spec_as_str(*self) is None,
            },
    {
        match self {
            JsonValue::Str(s) => Some(s.as_str()),
            _ => None,
        }
    }

    /// The value, if this is a boolean.
    pub fn as_bool(&self) -> (r: Option<bool>)
        ensures
            r == (match *self {
                JsonValue::Bool(b) => Some(b),
                _ => None,
            }),
    {
        match self {
            JsonValue::Bool(b) => Some(*b),
            _ => None,
        }
    }

    /// The elements, if this is an array.
    pub fn as_array(&self) -> (r: Option<&Vec<JsonValue>>)
        ensures
            match r {
                Some(a) => *self == JsonValue::Array(*a),
                None => !(*self is Array),
            },
    {
        match self {
            JsonValue::Array(a) => Some(a),
            _ => None,
        }
    }

    /// Whether this is an object.
    pub fn is_object(&self) -> (r: bool)
        ensures
            r == (*self is Object),
    {
        match self {
            JsonValue::Object(_) => true,
            _ => false,
        }
    }
}

/// The hexadecimal digit (lowercase) for a value below sixteen.
pub open spec fn hex_char(d: nat) -> char {
    if d < 10 {
        crate::text::digit_char(d)
    } else if d == 10 {
        'a'
    } else if d == 11 {
        'b'
    } else if d == 12 {
        'c'
    } else if d == 13 {
        'd'
    } else if d == 14 {
        'e'
    } else {
        'f'
    }
}

/// How one character is written inside a JSON string: quote and backslash
/// are escaped, control characters use their short escape or `\u00XX`,
/// everything else is written as is.
pub open spec fn escape_char(c: char) -> Seq<char> {
    if c == '"' {
        seq!['\\', '"']
    } else if c == '\\' {
        seq!['\\', '\\']
    } else if c == '\n' {
        seq!['\\', 'n']
    } else if c == '\r' {
        seq!['\\', 'r']
    } else if c == '\t' {
        seq!['\\', 't']
    } else if c == '\x08' {
        seq!['\\', 'b']
    } else if c == '\x0c' {
        seq!['\\', 'f']
    } else if (c as u32) < 0x20 {
        seq!['\\', 'u', '0', '0', hex_char((c as u32 / 16) as nat), hex_char((c as u32 % 16) as nat)]
    } else {
        seq![c]
    }
}

/// The escaped body of a JSON string.
pub open spec fn escaped(s: Seq<char>) -> Seq<char>
    decreases s.len(),
{
    if s.len() == 0 {
        Seq::empty()
    } else {
        escaped(s.drop_last()) + escape_char(s.last())
    }
}

/// A JSON string literal for `s`.
pub open spec fn quoted(s: Seq<char>) -> Seq<char> {
    seq!['"'] + escaped(s) + seq!['"']
}

/// The compact JSON text of a value (no whitespace, members in order).
pub open spec fn json_text(v: JsonValue) -> Seq<char>
    decreases v,
{
    match v {
        JsonValue::Null => seq!['n', 'u', 'l', 'l'],
        JsonValue::Bool(b) => if b {
            seq!['t', 'r', 'u', 'e']
        } else {
            seq!['f', 'a', 'l', 's', 'e']
        },
        JsonValue::Number(n) => n@,
        JsonValue::Str(s) => quoted(s@),
        JsonValue::Array(items) => seq!['['] + items_text(items@) + seq![']'],
        JsonValue::Object(members) => seq!['{'] + members_text(members@) + seq!['}'],
    }
}

/// Array elements separated by commas.
pub open spec fn items_text(items: Seq<JsonValue>) -> Seq<char>
    decreases items,
{
    if items.len() == 0 {
        Seq::empty()
    } else if items.len() == 1 {
        json_text(items[0])
    } else {
        items_text(items.drop_last()) + seq![','] + json_text(items.last())
    }
}

/// Object members `"key":value` separated by commas.
pub open spec fn members_text(members: Seq<JsonMember>) -> Seq<char>
    decreases members,
{
    if members.len() == 0 {
        Seq::empty()
    } else if members.len() == 1 {
        quoted(members[0].key@) + seq![':'] + json_text(members[0].value)
    } else {
        members_text(members.drop_last()) + seq![','] + quoted(members.last().key@) + seq![':']
            + json_text(members.last().value)
    }
}

fn hex_digit(d: u32) -> (c: char)
    requires
        d < 16,
    ensures
        c == hex_char(d as nat),
{
    if d < 10 {
        crate::text::digit_char_exec(d)
    } else if d == 10 {
        'a'
    } else if d == 11 {
        'b'
    } else if d == 12 {
        'c'
    } else if d == 13 {
        'd'
    } else if d == 14 {
        'e'
    } else {
        'f'
    }
}

/// Appends the escaped form of one character.
pub fn push_escaped_char(out: &mut String, c: char)
    ensures
        final(out)@ == old(out)@ + escape_char(c),
{
    if c == '"' {
        push_char(out, '\\');
        push_char(out, '"');
    } else if c == '\\' {
        push_char(out, '\\');
        push_char(out, '\\');
    } else if c == '\n' {
        push_char(out, '\\');
        push_char(out, 'n');
    } else if c == '\r' {
        push_char(out, '\\');
        push_char(out, 'r');
    } else if c == '\t' {
        push_char(out, '\\');
        push_char(out, 't');
    } else if c == '\x08' {
        push_char(out, '\\');
        push_char(out, 'b');
    } else if c == '\x0c' {
        push_char(out, '\\');
        push_char(out, 'f');
    } else if (c as u32) < 0x20 {
        push_char(out, '\\');
        push_char(out, 'u');
        push_char(out, '0');
        push_char(out, '0');
        push_char(out, hex_digit(c as u32 / 16));
        push_char(out, hex_digit(c as u32 % 16));
    } else {
        push_char(out, c);
    }
    assert(final(out)@ =~= old(out)@ + escape_char(c));
}

/// Appends `s` as a JSON string literal.
pub fn push_quoted(out: &mut String, s: &str)
    ensures
        final(out)@ == old(out)@ + quoted(s@),
{
    let ghost start = out@;
    push_char(out, '"');
    let n = s.unicode_len();
    let mut i: usize = 0;
    while i < n
        invariant
            i <= n,
            n == s@.len(),
            out@ == start + seq!['"'] + escaped(s@.take(i as int)),
        decreases n - i,
    {
        let c = s.get_char(i);
        push_escaped_char(out, c);
        proof {
            assert(s@.take(i + 1).drop_last() =~= s@.take(i as int));
            assert(s@.take(i + 1).last() == c);
        }
        i = i + 1;
    }
    push_char(out, '"');
    proof {
        assert(s@.take(n as int) =~= s@);
        assert(out@ =~= start + quoted(s@));
    }
}

/// Appends the compact JSON text of `v`.
pub fn write_json(v: &JsonValue, out: &mut String)
    ensures
        final(out)@ == old(out)@ + json_text(*v),
    decreases *v,
{
    match v {
        JsonValue::Null => {
            out.append("null");
            proof {
                reveal_strlit("null");
            }
        },
        JsonValue::Bool(b) => {
            if *b {
                out.append("true");
                proof {
                    reveal_strlit("true");
                }
            } else {
                out.append("false");
                proof {
                    reveal_strlit("false");
                }
            }
        },
        JsonValue::Number(n) => {
            out.append(n.as_str());
        },
        JsonValue::Str(s) => {
            push_quoted(out, s.as_str());
        },
        JsonValue::Array(items) => {
            push_char(out, '[');
            write_items(items, out);
            push_char(out, ']');
            assert(final(out)@ =~= old(out)@ + json_text(*v));
        },
        JsonValue::Object(members) => {
            push_char(out, '{');
            write_members(members, out);
            push_char(out, '}');
            assert(final(out)@ =~= old(out)@ + json_text(*v));
        },
    }
}

fn write_items(items: &Vec<JsonValue>, out: &mut String)
    ensures
        final(out)@ == old(out)@ + items_text(items@),
    decreases items@,
{
    let ghost start = out@;
    let mut i: usize = 0;
    while i < items.len()
        invariant
            i <= items.len(),
            out@ == start + items_text(items@.take(i as int)),
        decreases items.len() - i,
    {
        let ghost before = out@;
        if i > 0 {
            push_char(out, ',');
        }
        assert(decreases_to!(items@ => items@[i as int]));
        write_json(&items[i], out);
        proof {
            assert(items@.take(i + 1).drop_last() =~= items@.take(i as int));
            assert(items@.take(i + 1).last() == items@[i as int]);
            if i == 0 {
                assert(items@.take(1) =~= seq![items@[0]]);
            }
            assert(out@ =~= start + items_text(items@.take(i + 1)));
        }
        i = i + 1;
    }
    proof {
        assert(items@.take(items.len() as int) =~= items@);
    }
}

fn write_members(members: &Vec<JsonMember>, out: &mut String)
    ensures
        final(out)@ == old(out)@ + members_text(members@),
    decreases members@,
{
    let ghost start = out@;
    let mut i: usize = 0;
    while i < members.len()
        invariant
            i <= members.len(),
            out@ == start + members_text(members@.take(i as int)),
        decreases members.len() - i,
    {
        if i > 0 {
            push_char(out, ',');
        }
        push_quoted(out, members[i].key.as_str());
        push_char(out, ':');
        assert(decreases_to!(members@ => members@[i as int].value));
        write_json(&members[i].value, out);
        proof {
            assert(members@.take(i + 1).drop_last() =~= members@.take(i as int));
            assert(members@.take(i + 1).last() == members@[i as int]);
            if i == 0 {
                assert(members@.take(1) =~= seq![members@[0]]);
            }
            assert(out@ =~= start + members_text(members@.take(i + 1)));
        }
        i = i + 1;
    }
    proof {
        assert(members@.take(members.len() as int) =~= members@);
    }
}

/// The compact JSON text of `v` as a new string.
pub fn to_json_text(v: &JsonValue) -> (s: String)
    ensures
        s@ == json_text(*v),
{
    let mut s = String::new();
    write_json(v, &mut s);
    s
}

/// Parts separated by commas.
pub open spec fn joined(parts: Seq<Seq<char>>) -> Seq<char>
    decreases parts.len(),
{
    if parts.len() == 0 {
        Seq::empty()
    } else if parts.len() == 1 {
        parts[0]
    } else {
        joined(parts.drop_last()) + seq![','] + parts.last()
    }
}

/// The text of one object member.
pub open spec fn member_text(m: JsonMember) -> Seq<char> {
    field_text(m.key@, json_text(m.value))
}

/// `"key":value_text`.
pub open spec fn field_text(key: Seq<char>, value_text: Seq<char>) -> Seq<char> {
    quoted(key) + seq![':'] + value_text
}

/// An object whose member texts are `parts`.
pub open spec fn object_text(parts: Seq<Seq<char>>) -> Seq<char> {
    seq!['{'] + joined(parts) + seq!['}']
}

/// An array of string literals.
pub open spec fn string_array_text(v: Seq<Seq<char>>) -> Seq<char> {
    seq!['['] + joined(v.map_values(|s: Seq<char>| quoted(s))) + seq![']']
}

/// The text of `true`.
pub open spec fn true_text() -> Seq<char> {
    seq!['t', 'r', 'u', 'e']
}

/// Member lists render as their member texts joined by commas.
pub proof fn lemma_members_text(ms: Seq<JsonMember>)
    ensures
        members_text(ms) == joined(ms.map_values(|m: JsonMember| member_text(m))),
    decreases ms.len(),
{
    if ms.len() > 1 {
        lemma_members_text(ms.drop_last());
        assert(ms.drop_last().map_values(|m: JsonMember| member_text(m)) =~= ms.map_values(
            |m: JsonMember| member_text(m),
        ).drop_last());
    }
}

/// Element lists render as their element texts joined by commas.
pub proof fn lemma_items_text(items: Seq<JsonValue>)
    ensures
        items_text(items) == joined(items.map_values(|v: JsonValue| json_text(v))),
    decreases items.len(),
{
    if items.len() > 1 {
        lemma_items_text(items.drop_last());
        assert(items.drop_last().map_values(|v: JsonValue| json_text(v)) =~= items.map_values(
            |v: JsonValue| json_text(v),
        ).drop_last());
    }
}

/// A string value.
pub fn str_value(s: &str) -> (v: JsonValue)
    ensures
        json_text(v) == quoted(s@),
        v matches JsonValue::Str(t) && t@ == s@,
{
    JsonValue::Str(String::from_str(s))
}

/// `true`.
pub fn true_value() -> (v: JsonValue)
    ensures
        json_text(v) == true_text(),
        v == JsonValue::Bool(true),
{
    JsonValue::Bool(true)
}

/// An array of string values.
pub fn string_array(v: &Vec<String>) -> (a: JsonValue)
    ensures
        json_text(a) == string_array_text(crate::models::strings_view(v@)),
{
    let mut items: Vec<JsonValue> = Vec::new();
    let mut i: usize = 0;
    let ghost sv = crate::models::strings_view(v@);
    while i < v.len()
        invariant
            i <= v.len(),
            sv == crate::models::strings_view(v@),
            items@.map_values(|x: JsonValue| json_text(x)) == sv.take(i as int).map_values(
                |s: Seq<char>| quoted(s),
            ),
        decreases v.len() - i,
    {
        let x = str_value(v[i].as_str());
        let ghost before = items@;
        items.push(x);
        proof {
            assert(items@ =~= before.push(x));
            assert(items@.map_values(|x: JsonValue| json_text(x)) =~= before.map_values(
                |x: JsonValue| json_text(x),
            ).push(json_text(x)));
            assert(sv.take(i + 1) =~= sv.take(i as int).push(sv[i as int]));
            assert(sv.take(i + 1).map_values(|s: Seq<char>| quoted(s)) =~= sv.take(
                i as int,
            ).map_values(|s: Seq<char>| quoted(s)).push(quoted(sv[i as int])));
        }
        i = i + 1;
    }
    proof {
        assert(sv.take(v.len() as int) =~= sv);
        lemma_items_text(items@);
    }
    JsonValue::Array(items)
}

/// An object member.
pub fn member(key: &str, value: JsonValue) -> (m: JsonMember)
    ensures
        member_text(m) == field_text(key@, json_text(value)),
        m.key@ == key@,
        m.value == value,
{
    JsonMember { key: String::from_str(key), value }
}

/// An object with the given members, in order.
pub fn object(members: Vec<JsonMember>) -> (v: JsonValue)
    ensures
        json_text(v) == object_text(members@.map_values(|m: JsonMember| member_text(m))),
        v == JsonValue::Object(members),
{
    proof {
        lemma_members_text(members@);
    }
    JsonValue::Object(members)
}

} // verus!
