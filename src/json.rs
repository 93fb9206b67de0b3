use crate::text::str_eq;
use vstd::prelude::*;

verus! {

broadcast use {vstd::std_specs::vec::group_vec_axioms, vstd::seq::group_seq_axioms};

/// A JSON document as the pipeline reads it: a tagged union over the JSON
/// value kinds. An object keeps its members in the order given; a number keeps
/// its canonical decimal text.
#[derive(Debug)]
pub enum JsonValue {
    Null,
    Bool(bool),
    Number(String),
    String(String),
    Array(Vec<JsonValue>),
    Object(Vec<(String, JsonValue)>),
}

/// A lowercase hexadecimal digit.
pub open spec fn hex_digit(n: u32) -> char {
    if n < 10 {
        ((n + 0x30) as u8) as char
    } else {
        ((n - 10 + 0x61) as u8) as char
    }
}

/// How one character is written inside a JSON string literal: quote and
/// backslash are escaped; the control characters 0x08, 0x09, 0x0A, 0x0C and
/// 0x0D get their short escapes, the other control characters below 0x20 a
/// `\u00xx` escape in lowercase hex; every other character stands as it is.
pub open spec fn escaped(c: char) -> Seq<char> {
    let u = c as u32;
    if c == '"' {
        seq!['\\', '"']
    } else if c == '\\' {
        seq!['\\', '\\']
    } else if u == 0x08 {
        seq!['\\', 'b']
    } else if u == 0x09 {
        seq!['\\', 't']
    } else if u == 0x0A {
        seq!['\\', 'n']
    } else if u == 0x0C {
        seq!['\\', 'f']
    } else if u == 0x0D {
        seq!['\\', 'r']
    } else if u < 0x20 {
        seq!['\\', 'u', '0', '0', hex_digit(u / 16), hex_digit(u % 16)]
    } else {
        seq![c]
    }
}

/// The escaped characters of `s`, in order.
pub open spec fn escaped_all(s: Seq<char>) -> Seq<char>
    decreases s.len(),
{
    if s.len() == 0 {
        Seq::<char>::empty()
    } else {
        escaped_all(s.drop_last()) + escaped(s.last())
    }
}

/// The JSON string literal of `s`, as serde_json writes it.
pub open spec fn json_quoted(s: Seq<char>) -> Seq<char> {
    seq!['"'] + escaped_all(s) + seq!['"']
}

fn hex_digit_str(n: u32) -> (r: &'static str)
    requires
        n < 16,
    ensures
        r@ == seq![hex_digit(n)],
{
    match n {
        0 => { proof { reveal_strlit("0"); } "0" },
        1 => { proof { reveal_strlit("1"); } "1" },
        2 => { proof { reveal_strlit("2"); } "2" },
        3 => { proof { reveal_strlit("3"); } "3" },
        4 => { proof { reveal_strlit("4"); } "4" },
        5 => { proof { reveal_strlit("5"); } "5" },
        6 => { proof { reveal_strlit("6"); } "6" },
        7 => { proof { reveal_strlit("7"); } "7" },
        8 => { proof { reveal_strlit("8"); } "8" },
        9 => { proof { reveal_strlit("9"); } "9" },
        10 => { proof { reveal_strlit("a"); } "a" },
        11 => { proof { reveal_strlit("b"); } "b" },
        12 => { proof { reveal_strlit("c"); } "c" },
        13 => { proof { reveal_strlit("d"); } "d" },
        14 => { proof { reveal_strlit("e"); } "e" },
        _ => { proof { reveal_strlit("f"); } "f" },
    }
}

/// Appends the escaped form of `s@[i]` to `out`.
fn push_escaped(out: &mut String, s: &str, i: usize, n: usize)
    requires
        n == s@.len(),
        i < n,
    ensures
        final(out)@ == old(out)@ + escaped(s@[i as int]),
{
    let c = s.get_char(i);
    let u = c as u32;
    if c == '"' {
        proof { reveal_strlit("\\\""); }
        out.append("\\\"");
    } else if c == '\\' {
        proof { reveal_strlit("\\\\"); }
        out.append("\\\\");
    } else if u == 0x08 {
        proof { reveal_strlit("\\b"); }
        out.append("\\b");
    } else if u == 0x09 {
        proof { reveal_strlit("\\t"); }
        out.append("\\t");
    } else if u == 0x0A {
        proof { reveal_strlit("\\n"); }
        out.append("\\n");
    } else if u == 0x0C {
        proof { reveal_strlit("\\f"); }
        out.append("\\f");
    } else if u == 0x0D {
        proof { reveal_strlit("\\r"); }
        out.append("\\r");
    } else if u < 0x20 {
        proof { reveal_strlit("\\u00"); }
        out.append("\\u00");
        out.append(hex_digit_str(u / 16));
        out.append(hex_digit_str(u % 16));
    } else {
        let single = s.substring_char(i, i + 1);
        assert(single@ =~= seq![c]);
        out.append(single);
    }
}

/// The JSON string literal of `s`.
fn quote_json(s: &str) -> (r: String)
    ensures
        r@ == json_quoted(s@),
{
    let n = s.unicode_len();
    let mut out = "\"".to_string();
    proof { reveal_strlit("\""); }
    let mut i: usize = 0;
    while i < n
        invariant
            n == s@.len(),
            i <= n,
            out@ == seq!['"'] + escaped_all(s@.subrange(0, i as int)),
        decreases n - i,
    {
        push_escaped(&mut out, s, i, n);
        assert(s@.subrange(0, i + 1).drop_last() =~= s@.subrange(0, i as int));
        i = i + 1;
    }
    proof { reveal_strlit("\""); }
    out.append("\"");
    assert(s@.subrange(0, n as int) =~= s@);
    out
}

/// The value of the first member of `members` named `key`.
pub open spec fn lookup(members: Seq<(String, JsonValue)>, key: Seq<char>) -> Option<JsonValue>
    decreases members.len(),
{
    if members.len() == 0 {
        None
    } else if members[0].0@ == key {
        Some(members[0].1)
    } else {
        lookup(members.drop_first(), key)
    }
}

/// The canonical compact JSON text of a value.
pub open spec fn json_text(v: JsonValue) -> Seq<char>
    decreases v,
{
    match v {
        JsonValue::Null => seq!['n', 'u', 'l', 'l'],
        JsonValue::Bool(b) => if b {
            seq!['t', 'r', 'u', 'e']
        } else {
            seq!['f', 'a', 'l', 's', 'e']
        },
        JsonValue::Number(t) => t@,
        JsonValue::String(s) => json_quoted(s@),
        JsonValue::Array(items) => seq!['['] + items_text(items@) + seq![']'],
        JsonValue::Object(members) => seq!['{'] + members_text(members@) + seq!['}'],
    }
}

/// The texts of `items`, separated by commas.
pub open spec fn items_text(items: Seq<JsonValue>) -> Seq<char>
    decreases items,
{
    if items.len() == 0 {
        Seq::<char>::empty()
    } else if items.len() == 1 {
        json_text(items[0])
    } else {
        items_text(items.drop_last()) + seq![','] + json_text(items.last())
    }
}

/// The texts of `members` as `"name":value`, separated by commas.
pub open spec fn members_text(members: Seq<(String, JsonValue)>) -> Seq<char>
    decreases members,
{
    if members.len() == 0 {
        Seq::<char>::empty()
    } else if members.len() == 1 {
        json_quoted(members[0].0@) + seq![':'] + json_text(members[0].1)
    } else {
        members_text(members.drop_last()) + seq![','] + json_quoted(members.last().0@) + seq![
            ':',
        ] + json_text(members.last().1)
    }
}

/// A claim value as it is exposed: a string as it is, anything else as its JSON text.
pub open spec fn claim_text(v: JsonValue) -> Seq<char> {
    match v {
        JsonValue::String(s) => s@,
        _ => json_text(v),
    }
}

impl JsonValue {
    /// The member named `key` when this is an object that has one.
    pub open spec fn spec_get(&self, key: Seq<char>) -> Option<JsonValue> {
        match self {
            JsonValue::Object(members) => lookup(members@, key),
            _ => None,
        }
    }

    /// Looks a member up by name; the first member with that name wins.
    pub fn get(&self, key: &str) -> (r: Option<&JsonValue>)
        ensures
            match r {
                Some(v) => self.spec_get(key@) == Some(*v),
                None => self.spec_get(key@) is None,
            },
    {
        match self {
            JsonValue::Object(members) => {
                let mut i: usize = 0;
                assert(members@.subrange(0, members@.len() as int) =~= members@);
                while i < members.len()
                    invariant
                        *self == JsonValue::Object(*members),
                        i <= members@.len(),
                        lookup(members@, key@) == lookup(members@.subrange(i as int, members@.len() as int), key@),
                    decreases members@.len() - i,
                {
                    let ghost rest = members@.subrange(i as int, members@.len() as int);
                    assert(rest.drop_first() =~= members@.subrange(i + 1, members@.len() as int));
                    assert(rest[0] == members@[i as int]);
                    if str_eq(members[i].0.as_str(), key) {
                        assert(lookup(rest, key@) == Some(members@[i as int].1));
                        return Some(&members[i].1);
                    }
                    i = i + 1;
                }
                None
            },
            _ => None,
        }
    }

    /// The canonical compact JSON text of this value.
    pub fn to_json_text(&self) -> (r: String)
        ensures
            r@ == json_text(*self),
        decreases self,
    {
        match self {
            JsonValue::Null => {
                let r = "null".to_string();
                proof { reveal_strlit("null"); }
                r
            },
            JsonValue::Bool(b) => {
                if *b {
                    proof { reveal_strlit("true"); }
                    "true".to_string()
                } else {
                    proof { reveal_strlit("false"); }
                    "false".to_string()
                }
            },
            JsonValue::Number(t) => t.clone(),
            JsonValue::String(s) => quote_json(s.as_str()),
            JsonValue::Array(items) => {
                let mut out = "[".to_string();
                proof { reveal_strlit("["); reveal_strlit(","); reveal_strlit("]"); }
                let mut i: usize = 0;
                while i < items.len()
                    invariant
                        *self == JsonValue::Array(*items),
                        i <= items@.len(),
                        out@ == seq!['['] + items_text(items@.subrange(0, i as int)),
                    decreases items@.len() - i,
                {
                    proof { reveal_strlit(","); }
                    assert(decreases_to!(*self => (*self)->Array_0));
                    assert(decreases_to!(*items => items[i as int]));
                    let t = items[i].to_json_text();
                    let ghost pre = items@.subrange(0, i as int);
                    let ghost next = items@.subrange(0, i + 1);
                    assert(next.drop_last() =~= pre);
                    assert(next.last() == items@[i as int]);
                    assert(next[0] == items@[0]);
                    if i > 0 {
                        out.append(",");
                    }
                    out.append(t.as_str());
                    proof {
                        if i == 0 {
                            assert(pre =~= Seq::<JsonValue>::empty());
                        }
                    }
                    i = i + 1;
                }
                proof { reveal_strlit("]"); }
                out.append("]");
                assert(items@.subrange(0, items@.len() as int) =~= items@);
                out
            },
            JsonValue::Object(members) => {
                let mut out = "{".to_string();
                proof { reveal_strlit("{"); reveal_strlit(","); reveal_strlit(":"); reveal_strlit("}"); }
                let mut i: usize = 0;
                while i < members.len()
                    invariant
                        *self == JsonValue::Object(*members),
                        i <= members@.len(),
                        out@ == seq!['{'] + members_text(members@.subrange(0, i as int)),
                    decreases members@.len() - i,
                {
                    let name = quote_json(members[i].0.as_str());
                    proof { reveal_strlit(","); reveal_strlit(":"); }
                    assert(decreases_to!(*self => (*self)->Object_0));
                    assert(decreases_to!(*members => members[i as int]));
                    assert(decreases_to!(members[i as int] => members[i as int].1));
                    let t = members[i].1.to_json_text();
                    let ghost pre = members@.subrange(0, i as int);
                    let ghost next = members@.subrange(0, i + 1);
                    assert(next.drop_last() =~= pre);
                    assert(next.last() == members@[i as int]);
                    assert(next[0] == members@[0]);
                    if i > 0 {
                        out.append(",");
                    }
                    out.append(name.as_str());
                    out.append(":");
                    out.append(t.as_str());
                    proof {
                        if i == 0 {
                            assert(pre =~= Seq::<(String, JsonValue)>::empty());
                        }
                    }
                    i = i + 1;
                }
                proof { reveal_strlit("}"); }
                out.append("}");
                assert(members@.subrange(0, members@.len() as int) =~= members@);
                out
            },
        }
    }

    /// This value as a claim is exposed: a string as it is, anything else as its JSON text.
    pub fn to_claim_text(&self) -> (r: String)
        ensures
            r@ == claim_text(*self),
    {
        match self {
            JsonValue::String(s) => s.clone(),
            _ => self.to_json_text(),
        }
    }
}

} // verus!
