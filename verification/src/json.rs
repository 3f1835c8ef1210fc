use vstd::prelude::*;

use crate::text::{hex_char, int_text, push_hex_digit, push_int};

verus! {

/// An untyped JSON value as carried by a wire frame. Numbers are modelled as
/// signed 64-bit integers, the only numeric shape the dispatch pipeline
/// interprets; object fields keep their wire order.
pub enum JsonValue {
    Null,
    Bool(bool),
    Int(i64),
    Str(String),
    Arr(Vec<JsonValue>),
    Obj(Vec<(String, JsonValue)>),
}

/// The value bound to `key` in an object's field list: the first binding wins,
/// as it does for the deserializers this crate models.
pub open spec fn obj_get(fields: Seq<(String, JsonValue)>, key: Seq<char>) -> Option<JsonValue>
    decreases fields.len(),
{
    if fields.len() == 0 {
        None
    } else if fields[0].0@ == key {
        Some(fields[0].1)
    } else {
        obj_get(fields.skip(1), key)
    }
}

/// Looks `key` up in an object's field list, first binding first.
pub fn obj_lookup<'a>(fields: &'a Vec<(String, JsonValue)>, key: &String) -> (r: Option<
    &'a JsonValue,
>)
    ensures
        match r {
            Some(v) => obj_get(fields@, key@) == Some(*v),
            None => obj_get(fields@, key@) is None,
        },
{
    let mut i: usize = 0;
    proof {
        assert(fields@.skip(0) =~= fields@);
    }
    while i < fields.len()
        invariant
            i <= fields.len(),
            obj_get(fields@, key@) == obj_get(fields@.skip(i as int), key@),
        decreases fields.len() - i,
    {
        proof {
            assert(fields@.skip(i as int)[0] == fields@[i as int]);
            assert(fields@.skip(i as int).skip(1) =~= fields@.skip(i + 1));
        }
        if fields[i].0.eq(key) {
            proof {
                assert(obj_get(fields@.skip(i as int), key@) == Some(fields@[i as int].1));
            }
            return Some(&fields[i].1);
        }
        i += 1;
    }
    proof {
        assert(fields@.skip(i as int) =~= Seq::<(String, JsonValue)>::empty());
    }
    None
}

impl JsonValue {
    /// Looks `key` up in an object value; `None` on any other shape of value
    /// or when the key is absent.
    pub fn get<'a>(&'a self, key: &str) -> (r: Option<&'a JsonValue>)
        ensures
            match self {
                JsonValue::Obj(fields) => match r {
                    Some(v) => obj_get(fields@, key@) == Some(*v),
                    None => obj_get(fields@, key@) is None,
                },
                _ => r is None,
            },
    {
        match self {
            JsonValue::Obj(fields) => {
                let k = String::from_str(key);
                obj_lookup(fields, &k)
            },
            _ => None,
        }
    }

    /// True on the object shape of value, the only shape a request body may
    /// take.
    pub fn is_object(&self) -> (r: bool)
        ensures
            r == (self is Obj),
    {
        match self {
            JsonValue::Obj(_) => true,
            _ => false,
        }
    }
}

/// One character of a JSON string, escaped as the compact serializer writes
/// it: the quote and the backslash get a backslash, the named control
/// characters their short escapes, any other control character a `\u00xx`
/// escape with lower-case hex digits, and everything else stands as itself.
pub open spec fn escape_char(c: char) -> Seq<char> {
    if c == '"' {
        seq!['\\', '"']
    } else if c == '\\' {
        seq!['\\', '\\']
    } else if c == '\u{8}' {
        seq!['\\', 'b']
    } else if c == '\t' {
        seq!['\\', 't']
    } else if c == '\n' {
        seq!['\\', 'n']
    } else if c == '\u{c}' {
        seq!['\\', 'f']
    } else if c == '\r' {
        seq!['\\', 'r']
    } else if (c as u32) < 32 {
        seq!['\\', 'u', '0', '0', hex_char((c as u32 / 16) as nat), hex_char(
            (c as u32 % 16) as nat,
        )]
    } else {
        seq![c]
    }
}

/// The characters of a JSON string body, escaped.
pub open spec fn escape_str(s: Seq<char>) -> Seq<char>
    decreases s.len(),
{
    if s.len() == 0 {
        Seq::empty()
    } else {
        escape_char(s[0]) + escape_str(s.skip(1))
    }
}

/// The compact JSON text of a value, as a serializer writes it: no spaces,
/// string bodies escaped, object keys quoted.
pub open spec fn json_text(v: JsonValue) -> Seq<char>
    decreases v, 1int, 0int,
{
    match v {
        JsonValue::Null => "null"@,
        JsonValue::Bool(b) => if b {
            "true"@
        } else {
            "false"@
        },
        JsonValue::Int(i) => int_text(i as int),
        JsonValue::Str(s) => seq!['"'] + escape_str(s@) + seq!['"'],
        JsonValue::Arr(items) => seq!['['] + arr_text(items@) + seq![']'],
        JsonValue::Obj(fields) => seq!['{'] + obj_text(fields@) + seq!['}'],
    }
}

/// The comma-separated texts of an array's items.
pub open spec fn arr_text(items: Seq<JsonValue>) -> Seq<char>
    decreases items, 1int, 0int,
{
    if items.len() == 0 {
        Seq::empty()
    } else if items.len() == 1 {
        json_text(items[0])
    } else {
        json_text(items[0]) + seq![','] + arr_text(items.skip(1))
    }
}

/// The comma-separated `"key":value` texts of an object's fields.
pub open spec fn obj_text(fields: Seq<(String, JsonValue)>) -> Seq<char>
    decreases fields, 1int, 0int,
{
    if fields.len() == 0 {
        Seq::empty()
    } else if fields.len() == 1 {
        entry_text(fields[0])
    } else {
        entry_text(fields[0]) + seq![','] + obj_text(fields.skip(1))
    }
}

/// The `"key":value` text of one object field.
pub open spec fn entry_text(field: (String, JsonValue)) -> Seq<char>
    decreases field, 1int, 1int,
{
    seq!['"'] + escape_str(field.0@) + seq!['"', ':'] + json_text(field.1)
}

/// Escaping one more character at the end appends that character's escape.
proof fn lemma_escape_snoc(s: Seq<char>, c: char)
    ensures
        escape_str(s.push(c)) == escape_str(s) + escape_char(c),
    decreases s.len(),
{
    if s.len() == 0 {
        assert(s.push(c)[0] == c);
        assert(s.push(c).skip(1) =~= Seq::<char>::empty());
        assert(escape_str(s.push(c)) == escape_char(c) + escape_str(s.push(c).skip(1)));
        assert(escape_str(s.push(c)) =~= escape_str(s) + escape_char(c));
    } else {
        assert(s.push(c)[0] == s[0]);
        assert(s.push(c).skip(1) =~= s.skip(1).push(c));
        lemma_escape_snoc(s.skip(1), c);
        assert(escape_str(s.push(c)) == escape_char(s[0]) + escape_str(s.skip(1).push(c)));
        assert(escape_str(s.push(c)) =~= escape_str(s) + escape_char(c));
    }
}

/// Rendering one more item at the end appends a comma (after a first item)
/// and the item's text.
proof fn lemma_arr_text_snoc(items: Seq<JsonValue>, x: JsonValue)
    ensures
        arr_text(items.push(x)) == if items.len() == 0 {
            json_text(x)
        } else {
            arr_text(items) + seq![','] + json_text(x)
        },
    decreases items.len(),
{
    if items.len() == 0 {
        assert(items.push(x)[0] == x);
        assert(arr_text(items.push(x)) == json_text(x));
    } else {
        assert(items.push(x)[0] == items[0]);
        assert(items.push(x).skip(1) =~= items.skip(1).push(x));
        lemma_arr_text_snoc(items.skip(1), x);
        if items.len() == 1 {
            assert(items.skip(1) =~= Seq::<JsonValue>::empty());
            assert(arr_text(items.push(x)) =~= arr_text(items) + seq![','] + json_text(x));
        } else {
            assert(arr_text(items.push(x)) =~= arr_text(items) + seq![','] + json_text(x));
        }
    }
}

/// Rendering one more field at the end appends a comma (after a first field)
/// and the field's text.
proof fn lemma_obj_text_snoc(fields: Seq<(String, JsonValue)>, x: (String, JsonValue))
    ensures
        obj_text(fields.push(x)) == if fields.len() == 0 {
            entry_text(x)
        } else {
            obj_text(fields) + seq![','] + entry_text(x)
        },
    decreases fields.len(),
{
    if fields.len() == 0 {
        assert(fields.push(x)[0] == x);
        assert(obj_text(fields.push(x)) == entry_text(x));
    } else {
        assert(fields.push(x)[0] == fields[0]);
        assert(fields.push(x).skip(1) =~= fields.skip(1).push(x));
        lemma_obj_text_snoc(fields.skip(1), x);
        if fields.len() == 1 {
            assert(fields.skip(1) =~= Seq::<(String, JsonValue)>::empty());
            assert(obj_text(fields.push(x)) =~= obj_text(fields) + seq![','] + entry_text(x));
        } else {
            assert(obj_text(fields.push(x)) =~= obj_text(fields) + seq![','] + entry_text(x));
        }
    }
}

/// Appends the escaped body of `s` to `out`.
fn push_escaped(s: &str, out: &mut String)
    ensures
        final(out)@ == old(out)@ + escape_str(s@),
{
    let n = s.unicode_len();
    let mut i: usize = 0;
    proof {
        assert(s@.subrange(0, 0) =~= Seq::<char>::empty());
        assert(old(out)@ + escape_str(s@.subrange(0, 0)) =~= old(out)@);
    }
    while i < n
        invariant
            n == s@.len(),
            i <= n,
            out@ == old(out)@ + escape_str(s@.subrange(0, i as int)),
        decreases n - i,
    {
        let c = s.get_char(i);
        let ghost before = out@;
        if c == '"' {
            out.push('\\');
            out.push('"');
        } else if c == '\\' {
            out.push('\\');
            out.push('\\');
        } else if c == '\u{8}' {
            out.push('\\');
            out.push('b');
        } else if c == '\t' {
            out.push('\\');
            out.push('t');
        } else if c == '\n' {
            out.push('\\');
            out.push('n');
        } else if c == '\u{c}' {
            out.push('\\');
            out.push('f');
        } else if c == '\r' {
            out.push('\\');
            out.push('r');
        } else if (c as u32) < 32 {
            out.push('\\');
            out.push('u');
            out.push('0');
            out.push('0');
            push_hex_digit((c as u32) / 16, &mut *out);
            push_hex_digit((c as u32) % 16, &mut *out);
        } else {
            out.push(c);
        }
        proof {
            assert(out@ =~= before + escape_char(c));
            lemma_escape_snoc(s@.subrange(0, i as int), c);
            assert(s@.subrange(0, i + 1) =~= s@.subrange(0, i as int).push(c));
            assert(out@ =~= old(out)@ + escape_str(s@.subrange(0, i + 1)));
        }
        i += 1;
    }
    proof {
        assert(s@.subrange(0, i as int) =~= s@);
    }
}

/// Appends the compact JSON text of `v` to `out`.
pub fn push_json(v: &JsonValue, out: &mut String)
    ensures
        final(out)@ == old(out)@ + json_text(*v),
    decreases v, 2int, 0int,
{
    match v {
        JsonValue::Null => {
            proof {
                reveal_strlit("null");
            }
            out.append("null");
        },
        JsonValue::Bool(b) => {
            proof {
                reveal_strlit("true");
                reveal_strlit("false");
            }
            if *b {
                out.append("true");
            } else {
                out.append("false");
            }
        },
        JsonValue::Int(i) => {
            push_int(*i, out);
        },
        JsonValue::Str(s) => {
            out.push('"');
            push_escaped(s.as_str(), &mut *out);
            out.push('"');
            proof {
                assert(out@ =~= old(out)@ + (seq!['"'] + escape_str(s@) + seq!['"']));
            }
        },
        JsonValue::Arr(items) => {
            out.push('[');
            let ghost base = out@;
            let mut i: usize = 0;
            proof {
                assert(items@.subrange(0, 0) =~= Seq::<JsonValue>::empty());
                assert(base + arr_text(items@.subrange(0, 0)) =~= base);
            }
            while i < items.len()
                invariant
                    i <= items.len(),
                    *v == JsonValue::Arr(*items),
                    out@ == base + arr_text(items@.subrange(0, i as int)),
                decreases items.len() - i,
            {
                proof {
                    assert(decreases_to!(*v => v->Arr_0));
                    assert(v->Arr_0 == *items);
                    assert(decreases_to!(*items => items@));
                    assert(decreases_to!(items@ => items@[i as int]));
                }
                if i > 0 {
                    out.push(',');
                }
                push_json(&items[i], &mut *out);
                proof {
                    lemma_arr_text_snoc(items@.subrange(0, i as int), items@[i as int]);
                    assert(items@.subrange(0, i + 1) =~= items@.subrange(0, i as int).push(
                        items@[i as int],
                    ));
                    assert(out@ =~= base + arr_text(items@.subrange(0, i + 1)));
                }
                i += 1;
            }
            out.push(']');
            proof {
                assert(items@.subrange(0, i as int) =~= items@);
                assert(out@ =~= old(out)@ + (seq!['['] + arr_text(items@) + seq![']']));
            }
        },
        JsonValue::Obj(fields) => {
            out.push('{');
            let ghost base = out@;
            let mut i: usize = 0;
            proof {
                assert(fields@.subrange(0, 0) =~= Seq::<(String, JsonValue)>::empty());
                assert(base + obj_text(fields@.subrange(0, 0)) =~= base);
            }
            while i < fields.len()
                invariant
                    i <= fields.len(),
                    *v == JsonValue::Obj(*fields),
                    out@ == base + obj_text(fields@.subrange(0, i as int)),
                decreases fields.len() - i,
            {
                proof {
                    assert(decreases_to!(*v => v->Obj_0));
                    assert(v->Obj_0 == *fields);
                    assert(decreases_to!(*fields => fields@));
                    assert(decreases_to!(fields@ => fields@[i as int]));
                    assert(decreases_to!(fields@[i as int] => fields@[i as int].1));
                }
                if i > 0 {
                    out.push(',');
                }
                let ghost mid = out@;
                out.push('"');
                push_escaped(fields[i].0.as_str(), &mut *out);
                out.push('"');
                out.push(':');
                push_json(&fields[i].1, &mut *out);
                proof {
                    assert(out@ =~= mid + entry_text(fields@[i as int]));
                    lemma_obj_text_snoc(fields@.subrange(0, i as int), fields@[i as int]);
                    assert(fields@.subrange(0, i + 1) =~= fields@.subrange(0, i as int).push(
                        fields@[i as int],
                    ));
                    assert(out@ =~= base + obj_text(fields@.subrange(0, i + 1)));
                }
                i += 1;
            }
            out.push('}');
            proof {
                assert(fields@.subrange(0, i as int) =~= fields@);
                assert(out@ =~= old(out)@ + (seq!['{'] + obj_text(fields@) + seq!['}']));
            }
        },
    }
}

/// The compact JSON text of `v` as an owned string.
pub fn render_json(v: &JsonValue) -> (r: String)
    ensures
        r@ == json_text(*v),
{
    let mut s = String::new();
    push_json(v, &mut s);
    proof {
        assert(Seq::<char>::empty() + json_text(*v) =~= json_text(*v));
    }
    s
}

} // verus!
