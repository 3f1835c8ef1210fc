use vstd::prelude::*;

use crate::json::{obj_get, obj_lookup, JsonValue};
use crate::schema::{camel_case, camel_of, EndpointSchema, Field, Type};
use crate::text::{dec_str, push_dec};

verus! {

/// Prefixes a relative mismatch path with the step that led into it, in the
/// dotted/indexed style of a path-tracking deserializer: an empty relative
/// path points at the step itself, an index step needs no dot.
pub open spec fn join_path(step: Seq<char>, rel: Seq<char>) -> Seq<char> {
    if rel.len() == 0 {
        step
    } else if rel[0] == '[' {
        step + rel
    } else {
        step + seq!['.'] + rel
    }
}

/// The bracketed decimal rendering of an array index.
pub open spec fn index_step(i: nat) -> Seq<char> {
    seq!['['] + dec_str(i) + seq![']']
}

/// The path of the first place where `v` does not have the shape `t` asks
/// for, relative to `v` itself; `None` when `v` matches. An empty path means
/// the mismatch is `v` itself. A field typed `Object` or `StructRef` is
/// opaque to this check — any value passes it, and its inside is the
/// handler's to interpret.
pub open spec fn mismatch(t: Type, v: JsonValue) -> Option<Seq<char>>
    decreases t, 1int, 0int,
{
    match t {
        Type::Boolean => if v is Bool { None } else { Some(Seq::empty()) },
        Type::Text => if v is Str { None } else { Some(Seq::empty()) },
        Type::UUID => if v is Str { None } else { Some(Seq::empty()) },
        Type::Inet => if v is Str { None } else { Some(Seq::empty()) },
        Type::EnumRef(_) => if v is Str { None } else { Some(Seq::empty()) },
        Type::Enum { .. } => if v is Str { None } else { Some(Seq::empty()) },
        Type::BlockchainDecimal => if v is Str { None } else { Some(Seq::empty()) },
        Type::BlockchainAddress => if v is Str { None } else { Some(Seq::empty()) },
        Type::BlockchainTransactionHash => if v is Str { None } else { Some(Seq::empty()) },
        Type::Int => match v {
            JsonValue::Int(i) => if -0x8000_0000 <= i <= 0x7fff_ffff {
                None
            } else {
                Some(Seq::empty())
            },
            _ => Some(Seq::empty()),
        },
        Type::Date => match v {
            JsonValue::Int(i) => if 0 <= i <= 0xffff_ffff {
                None
            } else {
                Some(Seq::empty())
            },
            _ => Some(Seq::empty()),
        },
        Type::BigInt => if v is Int { None } else { Some(Seq::empty()) },
        Type::TimeStampMs => if v is Int { None } else { Some(Seq::empty()) },
        Type::Numeric => if v is Int { None } else { Some(Seq::empty()) },
        Type::Unit => if v is Null { None } else { Some(Seq::empty()) },
        Type::Object => None,
        Type::StructRef(_) => None,
        Type::Optional(inner) => if v is Null {
            None
        } else {
            mismatch(*inner, v)
        },
        Type::List(elem) => match v {
            JsonValue::Arr(items) => list_mismatch(*elem, items@, 0),
            _ => Some(Seq::empty()),
        },
        Type::Bytea => match v {
            JsonValue::Arr(items) => bytes_mismatch(items@, 0),
            _ => Some(Seq::empty()),
        },
        Type::Struct { name: _, fields } => match v {
            JsonValue::Obj(obj) => fields_mismatch(fields@, obj@),
            _ => Some(Seq::empty()),
        },
        Type::DataTable { name: _, fields } => match v {
            JsonValue::Arr(rows) => rows_mismatch(fields@, rows@, 0),
            _ => Some(Seq::empty()),
        },
    }
}

/// The first mismatch among `fields` of an object with bindings `obj`: a
/// required field that is absent answers with its wire key, a present field
/// that mismatches answers with its key joined to the inner path.
pub open spec fn fields_mismatch(
    fields: Seq<Field>,
    obj: Seq<(String, JsonValue)>,
) -> Option<Seq<char>>
    decreases fields, 1int, 0int,
{
    if fields.len() == 0 {
        None
    } else {
        let key = camel_of(fields[0].name@);
        match obj_get(obj, key) {
            None => if fields[0].ty is Optional {
                fields_mismatch(fields.skip(1), obj)
            } else {
                Some(key)
            },
            Some(v) => match mismatch(fields[0].ty, v) {
                Some(rel) => Some(join_path(key, rel)),
                None => fields_mismatch(fields.skip(1), obj),
            },
        }
    }
}

/// The first mismatch among the elements of an array against the element
/// type, indexed from `base`.
pub open spec fn list_mismatch(elem: Type, items: Seq<JsonValue>, base: nat) -> Option<Seq<char>>
    decreases elem, 2int, items.len(),
{
    if items.len() == 0 {
        None
    } else {
        match mismatch(elem, items[0]) {
            Some(rel) => Some(join_path(index_step(base), rel)),
            None => list_mismatch(elem, items.skip(1), base + 1),
        }
    }
}

/// The first mismatch among the rows of a data table, each row an object of
/// `fields`, indexed from `base`.
pub open spec fn rows_mismatch(fields: Seq<Field>, rows: Seq<JsonValue>, base: nat) -> Option<
    Seq<char>,
>
    decreases fields, 2int, rows.len(),
{
    if rows.len() == 0 {
        None
    } else {
        match rows[0] {
            JsonValue::Obj(obj) => match fields_mismatch(fields, obj@) {
                Some(rel) => Some(join_path(index_step(base), rel)),
                None => rows_mismatch(fields, rows.skip(1), base + 1),
            },
            _ => Some(index_step(base)),
        }
    }
}

/// The first element of a byte array that is not an integer in byte range,
/// indexed from `base`.
pub open spec fn bytes_mismatch(items: Seq<JsonValue>, base: nat) -> Option<Seq<char>>
    decreases items.len(),
{
    if items.len() == 0 {
        None
    } else {
        match items[0] {
            JsonValue::Int(i) => if 0 <= i <= 255 {
                bytes_mismatch(items.skip(1), base + 1)
            } else {
                Some(index_step(base))
            },
            _ => Some(index_step(base)),
        }
    }
}

/// Where a request body fails its parameter list: a non-object body is a
/// mismatch at the body itself (the empty path).
pub open spec fn params_mismatch(params: Seq<Field>, body: JsonValue) -> Option<Seq<char>> {
    match body {
        JsonValue::Obj(obj) => fields_mismatch(params, obj@),
        _ => Some(Seq::empty()),
    }
}

fn join_path_exec(step: String, rel: &String) -> (r: String)
    ensures
        r@ == join_path(step@, rel@),
{
    proof {
        reveal_strlit(".");
    }
    if rel.as_str().unicode_len() == 0 {
        step
    } else if rel.as_str().get_char(0) == '[' {
        step.concat(rel.as_str())
    } else {
        let mut s = step;
        s.append(".");
        s.append(rel.as_str());
        s
    }
}

fn index_step_exec(i: usize) -> (r: String)
    ensures
        r@ == index_step(i as nat),
{
    proof {
        reveal_strlit("[");
        reveal_strlit("]");
    }
    let mut s = String::from_str("[");
    push_dec(i as u64, &mut s);
    s.append("]");
    s
}

/// Decides `mismatch(*t, *v)` and reports the offending path.
pub fn find_mismatch(t: &Type, v: &JsonValue) -> (r: Option<String>)
    ensures
        match r {
            None => mismatch(*t, *v) is None,
            Some(p) => mismatch(*t, *v) == Some(p@),
        },
    decreases t, 1int, 0int,
{
    match t {
        Type::Boolean => if matches!(v, JsonValue::Bool(_)) { None } else { Some(String::new()) },
        Type::Text => if matches!(v, JsonValue::Str(_)) { None } else { Some(String::new()) },
        Type::UUID => if matches!(v, JsonValue::Str(_)) { None } else { Some(String::new()) },
        Type::Inet => if matches!(v, JsonValue::Str(_)) { None } else { Some(String::new()) },
        Type::EnumRef(_) => if matches!(v, JsonValue::Str(_)) { None } else { Some(String::new()) },
        Type::Enum { .. } => if matches!(v, JsonValue::Str(_)) { None } else { Some(String::new()) },
        Type::BlockchainDecimal => if matches!(v, JsonValue::Str(_)) {
            None
        } else {
            Some(String::new())
        },
        Type::BlockchainAddress => if matches!(v, JsonValue::Str(_)) {
            None
        } else {
            Some(String::new())
        },
        Type::BlockchainTransactionHash => if matches!(v, JsonValue::Str(_)) {
            None
        } else {
            Some(String::new())
        },
        Type::Int => match v {
            JsonValue::Int(i) => if -0x8000_0000i64 <= *i && *i <= 0x7fff_ffffi64 {
                None
            } else {
                Some(String::new())
            },
            _ => Some(String::new()),
        },
        Type::Date => match v {
            JsonValue::Int(i) => if 0i64 <= *i && *i <= 0xffff_ffffi64 {
                None
            } else {
                Some(String::new())
            },
            _ => Some(String::new()),
        },
        Type::BigInt => if matches!(v, JsonValue::Int(_)) { None } else { Some(String::new()) },
        Type::TimeStampMs => if matches!(v, JsonValue::Int(_)) { None } else { Some(String::new()) },
        Type::Numeric => if matches!(v, JsonValue::Int(_)) { None } else { Some(String::new()) },
        Type::Unit => if matches!(v, JsonValue::Null) { None } else { Some(String::new()) },
        Type::Object => None,
        Type::StructRef(_) => None,
        Type::Optional(inner) => if matches!(v, JsonValue::Null) {
            None
        } else {
            find_mismatch(inner, v)
        },
        Type::List(elem) => match v {
            JsonValue::Arr(items) => find_list_mismatch(elem, items),
            _ => Some(String::new()),
        },
        Type::Bytea => match v {
            JsonValue::Arr(items) => find_bytes_mismatch(items),
            _ => Some(String::new()),
        },
        Type::Struct { name: _, fields } => match v {
            JsonValue::Obj(obj) => find_fields_mismatch(fields, obj),
            _ => Some(String::new()),
        },
        Type::DataTable { name: _, fields } => match v {
            JsonValue::Arr(rows) => find_rows_mismatch(fields, rows),
            _ => Some(String::new()),
        },
    }
}

/// Decides `fields_mismatch(fields@, obj@)`.
pub fn find_fields_mismatch(fields: &Vec<Field>, obj: &Vec<(String, JsonValue)>) -> (r: Option<
    String,
>)
    ensures
        match r {
            None => fields_mismatch(fields@, obj@) is None,
            Some(p) => fields_mismatch(fields@, obj@) == Some(p@),
        },
    decreases fields@, 1int, 0int,
{
    let mut i: usize = 0;
    proof {
        assert(fields@.skip(0) =~= fields@);
    }
    while i < fields.len()
        invariant
            i <= fields.len(),
            fields_mismatch(fields@, obj@) == fields_mismatch(fields@.skip(i as int), obj@),
        decreases fields.len() - i,
    {
        proof {
            assert(fields@.skip(i as int)[0] == fields@[i as int]);
            assert(fields@.skip(i as int).skip(1) =~= fields@.skip(i + 1));
        }
        let key = camel_case(fields[i].name.as_str());
        match obj_lookup(obj, &key) {
            None => {
                if !fields[i].ty.is_optional() {
                    return Some(key);
                }
            },
            Some(v) => {
                proof {
                    assert(decreases_to!(fields@ => fields@[i as int]));
                    assert(decreases_to!(fields@[i as int] => fields@[i as int].ty));
                }
                match find_mismatch(&fields[i].ty, v) {
                    Some(rel) => {
                        return Some(join_path_exec(key, &rel));
                    },
                    None => {},
                }
            },
        }
        i += 1;
    }
    proof {
        assert(fields@.skip(i as int) =~= Seq::<Field>::empty());
    }
    None
}

/// Decides `list_mismatch(*elem, items@, 0)`.
pub fn find_list_mismatch(elem: &Type, items: &Vec<JsonValue>) -> (r: Option<String>)
    ensures
        match r {
            None => list_mismatch(*elem, items@, 0) is None,
            Some(p) => list_mismatch(*elem, items@, 0) == Some(p@),
        },
    decreases elem, 2int, 0int,
{
    let mut i: usize = 0;
    proof {
        assert(items@.skip(0) =~= items@);
    }
    while i < items.len()
        invariant
            i <= items.len(),
            list_mismatch(*elem, items@, 0) == list_mismatch(
                *elem,
                items@.skip(i as int),
                i as nat,
            ),
        decreases items.len() - i,
    {
        proof {
            assert(items@.skip(i as int)[0] == items@[i as int]);
            assert(items@.skip(i as int).skip(1) =~= items@.skip(i + 1));
        }
        match find_mismatch(elem, &items[i]) {
            Some(rel) => {
                return Some(join_path_exec(index_step_exec(i), &rel));
            },
            None => {},
        }
        i += 1;
    }
    proof {
        assert(items@.skip(i as int) =~= Seq::<JsonValue>::empty());
    }
    None
}

/// Decides `rows_mismatch(fields@, rows@, 0)`.
pub fn find_rows_mismatch(fields: &Vec<Field>, rows: &Vec<JsonValue>) -> (r: Option<String>)
    ensures
        match r {
            None => rows_mismatch(fields@, rows@, 0) is None,
            Some(p) => rows_mismatch(fields@, rows@, 0) == Some(p@),
        },
    decreases fields@, 2int, 0int,
{
    let mut i: usize = 0;
    proof {
        assert(rows@.skip(0) =~= rows@);
    }
    while i < rows.len()
        invariant
            i <= rows.len(),
            rows_mismatch(fields@, rows@, 0) == rows_mismatch(
                fields@,
                rows@.skip(i as int),
                i as nat,
            ),
        decreases rows.len() - i,
    {
        proof {
            assert(rows@.skip(i as int)[0] == rows@[i as int]);
            assert(rows@.skip(i as int).skip(1) =~= rows@.skip(i + 1));
        }
        match &rows[i] {
            JsonValue::Obj(obj) => {
                match find_fields_mismatch(fields, obj) {
                    Some(rel) => {
                        return Some(join_path_exec(index_step_exec(i), &rel));
                    },
                    None => {},
                }
            },
            _ => {
                return Some(index_step_exec(i));
            },
        }
        i += 1;
    }
    proof {
        assert(rows@.skip(i as int) =~= Seq::<JsonValue>::empty());
    }
    None
}

/// Decides `bytes_mismatch(items@, 0)`.
pub fn find_bytes_mismatch(items: &Vec<JsonValue>) -> (r: Option<String>)
    ensures
        match r {
            None => bytes_mismatch(items@, 0) is None,
            Some(p) => bytes_mismatch(items@, 0) == Some(p@),
        },
{
    let mut i: usize = 0;
    proof {
        assert(items@.skip(0) =~= items@);
    }
    while i < items.len()
        invariant
            i <= items.len(),
            bytes_mismatch(items@, 0) == bytes_mismatch(items@.skip(i as int), i as nat),
        decreases items.len() - i,
    {
        proof {
            assert(items@.skip(i as int)[0] == items@[i as int]);
            assert(items@.skip(i as int).skip(1) =~= items@.skip(i + 1));
        }
        match &items[i] {
            JsonValue::Int(b) => {
                if *b < 0i64 || *b > 255i64 {
                    return Some(index_step_exec(i));
                }
            },
            _ => {
                return Some(index_step_exec(i));
            },
        }
        i += 1;
    }
    proof {
        assert(items@.skip(i as int) =~= Seq::<JsonValue>::empty());
    }
    None
}

/// Validates a request body against an endpoint's parameter list and answers
/// the dotted/indexed path of the first offending field, exactly when one
/// exists. A handler is only ever invoked on bodies this function accepts.
pub fn validate_params(schema: &EndpointSchema, body: &JsonValue) -> (r: Result<(), String>)
    ensures
        match r {
            Ok(()) => params_mismatch(schema.parameters@, *body) is None,
            Err(p) => params_mismatch(schema.parameters@, *body) == Some(p@),
        },
{
    match body {
        JsonValue::Obj(obj) => match find_fields_mismatch(&schema.parameters, obj) {
            None => Ok(()),
            Some(p) => Err(p),
        },
        _ => Err(String::new()),
    }
}

} // verus!
