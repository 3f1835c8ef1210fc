use vstd::prelude::*;

use crate::json::{json_text, obj_get, render_json, JsonValue};
use crate::schema::{camel_case, camel_of, EndpointSchema, Field};
use crate::text::{ascii_lower, dec_str, push_dec, to_ascii_lowercase};
use crate::ServerError;

verus! {

/// Relies on chrono's `Utc::now`: a correlation id for operator logs, drawn
/// from the clock in microseconds. Nothing is promised of it: it depends on
/// the time of the call, and the call itself refuses a system clock set
/// before the epoch.
#[verifier::external_body]
pub fn get_log_id() -> u64 {
    chrono::Utc::now().timestamp_micros() as u64
}

/// Relies on chrono's `Utc::now`: a connection id drawn from the clock in
/// microseconds. Nothing is promised of it: it depends on the time of the
/// call, and the call itself refuses a system clock set before the epoch.
#[verifier::external_body]
pub fn get_conn_id() -> u32 {
    chrono::Utc::now().timestamp_micros() as u32
}

/// Relies on chrono's `Utc::now`: the clock in whole seconds since the
/// epoch. Nothing is promised of it, and the call itself refuses a system
/// clock set before the epoch.
#[verifier::external_body]
pub fn get_time_seconds() -> u32 {
    chrono::Utc::now().timestamp() as u32
}

/// Relies on chrono's `Utc::now`: the clock in milliseconds since the epoch.
/// Nothing is promised of it, and the call itself refuses a system clock set
/// before the epoch.
#[verifier::external_body]
pub fn get_time_milliseconds() -> i64 {
    chrono::Utc::now().timestamp_millis()
}

/// An ASCII hexadecimal digit.
pub open spec fn is_hex_digit(b: u8) -> bool {
    (48 <= b <= 57) || (97 <= b <= 102) || (65 <= b <= 70)
}

/// The value of one hexadecimal digit.
pub open spec fn hex_val(b: u8) -> u8 {
    if 48 <= b <= 57 {
        (b - 48) as u8
    } else if 97 <= b <= 102 {
        (b - 97 + 10) as u8
    } else {
        (b - 65 + 10) as u8
    }
}

/// Every byte of `s` is a hexadecimal digit.
pub open spec fn all_hex_digits(s: Seq<u8>) -> bool {
    forall|i: int| 0 <= i < s.len() ==> is_hex_digit(#[trigger] s[i])
}

/// The bytes a hexadecimal string decodes to, two digits each.
pub open spec fn hex_bytes(s: Seq<u8>) -> Seq<u8> {
    Seq::new(s.len() / 2, |i: int| (hex_val(s[2 * i]) * 16 + hex_val(s[2 * i + 1])) as u8)
}

/// Why a hexadecimal string failed to decode, mirroring the decoder's own
/// taxonomy: a non-digit character at an index, or an odd number of digits.
#[derive(Debug)]
pub enum HexError {
    InvalidHexCharacter { c: char, index: usize },
    OddLength,
}

/// Relies on hex's `decode`: an even-length, all-digit string decodes to one
/// byte per digit pair; an odd length is refused as such; otherwise the
/// first non-digit byte, scanned left to right, is named with its index.
#[verifier::external_body]
fn hex_decode_raw(s: &[u8]) -> (r: Result<Vec<u8>, HexError>)
    ensures
        match r {
            Ok(v) => s@.len() % 2 == 0 && all_hex_digits(s@) && v@ == hex_bytes(s@),
            Err(HexError::OddLength) => s@.len() % 2 != 0,
            Err(HexError::InvalidHexCharacter { c, index }) => {
                &&& s@.len() % 2 == 0
                &&& index < s@.len()
                &&& !is_hex_digit(s@[index as int])
                &&& c == s@[index as int] as char
                &&& forall|j: int| 0 <= j < index ==> is_hex_digit(#[trigger] s@[j])
            },
        },
{
    match hex::decode(s) {
        Ok(v) => Ok(v),
        Err(hex::FromHexError::OddLength) => Err(HexError::OddLength),
        Err(hex::FromHexError::InvalidHexCharacter { c, index }) => Err(
            HexError::InvalidHexCharacter { c, index },
        ),
        Err(hex::FromHexError::InvalidStringLength) => Err(HexError::OddLength),
    }
}

/// Decodes a hexadecimal byte string, accepting an optional `0x` prefix.
pub fn hex_decode(s: &[u8]) -> (r: Result<Vec<u8>, HexError>)
    ensures
        ({
            let body = if s@.len() >= 2 && s@[0] == 48u8 && s@[1] == 120u8 {
                s@.skip(2)
            } else {
                s@
            };
            match r {
                Ok(v) => body.len() % 2 == 0 && all_hex_digits(body) && v@ == hex_bytes(body),
                Err(HexError::OddLength) => body.len() % 2 != 0,
                Err(HexError::InvalidHexCharacter { c, index }) => {
                    &&& body.len() % 2 == 0
                    &&& index < body.len()
                    &&& !is_hex_digit(body[index as int])
                    &&& c == body[index as int] as char
                    &&& forall|j: int| 0 <= j < index ==> is_hex_digit(#[trigger] body[j])
                },
            }
        }),
{
    if s.len() >= 2 && s[0] == 48u8 && s[1] == 120u8 {
        let (_, rest) = s.split_at(2);
        proof {
            assert(rest@ =~= s@.skip(2));
        }
        hex_decode_raw(rest)
    } else {
        hex_decode_raw(s)
    }
}

/// `s` with every double-quote character removed, as the header encoder
/// writes string values.
pub open spec fn strip_quotes(s: Seq<char>) -> Seq<char>
    decreases s.len(),
{
    if s.len() == 0 {
        Seq::empty()
    } else if s[0] == '"' {
        strip_quotes(s.skip(1))
    } else {
        seq![s[0]] + strip_quotes(s.skip(1))
    }
}

/// The header text of one value: its compact JSON text with every
/// double-quote character removed.
pub open spec fn value_text(v: JsonValue) -> Seq<char> {
    strip_quotes(json_text(v))
}

/// What urlencoding's `encode` percent-encodes a string to; the result
/// depends on the characters alone.
pub uninterp spec fn url_encoded_of(s: Seq<char>) -> Seq<char>;

/// Relies on urlencoding's `encode`: percent-encodes every byte except the
/// ASCII alphanumerics and `-`, `_`, `.`, `~`.
#[verifier::external_body]
pub fn url_encode(s: &str) -> (r: String)
    ensures
        r@ == url_encoded_of(s@),
{
    urlencoding::encode(s).into_owned()
}

/// The key a parameter is looked up under in the value being encoded.
pub open spec fn header_lookup(v: JsonValue, key: Seq<char>) -> Option<JsonValue> {
    match v {
        JsonValue::Obj(fs) => obj_get(fs@, key),
        _ => None,
    }
}

/// The encoded parameter list of a header, one `, <position><encoded value>`
/// piece per parameter present and non-null, positions counted from one over
/// all parameters; a parameter whose key is absent from the value fails the
/// encoding, naming that key.
pub open spec fn header_tail(params: Seq<Field>, v: JsonValue, idx: nat) -> Result<
    Seq<char>,
    Seq<char>,
>
    decreases params.len(),
{
    if params.len() == 0 {
        Ok(Seq::empty())
    } else {
        let key = camel_of(params[0].name@);
        match header_lookup(v, key) {
            None => Err(key),
            Some(val) => if val is Null {
                header_tail(params.skip(1), v, idx + 1)
            } else {
                match header_tail(params.skip(1), v, idx + 1) {
                    Err(k) => Err(k),
                    Ok(rest) => Ok(
                        ", "@ + dec_str(idx + 1) + url_encoded_of(value_text(val)) + rest,
                    ),
                }
            },
        }
    }
}

/// Removes every double-quote character of `s`.
fn strip_quotes_exec(s: &str) -> (r: String)
    ensures
        r@ == strip_quotes(s@),
{
    let n = s.unicode_len();
    let mut out = String::new();
    let mut i: usize = 0;
    proof {
        assert(s@.skip(0) =~= s@);
    }
    while i < n
        invariant
            n == s@.len(),
            i <= n,
            strip_quotes(s@) == out@ + strip_quotes(s@.skip(i as int)),
        decreases n - i,
    {
        let c = s.get_char(i);
        proof {
            assert(s@.skip(i as int)[0] == s@[i as int]);
            assert(s@.skip(i as int).skip(1) =~= s@.skip(i + 1));
        }
        if c != '"' {
            out.push(c);
            proof {
                assert(out@ + strip_quotes(s@.skip(i + 1)) =~= (out@.drop_last() + (seq![c]
                    + strip_quotes(s@.skip(i + 1)))));
            }
        }
        i += 1;
    }
    proof {
        assert(strip_quotes(s@.skip(i as int)) =~= Seq::<char>::empty());
        assert(out@ + Seq::<char>::empty() =~= out@);
    }
    out
}

/// Encodes a request as the compact textual header: a `0`, the lower-cased
/// endpoint name, then each present and non-null parameter as its one-based
/// position and the percent-encoded text of its value — the value's JSON
/// text with every double-quote removed. A parameter whose key is absent
/// from the value fails the encoding with an error naming that key.
pub fn encode_header(v: &JsonValue, schema: &EndpointSchema) -> (r: Result<String, ServerError>)
    ensures
        match r {
            Ok(s) => header_tail(schema.parameters@, *v, 0) matches Ok(tail) && s@ == "0"@
                + ascii_lower(schema.name@) + tail,
            Err(e) => header_tail(schema.parameters@, *v, 0) matches Err(k) && e.message@
                == "key: "@ + k,
        },
{
    let params = &schema.parameters;
    let mut tail = String::new();
    let mut i: usize = 0;
    proof {
        assert(params@.skip(0) =~= params@);
        if header_tail(params@, *v, 0) is Ok {
            assert(Seq::<char>::empty() + header_tail(params@, *v, 0)->Ok_0 =~= header_tail(
                params@,
                *v,
                0,
            )->Ok_0);
        }
    }
    while i < params.len()
        invariant
            i <= params.len(),
            params == schema.parameters,
            header_tail(params@, *v, 0) == (match header_tail(
                params@.skip(i as int),
                *v,
                i as nat,
            ) {
                Ok(rest) => Ok(tail@ + rest),
                Err(k) => Err::<Seq<char>, Seq<char>>(k),
            }),
        decreases params.len() - i,
    {
        proof {
            assert(params@.skip(i as int)[0] == params@[i as int]);
            assert(params@.skip(i as int).skip(1) =~= params@.skip(i + 1));
        }
        let key = camel_case(params[i].name.as_str());
        let val = match lookup_value(v, &key) {
            Some(val) => val,
            None => {
                proof {
                    reveal_strlit("key: ");
                }
                let mut message = String::from_str("key: ");
                message.append(key.as_str());
                return Err(ServerError { message });
            },
        };
        match val {
            JsonValue::Null => {},
            _ => {
                let rendered = render_json(val);
                let stripped = strip_quotes_exec(rendered.as_str());
                proof {
                    reveal_strlit(", ");
                }
                let ghost tail_before = tail@;
                tail.append(", ");
                push_dec((i + 1) as u64, &mut tail);
                let enc = url_encode(stripped.as_str());
                tail.append(enc.as_str());
                proof {
                    assert(tail@ =~= tail_before + (", "@ + dec_str((i + 1) as nat)
                        + url_encoded_of(value_text(*val))));
                    assert forall|rest: Seq<char>|
                        true implies tail_before + ((", "@ + dec_str((i + 1) as nat)
                        + url_encoded_of(value_text(*val))) + rest) =~= tail@ + rest by {}
                }
            },
        }
        i += 1;
    }
    proof {
        assert(header_tail(params@.skip(i as int), *v, i as nat) == Ok::<Seq<char>, Seq<char>>(
            Seq::<char>::empty(),
        ));
        assert(tail@ + Seq::<char>::empty() =~= tail@);
    }
    proof {
        reveal_strlit("0");
    }
    let mut out = String::from_str("0");
    let lowered = to_ascii_lowercase(schema.name.as_str());
    out.append(lowered.as_str());
    out.append(tail.as_str());
    Ok(out)
}

/// The value bound to `key` in an object value.
fn lookup_value<'a>(v: &'a JsonValue, key: &String) -> (r: Option<&'a JsonValue>)
    ensures
        match r {
            Some(val) => header_lookup(*v, key@) == Some(*val),
            None => header_lookup(*v, key@) is None,
        },
{
    match v {
        JsonValue::Obj(fields) => crate::json::obj_lookup(fields, key),
        _ => None,
    }
}

} // verus!
