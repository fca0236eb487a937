//! JSON objects with an integer member, written and read by `serde_json`.

use vstd::prelude::*;
use crate::decimal::{decimal, lemma_decimal_injective};

verus! {

/// `serde_json::Error`: carried from the parser to its text, nothing is known
/// of what it holds.
#[verifier::external_type_specification]
#[verifier::external_body]
pub struct ExJsonError(serde_json::Error);

/// A key that JSON writes as it is: printable ASCII without `"` and `\`.
pub open spec fn plain_key(key: Seq<char>) -> bool {
    forall|i: int|
        0 <= i < key.len() ==> 0x20 <= #[trigger] key[i] as u32 <= 0x7e && key[i] != '"' && key[i]
            != '\\'
}

/// The characters of `key` as bytes.
pub open spec fn key_bytes(key: Seq<char>) -> Seq<u8> {
    Seq::new(key.len(), |i: int| key[i] as u8)
}

/// The JSON text `{"key":n}`, without spaces.
pub open spec fn member_text(key: Seq<char>, n: int) -> Seq<u8> {
    seq![123u8, 34u8] + key_bytes(key) + seq![34u8, 58u8] + decimal(n) + seq![125u8]
}

/// Whether `bytes` are the text `{"key":n}` for a plain `key` and some `n`
/// that an `i64` holds.
pub open spec fn is_member_text(bytes: Seq<u8>, key: Seq<char>) -> bool {
    plain_key(key) && exists|n: i64| bytes == member_text(key, n as int)
}

/// What `serde_json` reads from `bytes` for the member `key`: `None` where
/// `bytes` are no JSON object, `Some(None)` where they are an object without
/// a member `key` or with one that is no integer in the range of `i64`, and
/// `Some(Some(n))` where the member is the integer `n`.
pub uninterp spec fn json_int_member(bytes: Seq<u8>, key: Seq<char>) -> Option<Option<i64>>;

/// The member `key` of the JSON object `bytes`, read as an integer. On the
/// text `{"key":n}` it is `n`; on other bytes it is what `serde_json` reads.
pub open spec fn int_member(bytes: Seq<u8>, key: Seq<char>) -> Option<Option<i64>> {
    if is_member_text(bytes, key) {
        Some(Some(choose|n: i64| bytes == member_text(key, n as int)))
    } else {
        json_int_member(bytes, key)
    }
}

/// The text `{"key":n}` says which `n` it holds.
pub proof fn lemma_member_text_injective(key: Seq<char>, a: int, b: int)
    requires
        member_text(key, a) == member_text(key, b),
    ensures
        a == b,
{
    let head = seq![123u8, 34u8] + key_bytes(key) + seq![34u8, 58u8];
    let ta = member_text(key, a);
    let tb = member_text(key, b);
    assert(ta.subrange(head.len() as int, ta.len() - 1) =~= decimal(a));
    assert(tb.subrange(head.len() as int, tb.len() - 1) =~= decimal(b));
    lemma_decimal_injective(a, b);
}

/// Reading the text `{"key":n}` gives `n`.
pub proof fn lemma_int_member_of_text(key: Seq<char>, n: i64)
    requires
        plain_key(key),
    ensures
        int_member(member_text(key, n as int), key) == Some(Some(n)),
{
    let text = member_text(key, n as int);
    assert(is_member_text(text, key));
    let m = choose|m: i64| text == member_text(key, m as int);
    lemma_member_text_injective(key, n as int, m as int);
}

/// `serde_json::to_vec` on a `serde_json::Map` with the one member `key`,
/// whose value is the number `x`. For a plain key the call succeeds and
/// gives the text `{"key":x}`, the number in decimal.
#[verifier::external_body]
fn write_int_member(key: &str, x: i32) -> (r: Result<Vec<u8>, serde_json::Error>)
    ensures
        plain_key(key@) ==> r is Ok,
        plain_key(key@) ==> (r matches Ok(bytes) ==> bytes@ == member_text(key@, x as int)),
{
    let mut object = serde_json::Map::new();
    object.insert(key.to_string(), serde_json::Value::from(x));
    serde_json::to_vec(&object)
}

/// `serde_json::from_slice` into a `serde_json::Map`, then `Map::get` for
/// `key` and `Value::as_i64` on what is found. On the text `{"key":n}` with
/// a plain key the result is `n`; on other bytes it is whatever the parser
/// reads, which depends on the bytes and the key alone.
#[verifier::external_body]
fn read_int_member(buffer: &Vec<u8>, key: &str) -> (r: Result<Option<i64>, serde_json::Error>)
    ensures
        is_member_text(buffer@, key@) ==> r is Ok,
        is_member_text(buffer@, key@) ==> (r matches Ok(member) ==> member is Some),
        is_member_text(buffer@, key@) ==> (r matches Ok(Some(n)) ==> buffer@ == member_text(
            key@,
            n as int,
        )),
        !is_member_text(buffer@, key@) ==> (r is Ok <==> json_int_member(buffer@, key@) is Some),
        !is_member_text(buffer@, key@) ==> (r matches Ok(member) ==> json_int_member(
            buffer@,
            key@,
        ) == Some(member)),
{
    let object: serde_json::Map<String, serde_json::Value> = serde_json::from_slice(buffer)?;
    Ok(object.get(key).and_then(|value| value.as_i64()))
}

/// The JSON text of an object whose one member `key` is the number `x`.
pub(crate) fn encode_int_member(key: &str, x: i32) -> (r: Result<Vec<u8>, String>)
    ensures
        plain_key(key@) ==> (r matches Ok(bytes) && bytes@ == member_text(key@, x as int)),
{
    match write_int_member(key, x) {
        Ok(bytes) => Ok(bytes),
        Err(error) => Err(error.to_string()),
    }
}

/// Reads the member `key` of the JSON object in `buffer` as an integer.
/// `Err` where `buffer` holds no JSON object.
pub(crate) fn decode_int_member(buffer: &Vec<u8>, key: &str) -> (r: Result<Option<i64>, String>)
    ensures
        match r {
            Ok(member) => int_member(buffer@, key@) == Some(member),
            Err(_) => int_member(buffer@, key@) is None,
        },
{
    match read_int_member(buffer, key) {
        Ok(member) => {
            proof {
                if is_member_text(buffer@, key@) {
                    let n = member.unwrap();
                    let m = choose|m: i64| buffer@ == member_text(key@, m as int);
                    lemma_member_text_injective(key@, n as int, m as int);
                }
            }
            Ok(member)
        },
        Err(error) => Err(error.to_string()),
    }
}

} // verus!
