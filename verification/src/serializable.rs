//! The contract between a payload type and the runtime: a stable type name,
//! and an encoding that decodes to the value it was made from.

use vstd::prelude::*;
use crate::error::{DecodeError, DecodeFailure, EncodeError};
use crate::typed_value::{TypedValue, TypedValueView};
use crate::wire::{
    le_bytes, le_value, lemma_le_bytes_len, lemma_le_round_trip, lemma_radix_limits,
    lemma_signed_round_trip, push_le, read_le, to_signed, to_unsigned,
};

verus! {

/// A payload type's name on the wire and in storage. It never changes, and no
/// two types share one.
pub trait TypeName {
    spec fn typename_spec() -> Seq<char>;

    fn get_typename() -> (name: &'static str)
        ensures
            name@ == Self::typename_spec(),
    ;
}

/// A payload type: values of it go to bytes and come back.
///
/// `encoded` and `decoded` say, over the type's view, which bytes a value
/// becomes and which value bytes stand for. An implementation proves
/// `round_trip`: decoding what was encoded gives the value back.
pub trait Serializable: TypeName + View + Sized {
    /// The bytes of a value, or `None` where the value has no encoding.
    spec fn encoded(v: Self::V) -> Option<Seq<u8>>;

    /// The value that bytes stand for, or `None` where they stand for none.
    spec fn decoded(bytes: Seq<u8>) -> Option<Self::V>;

    /// Writes the value as bytes. `typename` is the name that the bytes will be
    /// tagged with; the bytes do not depend on it.
    fn serialize(&self, typename: String) -> (r: Result<Vec<u8>, String>)
        ensures
            r is Ok <==> Self::encoded(self@) is Some,
            r matches Ok(bytes) ==> Self::encoded(self@) == Some(bytes@),
    ;

    /// Reads a value from bytes tagged `typename`. Fails where the tag is not
    /// this type's name, and where the bytes stand for no value.
    fn deserialize(typename: String, buffer: &Vec<u8>) -> (r: Result<Self, String>)
        ensures
            r is Ok <==> typename@ == Self::typename_spec() && Self::decoded(buffer@) is Some,
            r matches Ok(v) ==> Self::decoded(buffer@) == Some(v@),
    ;

    /// Decoding the bytes of a value gives that value.
    proof fn round_trip(v: Self::V)
        ensures
            Self::encoded(v) matches Some(bytes) ==> Self::decoded(bytes) == Some(v),
    ;
}

/// The tagged bytes of `v`, or `None` where `v` has no encoding.
pub open spec fn typed_encoding<T: Serializable>(v: T::V) -> Option<TypedValueView> {
    match T::encoded(v) {
        Some(bytes) => Some(TypedValueView { typename: T::typename_spec(), value: bytes }),
        None => None,
    }
}

/// What reading `tv` as a `T` gives: the value, or why there is none.
pub open spec fn typed_decoding<T: Serializable>(tv: TypedValueView) -> Result<T::V, DecodeFailure> {
    if tv.typename != T::typename_spec() {
        Err(DecodeFailure::WrongTypeName { expected: T::typename_spec(), actual: tv.typename })
    } else {
        match T::decoded(tv.value) {
            Some(v) => Ok(v),
            None => Err(DecodeFailure::Malformed),
        }
    }
}

/// The view of what a decoding returned.
pub open spec fn decoding_view<T: View>(r: Result<T, DecodeError>) -> Result<T::V, DecodeFailure> {
    match r {
        Ok(v) => Ok(v@),
        Err(e) => Err(e@),
    }
}

/// Round trip, with the tags: a value's tagged bytes decode to the value.
pub proof fn lemma_typed_round_trip<T: Serializable>(v: T::V)
    ensures
        typed_encoding::<T>(v) matches Some(tv) ==> typed_decoding::<T>(tv) == Ok::<
            T::V,
            DecodeFailure,
        >(v),
{
    T::round_trip(v);
}

/// Encodes `value` and tags the bytes with the name of its type.
pub fn encode_value<T: Serializable>(value: &T) -> (r: Result<TypedValue, EncodeError>)
    ensures
        r is Ok <==> typed_encoding::<T>(value@) is Some,
        r matches Ok(tv) ==> typed_encoding::<T>(value@) == Some(tv@),
{
    let name = T::get_typename();
    match value.serialize(name.to_string()) {
        Ok(bytes) => Ok(TypedValue::new(name, bytes)),
        Err(message) => Err(EncodeError { message }),
    }
}

/// Reads `tv` as a `T`, after checking its tag.
pub fn decode_value<T: Serializable>(tv: &TypedValue) -> (r: Result<T, DecodeError>)
    ensures
        decoding_view(r) == typed_decoding::<T>(tv@),
{
    let name = T::get_typename();
    if tv.typename != name.to_string() {
        return Err(
            DecodeError::WrongTypeName { expected: name.to_string(), actual: tv.typename.clone() },
        );
    }
    match T::deserialize(tv.typename.clone(), &tv.value) {
        Ok(v) => Ok(v),
        Err(message) => Err(DecodeError::Malformed { message }),
    }
}

impl TypeName for i32 {
    open spec fn typename_spec() -> Seq<char> {
        "io.statefun.types/int"@
    }

    fn get_typename() -> (name: &'static str) {
        "io.statefun.types/int"
    }
}

/// An `i32` is its two's complement in four bytes, lowest byte first.
impl Serializable for i32 {
    open spec fn encoded(v: i32) -> Option<Seq<u8>> {
        Some(le_bytes(to_unsigned(v as int, 4), 4))
    }

    open spec fn decoded(bytes: Seq<u8>) -> Option<i32> {
        if bytes.len() == 4 {
            Some(to_signed(le_value(bytes), 4) as i32)
        } else {
            None
        }
    }

    fn serialize(&self, typename: String) -> (r: Result<Vec<u8>, String>) {
        let v: i64 = *self as i64;
        let u: u64 = if v >= 0 {
            v as u64
        } else {
            (v + 0x1_0000_0000) as u64
        };
        let mut out: Vec<u8> = Vec::new();
        proof {
            lemma_radix_limits();
        }
        push_le(&mut out, u, 4);
        assert(out@ =~= le_bytes(to_unsigned(*self as int, 4), 4));
        Ok(out)
    }

    fn deserialize(typename: String, buffer: &Vec<u8>) -> (r: Result<Self, String>) {
        if typename != Self::get_typename().to_string() {
            return Err("the bytes are not tagged as an int".to_string());
        }
        if buffer.len() != 4 {
            return Err("an int takes four bytes".to_string());
        }
        let u: u64 = read_le(buffer, 0, 4);
        proof {
            lemma_radix_limits();
            assert(buffer@.subrange(0, 4) =~= buffer@);
            crate::wire::lemma_le_value_bound(buffer@);
        }
        let v: i64 = if u < 0x8000_0000 {
            u as i64
        } else {
            u as i64 - 0x1_0000_0000
        };
        Ok(v as i32)
    }

    proof fn round_trip(v: i32) {
        lemma_radix_limits();
        lemma_signed_round_trip(v as int, 4);
        lemma_le_round_trip(to_unsigned(v as int, 4), 4);
        lemma_le_bytes_len(to_unsigned(v as int, 4), 4);
    }
}

impl TypeName for i64 {
    open spec fn typename_spec() -> Seq<char> {
        "io.statefun.types/long"@
    }

    fn get_typename() -> (name: &'static str) {
        "io.statefun.types/long"
    }
}

/// An `i64` is its two's complement in eight bytes, lowest byte first.
impl Serializable for i64 {
    open spec fn encoded(v: i64) -> Option<Seq<u8>> {
        Some(le_bytes(to_unsigned(v as int, 8), 8))
    }

    open spec fn decoded(bytes: Seq<u8>) -> Option<i64> {
        if bytes.len() == 8 {
            Some(to_signed(le_value(bytes), 8) as i64)
        } else {
            None
        }
    }

    fn serialize(&self, typename: String) -> (r: Result<Vec<u8>, String>) {
        let v: i64 = *self;
        let u: u64 = if v >= 0 {
            v as u64
        } else {
            (v + 0x7fff_ffff_ffff_ffff + 1) as u64 + 0x8000_0000_0000_0000
        };
        let mut out: Vec<u8> = Vec::new();
        proof {
            lemma_radix_limits();
        }
        push_le(&mut out, u, 8);
        assert(out@ =~= le_bytes(to_unsigned(*self as int, 8), 8));
        Ok(out)
    }

    fn deserialize(typename: String, buffer: &Vec<u8>) -> (r: Result<Self, String>) {
        if typename != Self::get_typename().to_string() {
            return Err("the bytes are not tagged as a long".to_string());
        }
        if buffer.len() != 8 {
            return Err("a long takes eight bytes".to_string());
        }
        let u: u64 = read_le(buffer, 0, 8);
        proof {
            lemma_radix_limits();
            assert(buffer@.subrange(0, 8) =~= buffer@);
            crate::wire::lemma_le_value_bound(buffer@);
        }
        let v: i64 = if u < 0x8000_0000_0000_0000 {
            u as i64
        } else {
            (u - 0x8000_0000_0000_0000) as i64 - 0x7fff_ffff_ffff_ffff - 1
        };
        Ok(v)
    }

    proof fn round_trip(v: i64) {
        lemma_radix_limits();
        lemma_signed_round_trip(v as int, 8);
        lemma_le_round_trip(to_unsigned(v as int, 8), 8);
        lemma_le_bytes_len(to_unsigned(v as int, 8), 8);
    }
}

} // verus!
