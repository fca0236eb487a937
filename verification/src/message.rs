//! A payload on its way to a function.

use vstd::prelude::*;
use crate::address::{Address, AddressView};
use crate::error::{InvocationError, InvocationFailure};
use crate::serializable::{decode_value, typed_decoding, Serializable, TypeName};
use crate::typed_value::{TypedValue, TypedValueView};

verus! {

/// What a [`Message`] is: the payload, and the function that sent it, if one did.
pub struct MessageView {
    pub payload: TypedValueView,
    pub source: Option<AddressView>,
}

/// A payload for a function, still as tagged bytes: the function checks the
/// tag and decodes.
#[derive(Debug)]
pub struct Message {
    typed_value: TypedValue,
    source: Option<Address>,
}

impl View for Message {
    type V = MessageView;

    closed spec fn view(&self) -> MessageView {
        MessageView {
            payload: self.typed_value@,
            source: match self.source {
                Some(a) => Some(a@),
                None => None,
            },
        }
    }
}

/// What taking `payload` as a `T` gives. A payload of another type is an
/// unexpected message; one of the right type that does not decode is a decode
/// failure.
pub open spec fn message_decoding<T: Serializable>(payload: TypedValueView) -> Result<
    T::V,
    InvocationFailure,
> {
    if payload.typename != T::typename_spec() {
        Err(
            InvocationFailure::UnexpectedMessageType {
                expected: T::typename_spec(),
                actual: payload.typename,
            },
        )
    } else {
        match typed_decoding::<T>(payload) {
            Ok(v) => Ok(v),
            Err(e) => Err(InvocationFailure::Decode(e)),
        }
    }
}

/// The view of what an invocation step returned.
pub open spec fn outcome_view<T: View>(r: Result<T, InvocationError>) -> Result<
    T::V,
    InvocationFailure,
> {
    match r {
        Ok(v) => Ok(v@),
        Err(e) => Err(e@),
    }
}

impl Message {
    /// A message with `typed_value` as its payload, sent by `source`; `None`
    /// for a message that comes from outside.
    pub fn new(typed_value: TypedValue, source: Option<Address>) -> (r: Message)
        ensures
            r@.payload == typed_value@,
            r@.source == match source {
                Some(a) => Some(a@),
                None => None,
            },
    {
        Message { typed_value, source }
    }

    /// The type name that the payload is tagged with.
    pub fn get_type(&self) -> (r: &str)
        ensures
            r@ == self@.payload.typename,
    {
        self.typed_value.typename.as_str()
    }

    /// Whether the payload is tagged as a `T`.
    pub fn is<T: TypeName>(&self) -> (r: bool)
        ensures
            r == (self@.payload.typename == T::typename_spec()),
    {
        self.typed_value.typename == T::get_typename().to_string()
    }

    /// The payload as a `T`, after a check of its tag.
    pub fn get<T: Serializable>(&self) -> (r: Result<T, InvocationError>)
        ensures
            outcome_view(r) == message_decoding::<T>(self@.payload),
    {
        if !self.is::<T>() {
            return Err(
                InvocationError::UnexpectedMessageType {
                    expected: T::get_typename().to_string(),
                    actual: self.typed_value.typename.clone(),
                },
            );
        }
        match decode_value::<T>(&self.typed_value) {
            Ok(v) => Ok(v),
            Err(e) => Err(InvocationError::Decode(e)),
        }
    }

    pub fn typed_value(&self) -> (r: &TypedValue)
        ensures
            r@ == self@.payload,
    {
        &self.typed_value
    }

    /// The function that sent the message, if one did.
    pub fn source(&self) -> (r: Option<&Address>)
        ensures
            match r {
                Some(a) => self@.source == Some(a@),
                None => self@.source is None,
            },
    {
        self.source.as_ref()
    }
}

} // verus!
