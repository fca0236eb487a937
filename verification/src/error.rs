//! What can go wrong, at registration and in one invocation.

use vstd::prelude::*;
use crate::address::{FunctionType, FunctionTypeView};

verus! {

/// A payload could not be written as bytes.
#[derive(Debug)]
pub struct EncodeError {
    pub message: String,
}

/// Why bytes could not be read as a value of the type asked for.
#[derive(Debug)]
pub enum DecodeError {
    /// The bytes are tagged with another type name than that of the type asked for.
    WrongTypeName { expected: String, actual: String },
    /// The tag is right, and the bytes are not an encoding of the type.
    Malformed { message: String },
}

/// A [`DecodeError`] without its message.
pub enum DecodeFailure {
    WrongTypeName { expected: Seq<char>, actual: Seq<char> },
    Malformed,
}

impl View for DecodeError {
    type V = DecodeFailure;

    open spec fn view(&self) -> DecodeFailure {
        match self {
            DecodeError::WrongTypeName { expected, actual } => DecodeFailure::WrongTypeName {
                expected: expected@,
                actual: actual@,
            },
            DecodeError::Malformed { .. } => DecodeFailure::Malformed,
        }
    }
}

/// Why one invocation failed. A failed invocation has no effects.
#[derive(Debug)]
pub enum InvocationError {
    /// A value that the function wanted to write or send could not be encoded.
    Encode(EncodeError),
    /// Stored or received bytes are not a value of the type that the function asked for.
    Decode(DecodeError),
    /// No function is registered under the type that the invocation names.
    UnknownFunctionType(FunctionType),
    /// The function got a message of another type than it takes.
    UnexpectedMessageType { expected: String, actual: String },
    /// The function turned the invocation down for a reason of its own.
    Rejected { reason: String },
}

/// An [`InvocationError`] without its messages.
pub enum InvocationFailure {
    Encode,
    Decode(DecodeFailure),
    UnknownFunctionType(FunctionTypeView),
    UnexpectedMessageType { expected: Seq<char>, actual: Seq<char> },
    Rejected,
}

impl View for InvocationError {
    type V = InvocationFailure;

    open spec fn view(&self) -> InvocationFailure {
        match self {
            InvocationError::Encode(_) => InvocationFailure::Encode,
            InvocationError::Decode(e) => InvocationFailure::Decode(e@),
            InvocationError::UnknownFunctionType(t) => InvocationFailure::UnknownFunctionType(t@),
            InvocationError::UnexpectedMessageType { expected, actual } => {
                InvocationFailure::UnexpectedMessageType { expected: expected@, actual: actual@ }
            },
            InvocationError::Rejected { .. } => InvocationFailure::Rejected,
        }
    }
}

/// Why a registration was turned down. The registry is then as it was.
#[derive(Debug)]
pub enum RegistrationError {
    /// The function type is registered already.
    DuplicateRegistration(FunctionType),
    /// Two of the declared state slots share this name.
    DuplicateStateSpec(String),
}

} // verus!
