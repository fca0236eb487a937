//! A stored state value, as the runtime hands it to a function.

use vstd::prelude::*;
use crate::error::DecodeError;
use crate::serializable::{decode_value, decoding_view, typed_decoding, Serializable};
use crate::typed_value::{TypedValue, TypedValueView};

verus! {

/// The value of one state slot: tagged bytes, read on demand.
#[derive(Debug)]
pub struct StateMessage {
    typed_value: TypedValue,
}

impl View for StateMessage {
    type V = TypedValueView;

    closed spec fn view(&self) -> TypedValueView {
        self.typed_value@
    }
}

impl StateMessage {
    pub fn new(typed_value: TypedValue) -> (r: StateMessage)
        ensures
            r@ == typed_value@,
    {
        StateMessage { typed_value }
    }

    /// Reads the value as a `T`. Fails where the slot holds a value of another
    /// type, and where its bytes are no `T`.
    pub fn get<T: Serializable>(&self) -> (r: Result<T, DecodeError>)
        ensures
            decoding_view(r) == typed_decoding::<T>(self@),
    {
        decode_value::<T>(&self.typed_value)
    }

    pub fn typed_value(&self) -> (r: &TypedValue)
        ensures
            r@ == self@,
    {
        &self.typed_value
    }
}

} // verus!
