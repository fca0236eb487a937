//! Payloads on the wire: bytes under a type name.

use vstd::prelude::*;
use vstd::std_specs::cmp::PartialEqSpecImpl;

verus! {

/// What a [`TypedValue`] is: a type name and the bytes it tags.
pub struct TypedValueView {
    pub typename: Seq<char>,
    pub value: Seq<u8>,
}

/// A payload before anything has read it: bytes, and the name of the type that
/// can decode them.
#[derive(Debug)]
pub struct TypedValue {
    pub typename: String,
    pub value: Vec<u8>,
}

impl View for TypedValue {
    type V = TypedValueView;

    open spec fn view(&self) -> TypedValueView {
        TypedValueView { typename: self.typename@, value: self.value@ }
    }
}

impl TypedValue {
    pub fn new(typename: &str, value: Vec<u8>) -> (r: TypedValue)
        ensures
            r@ == (TypedValueView { typename: typename@, value: value@ }),
    {
        TypedValue { typename: typename.to_string(), value }
    }
}

impl Clone for TypedValue {
    fn clone(&self) -> (r: Self)
        ensures
            r@ == self@,
    {
        TypedValue { typename: self.typename.clone(), value: self.value.clone() }
    }
}

impl PartialEq for TypedValue {
    fn eq(&self, other: &Self) -> (r: bool) {
        let same_bytes = self.value == other.value;
        proof {
            if same_bytes {
                assert(self.value@ =~= other.value@);
            }
        }
        self.typename == other.typename && same_bytes
    }
}

impl PartialEqSpecImpl for TypedValue {
    open spec fn obeys_eq_spec() -> bool {
        true
    }

    open spec fn eq_spec(&self, other: &Self) -> bool {
        self@ == other@
    }
}

impl Eq for TypedValue {

}

} // verus!
