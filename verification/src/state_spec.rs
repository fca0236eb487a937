//! State slots, as a function declares them.

use vstd::prelude::*;
use crate::error::EncodeError;
use crate::serializable::{encode_value, typed_encoding, Serializable, TypeName};
use crate::typed_value::{TypedValue, TypedValueView};

verus! {

/// What a [`StateSpec`] is: the slot's name, and the value that stands for a
/// slot nothing was written to yet, if there is such a value.
pub struct StateSpecView<V> {
    pub name: Seq<char>,
    pub default: Option<V>,
}

/// A state slot of a function: its name, the type `T` of its values, and
/// perhaps a default.
#[derive(Debug)]
pub struct StateSpec<T> {
    name: String,
    default: Option<T>,
}

impl<T: View> View for StateSpec<T> {
    type V = StateSpecView<T::V>;

    closed spec fn view(&self) -> StateSpecView<T::V> {
        StateSpecView {
            name: self.name@,
            default: match self.default {
                Some(v) => Some(v@),
                None => None,
            },
        }
    }
}

/// What a [`StateDeclaration`] is: a slot's name, the name of its type, and
/// its default as tagged bytes.
pub struct StateDeclarationView {
    pub name: Seq<char>,
    pub typename: Seq<char>,
    pub default: Option<TypedValueView>,
}

/// A [`StateSpec`] without its type parameter, as a registry keeps it.
#[derive(Debug)]
pub struct StateDeclaration {
    pub name: String,
    pub typename: String,
    pub default: Option<TypedValue>,
}

impl View for StateDeclaration {
    type V = StateDeclarationView;

    open spec fn view(&self) -> StateDeclarationView {
        StateDeclarationView {
            name: self.name@,
            typename: self.typename@,
            default: match self.default {
                Some(tv) => Some(tv@),
                None => None,
            },
        }
    }
}

/// The declaration that `spec` stands for, or `None` where its default has no
/// encoding.
pub open spec fn declaration_of<T: Serializable>(spec: StateSpecView<T::V>) -> Option<
    StateDeclarationView,
> {
    match spec.default {
        None => Some(
            StateDeclarationView { name: spec.name, typename: T::typename_spec(), default: None },
        ),
        Some(v) => match typed_encoding::<T>(v) {
            Some(tv) => Some(
                StateDeclarationView {
                    name: spec.name,
                    typename: T::typename_spec(),
                    default: Some(tv),
                },
            ),
            None => None,
        },
    }
}

impl<T: Serializable> StateSpec<T> {
    /// A slot without a default: until something is written, it is absent.
    pub fn new(name: &str) -> (r: StateSpec<T>)
        ensures
            r@ == (StateSpecView::<T::V> { name: name@, default: None }),
    {
        StateSpec { name: name.to_string(), default: None }
    }

    /// A slot that reads as `default` until something is written.
    pub fn with_default(name: &str, default: T) -> (r: StateSpec<T>)
        ensures
            r@ == (StateSpecView::<T::V> { name: name@, default: Some(default@) }),
    {
        StateSpec { name: name.to_string(), default: Some(default) }
    }

    pub fn name(&self) -> (r: &str)
        ensures
            r@ == self@.name,
    {
        self.name.as_str()
    }

    /// The declaration to register: the default is encoded here, once.
    pub fn declare(&self) -> (r: Result<StateDeclaration, EncodeError>)
        ensures
            r is Ok <==> declaration_of::<T>(self@) is Some,
            r matches Ok(d) ==> declaration_of::<T>(self@) == Some(d@),
    {
        let default = match &self.default {
            None => None,
            Some(v) => match encode_value(v) {
                Ok(tv) => Some(tv),
                Err(e) => {
                    return Err(e);
                },
            },
        };
        Ok(
            StateDeclaration {
                name: self.name.clone(),
                typename: T::get_typename().to_string(),
                default,
            },
        )
    }
}

} // verus!
