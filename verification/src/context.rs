//! What a function can read during one invocation.

use vstd::prelude::*;
use crate::address::{Address, AddressView};
use crate::error::{DecodeError, DecodeFailure};
use crate::lookup::{first_at, lemma_position_absent, lemma_position_found, position};
use crate::serializable::{decoding_view, typed_decoding, Serializable};
use crate::state_message::StateMessage;
use crate::state_spec::StateSpec;
use crate::typed_value::TypedValueView;

verus! {

/// What a [`Context`] is. `state` has one entry for each slot that the
/// function declared: the slot's name and its value, `None` where the slot
/// holds nothing.
pub struct ContextView {
    pub self_address: AddressView,
    pub caller: Option<AddressView>,
    pub state: Seq<(Seq<char>, Option<TypedValueView>)>,
}

/// The names of the slots in `state`, in order.
pub open spec fn slot_names(state: Seq<(Seq<char>, Option<TypedValueView>)>) -> Seq<Seq<char>> {
    Seq::new(state.len(), |i: int| state[i].0)
}

/// The value that `state` holds under `name`: `None` where no slot has that
/// name, and where the slot holds nothing.
pub open spec fn slot_value(state: Seq<(Seq<char>, Option<TypedValueView>)>, name: Seq<char>) -> Option<
    TypedValueView,
> {
    match position(slot_names(state), name) {
        Some(i) => state[i].1,
        None => None,
    }
}

/// What reading the slot `name` of `state` as a `T` gives: `None` for an absent
/// value, else the value or the reason why the bytes are no `T`.
pub open spec fn state_reading<T: Serializable>(
    state: Seq<(Seq<char>, Option<TypedValueView>)>,
    name: Seq<char>,
) -> Option<Result<T::V, DecodeFailure>> {
    match slot_value(state, name) {
        Some(tv) => Some(typed_decoding::<T>(tv)),
        None => None,
    }
}

/// The slots of a context, each part by its view.
pub open spec fn slots_view(slots: Seq<(String, Option<StateMessage>)>) -> Seq<
    (Seq<char>, Option<TypedValueView>),
> {
    Seq::new(
        slots.len(),
        |i: int|
            (
                slots[i].0@,
                match slots[i].1 {
                    Some(m) => Some(m@),
                    None => None,
                },
            ),
    )
}

/// The read-only side of one invocation: who is invoked, who asked, and the
/// state as it was stored when the invocation began. Nothing that the
/// invocation writes shows here.
#[derive(Debug)]
pub struct Context {
    self_address: Address,
    caller: Option<Address>,
    state: Vec<(String, Option<StateMessage>)>,
}

impl View for Context {
    type V = ContextView;

    closed spec fn view(&self) -> ContextView {
        ContextView {
            self_address: self.self_address@,
            caller: match self.caller {
                Some(a) => Some(a@),
                None => None,
            },
            state: slots_view(self.state@),
        }
    }
}

impl Context {
    pub fn new(
        self_address: Address,
        caller: Option<Address>,
        state: Vec<(String, Option<StateMessage>)>,
    ) -> (r: Context)
        ensures
            r@.self_address == self_address@,
            r@.caller == match caller {
                Some(a) => Some(a@),
                None => None,
            },
            r@.state == slots_view(state@),
    {
        Context { self_address, caller, state }
    }

    /// The address of the function that is invoked.
    pub fn self_address(&self) -> (r: &Address)
        ensures
            r@ == self@.self_address,
    {
        &self.self_address
    }

    /// The address of the function that sent the message, if one did.
    pub fn caller_address(&self) -> (r: Option<&Address>)
        ensures
            match r {
                Some(a) => self@.caller == Some(a@),
                None => self@.caller is None,
            },
    {
        self.caller.as_ref()
    }

    /// The stored value of the slot of `spec`, read as a `T`. `None` where the
    /// slot holds nothing; an error where it holds bytes that are no `T`.
    pub fn get_state<T: Serializable>(&self, spec: &StateSpec<T>) -> (r: Option<
        Result<T, DecodeError>,
    >)
        ensures
            match r {
                Some(read) => Some(decoding_view(read)) == state_reading::<T>(
                    self@.state,
                    spec@.name,
                ),
                None => state_reading::<T>(self@.state, spec@.name) is None,
            },
    {
        let name = spec.name().to_string();
        let ghost names = slot_names(self@.state);
        let mut i: usize = 0;
        while i < self.state.len()
            invariant
                i <= self.state@.len(),
                names == slot_names(slots_view(self.state@)),
                self@.state == slots_view(self.state@),
                name@ == spec@.name,
                forall|j: int| 0 <= j < i ==> names[j] != name@,
            decreases self.state@.len() - i,
        {
            if self.state[i].0 == name {
                proof {
                    assert(first_at(names, name@, i as int));
                    lemma_position_found(names, name@, i as int);
                }
                return match &self.state[i].1 {
                    Some(stored) => Some(stored.get::<T>()),
                    None => None,
                };
            }
            i = i + 1;
        }
        proof {
            lemma_position_absent(names, name@);
        }
        None
    }
}

} // verus!
