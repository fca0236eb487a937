//! The functions that a runtime serves, and the path of one invocation
//! through them.

use vstd::prelude::*;
use crate::address::{Address, AddressView, FunctionType, FunctionTypeView};
use crate::context::{slots_view, Context, ContextView};
use crate::effects::{Effects, EffectsView};
use crate::error::{InvocationError, InvocationFailure, RegistrationError};
use crate::invocation::{
    complete, completed, Invocation, InvocationView, OutgoingBatch, OutgoingBatchView,
};
use crate::lookup::{
    first_at, lemma_position_absent, lemma_position_found, lemma_position_none, position,
};
use crate::message::{outcome_view, Message, MessageView};
use crate::state_message::StateMessage;
use crate::state_spec::{StateDeclaration, StateDeclarationView};
use crate::store::{applied, StateReader, StateStore};
use crate::typed_value::TypedValueView;

verus! {

/// A stateful function, as the registry calls it.
pub trait StatefulFunction {
    /// Whether the function may end in `outcome` when it is invoked with
    /// `context` and `message`.
    spec fn allows(
        &self,
        context: ContextView,
        message: MessageView,
        outcome: Result<EffectsView, InvocationFailure>,
    ) -> bool;

    /// Handles one message. `Ok` holds everything that the invocation asks
    /// for; `Err` means that it asks for nothing.
    fn invoke(&self, context: Context, message: Message) -> (r: Result<Effects, InvocationError>)
        ensures
            self.allows(context@, message@, outcome_view(r)),
    ;
}

/// What a registry holds for one function type.
pub struct RegistrationView<H> {
    pub function_type: FunctionTypeView,
    pub specs: Seq<StateDeclarationView>,
    pub handler: H,
}

/// The function types of `registrations`, in order.
pub open spec fn registered_types<H>(registrations: Seq<RegistrationView<H>>) -> Seq<
    FunctionTypeView,
> {
    Seq::new(registrations.len(), |i: int| registrations[i].function_type)
}

/// The names of `specs`, in order.
pub open spec fn declared_names(specs: Seq<StateDeclarationView>) -> Seq<Seq<char>> {
    Seq::new(specs.len(), |i: int| specs[i].name)
}

/// A list of declarations, each by its view.
pub open spec fn declarations_view(specs: Seq<StateDeclaration>) -> Seq<StateDeclarationView> {
    Seq::new(specs.len(), |i: int| specs[i]@)
}

/// The state that a function with the slots `specs` sees at `address`: for each
/// slot what `reader` has stored, else the slot's default, else nothing.
pub open spec fn hydrated<R: StateReader>(
    specs: Seq<StateDeclarationView>,
    reader: &R,
    address: AddressView,
) -> Seq<(Seq<char>, Option<TypedValueView>)> {
    Seq::new(
        specs.len(),
        |i: int|
            (
                specs[i].name,
                match reader.stored(address, specs[i].name) {
                    Some(v) => Some(v),
                    None => specs[i].default,
                },
            ),
    )
}

/// The context of `invocation` for a function with the slots `specs`.
pub open spec fn context_for<R: StateReader>(
    specs: Seq<StateDeclarationView>,
    reader: &R,
    invocation: InvocationView,
) -> ContextView {
    ContextView {
        self_address: invocation.target,
        caller: invocation.caller,
        state: hydrated(specs, reader, invocation.target),
    }
}

/// The message that `invocation` carries.
pub open spec fn message_for(invocation: InvocationView) -> MessageView {
    MessageView { payload: invocation.payload, source: invocation.caller }
}

/// Whether `result` is an answer of the functions `registrations` to
/// `invocation`, with `reader` as the state backend.
///
/// Where no function of the target's type is registered, the only answer is
/// `UnknownFunctionType`. Else the function of that type saw the state that
/// `reader` held, and the answer is the translation of an outcome that the
/// function allows for that context and message.
pub open spec fn dispatched<H: StatefulFunction, R: StateReader>(
    registrations: Seq<RegistrationView<H>>,
    reader: &R,
    invocation: InvocationView,
    result: Result<OutgoingBatchView, InvocationFailure>,
) -> bool {
    match position(registered_types(registrations), invocation.target.function_type) {
        None => result == Err::<OutgoingBatchView, InvocationFailure>(
            InvocationFailure::UnknownFunctionType(invocation.target.function_type),
        ),
        Some(i) => exists|outcome: Result<EffectsView, InvocationFailure>|
            {
                &&& #[trigger] registrations[i].handler.allows(
                    context_for(registrations[i].specs, reader, invocation),
                    message_for(invocation),
                    outcome,
                )
                &&& outcome matches Ok(effects) ==> effects.wf()
                &&& result == completed(invocation.target, outcome)
            },
    }
}

struct Registration<H> {
    function_type: FunctionType,
    specs: Vec<StateDeclaration>,
    handler: H,
}

impl<H> View for Registration<H> {
    type V = RegistrationView<H>;

    closed spec fn view(&self) -> RegistrationView<H> {
        RegistrationView {
            function_type: self.function_type@,
            specs: declarations_view(self.specs@),
            handler: self.handler,
        }
    }
}

/// The functions that a runtime serves: for each function type its state
/// slots and its handler. `H` is the type of the handlers.
pub struct FunctionRegistry<H> {
    entries: Vec<Registration<H>>,
}

/// A list of registrations, each by its view.
spec fn registrations_view<H>(entries: Seq<Registration<H>>) -> Seq<RegistrationView<H>> {
    Seq::new(entries.len(), |i: int| entries[i]@)
}

/// No function type is registered twice, and no registration names a slot twice.
pub open spec fn registrations_wf<H>(registrations: Seq<RegistrationView<H>>) -> bool {
    &&& registered_types(registrations).no_duplicates()
    &&& forall|i: int|
        0 <= i < registrations.len() ==> #[trigger] declared_names(
            registrations[i].specs,
        ).no_duplicates()
}

impl<H> View for FunctionRegistry<H> {
    type V = Seq<RegistrationView<H>>;

    closed spec fn view(&self) -> Seq<RegistrationView<H>> {
        registrations_view(self.entries@)
    }
}

/// The first slot of `specs` whose name an earlier slot has too.
fn first_duplicate(specs: &Vec<StateDeclaration>) -> (r: Option<usize>)
    ensures
        match r {
            None => declared_names(declarations_view(specs@)).no_duplicates(),
            Some(j) => j < specs@.len() && exists|i: int|
                0 <= i < j && specs@[i].name@ == specs@[j as int].name@,
        },
{
    let ghost names = declared_names(declarations_view(specs@));
    let mut j: usize = 0;
    while j < specs.len()
        invariant
            j <= specs@.len(),
            names == declared_names(declarations_view(specs@)),
            forall|a: int, b: int| 0 <= a < b < j ==> names[a] != names[b],
        decreases specs@.len() - j,
    {
        let mut i: usize = 0;
        while i < j
            invariant
                i <= j < specs@.len(),
                names == declared_names(declarations_view(specs@)),
                forall|a: int| 0 <= a < i ==> names[a] != names[j as int],
            decreases j - i,
        {
            if specs[i].name == specs[j].name {
                return Some(j);
            }
            i = i + 1;
        }
        j = j + 1;
    }
    None
}

/// Reads the state of the function at `address` for the slots `specs`.
fn hydrate<R: StateReader>(specs: &Vec<StateDeclaration>, reader: &R, address: &Address) -> (r:
    Vec<(String, Option<StateMessage>)>)
    ensures
        slots_view(r@) == hydrated(declarations_view(specs@), reader, address@),
{
    let mut slots: Vec<(String, Option<StateMessage>)> = Vec::new();
    let ghost want = hydrated(declarations_view(specs@), reader, address@);
    let mut i: usize = 0;
    while i < specs.len()
        invariant
            i <= specs@.len(),
            slots@.len() == i,
            want == hydrated(declarations_view(specs@), reader, address@),
            forall|j: int| 0 <= j < i ==> #[trigger] slots_view(slots@)[j] == want[j],
        decreases specs@.len() - i,
    {
        let spec = &specs[i];
        let value = match reader.read(address, spec.name.as_str()) {
            Some(tv) => Some(StateMessage::new(tv)),
            None => match &spec.default {
                Some(tv) => Some(StateMessage::new(tv.clone())),
                None => None,
            },
        };
        let ghost before = slots_view(slots@);
        slots.push((spec.name.clone(), value));
        proof {
            let after = slots_view(slots@);
            assert forall|j: int| 0 <= j < i + 1 implies #[trigger] after[j] == want[j] by {
                if j < i {
                    assert(after[j] == before[j]);
                }
            }
        }
        i = i + 1;
    }
    proof {
        assert(slots_view(slots@) =~= want);
    }
    slots
}

impl<H> FunctionRegistry<H> {
    #[verifier::type_invariant]
    spec fn inv(&self) -> bool {
        registrations_wf(self@)
    }
}

impl<H: StatefulFunction> FunctionRegistry<H> {
    /// A registry without functions.
    pub fn new() -> (r: FunctionRegistry<H>)
        ensures
            r@ == Seq::<RegistrationView<H>>::empty(),
    {
        let r = FunctionRegistry { entries: Vec::new() };
        assert(r@ =~= Seq::<RegistrationView<H>>::empty());
        r
    }

    /// Where the registration of `function_type` stands.
    fn find(&self, function_type: &FunctionType) -> (r: Option<usize>)
        ensures
            match r {
                Some(i) => position(registered_types(self@), function_type@) == Some(i as int),
                None => position(registered_types(self@), function_type@) is None,
            },
    {
        let ghost types = registered_types(self@);
        let mut i: usize = 0;
        while i < self.entries.len()
            invariant
                i <= self.entries@.len(),
                types == registered_types(self@),
                types.len() == self.entries@.len(),
                forall|j: int|
                    0 <= j < self.entries@.len() ==> types[j] == self.entries@[j].function_type@,
                forall|j: int| 0 <= j < i ==> types[j] != function_type@,
            decreases self.entries@.len() - i,
        {
            if self.entries[i].function_type == *function_type {
                proof {
                    assert(first_at(types, function_type@, i as int));
                    lemma_position_found(types, function_type@, i as int);
                }
                return Some(i);
            }
            i = i + 1;
        }
        proof {
            lemma_position_absent(types, function_type@);
        }
        None
    }

    /// Whether a function is registered under `function_type`.
    pub fn contains(&self, function_type: &FunctionType) -> (r: bool)
        ensures
            r == position(registered_types(self@), function_type@).is_some(),
    {
        self.find(function_type).is_some()
    }

    /// Registers `handler`, with the state slots `specs`, as the function of
    /// type `function_type`.
    ///
    /// A function type is registered once: a second registration is turned
    /// down as `DuplicateRegistration`. Slots that share a name are turned down
    /// as `DuplicateStateSpec`, with the shared name. A registration that is
    /// turned down leaves the registry as it was.
    pub fn register_fn(
        &mut self,
        function_type: FunctionType,
        specs: Vec<StateDeclaration>,
        handler: H,
    ) -> (r: Result<(), RegistrationError>)
        ensures
            registrations_wf(final(self)@),
            match r {
                Ok(_) => {
                    &&& position(registered_types(old(self)@), function_type@) is None
                    &&& declared_names(declarations_view(specs@)).no_duplicates()
                    &&& final(self)@ == old(self)@.push(
                        RegistrationView {
                            function_type: function_type@,
                            specs: declarations_view(specs@),
                            handler,
                        },
                    )
                },
                Err(RegistrationError::DuplicateRegistration(t)) => {
                    &&& position(registered_types(old(self)@), function_type@) is Some
                    &&& t@ == function_type@
                    &&& final(self)@ == old(self)@
                },
                Err(RegistrationError::DuplicateStateSpec(name)) => {
                    &&& position(registered_types(old(self)@), function_type@) is None
                    &&& !declared_names(declarations_view(specs@)).no_duplicates()
                    &&& exists|i: int, j: int|
                        0 <= i < j < specs@.len() && specs@[i].name@ == name@ && specs@[j].name@
                            == name@
                    &&& final(self)@ == old(self)@
                },
            },
    {
        proof {
            use_type_invariant(&*self);
        }
        if self.find(&function_type).is_some() {
            return Err(RegistrationError::DuplicateRegistration(function_type));
        }
        match first_duplicate(&specs) {
            Some(j) => {
                proof {
                    let names = declared_names(declarations_view(specs@));
                    let i = choose|i: int| 0 <= i < j && specs@[i].name@ == specs@[j as int].name@;
                    assert(names[i] == names[j as int]);
                }
                return Err(RegistrationError::DuplicateStateSpec(specs[j].name.clone()));
            },
            None => {},
        }
        let ghost before = self@;
        let ghost added = RegistrationView {
            function_type: function_type@,
            specs: declarations_view(specs@),
            handler,
        };
        let mut entries: Vec<Registration<H>> = Vec::new();
        assert(registrations_view(entries@) =~= Seq::<RegistrationView<H>>::empty());
        std::mem::swap(&mut self.entries, &mut entries);
        entries.push(Registration { function_type, specs, handler });
        proof {
            let after = registrations_view(entries@);
            assert(after =~= before.push(added));
            lemma_position_none(registered_types(before), added.function_type);
            assert(registered_types(after) =~= registered_types(before).push(added.function_type));
            assert forall|i: int| 0 <= i < after.len() implies #[trigger] declared_names(
                after[i].specs,
            ).no_duplicates() by {
                if i < before.len() {
                    assert(after[i] == before[i]);
                }
            }
        }
        std::mem::swap(&mut self.entries, &mut entries);
        Ok(())
    }

    /// Handles one invocation: finds the function of the target's type, reads
    /// its state from `reader`, calls it, and translates what it returns.
    /// Nothing is written here: the batch says what is to be written.
    pub fn dispatch<R: StateReader>(&self, reader: &R, invocation: Invocation) -> (r: Result<
        OutgoingBatch,
        InvocationError,
    >)
        ensures
            dispatched(self@, reader, invocation@, outcome_view(r)),
    {
        let i = match self.find(invocation.target.function_type()) {
            Some(i) => i,
            None => {
                return Err(
                    InvocationError::UnknownFunctionType(invocation.target.function_type().clone()),
                );
            },
        };
        let entry = &self.entries[i];
        let Invocation { target, caller, payload } = invocation;
        let state = hydrate(&entry.specs, reader, &target);
        let context = Context::new(
            target.clone(),
            match &caller {
                Some(a) => Some(a.clone()),
                None => None,
            },
            state,
        );
        let message = Message::new(payload, caller);
        let ghost context_view = context@;
        let ghost message_view = message@;
        let outcome = entry.handler.invoke(context, message);
        let ghost allowed = outcome_view(outcome);
        proof {
            assert(context_view == context_for(self@[i as int].specs, reader, invocation@));
            assert(message_view == message_for(invocation@));
        }
        let r = complete(&target, outcome);
        proof {
            assert(self@[i as int].handler.allows(
                context_for(self@[i as int].specs, reader, invocation@),
                message_for(invocation@),
                allowed,
            ));
        }
        r
    }

    /// Handles one invocation against `store` and, where it succeeds, applies
    /// its state writes to `store`. The function sees the state as it was
    /// before; a failed invocation leaves `store` as it was.
    pub fn process(&self, store: &mut StateStore, invocation: Invocation) -> (r: Result<
        OutgoingBatch,
        InvocationError,
    >)
        ensures
            dispatched(self@, old(store), invocation@, outcome_view(r)),
            match r {
                Ok(batch) => final(store)@ == applied(old(store)@, batch@.state_writes),
                Err(_) => final(store)@ == old(store)@,
            },
    {
        match self.dispatch(&*store, invocation) {
            Ok(batch) => {
                store.apply(&batch.state_writes);
                Ok(batch)
            },
            Err(e) => Err(e),
        }
    }
}

} // verus!
