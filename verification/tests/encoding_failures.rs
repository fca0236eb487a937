use statefun_greeter::invocation::Invocation;
use statefun_greeter::serializable::encode_value;
use statefun_greeter::{
    Address, Context, ContextView, Effects, EffectsView, EgressIdentifier, FunctionRegistry,
    FunctionType, InvocationError, InvocationFailure, Message, MessageView, Serializable,
    StateReader, StateSpec, StateStore, StatefulFunction, TypeName,
};
use vstd::prelude::{Seq, View};

/// A payload that refuses to be written.
struct Unwritable;

impl View for Unwritable {
    type V = ();

    fn view(&self) {}
}

impl TypeName for Unwritable {
    fn typename_spec() -> Seq<char> {
        unreachable!()
    }

    fn get_typename() -> &'static str {
        "example/Unwritable"
    }
}

impl Serializable for Unwritable {
    fn encoded(_v: ()) -> Option<Seq<u8>> {
        unreachable!()
    }

    fn decoded(_bytes: Seq<u8>) -> Option<()> {
        unreachable!()
    }

    fn serialize(&self, _typename: String) -> Result<Vec<u8>, String> {
        Err("cannot be written".to_string())
    }

    fn deserialize(_typename: String, _buffer: &Vec<u8>) -> Result<Self, String> {
        Err("cannot be read".to_string())
    }

    fn round_trip(_v: ()) {}
}

fn address(id: &str) -> Address {
    Address::new(FunctionType::new("example", "counter"), id)
}

#[test]
fn an_update_that_does_not_encode_records_nothing() {
    let mut effects = Effects::new();
    effects.update_state(&StateSpec::<i32>::new("count"), &1).unwrap();
    let error = effects.update_state(&StateSpec::<Unwritable>::new("blob"), &Unwritable).unwrap_err();
    assert_eq!(error.message, "cannot be written");
    assert_eq!(effects.updates().len(), 1);
    assert_eq!(effects.updates()[0].0, "count");
}

#[test]
fn a_send_that_does_not_encode_records_nothing() {
    let mut effects = Effects::new();
    effects.send(address("a"), &1).unwrap();
    assert!(effects.send(address("b"), &Unwritable).is_err());
    assert_eq!(effects.sends().len(), 1);
    assert_eq!(effects.sends()[0].0, address("a"));
}

#[test]
fn an_egress_that_does_not_encode_records_nothing() {
    let mut effects = Effects::new();
    let sink = EgressIdentifier::new("example", "sink");
    assert!(effects.egress(sink, &Unwritable).is_err());
    assert!(effects.egresses().is_empty());
    assert!(effects.updates().is_empty());
    assert!(effects.sends().is_empty());
}

#[test]
fn a_default_that_does_not_encode_cannot_be_declared() {
    assert!(StateSpec::with_default("blob", Unwritable).declare().is_err());
    assert!(StateSpec::<Unwritable>::new("blob").declare().is_ok());
}

/// Writes a count, then tries to send what cannot be written.
struct Careless;

impl StatefulFunction for Careless {
    fn allows(
        &self,
        _context: ContextView,
        _message: MessageView,
        _outcome: Result<EffectsView, InvocationFailure>,
    ) -> bool {
        true
    }

    fn invoke(&self, _context: Context, _message: Message) -> Result<Effects, InvocationError> {
        let mut effects = Effects::new();
        effects.update_state(&StateSpec::<i32>::new("count"), &1).map_err(InvocationError::Encode)?;
        effects.send(address("a"), &Unwritable).map_err(InvocationError::Encode)?;
        Ok(effects)
    }
}

#[test]
fn an_invocation_that_cannot_encode_fails_whole() {
    let mut registry = FunctionRegistry::new();
    registry
        .register_fn(
            FunctionType::new("example", "counter"),
            vec![StateSpec::<i32>::new("count").declare().unwrap()],
            Careless,
        )
        .unwrap();
    let mut store = StateStore::new();
    let invocation =
        Invocation { target: address("alice"), caller: None, payload: encode_value(&1i32).unwrap() };
    assert!(matches!(registry.process(&mut store, invocation), Err(InvocationError::Encode(_))));
    assert_eq!(store.read(&address("alice"), "count"), None);
}
