use statefun_greeter::greeter::{
    last_seen_timestamp_spec, seen_count_spec, GreeterFunction, LoginType, MyUserProfile,
    Received, SomeValue, StatefulFunctions, UserLogin, UserProfile,
};
use statefun_greeter::invocation::Invocation;
use statefun_greeter::serializable::{decode_value, encode_value};
use statefun_greeter::{
    Address, Context, DecodeError, FunctionRegistry, FunctionType, InvocationError, Message,
    RegistrationError, StateMessage, StateReader, StateStore, StatefulFunction, TypedValue,
};

fn user_type() -> FunctionType {
    FunctionType::new("greeter.fns", "user")
}

fn greet_type() -> FunctionType {
    FunctionType::new("greeter.fns", "greet")
}

fn user_address(id: &str) -> Address {
    Address::new(user_type(), id)
}

fn greet_address(id: &str) -> Address {
    Address::new(greet_type(), id)
}

fn login(name: &str, login_type: LoginType) -> TypedValue {
    encode_value(&UserLogin { user_name: name.to_string(), login_type }).unwrap()
}

fn stored_int(v: i32) -> Option<StateMessage> {
    Some(StateMessage::new(encode_value(&v).unwrap()))
}

fn stored_long(v: i64) -> Option<StateMessage> {
    Some(StateMessage::new(encode_value(&v).unwrap()))
}

fn context(seen_count: Option<StateMessage>, last_seen: Option<StateMessage>) -> Context {
    Context::new(
        user_address("alice"),
        None,
        vec![("seen_count".to_string(), seen_count), ("last_seen_ms".to_string(), last_seen)],
    )
}

fn profile_of(payload: &TypedValue) -> UserProfile {
    decode_value::<MyUserProfile>(payload).unwrap().0
}

fn registry() -> FunctionRegistry<GreeterFunction> {
    let mut registry = FunctionRegistry::new();
    StatefulFunctions::new().register_functions(&mut registry).unwrap();
    registry
}

#[test]
fn function_types_of_the_greeter() {
    assert_eq!(StatefulFunctions::user_function_type(), user_type());
    assert_eq!(StatefulFunctions::greet_function_type(), greet_type());
}

#[test]
fn state_specs_of_the_greeter() {
    let d = seen_count_spec().declare().unwrap();
    assert_eq!(d.name, "seen_count");
    assert_eq!(d.typename, "io.statefun.types/int");
    assert_eq!(d.default, Some(encode_value(&0i32).unwrap()));
    let d = last_seen_timestamp_spec().declare().unwrap();
    assert_eq!(d.name, "last_seen_ms");
    assert_eq!(d.typename, "io.statefun.types/long");
    assert_eq!(d.default, None);
}

#[test]
fn register_functions_registers_both() {
    let registry = registry();
    assert!(registry.contains(&user_type()));
    assert!(registry.contains(&greet_type()));
    assert!(!registry.contains(&FunctionType::new("greeter.fns", "other")));
}

#[test]
fn register_functions_twice_is_turned_down() {
    let mut registry = registry();
    match StatefulFunctions::new().register_functions(&mut registry) {
        Err(RegistrationError::DuplicateRegistration(t)) => assert_eq!(t, user_type()),
        other => panic!("unexpected: {:?}", other),
    }
}

#[test]
fn register_functions_registers_user_where_greet_is_taken() {
    let mut registry: FunctionRegistry<GreeterFunction> = FunctionRegistry::new();
    registry.register_fn(greet_type(), vec![], GreeterFunction::Greet).unwrap();
    match StatefulFunctions::new().register_functions(&mut registry) {
        Err(RegistrationError::DuplicateRegistration(t)) => assert_eq!(t, greet_type()),
        other => panic!("unexpected: {:?}", other),
    }
    assert!(registry.contains(&user_type()));
    assert!(registry.contains(&greet_type()));
    // `user` came with its two slots: a login finds its count.
    let store = StateStore::new();
    let invocation = Invocation {
        target: user_address("alice"),
        caller: None,
        payload: login("alice", LoginType::Web),
    };
    let batch = registry.dispatch(&store, invocation).unwrap();
    assert_eq!(batch.state_writes.len(), 2);
    assert_eq!(batch.state_writes[0].value, encode_value(&1i32).unwrap());
}

#[test]
fn register_functions_registers_greet_where_user_is_taken() {
    let mut registry: FunctionRegistry<GreeterFunction> = FunctionRegistry::new();
    // Taken by the greeter's own handler for `greet`, so that one can tell
    // that this registration stays.
    registry.register_fn(user_type(), vec![], GreeterFunction::Greet).unwrap();
    match StatefulFunctions::new().register_functions(&mut registry) {
        Err(RegistrationError::DuplicateRegistration(t)) => assert_eq!(t, user_type()),
        other => panic!("unexpected: {:?}", other),
    }
    assert!(registry.contains(&user_type()));
    assert!(registry.contains(&greet_type()));
    let store = StateStore::new();
    let to_greet = Invocation {
        target: greet_address("alice"),
        caller: None,
        payload: encode_value(&SomeValue::new(1)).unwrap(),
    };
    assert!(registry.dispatch(&store, to_greet).is_ok());
    let to_user = Invocation {
        target: user_address("alice"),
        caller: None,
        payload: login("alice", LoginType::Web),
    };
    assert!(matches!(
        registry.dispatch(&store, to_user),
        Err(InvocationError::UnexpectedMessageType { .. })
    ));
}

#[test]
fn register_functions_where_both_are_taken_changes_nothing() {
    let mut registry = registry();
    match StatefulFunctions::new().register_functions(&mut registry) {
        Err(RegistrationError::DuplicateRegistration(t)) => assert_eq!(t, user_type()),
        other => panic!("unexpected: {:?}", other),
    }
    let store = StateStore::new();
    let invocation = Invocation {
        target: user_address("alice"),
        caller: None,
        payload: login("alice", LoginType::Web),
    };
    assert_eq!(registry.dispatch(&store, invocation).unwrap().invocations.len(), 2);
}

#[test]
fn first_login_counts_one_and_tells_the_greeter() {
    let message = Message::new(login("alice", LoginType::Web), None);
    let effects =
        StatefulFunctions::user_at(context(stored_int(0), None), message, Some(1_000)).unwrap();
    assert_eq!(
        effects.updates(),
        &vec![
            ("seen_count".to_string(), encode_value(&1i32).unwrap()),
            ("last_seen_ms".to_string(), encode_value(&1_000i64).unwrap()),
        ]
    );
    let sends = effects.sends();
    assert_eq!(sends.len(), 2);
    assert_eq!(sends[0].0, greet_address("alice"));
    let profile = profile_of(&sends[0].1);
    assert_eq!(profile.get_name(), "alice");
    assert_eq!(profile.get_login_location(), "Web");
    assert_eq!(profile.get_seen_count(), 1);
    assert_eq!(profile.get_last_seen_delta_ms(), 0);
    assert_eq!(sends[1].0, greet_address("some_id"));
    assert_eq!(sends[1].1, TypedValue::new("greeter.types/SomeValue", b"{\"x\":123}".to_vec()));
    assert!(effects.egresses().is_empty());
}

#[test]
fn a_login_without_any_stored_count_counts_one() {
    let message = Message::new(login("alice", LoginType::Web), None);
    let effects = StatefulFunctions::user_at(context(None, None), message, Some(5)).unwrap();
    assert_eq!(effects.updates()[0], ("seen_count".to_string(), encode_value(&1i32).unwrap()));
}

#[test]
fn a_later_login_counts_on_and_measures_the_time_since() {
    let message = Message::new(login("alice", LoginType::Mobile), None);
    let effects = StatefulFunctions::user_at(
        context(stored_int(41), stored_long(1_000)),
        message,
        Some(1_250),
    )
    .unwrap();
    assert_eq!(
        effects.updates(),
        &vec![
            ("seen_count".to_string(), encode_value(&42i32).unwrap()),
            ("last_seen_ms".to_string(), encode_value(&1_250i64).unwrap()),
        ]
    );
    let profile = profile_of(&effects.sends()[0].1);
    assert_eq!(profile.get_login_location(), "Mobile");
    assert_eq!(profile.get_seen_count(), 42);
    assert_eq!(profile.get_last_seen_delta_ms(), 250);
}

#[test]
fn user_turns_down_a_message_that_is_no_login() {
    let message = Message::new(encode_value(&SomeValue::new(1)).unwrap(), None);
    match StatefulFunctions::user_at(context(None, None), message, Some(1)) {
        Err(InvocationError::UnexpectedMessageType { expected, actual }) => {
            assert_eq!(expected, "greeter.types/UserLogin");
            assert_eq!(actual, "greeter.types/SomeValue");
        }
        other => panic!("unexpected: {:?}", other),
    }
}

#[test]
fn user_turns_down_a_login_that_does_not_decode() {
    let message = Message::new(TypedValue::new("greeter.types/UserLogin", vec![9]), None);
    assert!(matches!(
        StatefulFunctions::user_at(context(None, None), message, Some(1)),
        Err(InvocationError::Decode(DecodeError::Malformed { .. }))
    ));
}

#[test]
fn user_turns_down_stored_state_of_the_wrong_type() {
    let message = Message::new(login("alice", LoginType::Web), None);
    assert!(matches!(
        StatefulFunctions::user_at(context(stored_long(1), None), message, Some(1)),
        Err(InvocationError::Decode(DecodeError::WrongTypeName { .. }))
    ));
    let message = Message::new(login("alice", LoginType::Web), None);
    assert!(matches!(
        StatefulFunctions::user_at(context(stored_int(1), stored_int(1)), message, Some(1)),
        Err(InvocationError::Decode(DecodeError::WrongTypeName { .. }))
    ));
}

#[test]
fn user_turns_down_a_count_that_cannot_grow() {
    let message = Message::new(login("alice", LoginType::Web), None);
    assert!(matches!(
        StatefulFunctions::user_at(context(stored_int(i32::MAX), None), message, Some(1)),
        Err(InvocationError::Rejected { .. })
    ));
}

#[test]
fn user_turns_down_a_clock_without_a_time() {
    let message = Message::new(login("alice", LoginType::Web), None);
    assert!(matches!(
        StatefulFunctions::user_at(context(None, None), message, None),
        Err(InvocationError::Rejected { .. })
    ));
}

#[test]
fn user_turns_down_a_time_difference_out_of_range() {
    let message = Message::new(login("alice", LoginType::Web), None);
    assert!(matches!(
        StatefulFunctions::user_at(context(None, stored_long(i64::MIN)), message, Some(1)),
        Err(InvocationError::Rejected { .. })
    ));
    let message = Message::new(login("alice", LoginType::Web), None);
    let effects =
        StatefulFunctions::user_at(context(None, stored_long(i64::MIN + 1)), message, Some(0))
            .unwrap();
    assert_eq!(profile_of(&effects.sends()[0].1).get_last_seen_delta_ms(), i64::MAX);
}

#[test]
fn a_message_of_the_wrong_type_wins_over_a_missing_time() {
    let message = Message::new(encode_value(&1i32).unwrap(), None);
    assert!(matches!(
        StatefulFunctions::user_at(context(None, None), message, None),
        Err(InvocationError::UnexpectedMessageType { .. })
    ));
}

#[test]
fn user_reads_the_wall_clock() {
    let message = Message::new(login("alice", LoginType::Web), None);
    let effects = StatefulFunctions::user(context(None, None), message).unwrap();
    let now = decode_value::<i64>(&effects.updates()[1].1).unwrap();
    assert!(now > 1_600_000_000);
    assert_eq!(profile_of(&effects.sends()[0].1).get_last_seen_delta_ms(), 0);
}

#[test]
fn greet_takes_a_profile_or_a_some_value_and_asks_for_nothing() {
    for payload in [
        encode_value(&SomeValue::new(123)).unwrap(),
        TypedValue::new("greeter.types/UserProfile", vec![]),
    ] {
        let context = Context::new(greet_address("alice"), Some(user_address("alice")), vec![]);
        let effects = StatefulFunctions::greet(context, Message::new(payload, None)).unwrap();
        assert!(effects.updates().is_empty());
        assert!(effects.sends().is_empty());
        assert!(effects.egresses().is_empty());
    }
}

#[test]
fn greet_turns_down_a_message_of_another_type() {
    for payload in [encode_value(&1i32).unwrap(), login("alice", LoginType::Web)] {
        let actual_name = payload.typename.clone();
        let context = Context::new(greet_address("alice"), None, vec![]);
        match StatefulFunctions::greet(context, Message::new(payload, None)) {
            Err(InvocationError::UnexpectedMessageType { expected, actual }) => {
                assert_eq!(expected, "greeter.types/UserProfile");
                assert_eq!(actual, actual_name);
            }
            other => panic!("unexpected: {:?}", other),
        }
    }
}

#[test]
fn a_stray_message_to_the_greeter_fails_the_invocation() {
    let registry = registry();
    let mut store = StateStore::new();
    let invocation = Invocation {
        target: greet_address("alice"),
        caller: None,
        payload: encode_value(&1i64).unwrap(),
    };
    assert!(matches!(
        registry.process(&mut store, invocation),
        Err(InvocationError::UnexpectedMessageType { .. })
    ));
}

#[test]
fn greet_tells_its_payloads_apart() {
    let of = |payload: TypedValue| StatefulFunctions::received(&Message::new(payload, None));
    assert_eq!(of(TypedValue::new("greeter.types/UserProfile", vec![])), Received::UserProfile);
    assert_eq!(of(encode_value(&SomeValue::new(1)).unwrap()), Received::SomeValue);
    assert_eq!(of(encode_value(&1i32).unwrap()), Received::Other);
}

#[test]
fn the_handlers_are_the_two_functions() {
    let message = Message::new(login("alice", LoginType::Web), None);
    let effects = GreeterFunction::User.invoke(context(None, None), message).unwrap();
    assert_eq!(effects.sends().len(), 2);
    let message = Message::new(encode_value(&SomeValue::new(1)).unwrap(), None);
    let effects = GreeterFunction::Greet.invoke(context(None, None), message).unwrap();
    assert!(effects.sends().is_empty());
    let message = Message::new(login("alice", LoginType::Web), None);
    assert!(GreeterFunction::Greet.invoke(context(None, None), message).is_err());
}

fn profile(name: &str, seen_count: i32, delta: i64) -> UserProfile {
    let mut profile = UserProfile::new();
    profile.set_name(name.to_string());
    profile.set_seen_count(seen_count);
    profile.set_last_seen_delta_ms(delta);
    profile
}

#[test]
fn the_first_three_greetings_are_fixed() {
    assert_eq!(
        StatefulFunctions::create_greetings_message(profile("alice", 1, 0)),
        "\"Welcome\" \"alice\"."
    );
    assert_eq!(
        StatefulFunctions::create_greetings_message(profile("alice", 2, 0)),
        "\"Nice to see you again\" \"alice\"."
    );
    assert_eq!(
        StatefulFunctions::create_greetings_message(profile("bob", 3, 9)),
        "\"Third time is a charm\" \"bob\"."
    );
}

#[test]
fn later_greetings_count() {
    assert_eq!(
        StatefulFunctions::create_greetings_message(profile("alice", 4, 250)),
        "Nice to see you for the 4th time, \"alice\"! It has been 250 milliseconds since we last saw you."
    );
    assert_eq!(
        StatefulFunctions::create_greetings_message(profile("al\"ice", 12, -3)),
        "Nice to see you for the 12th time, \"al\\\"ice\"! It has been -3 milliseconds since we last saw you."
    );
}

#[test]
fn a_negative_count_is_taken_as_unsigned() {
    let expected = format!(
        "Nice to see you for the {}th time, \"alice\"! It has been 0 milliseconds since we last saw you.",
        -1i32 as usize
    );
    assert_eq!(StatefulFunctions::create_greetings_message(profile("alice", -1, 0)), expected);
}

#[test]
fn seen_count_goes_from_default_to_one_to_two() {
    let registry = registry();
    let mut store = StateStore::new();
    let alice = user_address("alice");
    assert_eq!(store.read(&alice, "seen_count"), None);

    let first = Invocation {
        target: user_address("alice"),
        caller: None,
        payload: login("alice", LoginType::Web),
    };
    let batch = registry.process(&mut store, first).unwrap();
    assert_eq!(batch.state_writes[0].name, "seen_count");
    assert_eq!(batch.state_writes[0].value, encode_value(&1i32).unwrap());
    assert_eq!(store.read(&alice, "seen_count"), Some(encode_value(&1i32).unwrap()));
    assert!(store.read(&alice, "last_seen_ms").is_some());

    let second = Invocation {
        target: user_address("alice"),
        caller: None,
        payload: login("alice", LoginType::Web),
    };
    let batch = registry.process(&mut store, second).unwrap();
    assert_eq!(profile_of(&batch.invocations[0].payload).get_seen_count(), 2);
    assert_eq!(store.read(&alice, "seen_count"), Some(encode_value(&2i32).unwrap()));
    assert_eq!(store.read(&user_address("bob"), "seen_count"), None);
}

#[test]
fn two_messages_leave_in_the_order_they_were_sent() {
    let registry = registry();
    let store = StateStore::new();
    let invocation = Invocation {
        target: user_address("alice"),
        caller: None,
        payload: login("alice", LoginType::Web),
    };
    let batch = registry.dispatch(&store, invocation).unwrap();
    assert_eq!(batch.invocations.len(), 2);
    assert_eq!(batch.invocations[0].target, greet_address("alice"));
    assert_eq!(batch.invocations[0].caller, Some(user_address("alice")));
    assert_eq!(batch.invocations[0].payload.typename, "greeter.types/UserProfile");
    assert_eq!(batch.invocations[1].target, greet_address("some_id"));
    assert_eq!(batch.invocations[1].caller, Some(user_address("alice")));
    assert_eq!(batch.invocations[1].payload.typename, "greeter.types/SomeValue");
}

#[test]
fn the_greeter_answers_what_user_sent() {
    let registry = registry();
    let mut store = StateStore::new();
    let invocation = Invocation {
        target: user_address("alice"),
        caller: None,
        payload: login("alice", LoginType::Web),
    };
    let batch = registry.process(&mut store, invocation).unwrap();
    for next in batch.invocations {
        let answer = registry.process(&mut store, next).unwrap();
        assert!(answer.state_writes.is_empty());
        assert!(answer.invocations.is_empty());
        assert!(answer.egress_records.is_empty());
    }
}

#[test]
fn a_failed_login_writes_nothing() {
    let registry = registry();
    let mut store = StateStore::new();
    let alice = user_address("alice");
    store.write(&alice, "seen_count", encode_value(&7i32).unwrap());
    let invocation = Invocation {
        target: user_address("alice"),
        caller: None,
        payload: encode_value(&SomeValue::new(1)).unwrap(),
    };
    assert!(matches!(
        registry.process(&mut store, invocation),
        Err(InvocationError::UnexpectedMessageType { .. })
    ));
    assert_eq!(store.read(&alice, "seen_count"), Some(encode_value(&7i32).unwrap()));
    assert_eq!(store.read(&alice, "last_seen_ms"), None);
}

#[test]
fn an_unregistered_function_type_is_unknown() {
    let registry = registry();
    let store = StateStore::new();
    let invocation = Invocation {
        target: Address::new(FunctionType::new("greeter.fns", "nobody"), "alice"),
        caller: None,
        payload: login("alice", LoginType::Web),
    };
    match registry.dispatch(&store, invocation) {
        Err(InvocationError::UnknownFunctionType(t)) => {
            assert_eq!(t, FunctionType::new("greeter.fns", "nobody"))
        }
        other => panic!("unexpected: {:?}", other),
    }
}

#[test]
fn greetings_are_put_together_from_their_texts() {
    assert_eq!(StatefulFunctions::short_greeting("Hello", "you"), "Hello you.");
    assert_eq!(StatefulFunctions::short_greeting("", ""), " .");
    assert_eq!(
        StatefulFunctions::long_greeting("5", "you", "17"),
        "Nice to see you for the 5th time, you! It has been 17 milliseconds since we last saw you."
    );
}

#[test]
fn some_value_from_a_member() {
    assert_eq!(SomeValue::from_member(Some(5)), Ok(SomeValue { x: 5 }));
    assert_eq!(SomeValue::from_member(Some(-2147483648)), Ok(SomeValue { x: i32::MIN }));
    assert_eq!(SomeValue::from_member(Some(2147483647)), Ok(SomeValue { x: i32::MAX }));
    assert!(SomeValue::from_member(Some(2147483648)).is_err());
    assert!(SomeValue::from_member(Some(-2147483649)).is_err());
    assert!(SomeValue::from_member(None).is_err());
}
