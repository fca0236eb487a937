//! The two functions of the greeter.

use vstd::prelude::*;
use crate::address::{Address, AddressView, FunctionType, FunctionTypeView};
use crate::clock::unix_seconds;
use crate::context::{state_reading, Context, ContextView};
use crate::decimal::decimal_chars;
use crate::effects::{Effects, EffectsView};
use crate::error::{InvocationError, InvocationFailure, RegistrationError};
use crate::greeter::types::{MyUserProfile, SomeValue, UserLogin, UserProfile, UserProfileView};
use crate::lookup::{
    first_at, lemma_position_absent, lemma_position_found, lemma_position_is_first,
    lemma_position_none, position,
};
use crate::message::{message_decoding, outcome_view, Message, MessageView};
use crate::registry::{
    declarations_view, declared_names, registered_types, FunctionRegistry, RegistrationView,
    StatefulFunction,
};
use crate::serializable::{typed_encoding, Serializable, TypeName};
use crate::state_spec::{StateDeclaration, StateDeclarationView, StateSpec, StateSpecView};
use crate::text::{debug_text, integer_text, str_debug_text};

verus! {

/// The type of the function that counts logins.
pub open spec fn user_type() -> FunctionTypeView {
    FunctionTypeView { namespace: "greeter.fns"@, name: "user"@ }
}

/// The type of the function that greets.
pub open spec fn greet_type() -> FunctionTypeView {
    FunctionTypeView { namespace: "greeter.fns"@, name: "greet"@ }
}

/// The slot that counts the logins of a user. It starts at zero.
pub fn seen_count_spec() -> (r: StateSpec<i32>)
    ensures
        r@ == (StateSpecView::<i32> { name: "seen_count"@, default: Some(0i32) }),
{
    StateSpec::with_default("seen_count", 0)
}

/// The slot that holds the time of a user's last login, in whole seconds
/// since the Unix epoch, as the clock gives it. It starts absent.
pub fn last_seen_timestamp_spec() -> (r: StateSpec<i64>)
    ensures
        r@ == (StateSpecView::<i64> { name: "last_seen_ms"@, default: None }),
{
    StateSpec::new("last_seen_ms")
}

/// The count that a login brings the slot `seen_count` to: one more than is
/// stored, and one where nothing is stored. A stored count that is no `i32`
/// is a decode failure; one that cannot grow is turned down.
pub open spec fn next_seen_count(context: ContextView) -> Result<i32, InvocationFailure> {
    match state_reading::<i32>(context.state, "seen_count"@) {
        None => Ok(1),
        Some(Err(failure)) => Err(InvocationFailure::Decode(failure)),
        Some(Ok(count)) => if count < i32::MAX {
            Ok((count + 1) as i32)
        } else {
            Err(InvocationFailure::Rejected)
        },
    }
}

/// The time of the login before this one: what is stored in `last_seen_ms`,
/// and `now` where nothing is stored.
pub open spec fn last_seen(context: ContextView, now: i64) -> Result<i64, InvocationFailure> {
    match state_reading::<i64>(context.state, "last_seen_ms"@) {
        None => Ok(now),
        Some(Err(failure)) => Err(InvocationFailure::Decode(failure)),
        Some(Ok(seen)) => Ok(seen),
    }
}

/// What the login of `user_name` asks for, once the numbers are known: the
/// two state updates, then the profile to the greeter instance of the user's
/// name, then a `SomeValue` of 123 to the greeter instance `some_id`.
pub open spec fn login_effects(profile: UserProfileView, now: i64) -> Result<
    EffectsView,
    InvocationFailure,
> {
    match typed_encoding::<MyUserProfile>(profile) {
        None => Err(InvocationFailure::Encode),
        Some(payload) => Ok(
            EffectsView::empty().with_update(
                "seen_count"@,
                typed_encoding::<i32>(profile.seen_count).unwrap(),
            ).with_update("last_seen_ms"@, typed_encoding::<i64>(now).unwrap()).with_send(
                AddressView { function_type: greet_type(), id: profile.name },
                payload,
            ).with_send(
                AddressView { function_type: greet_type(), id: "some_id"@ },
                typed_encoding::<SomeValue>(SomeValue { x: 123 }).unwrap(),
            ),
        ),
    }
}

/// How an invocation of the function `user` ends, by the clock's reading
/// `now` (`None`: the clock gave no time).
///
/// The message has to be a `UserLogin`. The failures come in this order: a
/// message of another type, a message that does not decode, a stored count
/// that does not decode or cannot grow, no time, a stored time that does not
/// decode, a difference of the two times that an `i64` does not hold, a
/// profile that has no encoding.
pub open spec fn user_outcome(context: ContextView, message: MessageView, now: Option<i64>) -> Result<
    EffectsView,
    InvocationFailure,
> {
    match message_decoding::<UserLogin>(message.payload) {
        Err(failure) => Err(failure),
        Ok(login) => match next_seen_count(context) {
            Err(failure) => Err(failure),
            Ok(seen_count) => match now {
                None => Err(InvocationFailure::Rejected),
                Some(now) => match last_seen(context, now) {
                    Err(failure) => Err(failure),
                    Ok(seen) => if i64::MIN <= now - seen <= i64::MAX {
                        login_effects(
                            UserProfileView {
                                name: login.user_name,
                                login_location: login.login_type.name_spec(),
                                seen_count,
                                last_seen_delta_ms: (now - seen) as i64,
                            },
                            now,
                        )
                    } else {
                        Err(InvocationFailure::Rejected)
                    },
                },
            },
        },
    }
}

/// What the clock can give: no time, or a time that is not before the epoch.
pub open spec fn clock_reading(now: Option<i64>) -> bool {
    now matches Some(seconds) ==> seconds >= 0
}

/// The three greetings for the first three logins.
pub open spec fn greeting_template(i: int) -> Seq<char> {
    if i == 0 {
        "Welcome"@
    } else if i == 1 {
        "Nice to see you again"@
    } else {
        "Third time is a charm"@
    }
}

/// One of the first three greetings: the greeting, a space, the name, a full
/// stop.
pub open spec fn short_greeting_text(greeting: Seq<char>, name: Seq<char>) -> Seq<char> {
    greeting + " "@ + name + "."@
}

/// A later greeting, with the number of the login and the time since the
/// login before.
pub open spec fn long_greeting_text(count: Seq<char>, name: Seq<char>, delta: Seq<char>) -> Seq<
    char,
> {
    "Nice to see you for the "@ + count + "th time, "@ + name + "! It has been "@ + delta
        + " milliseconds since we last saw you."@
}

/// The greeting for the user of `profile`. The count is taken as a `usize`.
/// Texts stand as `{:?}` writes them, numbers in decimal.
pub open spec fn greeting_text(profile: UserProfileView) -> Seq<char> {
    let seen_count = profile.seen_count as usize;
    if seen_count <= 3 {
        short_greeting_text(
            str_debug_text(greeting_template(seen_count - 1)),
            str_debug_text(profile.name),
        )
    } else {
        long_greeting_text(
            decimal_chars(seen_count as int),
            str_debug_text(profile.name),
            decimal_chars(profile.last_seen_delta_ms as int),
        )
    }
}

/// How an invocation of the function `greet` ends. The function takes a
/// profile or a `SomeValue`, and asks for nothing. Any other message is
/// turned down as unexpected; the error names the profile as the type that
/// was expected, the first of the two that the function takes.
pub open spec fn greet_outcome(message: MessageView) -> Result<EffectsView, InvocationFailure> {
    if message.payload.typename == MyUserProfile::typename_spec() || message.payload.typename
        == SomeValue::typename_spec() {
        Ok(EffectsView::empty())
    } else {
        Err(
            InvocationFailure::UnexpectedMessageType {
                expected: MyUserProfile::typename_spec(),
                actual: message.payload.typename,
            },
        )
    }
}

/// What the function `greet` found in its message.
#[derive(Debug, Clone, Copy, PartialEq, Eq, Structural)]
pub enum Received {
    UserProfile,
    SomeValue,
    Other,
}

/// The handlers of the greeter, as a registry holds them.
#[derive(Debug, Clone, Copy, PartialEq, Eq, Structural)]
pub enum GreeterFunction {
    User,
    Greet,
}

impl StatefulFunction for GreeterFunction {
    open spec fn allows(
        &self,
        context: ContextView,
        message: MessageView,
        outcome: Result<EffectsView, InvocationFailure>,
    ) -> bool {
        match self {
            GreeterFunction::User => exists|now: Option<i64>|
                clock_reading(now) && outcome == #[trigger] user_outcome(context, message, now),
            GreeterFunction::Greet => outcome == greet_outcome(message),
        }
    }

    fn invoke(&self, context: Context, message: Message) -> (r: Result<Effects, InvocationError>) {
        match self {
            GreeterFunction::User => StatefulFunctions::user(context, message),
            GreeterFunction::Greet => StatefulFunctions::greet(context, message),
        }
    }
}

/// The registration of the function `user`.
pub open spec fn user_registration() -> RegistrationView<GreeterFunction> {
    RegistrationView {
        function_type: user_type(),
        specs: seq![
            StateDeclarationView {
                name: "seen_count"@,
                typename: i32::typename_spec(),
                default: typed_encoding::<i32>(0i32),
            },
            StateDeclarationView {
                name: "last_seen_ms"@,
                typename: i64::typename_spec(),
                default: None,
            },
        ],
        handler: GreeterFunction::User,
    }
}

/// The registration of the function `greet`, which keeps no state.
pub open spec fn greet_registration() -> RegistrationView<GreeterFunction> {
    RegistrationView {
        function_type: greet_type(),
        specs: Seq::empty(),
        handler: GreeterFunction::Greet,
    }
}

/// Whether no function is registered under `function_type`.
pub open spec fn is_free(
    registrations: Seq<RegistrationView<GreeterFunction>>,
    function_type: FunctionTypeView,
) -> bool {
    position(registered_types(registrations), function_type) is None
}

/// The registry after the greeter's functions were registered: `user` is
/// added where its type was free, then `greet` where its type was free. A
/// type that was taken keeps the registration it had.
pub open spec fn with_greeter(registrations: Seq<RegistrationView<GreeterFunction>>) -> Seq<
    RegistrationView<GreeterFunction>,
> {
    let with_user = if is_free(registrations, user_type()) {
        registrations.push(user_registration())
    } else {
        registrations
    };
    if is_free(registrations, greet_type()) {
        with_user.push(greet_registration())
    } else {
        with_user
    }
}

/// The functions of the greeter.
#[derive(Debug, Clone, Copy)]
pub struct StatefulFunctions {}

impl StatefulFunctions {
    pub fn new() -> (r: StatefulFunctions) {
        StatefulFunctions {}
    }

    pub fn user_function_type() -> (r: FunctionType)
        ensures
            r@ == user_type(),
    {
        proof {
            reveal_strlit("greeter.fns");
            reveal_strlit("user");
        }
        FunctionType::new("greeter.fns", "user")
    }

    pub fn greet_function_type() -> (r: FunctionType)
        ensures
            r@ == greet_type(),
    {
        proof {
            reveal_strlit("greeter.fns");
            reveal_strlit("greet");
        }
        FunctionType::new("greeter.fns", "greet")
    }

    /// Registers `user`, with its two state slots, and then `greet`, with
    /// none, each by a registration of its own. A type that is registered
    /// already keeps the registration it has, and the other function is
    /// registered all the same. The result is `Ok` where both types were
    /// free, and else `DuplicateRegistration` of the first that was taken.
    pub fn register_functions(&self, function_registry: &mut FunctionRegistry<GreeterFunction>) -> (r:
        Result<(), RegistrationError>)
        ensures
            final(function_registry)@ == with_greeter(old(function_registry)@),
            match r {
                Ok(_) => {
                    &&& is_free(old(function_registry)@, user_type())
                    &&& is_free(old(function_registry)@, greet_type())
                },
                Err(RegistrationError::DuplicateRegistration(t)) => {
                    if is_free(old(function_registry)@, user_type()) {
                        !is_free(old(function_registry)@, greet_type()) && t@ == greet_type()
                    } else {
                        t@ == user_type()
                    }
                },
                Err(RegistrationError::DuplicateStateSpec(_)) => false,
            },
    {
        let seen_count = match seen_count_spec().declare() {
            Ok(declaration) => declaration,
            Err(_) => unreached(),
        };
        let last_seen = match last_seen_timestamp_spec().declare() {
            Ok(declaration) => declaration,
            Err(_) => unreached(),
        };
        let mut specs: Vec<StateDeclaration> = Vec::new();
        specs.push(seen_count);
        specs.push(last_seen);
        proof {
            reveal_strlit("seen_count");
            reveal_strlit("last_seen_ms");
            reveal_strlit("user");
            reveal_strlit("greet");
            let names = declared_names(declarations_view(specs@));
            assert(names[0] == "seen_count"@);
            assert(names[1] == "last_seen_ms"@);
            assert(names[0].len() != names[1].len());
            assert(declarations_view(specs@) =~= user_registration().specs);
            assert("user"@.len() != "greet"@.len());
        }
        let ghost before = function_registry@;
        let user = function_registry.register_fn(
            Self::user_function_type(),
            specs,
            GreeterFunction::User,
        );
        proof {
            // Whether `greet` is free does not change when `user` is added.
            let types = registered_types(before);
            let types_now = registered_types(function_registry@);
            if user is Ok {
                assert(types_now =~= types.push(user_type()));
                match position(types, greet_type()) {
                    Some(k) => {
                        lemma_position_is_first(types, greet_type());
                        assert(first_at(types_now, greet_type(), k));
                        lemma_position_found(types_now, greet_type(), k);
                    },
                    None => {
                        lemma_position_none(types, greet_type());
                        lemma_position_absent(types_now, greet_type());
                    },
                }
            }
        }
        let no_specs: Vec<StateDeclaration> = Vec::new();
        assert(declarations_view(no_specs@) =~= Seq::<StateDeclarationView>::empty());
        let greet = function_registry.register_fn(
            Self::greet_function_type(),
            no_specs,
            GreeterFunction::Greet,
        );
        match user {
            Ok(_) => greet,
            Err(e) => Err(e),
        }
    }

    /// Handles a login: counts it, notes its time, and tells the greeter.
    /// The time is that of the wall clock, in seconds since the Unix epoch.
    pub fn user(context: Context, message: Message) -> (r: Result<Effects, InvocationError>)
        ensures
            exists|now: Option<i64>|
                clock_reading(now) && outcome_view(r) == #[trigger] user_outcome(
                    context@,
                    message@,
                    now,
                ),
    {
        let now = unix_seconds();
        let r = Self::user_at(context, message, now);
        assert(clock_reading(now) && outcome_view(r) == user_outcome(context@, message@, now));
        r
    }

    /// Handles a login at the time `now`; `None` where the clock gave no time.
    pub fn user_at(context: Context, message: Message, now: Option<i64>) -> (r: Result<
        Effects,
        InvocationError,
    >)
        ensures
            outcome_view(r) == user_outcome(context@, message@, now),
    {
        let login = match message.get::<UserLogin>() {
            Ok(login) => login,
            Err(e) => {
                return Err(e);
            },
        };
        let seen_count: i32 = match context.get_state(&seen_count_spec()) {
            Some(Ok(count)) => {
                if count == i32::MAX {
                    return Err(
                        InvocationError::Rejected { reason: "seen_count cannot grow".to_string() },
                    );
                }
                count + 1
            },
            Some(Err(e)) => {
                return Err(InvocationError::Decode(e));
            },
            None => 1,
        };
        let now_ms: i64 = match now {
            Some(now) => now,
            None => {
                return Err(
                    InvocationError::Rejected { reason: "SystemTime before UNIX EPOCH!".to_string() },
                );
            },
        };
        let last_seen_timestamp_ms: i64 = match context.get_state(&last_seen_timestamp_spec()) {
            Some(Ok(seen_ms)) => seen_ms,
            Some(Err(e)) => {
                return Err(InvocationError::Decode(e));
            },
            None => now_ms,
        };
        let mut effects = Effects::new();
        match effects.update_state(&seen_count_spec(), &seen_count) {
            Ok(_) => {},
            Err(e) => {
                return Err(InvocationError::Encode(e));
            },
        }
        match effects.update_state(&last_seen_timestamp_spec(), &now_ms) {
            Ok(_) => {},
            Err(e) => {
                return Err(InvocationError::Encode(e));
            },
        }
        let delta: i64 = match now_ms.checked_sub(last_seen_timestamp_ms) {
            Some(delta) => delta,
            None => {
                return Err(
                    InvocationError::Rejected {
                        reason: "the time since the last login is out of range".to_string(),
                    },
                );
            },
        };
        let mut profile = UserProfile::new();
        profile.set_name(login.user_name.clone());
        profile.set_login_location(login.login_type.name().to_string());
        profile.set_seen_count(seen_count);
        profile.set_last_seen_delta_ms(delta);
        let profile = MyUserProfile(profile);
        let some_val = SomeValue::new(123);
        match effects.send(
            Address::new(Self::greet_function_type(), login.user_name.as_str()),
            &profile,
        ) {
            Ok(_) => {},
            Err(e) => {
                return Err(InvocationError::Encode(e));
            },
        }
        proof {
            reveal_strlit("some_id");
        }
        match effects.send(Address::new(Self::greet_function_type(), "some_id"), &some_val) {
            Ok(_) => {},
            Err(e) => {
                return Err(InvocationError::Encode(e));
            },
        }
        Ok(effects)
    }

    /// What `message` holds, as far as `greet` tells payloads apart.
    pub fn received(message: &Message) -> (r: Received)
        ensures
            r == if message@.payload.typename == MyUserProfile::typename_spec() {
                Received::UserProfile
            } else if message@.payload.typename == SomeValue::typename_spec() {
                Received::SomeValue
            } else {
                Received::Other
            },
    {
        if message.is::<MyUserProfile>() {
            Received::UserProfile
        } else if message.is::<SomeValue>() {
            Received::SomeValue
        } else {
            Received::Other
        }
    }

    /// Takes a profile or a `SomeValue`, and asks for nothing. A message of
    /// another type is turned down as `UnexpectedMessageType`, with the
    /// profile's type name as the expected one.
    pub fn greet(_context: Context, message: Message) -> (r: Result<Effects, InvocationError>)
        ensures
            outcome_view(r) == greet_outcome(message@),
    {
        match Self::received(&message) {
            Received::UserProfile => Ok(Effects::new()),
            Received::SomeValue => Ok(Effects::new()),
            Received::Other => Err(
                InvocationError::UnexpectedMessageType {
                    expected: MyUserProfile::get_typename().to_string(),
                    actual: message.get_type().to_string(),
                },
            ),
        }
    }

    /// The greeting for the user of `profile`: one of three fixed greetings
    /// for the first three logins, and a count with the time since the last
    /// login after that.
    pub fn create_greetings_message(profile: UserProfile) -> (r: String)
        requires
            profile@.seen_count != 0,
        ensures
            r@ == greeting_text(profile@),
    {
        let seen_count = #[verifier::truncate]
        (profile.get_seen_count() as usize);
        if seen_count <= 3 {
            let template = if seen_count == 1 {
                "Welcome"
            } else if seen_count == 2 {
                "Nice to see you again"
            } else {
                "Third time is a charm"
            };
            Self::short_greeting(
                debug_text(template).as_str(),
                debug_text(profile.get_name()).as_str(),
            )
        } else {
            Self::long_greeting(
                integer_text(seen_count as i128).as_str(),
                debug_text(profile.get_name()).as_str(),
                integer_text(profile.get_last_seen_delta_ms() as i128).as_str(),
            )
        }
    }

    /// Puts one of the first three greetings together from its texts.
    pub fn short_greeting(greeting: &str, name: &str) -> (r: String)
        ensures
            r@ == short_greeting_text(greeting@, name@),
    {
        greeting.to_string().concat(" ").concat(name).concat(".")
    }

    /// Puts a later greeting together from its texts.
    pub fn long_greeting(count: &str, name: &str, delta: &str) -> (r: String)
        ensures
            r@ == long_greeting_text(count@, name@, delta@),
    {
        "Nice to see you for the ".to_string().concat(count).concat("th time, ").concat(
            name,
        ).concat("! It has been ").concat(delta).concat(" milliseconds since we last saw you.")
    }
}

} // verus!
