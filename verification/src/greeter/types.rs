//! The payloads of the greeter.

use vstd::prelude::*;
use crate::json::{
    decode_int_member, encode_int_member, int_member, lemma_int_member_of_text, member_text,
    plain_key,
};
use crate::serializable::{Serializable, TypeName};
use crate::wire::{
    le_bytes, le_value, lemma_le_bytes_len, lemma_le_round_trip, lemma_le_value_bound,
    lemma_radix_limits, lemma_signed_round_trip, lemma_text_round_trip, push_le, push_text,
    read_le, read_text, text_field, text_taken, to_signed, to_unsigned,
};

verus! {

/// A value with one number in it.
#[derive(Debug, Clone, Copy, PartialEq, Eq, Structural)]
pub struct SomeValue {
    pub x: i32,
}

impl View for SomeValue {
    type V = SomeValue;

    open spec fn view(&self) -> SomeValue {
        *self
    }
}

/// The value that an integer member `x` stands for: the member has to be
/// there, and an `i32` has to hold it.
pub open spec fn some_value_of(member: Option<i64>) -> Option<SomeValue> {
    match member {
        Some(n) => if i32::MIN <= n <= i32::MAX {
            Some(SomeValue { x: n as i32 })
        } else {
            None
        },
        None => None,
    }
}

impl SomeValue {
    pub fn new(x: i32) -> (r: SomeValue)
        ensures
            r.x == x,
    {
        SomeValue { x }
    }

    /// The value whose `x` is the integer `member`, as read from a JSON
    /// object. `Err` where the object had no integer `x`, and where `x` is
    /// out of the range of an `i32`.
    pub fn from_member(member: Option<i64>) -> (r: Result<SomeValue, String>)
        ensures
            match r {
                Ok(v) => some_value_of(member) == Some(v),
                Err(_) => some_value_of(member) is None,
            },
    {
        match member {
            Some(n) => {
                if -0x8000_0000 <= n && n <= 0x7fff_ffff {
                    Ok(SomeValue { x: n as i32 })
                } else {
                    Err("x does not fit in 32 bits".to_string())
                }
            },
            None => Err("no integer x".to_string()),
        }
    }
}

impl TypeName for SomeValue {
    open spec fn typename_spec() -> Seq<char> {
        "greeter.types/SomeValue"@
    }

    fn get_typename() -> (name: &'static str) {
        "greeter.types/SomeValue"
    }
}

/// The key `x` is written as it is.
pub proof fn lemma_x_is_plain()
    ensures
        plain_key("x"@),
{
    reveal_strlit("x");
}

/// A `SomeValue` is the JSON object `{"x":n}`. Reading accepts what
/// `serde_json` accepts as an object with an integer member `x` that an
/// `i32` holds. Other members are passed over; of a member `x` that occurs
/// more than once the last one counts; a JSON array is no `SomeValue`.
impl Serializable for SomeValue {
    open spec fn encoded(v: SomeValue) -> Option<Seq<u8>> {
        Some(member_text("x"@, v.x as int))
    }

    open spec fn decoded(bytes: Seq<u8>) -> Option<SomeValue> {
        match int_member(bytes, "x"@) {
            Some(member) => some_value_of(member),
            None => None,
        }
    }

    fn serialize(&self, typename: String) -> (r: Result<Vec<u8>, String>) {
        proof {
            lemma_x_is_plain();
        }
        encode_int_member("x", self.x)
    }

    fn deserialize(typename: String, buffer: &Vec<u8>) -> (r: Result<Self, String>) {
        if typename != Self::get_typename().to_string() {
            return Err("the bytes are not tagged as a SomeValue".to_string());
        }
        match decode_int_member(buffer, "x") {
            Ok(member) => Self::from_member(member),
            Err(message) => Err(message),
        }
    }

    proof fn round_trip(v: SomeValue) {
        lemma_x_is_plain();
        lemma_int_member_of_text("x"@, v.x as i64);
    }
}

/// How a user logged in.
#[derive(Debug, Clone, Copy, PartialEq, Eq, Structural)]
pub enum LoginType {
    Web,
    Mobile,
}

impl LoginType {
    /// The byte that stands for the login type on the wire.
    pub open spec fn code(self) -> u8 {
        match self {
            LoginType::Web => 0,
            LoginType::Mobile => 1,
        }
    }

    /// The name of the login type.
    pub open spec fn name_spec(self) -> Seq<char> {
        match self {
            LoginType::Web => "Web"@,
            LoginType::Mobile => "Mobile"@,
        }
    }

    pub fn name(&self) -> (r: &'static str)
        ensures
            r@ == self.name_spec(),
    {
        match self {
            LoginType::Web => "Web",
            LoginType::Mobile => "Mobile",
        }
    }
}

/// What a [`UserLogin`] is.
pub struct UserLoginView {
    pub user_name: Seq<char>,
    pub login_type: LoginType,
}

/// A user has logged in.
#[derive(Debug)]
pub struct UserLogin {
    pub user_name: String,
    pub login_type: LoginType,
}

impl View for UserLogin {
    type V = UserLoginView;

    open spec fn view(&self) -> UserLoginView {
        UserLoginView { user_name: self.user_name@, login_type: self.login_type }
    }
}

impl TypeName for UserLogin {
    open spec fn typename_spec() -> Seq<char> {
        "greeter.types/UserLogin"@
    }

    fn get_typename() -> (name: &'static str) {
        "greeter.types/UserLogin"
    }
}

/// A `UserLogin` is one byte for the login type, then the user's name as a
/// text field. A name too long for a text field has no encoding.
impl Serializable for UserLogin {
    open spec fn encoded(v: UserLoginView) -> Option<Seq<u8>> {
        match text_field(v.user_name) {
            Some(field) => Some(seq![v.login_type.code()] + field),
            None => None,
        }
    }

    open spec fn decoded(bytes: Seq<u8>) -> Option<UserLoginView> {
        if bytes.len() == 0 || bytes[0] > 1 {
            None
        } else {
            match text_taken(bytes.drop_first()) {
                Some((user_name, rest)) => if rest.len() == 0 {
                    Some(
                        UserLoginView {
                            user_name,
                            login_type: if bytes[0] == 0 {
                                LoginType::Web
                            } else {
                                LoginType::Mobile
                            },
                        },
                    )
                } else {
                    None
                },
                None => None,
            }
        }
    }

    fn serialize(&self, typename: String) -> (r: Result<Vec<u8>, String>) {
        let mut out: Vec<u8> = Vec::new();
        out.push(
            match self.login_type {
                LoginType::Web => 0u8,
                LoginType::Mobile => 1u8,
            },
        );
        if push_text(&mut out, self.user_name.as_str()) {
            assert(out@ =~= seq![self.login_type.code()] + text_field(self.user_name@).unwrap());
            Ok(out)
        } else {
            Err("the user's name is too long".to_string())
        }
    }

    fn deserialize(typename: String, buffer: &Vec<u8>) -> (r: Result<Self, String>) {
        if typename != Self::get_typename().to_string() {
            return Err("the bytes are not tagged as a UserLogin".to_string());
        }
        if buffer.len() == 0 || buffer[0] > 1 {
            return Err("no login type".to_string());
        }
        let login_type = if buffer[0] == 0 {
            LoginType::Web
        } else {
            LoginType::Mobile
        };
        assert(buffer@.subrange(1, buffer@.len() as int) =~= buffer@.drop_first());
        match read_text(buffer, 1) {
            Some((user_name, next)) => {
                if next == buffer.len() {
                    Ok(UserLogin { user_name, login_type })
                } else {
                    Err("bytes after the user's name".to_string())
                }
            },
            None => Err("no user name".to_string()),
        }
    }

    proof fn round_trip(v: UserLoginView) {
        if let Some(field) = text_field(v.user_name) {
            let bytes = seq![v.login_type.code()] + field;
            lemma_text_round_trip(v.user_name, Seq::<u8>::empty());
            assert(bytes.drop_first() =~= field + Seq::<u8>::empty());
        }
    }
}

/// What a [`UserProfile`] is.
pub struct UserProfileView {
    pub name: Seq<char>,
    pub login_location: Seq<char>,
    pub seen_count: i32,
    pub last_seen_delta_ms: i64,
}

/// What the greeter knows of a user.
#[derive(Debug)]
pub struct UserProfile {
    pub name: String,
    pub login_location: String,
    pub seen_count: i32,
    pub last_seen_delta_ms: i64,
}

impl View for UserProfile {
    type V = UserProfileView;

    open spec fn view(&self) -> UserProfileView {
        UserProfileView {
            name: self.name@,
            login_location: self.login_location@,
            seen_count: self.seen_count,
            last_seen_delta_ms: self.last_seen_delta_ms,
        }
    }
}

impl UserProfile {
    /// The profile of nobody: empty texts and zeros.
    pub fn new() -> (r: UserProfile)
        ensures
            r@ == (UserProfileView {
                name: Seq::empty(),
                login_location: Seq::empty(),
                seen_count: 0,
                last_seen_delta_ms: 0,
            }),
    {
        UserProfile {
            name: String::new(),
            login_location: String::new(),
            seen_count: 0,
            last_seen_delta_ms: 0,
        }
    }

    pub fn set_name(&mut self, name: String)
        ensures
            final(self)@ == (UserProfileView { name: name@, ..old(self)@ }),
    {
        self.name = name;
    }

    pub fn set_login_location(&mut self, login_location: String)
        ensures
            final(self)@ == (UserProfileView { login_location: login_location@, ..old(self)@ }),
    {
        self.login_location = login_location;
    }

    pub fn set_seen_count(&mut self, seen_count: i32)
        ensures
            final(self)@ == (UserProfileView { seen_count, ..old(self)@ }),
    {
        self.seen_count = seen_count;
    }

    pub fn set_last_seen_delta_ms(&mut self, delta: i64)
        ensures
            final(self)@ == (UserProfileView { last_seen_delta_ms: delta, ..old(self)@ }),
    {
        self.last_seen_delta_ms = delta;
    }

    pub fn get_name(&self) -> (r: &str)
        ensures
            r@ == self@.name,
    {
        self.name.as_str()
    }

    pub fn get_login_location(&self) -> (r: &str)
        ensures
            r@ == self@.login_location,
    {
        self.login_location.as_str()
    }

    pub fn get_seen_count(&self) -> (r: i32)
        ensures
            r == self@.seen_count,
    {
        self.seen_count
    }

    pub fn get_last_seen_delta_ms(&self) -> (r: i64)
        ensures
            r == self@.last_seen_delta_ms,
    {
        self.last_seen_delta_ms
    }
}

/// A [`UserProfile`] as a payload.
#[derive(Debug)]
pub struct MyUserProfile(pub UserProfile);

impl View for MyUserProfile {
    type V = UserProfileView;

    open spec fn view(&self) -> UserProfileView {
        self.0@
    }
}

impl TypeName for MyUserProfile {
    open spec fn typename_spec() -> Seq<char> {
        "greeter.types/UserProfile"@
    }

    fn get_typename() -> (name: &'static str) {
        "greeter.types/UserProfile"
    }
}

/// The two numbers of a profile: the count in four bytes, the delta in eight.
pub open spec fn profile_numbers(seen_count: i32, delta: i64) -> Seq<u8> {
    le_bytes(to_unsigned(seen_count as int, 4), 4) + le_bytes(to_unsigned(delta as int, 8), 8)
}

/// A profile is the name and the login location as text fields, then the
/// two numbers. A text too long for a text field has no encoding.
impl Serializable for MyUserProfile {
    open spec fn encoded(v: UserProfileView) -> Option<Seq<u8>> {
        match (text_field(v.name), text_field(v.login_location)) {
            (Some(name), Some(location)) => Some(
                name + (location + profile_numbers(v.seen_count, v.last_seen_delta_ms)),
            ),
            _ => None,
        }
    }

    open spec fn decoded(bytes: Seq<u8>) -> Option<UserProfileView> {
        match text_taken(bytes) {
            Some((name, after_name)) => match text_taken(after_name) {
                Some((login_location, numbers)) => if numbers.len() == 12 {
                    Some(
                        UserProfileView {
                            name,
                            login_location,
                            seen_count: to_signed(le_value(numbers.subrange(0, 4)), 4) as i32,
                            last_seen_delta_ms: to_signed(
                                le_value(numbers.subrange(4, 12)),
                                8,
                            ) as i64,
                        },
                    )
                } else {
                    None
                },
                None => None,
            },
            None => None,
        }
    }

    fn serialize(&self, typename: String) -> (r: Result<Vec<u8>, String>) {
        let mut out: Vec<u8> = Vec::new();
        if !push_text(&mut out, self.0.name.as_str()) {
            return Err("the name is too long".to_string());
        }
        if !push_text(&mut out, self.0.login_location.as_str()) {
            return Err("the login location is too long".to_string());
        }
        let count: i64 = self.0.seen_count as i64;
        let count_bits: u64 = if count >= 0 {
            count as u64
        } else {
            (count + 0x1_0000_0000) as u64
        };
        let delta: i64 = self.0.last_seen_delta_ms;
        let delta_bits: u64 = if delta >= 0 {
            delta as u64
        } else {
            (delta + 0x7fff_ffff_ffff_ffff + 1) as u64 + 0x8000_0000_0000_0000
        };
        proof {
            lemma_radix_limits();
        }
        push_le(&mut out, count_bits, 4);
        push_le(&mut out, delta_bits, 8);
        proof {
            let name = text_field(self@.name).unwrap();
            let location = text_field(self@.login_location).unwrap();
            assert(out@ =~= name + (location + profile_numbers(
                self@.seen_count,
                self@.last_seen_delta_ms,
            )));
        }
        Ok(out)
    }

    fn deserialize(typename: String, buffer: &Vec<u8>) -> (r: Result<Self, String>) {
        if typename != Self::get_typename().to_string() {
            return Err("the bytes are not tagged as a UserProfile".to_string());
        }
        assert(buffer@.subrange(0, buffer@.len() as int) =~= buffer@);
        let (name, after_name) = match read_text(buffer, 0) {
            Some(read) => read,
            None => {
                return Err("no name".to_string());
            },
        };
        let (login_location, after_location) = match read_text(buffer, after_name) {
            Some(read) => read,
            None => {
                return Err("no login location".to_string());
            },
        };
        if buffer.len() - after_location != 12 {
            return Err("no numbers".to_string());
        }
        let ghost numbers = buffer@.subrange(after_location as int, buffer@.len() as int);
        let count_bits = read_le(buffer, after_location, 4);
        let delta_bits = read_le(buffer, after_location + 4, 8);
        proof {
            lemma_radix_limits();
            assert(buffer@.subrange(after_location as int, after_location + 4)
                =~= numbers.subrange(0, 4));
            assert(buffer@.subrange(after_location + 4, after_location + 4 + 8)
                =~= numbers.subrange(4, 12));
            lemma_le_value_bound(numbers.subrange(0, 4));
            lemma_le_value_bound(numbers.subrange(4, 12));
        }
        let seen_count: i64 = if count_bits < 0x8000_0000 {
            count_bits as i64
        } else {
            count_bits as i64 - 0x1_0000_0000
        };
        let last_seen_delta_ms: i64 = if delta_bits < 0x8000_0000_0000_0000 {
            delta_bits as i64
        } else {
            (delta_bits - 0x8000_0000_0000_0000) as i64 - 0x7fff_ffff_ffff_ffff - 1
        };
        Ok(
            MyUserProfile(
                UserProfile {
                    name,
                    login_location,
                    seen_count: seen_count as i32,
                    last_seen_delta_ms,
                },
            ),
        )
    }

    proof fn round_trip(v: UserProfileView) {
        if let Some(bytes) = Self::encoded(v) {
            let name = text_field(v.name).unwrap();
            let location = text_field(v.login_location).unwrap();
            let numbers = profile_numbers(v.seen_count, v.last_seen_delta_ms);
            lemma_text_round_trip(v.name, location + numbers);
            lemma_text_round_trip(v.login_location, numbers);
            lemma_radix_limits();
            let count_bits = to_unsigned(v.seen_count as int, 4);
            let delta_bits = to_unsigned(v.last_seen_delta_ms as int, 8);
            lemma_signed_round_trip(v.seen_count as int, 4);
            lemma_signed_round_trip(v.last_seen_delta_ms as int, 8);
            lemma_le_bytes_len(count_bits, 4);
            lemma_le_bytes_len(delta_bits, 8);
            lemma_le_round_trip(count_bits, 4);
            lemma_le_round_trip(delta_bits, 8);
            assert(numbers.subrange(0, 4) =~= le_bytes(count_bits, 4));
            assert(numbers.subrange(4, 12) =~= le_bytes(delta_bits, 8));
        }
    }
}

} // verus!
