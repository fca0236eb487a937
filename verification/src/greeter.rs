//! The greeter: a function that counts the logins of a user and tells a
//! second function, which greets.

pub mod functions;
pub mod types;

pub use functions::{
    last_seen_timestamp_spec, seen_count_spec, GreeterFunction, Received, StatefulFunctions,
};
pub use types::{LoginType, MyUserProfile, SomeValue, UserLogin, UserProfile};
