//! Invocation core of a stateful-function runtime.
//!
//! A stateful function is a logical actor, addressed by a function type and an
//! instance id. One invocation hands it a read-only [`Context`] and a
//! [`Message`]; it answers with [`Effects`]: state updates, messages to other
//! functions and records for external sinks, which are applied together or not
//! at all.

pub mod address;
pub mod clock;
pub mod context;
pub mod decimal;
pub mod effects;
pub mod error;
pub mod greeter;
pub mod invocation;
pub mod json;
pub mod laws;
pub mod lookup;
pub mod message;
pub mod registry;
pub mod serializable;
pub mod state_message;
pub mod state_spec;
pub mod store;
pub mod text;
pub mod typed_value;
pub mod wire;

pub use address::{
    Address, AddressView, EgressIdentifier, EgressIdentifierView, FunctionType, FunctionTypeView,
};
pub use typed_value::{TypedValue, TypedValueView};
pub use error::{
    DecodeError, DecodeFailure, EncodeError, InvocationError, InvocationFailure, RegistrationError,
};
pub use serializable::{Serializable, TypeName};
pub use effects::{Effects, EffectsView};
pub use state_spec::{StateDeclaration, StateDeclarationView, StateSpec, StateSpecView};
pub use context::{Context, ContextView};
pub use message::{Message, MessageView};
pub use state_message::StateMessage;
pub use store::{StateReader, StateStore, StateWrite, StateWriteView};
pub use invocation::{
    complete, EgressMessage, EgressMessageView, Invocation, InvocationView, OutgoingBatch,
    OutgoingBatchView,
};
pub use registry::{FunctionRegistry, RegistrationView, StatefulFunction};
