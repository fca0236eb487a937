//! One unit of work for a function, and what comes out of it.

use vstd::prelude::*;
use crate::address::{Address, AddressView, EgressIdentifier, EgressIdentifierView};
use crate::effects::{Effects, EffectsView};
use crate::error::{InvocationError, InvocationFailure};
use crate::message::outcome_view;
use crate::store::{writes_view, StateWrite, StateWriteView};
use crate::typed_value::{TypedValue, TypedValueView};

verus! {

/// What an [`Invocation`] is.
pub struct InvocationView {
    pub target: AddressView,
    pub caller: Option<AddressView>,
    pub payload: TypedValueView,
}

/// A message for the function at `target`, from `caller` if a function sent it.
#[derive(Debug)]
pub struct Invocation {
    pub target: Address,
    pub caller: Option<Address>,
    pub payload: TypedValue,
}

impl View for Invocation {
    type V = InvocationView;

    open spec fn view(&self) -> InvocationView {
        InvocationView {
            target: self.target@,
            caller: match self.caller {
                Some(a) => Some(a@),
                None => None,
            },
            payload: self.payload@,
        }
    }
}

/// What an [`EgressMessage`] is.
pub struct EgressMessageView {
    pub sink: EgressIdentifierView,
    pub payload: TypedValueView,
}

/// A record for an external sink.
#[derive(Debug)]
pub struct EgressMessage {
    pub sink: EgressIdentifier,
    pub payload: TypedValue,
}

impl View for EgressMessage {
    type V = EgressMessageView;

    open spec fn view(&self) -> EgressMessageView {
        EgressMessageView { sink: self.sink@, payload: self.payload@ }
    }
}

/// What an [`OutgoingBatch`] is.
pub struct OutgoingBatchView {
    pub state_writes: Seq<StateWriteView>,
    pub invocations: Seq<InvocationView>,
    pub egress_records: Seq<EgressMessageView>,
}

/// What one finished invocation hands to the transport: the writes for the
/// state backend, the invocations that its messages become, and the records
/// for external sinks. Each list is in the order in which the function asked.
#[derive(Debug)]
pub struct OutgoingBatch {
    pub state_writes: Vec<StateWrite>,
    pub invocations: Vec<Invocation>,
    pub egress_records: Vec<EgressMessage>,
}

/// A list of invocations, each by its view.
pub open spec fn invocations_view(invocations: Seq<Invocation>) -> Seq<InvocationView> {
    Seq::new(invocations.len(), |i: int| invocations[i]@)
}

/// A list of egress records, each by its view.
pub open spec fn egress_view(records: Seq<EgressMessage>) -> Seq<EgressMessageView> {
    Seq::new(records.len(), |i: int| records[i]@)
}

impl View for OutgoingBatch {
    type V = OutgoingBatchView;

    open spec fn view(&self) -> OutgoingBatchView {
        OutgoingBatchView {
            state_writes: writes_view(self.state_writes@),
            invocations: invocations_view(self.invocations@),
            egress_records: egress_view(self.egress_records@),
        }
    }
}

/// The batch that the effects of the function at `target` become: update
/// number `i` is write number `i` to the state of `target`, send number `i` is
/// invocation number `i`, with `target` as its caller, and egress number `i` is
/// record number `i`.
pub open spec fn translated(target: AddressView, effects: EffectsView) -> OutgoingBatchView {
    OutgoingBatchView {
        state_writes: Seq::new(
            effects.updates.len(),
            |i: int|
                StateWriteView {
                    address: target,
                    name: effects.updates[i].0,
                    value: effects.updates[i].1,
                },
        ),
        invocations: Seq::new(
            effects.sends.len(),
            |i: int|
                InvocationView {
                    target: effects.sends[i].0,
                    caller: Some(target),
                    payload: effects.sends[i].1,
                },
        ),
        egress_records: Seq::new(
            effects.egresses.len(),
            |i: int|
                EgressMessageView { sink: effects.egresses[i].0, payload: effects.egresses[i].1 },
        ),
    }
}

/// What the transport gets for an invocation of `target` that ended in
/// `outcome`: the translated effects, or the failure and nothing else.
pub open spec fn completed(
    target: AddressView,
    outcome: Result<EffectsView, InvocationFailure>,
) -> Result<OutgoingBatchView, InvocationFailure> {
    match outcome {
        Ok(effects) => Ok(translated(target, effects)),
        Err(failure) => Err(failure),
    }
}

fn translate_updates(target: &Address, updates: Vec<(String, TypedValue)>) -> (r: Vec<StateWrite>)
    ensures
        writes_view(r@) == Seq::new(
            updates@.len(),
            |i: int|
                StateWriteView { address: target@, name: updates@[i].0@, value: updates@[i].1@ },
        ),
{
    let mut out: Vec<StateWrite> = Vec::new();
    let mut i: usize = 0;
    while i < updates.len()
        invariant
            i <= updates@.len(),
            out@.len() == i,
            forall|j: int|
                0 <= j < i ==> #[trigger] out@[j]@ == (StateWriteView {
                    address: target@,
                    name: updates@[j].0@,
                    value: updates@[j].1@,
                }),
        decreases updates@.len() - i,
    {
        out.push(
            StateWrite {
                address: target.clone(),
                name: updates[i].0.clone(),
                value: updates[i].1.clone(),
            },
        );
        i = i + 1;
    }
    proof {
        assert(writes_view(out@) =~= Seq::new(
            updates@.len(),
            |i: int|
                StateWriteView { address: target@, name: updates@[i].0@, value: updates@[i].1@ },
        ));
    }
    out
}

fn translate_sends(target: &Address, sends: Vec<(Address, TypedValue)>) -> (r: Vec<Invocation>)
    ensures
        invocations_view(r@) == Seq::new(
            sends@.len(),
            |i: int|
                InvocationView {
                    target: sends@[i].0@,
                    caller: Some(target@),
                    payload: sends@[i].1@,
                },
        ),
{
    let mut out: Vec<Invocation> = Vec::new();
    let mut i: usize = 0;
    while i < sends.len()
        invariant
            i <= sends@.len(),
            out@.len() == i,
            forall|j: int|
                0 <= j < i ==> #[trigger] out@[j]@ == (InvocationView {
                    target: sends@[j].0@,
                    caller: Some(target@),
                    payload: sends@[j].1@,
                }),
        decreases sends@.len() - i,
    {
        out.push(
            Invocation {
                target: sends[i].0.clone(),
                caller: Some(target.clone()),
                payload: sends[i].1.clone(),
            },
        );
        i = i + 1;
    }
    proof {
        assert(invocations_view(out@) =~= Seq::new(
            sends@.len(),
            |i: int|
                InvocationView {
                    target: sends@[i].0@,
                    caller: Some(target@),
                    payload: sends@[i].1@,
                },
        ));
    }
    out
}

fn translate_egresses(egresses: Vec<(EgressIdentifier, TypedValue)>) -> (r: Vec<EgressMessage>)
    ensures
        egress_view(r@) == Seq::new(
            egresses@.len(),
            |i: int| EgressMessageView { sink: egresses@[i].0@, payload: egresses@[i].1@ },
        ),
{
    let mut out: Vec<EgressMessage> = Vec::new();
    let mut i: usize = 0;
    while i < egresses.len()
        invariant
            i <= egresses@.len(),
            out@.len() == i,
            forall|j: int|
                0 <= j < i ==> #[trigger] out@[j]@ == (EgressMessageView {
                    sink: egresses@[j].0@,
                    payload: egresses@[j].1@,
                }),
        decreases egresses@.len() - i,
    {
        out.push(EgressMessage { sink: egresses[i].0.clone(), payload: egresses[i].1.clone() });
        i = i + 1;
    }
    proof {
        assert(egress_view(out@) =~= Seq::new(
            egresses@.len(),
            |i: int| EgressMessageView { sink: egresses@[i].0@, payload: egresses@[i].1@ },
        ));
    }
    out
}

/// Turns what a function returned into what the transport gets. The effects
/// of a successful invocation are translated whole; a failed invocation gives
/// its error and no write, no invocation and no record.
pub fn complete(target: &Address, outcome: Result<Effects, InvocationError>) -> (r: Result<
    OutgoingBatch,
    InvocationError,
>)
    ensures
        outcome_view(r) == completed(target@, outcome_view(outcome)),
        outcome matches Ok(effects) ==> effects@.wf(),
{
    match outcome {
        Ok(effects) => {
            let ghost view = effects@;
            let (updates, sends, egresses) = effects.into_parts();
            let batch = OutgoingBatch {
                state_writes: translate_updates(target, updates),
                invocations: translate_sends(target, sends),
                egress_records: translate_egresses(egresses),
            };
            proof {
                let want = translated(target@, view);
                assert(batch@.state_writes =~= want.state_writes);
                assert(batch@.invocations =~= want.invocations);
                assert(batch@.egress_records =~= want.egress_records);
            }
            Ok(batch)
        },
        Err(e) => Err(e),
    }
}

} // verus!
