//! What holds of the runtime as a whole, stated over the models of its parts.

use vstd::prelude::*;
use crate::address::AddressView;
use crate::context::{slot_names, slot_value, state_reading};
use crate::effects::{lemma_written, pending, update_names, written, EffectsView};
use crate::error::DecodeFailure;
use crate::invocation::{translated, InvocationView};
use crate::lookup::{
    first_at, lemma_position_distinct, lemma_position_found, lemma_position_is_first,
    lemma_position_none, position,
};
use crate::registry::{declared_names, hydrated};
use crate::serializable::{lemma_typed_round_trip, typed_encoding, Serializable};
use crate::state_spec::{declaration_of, StateDeclarationView, StateSpecView};
use crate::store::{
    applied, lemma_applied_elsewhere, lemma_applied_last, StateReader, StateStore,
};
use crate::typed_value::TypedValueView;

verus! {

/// The last write wins. Two writes to one slot in one invocation leave what
/// the second alone would leave: one update for the slot, with the second
/// value, and so one write for it in the outgoing batch.
pub proof fn lemma_last_write_wins(
    effects: EffectsView,
    target: AddressView,
    name: Seq<char>,
    first: TypedValueView,
    second: TypedValueView,
)
    requires
        effects.wf(),
    ensures
        effects.with_update(name, first).with_update(name, second) == effects.with_update(
            name,
            second,
        ),
        effects.with_update(name, second).wf(),
        pending(effects.with_update(name, second).updates, name) == Some(second),
        ({
            let writes = translated(
                target,
                effects.with_update(name, first).with_update(name, second),
            ).state_writes;
            exists|i: int|
                {
                    &&& 0 <= i < writes.len()
                    &&& writes[i].name == name
                    &&& writes[i].value == second
                    &&& forall|j: int|
                        0 <= j < writes.len() && #[trigger] writes[j].name == name ==> j == i
                }
        }),
{
    let one = written(effects.updates, name, first);
    let two = written(one, name, second);
    let direct = written(effects.updates, name, second);
    lemma_written(effects.updates, name, first);
    lemma_written(one, name, second);
    lemma_written(effects.updates, name, second);
    let names = update_names(effects.updates);
    match position(names, name) {
        Some(i) => {
            assert(update_names(one) =~= names);
            assert(two =~= direct);
        },
        None => {
            lemma_position_none(names, name);
            assert(update_names(one) =~= names.push(name));
            assert(first_at(update_names(one), name, names.len() as int));
            lemma_position_found(update_names(one), name, names.len() as int);
            assert(two =~= direct);
        },
    }
    let after = effects.with_update(name, first).with_update(name, second);
    assert(after == effects.with_update(name, second));
    let writes = translated(target, after).state_writes;
    let k = position(update_names(after.updates), name).unwrap();
    lemma_position_is_first(update_names(after.updates), name);
    assert(writes[k].name == name);
    assert forall|j: int| 0 <= j < writes.len() && #[trigger] writes[j].name == name implies j
        == k by {
        assert(update_names(after.updates)[j] == name);
        assert(update_names(after.updates)[k] == name);
    }
}

/// A slot that the backend holds nothing for reads as its declared default,
/// and as absent where it has none.
pub proof fn lemma_default_resolution<R: StateReader>(
    specs: Seq<StateDeclarationView>,
    reader: &R,
    address: AddressView,
    k: int,
)
    requires
        declared_names(specs).no_duplicates(),
        0 <= k < specs.len(),
        reader.stored(address, specs[k].name) is None,
    ensures
        slot_value(hydrated(specs, reader, address), specs[k].name) == specs[k].default,
{
    let state = hydrated(specs, reader, address);
    assert(slot_names(state) =~= declared_names(specs));
    lemma_position_distinct(declared_names(specs), k);
}

/// A slot that the backend holds a value for reads as that value, whatever its
/// default.
pub proof fn lemma_stored_value_read<R: StateReader>(
    specs: Seq<StateDeclarationView>,
    reader: &R,
    address: AddressView,
    k: int,
)
    requires
        declared_names(specs).no_duplicates(),
        0 <= k < specs.len(),
        reader.stored(address, specs[k].name) is Some,
    ensures
        slot_value(hydrated(specs, reader, address), specs[k].name) == reader.stored(
            address,
            specs[k].name,
        ),
{
    let state = hydrated(specs, reader, address);
    assert(slot_names(state) =~= declared_names(specs));
    lemma_position_distinct(declared_names(specs), k);
}

/// Default resolution, with the types: where nothing is stored, a function
/// that reads the slot of `spec` as a `T` gets the default of `spec`, decoded
/// without error, and an absent value where `spec` has no default.
pub proof fn lemma_typed_default_resolution<T: Serializable, R: StateReader>(
    spec: StateSpecView<T::V>,
    specs: Seq<StateDeclarationView>,
    reader: &R,
    address: AddressView,
    k: int,
)
    requires
        declared_names(specs).no_duplicates(),
        0 <= k < specs.len(),
        declaration_of::<T>(spec) == Some(specs[k]),
        reader.stored(address, spec.name) is None,
    ensures
        state_reading::<T>(hydrated(specs, reader, address), spec.name) == match spec.default {
            Some(v) => Some(Ok::<T::V, DecodeFailure>(v)),
            None => None,
        },
{
    lemma_default_resolution(specs, reader, address, k);
    match spec.default {
        Some(v) => {
            lemma_typed_round_trip::<T>(v);
        },
        None => {},
    }
}

/// What an invocation writes, the next one reads. Once the state writes of
/// an invocation of `target` are applied, a function that declared the slot
/// sees under `name` the value that the invocation left pending for it.
pub proof fn lemma_write_then_read(
    effects: EffectsView,
    target: AddressView,
    name: Seq<char>,
    before: &StateStore,
    after: &StateStore,
    specs: Seq<StateDeclarationView>,
    k: int,
)
    requires
        effects.wf(),
        pending(effects.updates, name) is Some,
        after@ == applied(before@, translated(target, effects).state_writes),
        declared_names(specs).no_duplicates(),
        0 <= k < specs.len(),
        specs[k].name == name,
    ensures
        slot_value(hydrated(specs, after, target), name) == pending(effects.updates, name),
{
    let names = update_names(effects.updates);
    let writes = translated(target, effects).state_writes;
    lemma_position_is_first(names, name);
    let i = position(names, name).unwrap();
    assert(names[i] == name);
    assert(writes[i].key() == (target, name));
    assert forall|j: int| i < j < writes.len() implies (#[trigger] writes[j]).key()
        != writes[i].key() by {
        assert(names[j] == writes[j].name);
    }
    lemma_applied_last(before@, writes, i);
    assert(after.stored(target, name) == Some(writes[i].value));
    lemma_stored_value_read(specs, after, target, k);
}

/// What an invocation writes as a `T`, the next one reads as that `T`.
pub proof fn lemma_typed_write_then_read<T: Serializable>(
    effects: EffectsView,
    target: AddressView,
    name: Seq<char>,
    value: T::V,
    before: &StateStore,
    after: &StateStore,
    specs: Seq<StateDeclarationView>,
    k: int,
)
    requires
        effects.wf(),
        typed_encoding::<T>(value) is Some,
        after@ == applied(
            before@,
            translated(
                target,
                effects.with_update(name, typed_encoding::<T>(value).unwrap()),
            ).state_writes,
        ),
        declared_names(specs).no_duplicates(),
        0 <= k < specs.len(),
        specs[k].name == name,
    ensures
        state_reading::<T>(hydrated(specs, after, target), name) == Some(
            Ok::<T::V, DecodeFailure>(value),
        ),
{
    let tv = typed_encoding::<T>(value).unwrap();
    lemma_written(effects.updates, name, tv);
    lemma_write_then_read(effects.with_update(name, tv), target, name, before, after, specs, k);
    lemma_typed_round_trip::<T>(value);
}

/// What an invocation writes, it does not read. Whatever value the
/// invocation of `target` leaves pending for the slot `name`, the state that
/// it was handed holds under `name` what the backend held before, or the
/// slot's default; the written value is in the state that is read from the
/// backend after the writes were applied.
pub proof fn lemma_isolation(
    effects: EffectsView,
    target: AddressView,
    name: Seq<char>,
    value: TypedValueView,
    before: &StateStore,
    after: &StateStore,
    specs: Seq<StateDeclarationView>,
    k: int,
)
    requires
        effects.wf(),
        after@ == applied(
            before@,
            translated(target, effects.with_update(name, value)).state_writes,
        ),
        declared_names(specs).no_duplicates(),
        0 <= k < specs.len(),
        specs[k].name == name,
    ensures
        slot_value(hydrated(specs, before, target), name) == match before.stored(target, name) {
            Some(stored) => Some(stored),
            None => specs[k].default,
        },
        slot_value(hydrated(specs, after, target), name) == Some(value),
{
    if before.stored(target, name) is Some {
        lemma_stored_value_read(specs, before, target, k);
    } else {
        lemma_default_resolution(specs, before, target, k);
    }
    lemma_written(effects.updates, name, value);
    lemma_write_then_read(effects.with_update(name, value), target, name, before, after, specs, k);
}

/// A write to the state of one function does not show in the state of another.
pub proof fn lemma_write_elsewhere(
    effects: EffectsView,
    target: AddressView,
    other: AddressView,
    name: Seq<char>,
    before: &StateStore,
    after: &StateStore,
)
    requires
        other != target,
        after@ == applied(before@, translated(target, effects).state_writes),
    ensures
        after.stored(other, name) == before.stored(other, name),
{
    let writes = translated(target, effects).state_writes;
    assert forall|i: int| 0 <= i < writes.len() implies (#[trigger] writes[i]).key() != (
        other,
        name,
    ) by {
        assert(writes[i].address == target);
    }
    lemma_applied_elsewhere(before@, writes, (other, name));
}

/// Messages leave in the order in which they were sent: a send adds one
/// invocation at the end of the outgoing batch, from the sender to the
/// destination, and leaves the invocations before it as they were.
pub proof fn lemma_send_keeps_order(
    effects: EffectsView,
    target: AddressView,
    destination: AddressView,
    value: TypedValueView,
)
    ensures
        translated(target, effects.with_send(destination, value)).invocations == translated(
            target,
            effects,
        ).invocations.push(
            InvocationView { target: destination, caller: Some(target), payload: value },
        ),
        translated(target, effects.with_send(destination, value)).state_writes == translated(
            target,
            effects,
        ).state_writes,
        translated(target, effects.with_send(destination, value)).egress_records == translated(
            target,
            effects,
        ).egress_records,
{
    let after = translated(target, effects.with_send(destination, value));
    let before = translated(target, effects);
    assert(after.invocations =~= before.invocations.push(
        InvocationView { target: destination, caller: Some(target), payload: value },
    ));
    assert(after.state_writes =~= before.state_writes);
    assert(after.egress_records =~= before.egress_records);
}

} // verus!
