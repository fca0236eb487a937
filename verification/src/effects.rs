//! What one invocation asks for: state updates, messages and egress records,
//! gathered in order and handed over as one batch.

use vstd::prelude::*;
use crate::address::{Address, AddressView, EgressIdentifier, EgressIdentifierView};
use crate::error::EncodeError;
use crate::lookup::{
    first_at, lemma_position_absent, lemma_position_found, lemma_position_is_first,
    lemma_position_none, position,
};
use crate::serializable::{encode_value, typed_encoding, Serializable};
use crate::state_spec::StateSpec;
use crate::typed_value::{TypedValue, TypedValueView};

verus! {

/// What [`Effects`] hold: each list in the order in which it was built.
pub struct EffectsView {
    /// One update for each state name that was written, with the value written last.
    pub updates: Seq<(Seq<char>, TypedValueView)>,
    pub sends: Seq<(AddressView, TypedValueView)>,
    pub egresses: Seq<(EgressIdentifierView, TypedValueView)>,
}

/// The names that `updates` write, in order.
pub open spec fn update_names(updates: Seq<(Seq<char>, TypedValueView)>) -> Seq<Seq<char>> {
    Seq::new(updates.len(), |i: int| updates[i].0)
}

/// `updates` after a write of `value` under `name`: the update for `name` is
/// replaced where there is one, and added at the end where there is none.
pub open spec fn written(
    updates: Seq<(Seq<char>, TypedValueView)>,
    name: Seq<char>,
    value: TypedValueView,
) -> Seq<(Seq<char>, TypedValueView)> {
    match position(update_names(updates), name) {
        Some(i) => updates.update(i, (name, value)),
        None => updates.push((name, value)),
    }
}

/// The value that `updates` write under `name`, if they write one.
pub open spec fn pending(updates: Seq<(Seq<char>, TypedValueView)>, name: Seq<char>) -> Option<
    TypedValueView,
> {
    match position(update_names(updates), name) {
        Some(i) => Some(updates[i].1),
        None => None,
    }
}

/// A write keeps the names apart, is what is read back under its own name, and
/// leaves what is pending under every other name as it was.
pub proof fn lemma_written(
    updates: Seq<(Seq<char>, TypedValueView)>,
    name: Seq<char>,
    value: TypedValueView,
)
    requires
        update_names(updates).no_duplicates(),
    ensures
        update_names(written(updates, name, value)).no_duplicates(),
        pending(written(updates, name, value), name) == Some(value),
        forall|other: Seq<char>|
            other != name ==> #[trigger] pending(written(updates, name, value), other) == pending(
                updates,
                other,
            ),
{
    let names = update_names(updates);
    let after = written(updates, name, value);
    let names_after = update_names(after);
    match position(names, name) {
        Some(i) => {
            assert(names_after =~= names);
            assert forall|other: Seq<char>| other != name implies #[trigger] pending(
                after,
                other,
            ) == pending(updates, other) by {
                lemma_position_is_first(names, other);
            }
        },
        None => {
            lemma_position_none(names, name);
            assert(names_after =~= names.push(name));
            let last = names.len() as int;
            assert(first_at(names_after, name, last));
            lemma_position_found(names_after, name, last);
            assert forall|other: Seq<char>| other != name implies #[trigger] pending(
                after,
                other,
            ) == pending(updates, other) by {
                match position(names, other) {
                    Some(k) => {
                        assert(first_at(names_after, other, k));
                        lemma_position_found(names_after, other, k);
                    },
                    None => {
                        lemma_position_none(names, other);
                        lemma_position_absent(names_after, other);
                    },
                }
            }
        },
    }
}

impl EffectsView {
    pub open spec fn empty() -> EffectsView {
        EffectsView { updates: Seq::empty(), sends: Seq::empty(), egresses: Seq::empty() }
    }

    /// No state name is written twice.
    pub open spec fn wf(self) -> bool {
        update_names(self.updates).no_duplicates()
    }

    pub open spec fn with_update(self, name: Seq<char>, value: TypedValueView) -> EffectsView {
        EffectsView { updates: written(self.updates, name, value), ..self }
    }

    pub open spec fn with_send(self, destination: AddressView, value: TypedValueView) -> EffectsView {
        EffectsView { sends: self.sends.push((destination, value)), ..self }
    }

    pub open spec fn with_egress(self, sink: EgressIdentifierView, value: TypedValueView) -> EffectsView {
        EffectsView { egresses: self.egresses.push((sink, value)), ..self }
    }
}

/// The effects of one invocation. A function starts from [`Effects::new`],
/// adds to it, and returns it; nothing is applied before that.
#[derive(Debug)]
pub struct Effects {
    updates: Vec<(String, TypedValue)>,
    sends: Vec<(Address, TypedValue)>,
    egresses: Vec<(EgressIdentifier, TypedValue)>,
}

/// A list of pairs, each part by its view.
pub open spec fn pairs_view<A: View, B: View>(pairs: Seq<(A, B)>) -> Seq<(A::V, B::V)> {
    Seq::new(pairs.len(), |i: int| (pairs[i].0@, pairs[i].1@))
}

impl View for Effects {
    type V = EffectsView;

    closed spec fn view(&self) -> EffectsView {
        EffectsView {
            updates: pairs_view(self.updates@),
            sends: pairs_view(self.sends@),
            egresses: pairs_view(self.egresses@),
        }
    }
}

/// Where the update for `name` stands in `updates`.
fn find_update(updates: &Vec<(String, TypedValue)>, name: &String) -> (r: Option<usize>)
    ensures
        match r {
            Some(i) => position(update_names(pairs_view(updates@)), name@) == Some(i as int),
            None => position(update_names(pairs_view(updates@)), name@) is None,
        },
{
    let ghost names = update_names(pairs_view(updates@));
    let mut i: usize = 0;
    while i < updates.len()
        invariant
            i <= updates@.len(),
            names == update_names(pairs_view(updates@)),
            forall|j: int| 0 <= j < i ==> names[j] != name@,
        decreases updates@.len() - i,
    {
        if updates[i].0 == *name {
            proof {
                assert(first_at(names, name@, i as int));
                lemma_position_found(names, name@, i as int);
            }
            return Some(i);
        }
        i = i + 1;
    }
    proof {
        lemma_position_absent(names, name@);
    }
    None
}

/// Writes `value` under `name` into `updates`.
fn write_update(updates: &mut Vec<(String, TypedValue)>, name: String, value: TypedValue)
    requires
        update_names(pairs_view(old(updates)@)).no_duplicates(),
    ensures
        pairs_view(final(updates)@) == written(pairs_view(old(updates)@), name@, value@),
        update_names(pairs_view(final(updates)@)).no_duplicates(),
{
    let ghost before = pairs_view(updates@);
    match find_update(updates, &name) {
        Some(i) => {
            updates.set(i, (name, value));
        },
        None => {
            updates.push((name, value));
        },
    }
    proof {
        assert(pairs_view(updates@) =~= written(before, name@, value@));
        lemma_written(before, name@, value@);
    }
}

impl Effects {
    #[verifier::type_invariant]
    spec fn inv(&self) -> bool {
        self@.wf()
    }

    pub fn new() -> (r: Effects)
        ensures
            r@ == EffectsView::empty(),
    {
        let r = Effects { updates: Vec::new(), sends: Vec::new(), egresses: Vec::new() };
        assert(pairs_view(r.updates@) =~= Seq::empty());
        assert(pairs_view(r.sends@) =~= Seq::empty());
        assert(pairs_view(r.egresses@) =~= Seq::empty());
        r
    }

    /// The three lists, for whoever applies them.
    pub fn into_parts(self) -> (r: (
        Vec<(String, TypedValue)>,
        Vec<(Address, TypedValue)>,
        Vec<(EgressIdentifier, TypedValue)>,
    ))
        ensures
            pairs_view(r.0@) == self@.updates,
            pairs_view(r.1@) == self@.sends,
            pairs_view(r.2@) == self@.egresses,
            self@.wf(),
    {
        proof {
            use_type_invariant(&self);
        }
        (self.updates, self.sends, self.egresses)
    }

    /// The pending state updates, in order; no name is among them twice.
    pub fn updates(&self) -> (r: &Vec<(String, TypedValue)>)
        ensures
            pairs_view(r@) == self@.updates,
            self@.wf(),
    {
        proof {
            use_type_invariant(self);
        }
        &self.updates
    }

    /// The messages to send, in the order of the calls of [`Effects::send`].
    pub fn sends(&self) -> (r: &Vec<(Address, TypedValue)>)
        ensures
            pairs_view(r@) == self@.sends,
    {
        &self.sends
    }

    /// The egress records, in the order of the calls of [`Effects::egress`].
    pub fn egresses(&self) -> (r: &Vec<(EgressIdentifier, TypedValue)>)
        ensures
            pairs_view(r@) == self@.egresses,
    {
        &self.egresses
    }

    /// Records that the state slot of `spec` is to hold `value`. A later write
    /// to the same slot replaces an earlier one. Where `value` has no encoding,
    /// nothing is recorded.
    pub fn update_state<T: Serializable>(&mut self, spec: &StateSpec<T>, value: &T) -> (r: Result<
        (),
        EncodeError,
    >)
        ensures
            r is Ok <==> typed_encoding::<T>(value@) is Some,
            r is Ok ==> final(self)@ == old(self)@.with_update(
                spec@.name,
                typed_encoding::<T>(value@).unwrap(),
            ),
            r is Err ==> final(self)@ == old(self)@,
            final(self)@.wf(),
    {
        proof {
            use_type_invariant(&*self);
        }
        let encoded = match encode_value(value) {
            Ok(tv) => tv,
            Err(e) => {
                return Err(e);
            },
        };
        // The list leaves `self` while it changes: `self` holds an empty list
        // meanwhile, with which it is well-formed.
        let mut updates: Vec<(String, TypedValue)> = Vec::new();
        assert(pairs_view(updates@) =~= Seq::empty());
        std::mem::swap(&mut self.updates, &mut updates);
        write_update(&mut updates, spec.name().to_string(), encoded);
        std::mem::swap(&mut self.updates, &mut updates);
        Ok(())
    }

    /// Records a message of `value` to `destination`, after those recorded before.
    /// Where `value` has no encoding, nothing is recorded.
    pub fn send<T: Serializable>(&mut self, destination: Address, value: &T) -> (r: Result<
        (),
        EncodeError,
    >)
        ensures
            r is Ok <==> typed_encoding::<T>(value@) is Some,
            r is Ok ==> final(self)@ == old(self)@.with_send(
                destination@,
                typed_encoding::<T>(value@).unwrap(),
            ),
            r is Err ==> final(self)@ == old(self)@,
    {
        proof {
            use_type_invariant(&*self);
        }
        let encoded = match encode_value(value) {
            Ok(tv) => tv,
            Err(e) => {
                return Err(e);
            },
        };
        let mut sends: Vec<(Address, TypedValue)> = Vec::new();
        std::mem::swap(&mut self.sends, &mut sends);
        let ghost before = pairs_view(sends@);
        sends.push((destination, encoded));
        assert(pairs_view(sends@) =~= before.push((destination@, encoded@)));
        std::mem::swap(&mut self.sends, &mut sends);
        Ok(())
    }

    /// Records a record of `value` for the sink `identifier`, after those
    /// recorded before. Where `value` has no encoding, nothing is recorded.
    pub fn egress<T: Serializable>(&mut self, identifier: EgressIdentifier, value: &T) -> (r:
        Result<(), EncodeError>)
        ensures
            r is Ok <==> typed_encoding::<T>(value@) is Some,
            r is Ok ==> final(self)@ == old(self)@.with_egress(
                identifier@,
                typed_encoding::<T>(value@).unwrap(),
            ),
            r is Err ==> final(self)@ == old(self)@,
    {
        proof {
            use_type_invariant(&*self);
        }
        let encoded = match encode_value(value) {
            Ok(tv) => tv,
            Err(e) => {
                return Err(e);
            },
        };
        let mut egresses: Vec<(EgressIdentifier, TypedValue)> = Vec::new();
        std::mem::swap(&mut self.egresses, &mut egresses);
        let ghost before = pairs_view(egresses@);
        egresses.push((identifier, encoded));
        assert(pairs_view(egresses@) =~= before.push((identifier@, encoded@)));
        std::mem::swap(&mut self.egresses, &mut egresses);
        Ok(())
    }
}

} // verus!
