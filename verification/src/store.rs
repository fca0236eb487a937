//! The state backend as the runtime sees it: values under an address and a
//! slot name, read before an invocation and written after it.

use vstd::prelude::*;
use crate::address::{Address, AddressView};
use crate::lookup::{
    first_at, lemma_position_absent, lemma_position_found, lemma_position_is_first,
    lemma_position_none, position,
};
use crate::typed_value::{TypedValue, TypedValueView};

verus! {

/// Where stored values are read from.
pub trait StateReader {
    /// The value stored for the slot `name` of the function at `address`.
    spec fn stored(&self, address: AddressView, name: Seq<char>) -> Option<TypedValueView>;

    fn read(&self, address: &Address, name: &str) -> (r: Option<TypedValue>)
        ensures
            match r {
                Some(tv) => self.stored(address@, name@) == Some(tv@),
                None => self.stored(address@, name@) is None,
            },
    ;
}

/// What a [`StateWrite`] is.
pub struct StateWriteView {
    pub address: AddressView,
    pub name: Seq<char>,
    pub value: TypedValueView,
}

/// One write to the state backend: the new value of one slot of one function.
#[derive(Debug)]
pub struct StateWrite {
    pub address: Address,
    pub name: String,
    pub value: TypedValue,
}

impl View for StateWrite {
    type V = StateWriteView;

    open spec fn view(&self) -> StateWriteView {
        StateWriteView { address: self.address@, name: self.name@, value: self.value@ }
    }
}

/// A list of writes, each by its view.
pub open spec fn writes_view(writes: Seq<StateWrite>) -> Seq<StateWriteView> {
    Seq::new(writes.len(), |i: int| writes[i]@)
}

impl StateWriteView {
    /// The slot that the write goes to.
    pub open spec fn key(self) -> (AddressView, Seq<char>) {
        (self.address, self.name)
    }
}

/// What is stored after `writes` were applied to `before`, first to last.
pub open spec fn applied(
    before: Map<(AddressView, Seq<char>), TypedValueView>,
    writes: Seq<StateWriteView>,
) -> Map<(AddressView, Seq<char>), TypedValueView>
    decreases writes.len(),
{
    if writes.len() == 0 {
        before
    } else {
        applied(before, writes.drop_last()).insert(writes.last().key(), writes.last().value)
    }
}

/// A slot that no write goes to holds after the writes what it held before.
pub proof fn lemma_applied_elsewhere(
    before: Map<(AddressView, Seq<char>), TypedValueView>,
    writes: Seq<StateWriteView>,
    key: (AddressView, Seq<char>),
)
    requires
        forall|i: int| 0 <= i < writes.len() ==> (#[trigger] writes[i]).key() != key,
    ensures
        applied(before, writes).contains_key(key) == before.contains_key(key),
        before.contains_key(key) ==> applied(before, writes)[key] == before[key],
    decreases writes.len(),
{
    if writes.len() > 0 {
        let rest = writes.drop_last();
        assert forall|i: int| 0 <= i < rest.len() implies (#[trigger] rest[i]).key() != key by {
            assert(rest[i] == writes[i]);
        }
        lemma_applied_elsewhere(before, rest, key);
        assert(writes[writes.len() - 1].key() != key);
    }
}

/// A slot holds after the writes the value of the last write that goes to it.
pub proof fn lemma_applied_last(
    before: Map<(AddressView, Seq<char>), TypedValueView>,
    writes: Seq<StateWriteView>,
    i: int,
)
    requires
        0 <= i < writes.len(),
        forall|j: int| i < j < writes.len() ==> (#[trigger] writes[j]).key() != writes[i].key(),
    ensures
        applied(before, writes).contains_key(writes[i].key()),
        applied(before, writes)[writes[i].key()] == writes[i].value,
    decreases writes.len(),
{
    if i < writes.len() - 1 {
        let rest = writes.drop_last();
        assert(rest[i] == writes[i]);
        assert forall|j: int| i < j < rest.len() implies (#[trigger] rest[j]).key()
            != rest[i].key() by {
            assert(rest[j] == writes[j]);
        }
        lemma_applied_last(before, rest, i);
        assert(writes[writes.len() - 1].key() != writes[i].key());
    }
}

/// A state backend in memory.
#[derive(Debug)]
pub struct StateStore {
    entries: Vec<StateWrite>,
}

/// The keys of `entries`, in order.
pub open spec fn entry_keys(entries: Seq<StateWrite>) -> Seq<(AddressView, Seq<char>)> {
    Seq::new(entries.len(), |i: int| (entries[i].address@, entries[i].name@))
}

impl View for StateStore {
    type V = Map<(AddressView, Seq<char>), TypedValueView>;

    closed spec fn view(&self) -> Map<(AddressView, Seq<char>), TypedValueView> {
        Map::new(
            |k: (AddressView, Seq<char>)| position(entry_keys(self.entries@), k) is Some,
            |k: (AddressView, Seq<char>)|
                self.entries@[position(entry_keys(self.entries@), k).unwrap()].value@,
        )
    }
}

impl StateStore {
    /// A backend that holds nothing.
    pub fn new() -> (r: StateStore)
        ensures
            r@ == Map::<(AddressView, Seq<char>), TypedValueView>::empty(),
    {
        let r = StateStore { entries: Vec::new() };
        proof {
            assert forall|k: (AddressView, Seq<char>)| position(entry_keys(r.entries@), k) is None by {
                lemma_position_absent(entry_keys(r.entries@), k);
            }
            assert(r@ =~= Map::<(AddressView, Seq<char>), TypedValueView>::empty());
        }
        r
    }

    /// Where the entry for `name` at `address` stands.
    fn find(&self, address: &Address, name: &String) -> (r: Option<usize>)
        ensures
            match r {
                Some(i) => position(entry_keys(self.entries@), (address@, name@)) == Some(i as int),
                None => position(entry_keys(self.entries@), (address@, name@)) is None,
            },
    {
        let ghost keys = entry_keys(self.entries@);
        let mut i: usize = 0;
        while i < self.entries.len()
            invariant
                i <= self.entries@.len(),
                keys == entry_keys(self.entries@),
                forall|j: int| 0 <= j < i ==> keys[j] != (address@, name@),
            decreases self.entries@.len() - i,
        {
            if self.entries[i].address == *address && self.entries[i].name == *name {
                proof {
                    assert(first_at(keys, (address@, name@), i as int));
                    lemma_position_found(keys, (address@, name@), i as int);
                }
                return Some(i);
            }
            i = i + 1;
        }
        proof {
            lemma_position_absent(keys, (address@, name@));
        }
        None
    }

    /// Stores `value` as the slot `name` of the function at `address`, in
    /// place of what was there.
    pub fn write(&mut self, address: &Address, name: &str, value: TypedValue)
        ensures
            final(self)@ == old(self)@.insert((address@, name@), value@),
    {
        let name = name.to_string();
        let ghost before = self.entries@;
        let ghost key = (address@, name@);
        let found = self.find(address, &name);
        let entry = StateWrite { address: address.clone(), name, value };
        match found {
            Some(i) => {
                self.entries.set(i, entry);
            },
            None => {
                self.entries.push(entry);
            },
        }
        proof {
            let keys = entry_keys(before);
            let keys_after = entry_keys(self.entries@);
            assert forall|k: (AddressView, Seq<char>)|
                k != key implies position(keys_after, k) == position(keys, k) by {
                match found {
                    Some(i) => {
                        assert(keys_after =~= keys);
                    },
                    None => {
                        assert(keys_after =~= keys.push(key));
                        match position(keys, k) {
                            Some(j) => {
                                assert(first_at(keys_after, k, j));
                                lemma_position_found(keys_after, k, j);
                            },
                            None => {
                                lemma_position_none(keys, k);
                                lemma_position_absent(keys_after, k);
                            },
                        }
                    },
                }
            }
            match found {
                Some(i) => {
                    assert(keys_after =~= keys);
                },
                None => {
                    lemma_position_none(keys, key);
                    assert(keys_after =~= keys.push(key));
                    assert(first_at(keys_after, key, keys.len() as int));
                    lemma_position_found(keys_after, key, keys.len() as int);
                },
            }
            assert forall|k: (AddressView, Seq<char>)| k != key && position(keys, k) is Some implies
                self.entries@[position(keys, k).unwrap()].value@ == before[position(
                keys,
                k,
            ).unwrap()].value@ by {
                lemma_position_is_first(keys, k);
            }
            assert(self@ =~= old(self)@.insert(key, value@));
        }
    }

    /// Applies `writes`, first to last.
    pub fn apply(&mut self, writes: &Vec<StateWrite>)
        ensures
            final(self)@ == applied(old(self)@, writes_view(writes@)),
    {
        let mut i: usize = 0;
        while i < writes.len()
            invariant
                i <= writes@.len(),
                self@ == applied(old(self)@, writes_view(writes@).take(i as int)),
            decreases writes@.len() - i,
        {
            let w = &writes[i];
            self.write(&w.address, w.name.as_str(), w.value.clone());
            proof {
                let all = writes_view(writes@);
                assert(all.take(i + 1).drop_last() =~= all.take(i as int));
                assert(all.take(i + 1).last() == all[i as int]);
            }
            i = i + 1;
        }
        proof {
            assert(writes_view(writes@).take(i as int) =~= writes_view(writes@));
        }
    }
}

impl StateReader for StateStore {
    open spec fn stored(&self, address: AddressView, name: Seq<char>) -> Option<TypedValueView> {
        if self@.contains_key((address, name)) {
            Some(self@[(address, name)])
        } else {
            None
        }
    }

    fn read(&self, address: &Address, name: &str) -> (r: Option<TypedValue>) {
        let name = name.to_string();
        match self.find(address, &name) {
            Some(i) => Some(self.entries[i].value.clone()),
            None => None,
        }
    }
}

} // verus!
