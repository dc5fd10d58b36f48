//! A store that holds at most one value of each type.

use std::any::{Any, TypeId};
use vstd::prelude::*;

verus! {

/// `std::any::TypeId`, carried as an opaque value: the key of a type.
#[verifier::external_type_specification]
#[verifier::external_body]
pub struct ExTypeId(TypeId);

/// A value of some type, boxed so that values of different types can share a
/// list. It holds a `Box<dyn Any>`, of which the verifier is told nothing.
#[verifier::external_body]
pub struct Slot {
    inner: Box<dyn Any>,
}

/// Calls `TypeId::of`. Nothing is claimed of the key that comes back.
#[verifier::external_body]
fn type_key<T: 'static>() -> (key: TypeId) {
    TypeId::of::<T>()
}

/// Compares two keys with `TypeId`'s `==`. Trusted: it holds exactly when the
/// keys are the same value.
#[verifier::external_body]
fn same_key(a: &TypeId, b: &TypeId) -> (same: bool)
    ensures
        same == (*a == *b),
{
    a == b
}

/// Calls `Box::new` on the value. Nothing is claimed of the slot that comes back.
#[verifier::external_body]
fn hold<T: 'static>(value: T) -> (slot: Slot) {
    Slot { inner: Box::new(value) }
}

/// Calls `downcast_ref` of `dyn Any`. Nothing is claimed of what comes back.
#[verifier::external_body]
fn peek<T: 'static>(slot: &Slot) -> (r: Option<&T>) {
    slot.inner.downcast_ref::<T>()
}

/// Calls `downcast_mut` of `dyn Any`. Trusted: where it hands out nothing, the
/// slot is as it was. Nothing is claimed of what it hands out.
#[verifier::external_body]
fn peek_mut<T: 'static>(slot: &mut Slot) -> (r: Option<&mut T>)
    ensures
        r is None ==> *final(slot) == *old(slot),
{
    slot.inner.downcast_mut::<T>()
}

/// Calls `downcast` of `Box<dyn Any>` and unboxes the value. Nothing is claimed
/// of what comes back.
#[verifier::external_body]
fn open<T: 'static>(slot: Slot) -> (r: Option<T>) {
    slot.inner.downcast::<T>().ok().map(|boxed| *boxed)
}

/// Whether no key occurs twice.
pub open spec fn distinct_keys(keys: Seq<TypeId>) -> bool {
    forall|i: int, j: int| 0 <= i < j < keys.len() ==> keys[i] != keys[j]
}

/// Whether the key is among the keys.
pub open spec fn has_key(keys: Seq<TypeId>, key: TypeId) -> bool {
    exists|i: int| 0 <= i < keys.len() && #[trigger] keys[i] == key
}

/// A place at which the key stands.
pub open spec fn index_of(keys: Seq<TypeId>, key: TypeId) -> int {
    choose|i: int| 0 <= i < keys.len() && #[trigger] keys[i] == key
}

/// The map from each key to the slot that stands at the key's place.
pub open spec fn slots_map(keys: Seq<TypeId>, slots: Seq<Slot>) -> Map<TypeId, Slot> {
    Map::new(|key: TypeId| has_key(keys, key), |key: TypeId| slots[index_of(keys, key)])
}

/// Whether two maps hold the same keys and differ in the slot of one key at most.
pub open spec fn at_most_one_slot_changed(
    before: Map<TypeId, Slot>,
    after: Map<TypeId, Slot>,
) -> bool {
    &&& after.dom() == before.dom()
    &&& forall|k1: TypeId, k2: TypeId|
        k1 != k2 && before.dom().contains(k1) && before.dom().contains(k2) ==> #[trigger] after[k1]
            == before[k1] || #[trigger] after[k2] == before[k2]
}

/// Among distinct keys a key stands at one place only.
proof fn lemma_index_of(keys: Seq<TypeId>, i: int)
    requires
        distinct_keys(keys),
        0 <= i < keys.len(),
    ensures
        has_key(keys, keys[i]),
        index_of(keys, keys[i]) == i,
{
    let j = index_of(keys, keys[i]);
    assert(keys[j] == keys[i]);
}

/// Singleton values keyed by their type: at most one value per key.
pub struct ResourceContainer {
    keys: Vec<TypeId>,
    slots: Vec<Slot>,
}

impl View for ResourceContainer {
    type V = Map<TypeId, Slot>;

    closed spec fn view(&self) -> Map<TypeId, Slot> {
        slots_map(self.keys@, self.slots@)
    }
}

impl ResourceContainer {
    #[verifier::type_invariant]
    spec fn one_slot_per_key(self) -> bool {
        self.keys@.len() == self.slots@.len() && distinct_keys(self.keys@)
    }

    /// An empty container.
    pub fn new() -> (c: ResourceContainer)
        ensures
            c@ == Map::<TypeId, Slot>::empty(),
    {
        let c = ResourceContainer { keys: Vec::new(), slots: Vec::new() };
        assert(c@ =~= Map::<TypeId, Slot>::empty());
        c
    }

    /// Where the key stands, if it is stored.
    fn position(&self, key: &TypeId) -> (r: Option<usize>)
        ensures
            match r {
                Some(i) => i < self.keys.len() && self.keys[i as int] == *key,
                None => !has_key(self.keys@, *key),
            },
    {
        let n = self.keys.len();
        let mut i: usize = 0;
        while i < n
            invariant
                n == self.keys.len(),
                0 <= i <= n,
                forall|k: int| 0 <= k < i ==> self.keys[k] != *key,
            decreases n - i,
        {
            if same_key(&self.keys[i], key) {
                return Some(i);
            }
            i += 1;
        }
        None
    }

    /// Whether a value is stored under the key.
    pub fn contains_key(&self, key: &TypeId) -> (b: bool)
        ensures
            b == self@.dom().contains(*key),
    {
        self.position(key).is_some()
    }

    /// The slot stored under the key, if there is one.
    pub fn slot(&self, key: &TypeId) -> (r: Option<&Slot>)
        ensures
            match r {
                Some(slot) => self@.dom().contains(*key) && *slot == self@[*key],
                None => !self@.dom().contains(*key),
            },
    {
        proof {
            use_type_invariant(self);
        }
        match self.position(key) {
            Some(i) => {
                proof {
                    lemma_index_of(self.keys@, i as int);
                }
                Some(&self.slots[i])
            },
            None => None,
        }
    }

    /// Stores the slot under the key, in place of what was stored there.
    pub(crate) fn insert_slot(&mut self, key: TypeId, slot: Slot)
        ensures
            final(self)@ == old(self)@.insert(key, slot),
    {
        proof {
            use_type_invariant(&*self);
        }
        let ghost keys = self.keys@;
        let ghost before = self.slots@;
        match self.position(&key) {
            Some(i) => {
                self.slots[i] = slot;
                proof {
                    lemma_index_of(keys, i as int);
                    assert(self.slots@ =~= before.update(i as int, slot));
                    assert forall|k: TypeId| has_key(keys, k) implies self@[k] == old(self)@.insert(
                        key,
                        slot,
                    )[k] by {
                        let j = index_of(keys, k);
                        assert(keys[j] == k);
                    }
                    assert(self@.dom() =~= old(self)@.insert(key, slot).dom());
                    assert(self@ =~= old(self)@.insert(key, slot));
                }
            },
            None => {
                let mut taken = ResourceContainer::new();
                std::mem::swap(self, &mut taken);
                let ResourceContainer { keys: taken_keys, slots: taken_slots } = taken;
                let mut more_keys = taken_keys;
                let mut more_slots = taken_slots;
                more_keys.push(key);
                more_slots.push(slot);
                assert(distinct_keys(more_keys@)) by {
                    assert forall|i: int, j: int| 0 <= i < j < more_keys@.len() implies more_keys@[i]
                        != more_keys@[j] by {
                        if j == keys.len() {
                            assert(keys[i] != key);
                        }
                    }
                }
                let mut grown = ResourceContainer { keys: more_keys, slots: more_slots };
                std::mem::swap(self, &mut grown);
                proof {
                    let after = self.keys@;
                    assert(after =~= keys.push(key));
                    assert(self.slots@ =~= before.push(slot));
                    assert forall|k: TypeId| has_key(after, k) <==> has_key(keys, k) || k
                        == key by {
                        if has_key(keys, k) {
                            assert(after[index_of(keys, k)] == k);
                        }
                        if k == key {
                            assert(after[keys.len() as int] == k);
                        }
                    }
                    assert forall|k: TypeId| has_key(after, k) implies self@[k] == old(
                        self,
                    )@.insert(key, slot)[k] by {
                        let j = index_of(after, k);
                        assert(after[j] == k);
                        if j < keys.len() {
                            lemma_index_of(keys, j);
                        }
                    }
                    assert(self@.dom() =~= old(self)@.insert(key, slot).dom());
                    assert(self@ =~= old(self)@.insert(key, slot));
                }
            },
        }
    }

    /// Takes out the slot stored under the key, if there is one.
    pub fn remove_slot(&mut self, key: &TypeId) -> (r: Option<Slot>)
        ensures
            final(self)@ == old(self)@.remove(*key),
            match r {
                Some(slot) => old(self)@.dom().contains(*key) && slot == old(self)@[*key],
                None => !old(self)@.dom().contains(*key),
            },
    {
        proof {
            use_type_invariant(&*self);
        }
        let ghost keys = self.keys@;
        let ghost before = self.slots@;
        match self.position(key) {
            Some(i) => {
                let mut taken = ResourceContainer::new();
                std::mem::swap(self, &mut taken);
                let ResourceContainer { keys: taken_keys, slots: taken_slots } = taken;
                let mut fewer_keys = taken_keys;
                let mut fewer_slots = taken_slots;
                fewer_keys.remove(i);
                let slot = fewer_slots.remove(i);
                assert(fewer_keys@ =~= keys.remove(i as int));
                assert(fewer_slots@ =~= before.remove(i as int));
                assert(distinct_keys(fewer_keys@)) by {
                    assert forall|a: int, b: int| 0 <= a < b < fewer_keys@.len() implies fewer_keys@[a]
                        != fewer_keys@[b] by {
                        let a0 = if a < i { a } else { a + 1 };
                        let b0 = if b < i { b } else { b + 1 };
                        assert(fewer_keys@[a] == keys[a0] && fewer_keys@[b] == keys[b0]);
                    }
                }
                let mut shrunk = ResourceContainer { keys: fewer_keys, slots: fewer_slots };
                std::mem::swap(self, &mut shrunk);
                proof {
                    let after = self.keys@;
                    lemma_index_of(keys, i as int);
                    assert forall|k: TypeId| has_key(after, k) <==> has_key(keys, k) && k
                        != *key by {
                        if has_key(keys, k) && k != *key {
                            let j = index_of(keys, k);
                            if j < i {
                                assert(after[j] == k);
                            } else {
                                assert(after[j - 1] == k);
                            }
                        }
                        if has_key(after, k) {
                            let j = index_of(after, k);
                            let j0 = if j < i { j } else { j + 1 };
                            assert(keys[j0] == k);
                        }
                    }
                    assert forall|k: TypeId| has_key(after, k) implies self@[k] == old(self)@[k] by {
                        let j = index_of(after, k);
                        let j0 = if j < i { j } else { j + 1 };
                        assert(keys[j0] == k);
                        lemma_index_of(keys, j0);
                    }
                    assert(self@.dom() =~= old(self)@.remove(*key).dom());
                    assert(self@ =~= old(self)@.remove(*key));
                }
                Some(slot)
            },
            None => {
                assert(self@ =~= old(self)@.remove(*key));
                None
            },
        }
    }

    /// Stores a value under the key of its type, in place of any value of that
    /// type stored before. Which key a type has is decided outside this
    /// library, so the contract says only that one key is written.
    pub fn insert<T: 'static>(&mut self, resource: T)
        ensures
            exists|key: TypeId, slot: Slot| final(self)@ == old(self)@.insert(key, slot),
    {
        let key = type_key::<T>();
        let slot = hold(resource);
        self.insert_slot(key, slot);
    }

    /// The value of type `T`, if one is stored.
    pub fn get<T: 'static>(&self) -> (r: Option<&T>)
        ensures
            r is Some ==> exists|key: TypeId| self@.dom().contains(key),
    {
        let key = type_key::<T>();
        match self.slot(&key) {
            Some(slot) => peek::<T>(slot),
            None => None,
        }
    }

    /// The value of type `T`, for writing, if one is stored. No key is added or
    /// removed, and the slot of one key at most can change; where nothing is
    /// handed out, the store is as it was.
    pub fn get_mut<T: 'static>(&mut self) -> (r: Option<&mut T>)
        ensures
            final(self)@.dom() == old(self)@.dom(),
            r is Some ==> exists|key: TypeId| old(self)@.dom().contains(key),
            r is None ==> final(self)@ == old(self)@,
            at_most_one_slot_changed(old(self)@, final(self)@),
    {
        proof {
            use_type_invariant(&*self);
        }
        let key = type_key::<T>();
        match self.position(&key) {
            Some(i) => {
                proof {
                    let keys = self.keys@;
                    let slots = self.slots@;
                    lemma_index_of(keys, i as int);
                    assert(old(self)@.dom().contains(key));
                    assert forall|value: Slot|
                        {
                            let updated = #[trigger] slots.update(i as int, value);
                            at_most_one_slot_changed(
                                slots_map(keys, slots),
                                slots_map(keys, updated),
                            ) && (value == slots[i as int] ==> slots_map(keys, updated)
                                == slots_map(keys, slots))
                        } by {
                        let updated = slots.update(i as int, value);
                        assert(slots_map(keys, updated).dom() =~= slots_map(keys, slots).dom());
                        assert forall|k1: TypeId, k2: TypeId|
                            k1 != k2 && has_key(keys, k1) && has_key(keys, k2) implies slots_map(
                            keys,
                            updated,
                        )[k1] == slots_map(keys, slots)[k1] || slots_map(keys, updated)[k2]
                            == slots_map(keys, slots)[k2] by {
                            let j1 = index_of(keys, k1);
                            let j2 = index_of(keys, k2);
                            assert(keys[j1] == k1 && keys[j2] == k2);
                        }
                        if value == slots[i as int] {
                            assert(updated =~= slots);
                        }
                    }
                }
                peek_mut::<T>(&mut self.slots[i])
            },
            None => None,
        }
    }

    /// Whether a value of type `T` is stored. Which key a type has is decided
    /// outside this library, so the contract speaks of the key that came
    /// back: the answer is whether the store holds a value under that key.
    pub fn contains<T: 'static>(&self) -> (b: bool)
        ensures
            exists|key: TypeId| b == self@.dom().contains(key),
    {
        let key = type_key::<T>();
        self.contains_key(&key)
    }

    /// Takes out the value of type `T`, if one is stored. At most one key is removed.
    pub fn remove<T: 'static>(&mut self) -> (r: Option<T>)
        ensures
            exists|key: TypeId| final(self)@ == old(self)@.remove(key),
            r is Some ==> exists|key: TypeId| old(self)@.dom().contains(key),
    {
        let key = type_key::<T>();
        match self.remove_slot(&key) {
            Some(slot) => open::<T>(slot),
            None => None,
        }
    }
}

impl Default for ResourceContainer {
    fn default() -> (c: ResourceContainer)
        ensures
            c@ == Map::<TypeId, Slot>::empty(),
    {
        ResourceContainer::new()
    }
}

} // verus!
