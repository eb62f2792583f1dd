//! The store: an arena of slots that are reserved first and filled later.

use super::handle::{Handle, ObjectId};
use vstd::prelude::*;
use vstd::std_specs::cmp::PartialEqSpec;

verus! {

/// Append-only object storage
///
/// A slot is reserved, which yields its handle, and filled later through that
/// handle. No slot is ever freed, so a handle stays valid for as long as its
/// store.
#[derive(Debug)]
pub struct Store<T> {
    arena: u64,
    slots: Vec<Option<T>>,
}

impl<T> View for Store<T> {
    type V = Seq<Option<T>>;

    /// The slots in the order in which they were reserved: `None` for one that
    /// was not filled yet
    closed spec fn view(&self) -> Seq<Option<T>> {
        self.slots@
    }
}

impl<T> Store<T> {
    /// The number by which the ids of this store's objects differ from those
    /// of other stores
    pub closed spec fn arena(&self) -> u64 {
        self.arena
    }

    /// Whether `handle` refers to a slot of this store
    pub open spec fn reserved(&self, handle: Handle<T>) -> bool {
        handle@@.0 == self.arena() && handle@@.1 < self@.len()
    }

    /// Whether `handle` refers to a slot of this store that holds an object
    pub open spec fn filled(&self, handle: Handle<T>) -> bool {
        self.reserved(handle) && self@[handle@@.1 as int] is Some
    }

    /// The object in the slot that `handle` refers to
    pub open spec fn object(&self, handle: Handle<T>) -> T {
        self@[handle@@.1 as int]->0
    }

    /// Construct a store, without any slot, whose ids have the arena number 0
    pub fn new() -> (store: Self)
        ensures
            store@ == Seq::<Option<T>>::empty(),
            store.arena() == 0,
    {
        Store { arena: 0, slots: Vec::new() }
    }

    /// Construct a store, without any slot, whose ids have the given arena
    /// number
    pub fn with_arena(arena: u64) -> (store: Self)
        ensures
            store@ == Seq::<Option<T>>::empty(),
            store.arena() == arena,
    {
        Store { arena, slots: Vec::new() }
    }

    /// Reserve a slot for an object in the store
    ///
    /// The slot is new and empty; the handle that refers to it is returned.
    pub fn reserve(&mut self) -> (handle: Handle<T>)
        ensures
            final(self).arena() == old(self).arena(),
            final(self)@ == old(self)@.push(None),
            handle@@ == (old(self).arena(), old(self)@.len()),
    {
        let slot = self.slots.len();
        self.slots.push(None);
        Handle::new(ObjectId::new(self.arena, slot))
    }

    /// Insert an object into the slot that was reserved for it
    ///
    /// Where the slot holds an object already, the new one takes its place.
    pub fn insert(&mut self, handle: Handle<T>, object: T)
        requires
            old(self).reserved(handle),
        ensures
            final(self).arena() == old(self).arena(),
            final(self)@ == old(self)@.update(handle@@.1 as int, Some(object)),
    {
        let slot = handle.id().slot();
        self.slots[slot] = Some(object);
    }

    /// Whether `handle` refers to a slot of this store that holds an object
    pub fn is_filled(&self, handle: &Handle<T>) -> (r: bool)
        ensures
            r == self.filled(*handle),
    {
        let id = handle.id();
        id.arena() == self.arena && id.slot() < self.slots.len() && self.slots[id.slot()].is_some()
    }

    /// The object that `handle` refers to, which must have been inserted
    pub fn get(&self, handle: &Handle<T>) -> (object: &T)
        requires
            self.filled(*handle),
        ensures
            *object == self.object(*handle),
    {
        self.slots[handle.id().slot()].as_ref().unwrap()
    }
}

impl<T: PartialEq> Store<T> {
    /// Whether the objects that two handles refer to, which must have been
    /// inserted, are equal
    ///
    /// Two handles to equal objects need not be the same handle: the objects
    /// may be in two slots.
    pub fn equal(&self, a: &Handle<T>, b: &Handle<T>) -> (r: bool)
        requires
            self.filled(*a),
            self.filled(*b),
        ensures
            T::obeys_eq_spec() ==> r == self.object(*a).eq_spec(&self.object(*b)),
    {
        self.get(a) == self.get(b)
    }
}

impl<T: Clone> Handle<T> {
    /// Return a clone of the object this handle refers to, which must have
    /// been inserted into `store`
    pub fn clone_object(&self, store: &Store<T>) -> (object: T)
        requires
            store.filled(*self),
        ensures
            cloned(store.object(*self), object),
    {
        store.get(self).clone()
    }
}

/// A slot that is reserved and then filled holds the object that it was
/// filled with, and the slots that were there before hold what they held.
pub proof fn lemma_reserve_insert_get<T>(slots: Seq<Option<T>>, object: T)
    ensures
        slots.push(None).update(slots.len() as int, Some(object))[slots.len() as int] == Some(
            object,
        ),
        forall|i: int|
            0 <= i < slots.len() ==> #[trigger] slots.push(None).update(
                slots.len() as int,
                Some(object),
            )[i] == slots[i],
{
}

} // verus!
