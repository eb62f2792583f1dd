//! Handles: stable references to the slots of a store.

use std::marker::PhantomData;
use vstd::prelude::*;

verus! {

/// Represents the ID of an object: the store that holds it, and its slot there
///
/// See [`Handle::id`].
#[derive(Clone, Copy, Debug, PartialEq, Eq, Structural, PartialOrd, Ord, Hash)]
pub struct ObjectId {
    arena: u64,
    slot: usize,
}

impl View for ObjectId {
    type V = (u64, nat);

    /// The number of the store, and the number of the slot in it
    closed spec fn view(&self) -> (u64, nat) {
        (self.arena, self.slot as nat)
    }
}

impl ObjectId {
    pub(crate) fn new(arena: u64, slot: usize) -> (id: ObjectId)
        ensures
            id@ == (arena, slot as nat),
    {
        ObjectId { arena, slot }
    }

    pub(crate) fn from_key(key: (u64, usize)) -> (id: ObjectId)
        ensures
            id == ObjectId::of_key(key),
    {
        ObjectId { arena: key.0, slot: key.1 }
    }

    /// The number of the store that holds the object
    pub fn arena(&self) -> (r: u64)
        ensures
            r == self@.0,
    {
        self.arena
    }

    /// The number of the slot that holds the object
    pub fn slot(&self) -> (r: usize)
        ensures
            r == self@.1,
    {
        self.slot
    }

    /// The number of the store and the number of the slot, as machine
    /// integers: a key that is ordered as the ids are
    pub closed spec fn spec_key(&self) -> (u64, usize) {
        (self.arena, self.slot)
    }

    /// The id with the given key
    pub closed spec fn of_key(key: (u64, usize)) -> ObjectId {
        ObjectId { arena: key.0, slot: key.1 }
    }

    /// The number of the store and the number of the slot
    #[verifier::when_used_as_spec(spec_key)]
    pub fn key(&self) -> (r: (u64, usize))
        ensures
            r == self.spec_key(),
    {
        (self.arena, self.slot)
    }

    /// An id and its key stand for each other
    pub proof fn lemma_key_is_identity()
        ensures
            forall|id: ObjectId| #[trigger] ObjectId::of_key(id.key()) == id,
            forall|key: (u64, usize)| #[trigger] ObjectId::of_key(key).key() == key,
            forall|id: ObjectId| (#[trigger] id.key()).0 == id@.0 && id.key().1 == id@.1,
            forall|a: ObjectId, b: ObjectId| #[trigger] a.key() == #[trigger] b.key() ==> a == b,
    {
    }

    /// Two ids are the same value where they name the same store and slot
    pub proof fn lemma_view_is_identity(self, other: ObjectId)
        ensures
            (self@ == other@) == (self == other),
    {
    }
}

/// A handle for an object
///
/// A store gives out a handle when it reserves a slot. The handle refers to
/// that slot from then on, before and after the slot is filled.
///
/// # Equality and Identity
///
/// A handle has no equality of its own. Two handles refer to the same slot
/// where their ids are equal (see [`Handle::id`]); whether the objects in two
/// slots are equal is a question to the store, which holds the objects. Where
/// a key that compares by identity is needed, wrap the handle in a
/// [`HandleWrapper`].
#[derive(Debug)]
pub struct Handle<T> {
    id: ObjectId,
    marker: PhantomData<T>,
}

impl<T> Clone for Handle<T> {
    fn clone(&self) -> (r: Self)
        ensures
            r == *self,
    {
        *self
    }
}

impl<T> Copy for Handle<T> {

}

impl<T> View for Handle<T> {
    type V = ObjectId;

    /// The id of the slot that the handle refers to
    closed spec fn view(&self) -> ObjectId {
        self.id
    }
}

impl<T> Handle<T> {
    pub(crate) fn new(id: ObjectId) -> (handle: Handle<T>)
        ensures
            handle@ == id,
    {
        Handle { id, marker: PhantomData }
    }

    /// Access this handle's unique id
    pub fn id(&self) -> (id: ObjectId)
        ensures
            id == self@,
    {
        self.id
    }

    /// Handles with one id are one handle
    pub proof fn lemma_id_is_identity(self, other: Handle<T>)
        ensures
            (self@ == other@) == (self == other),
    {
    }
}

/// A wrapper around [`Handle`] to define equality based on identity
///
/// This type implements [`Eq`], [`Ord`] and [`Hash`] by the id of the slot
/// that the wrapped handle refers to, whatever the slot holds. It serves as a
/// key in maps and sets.
#[derive(Debug, PartialEq, Eq, PartialOrd, Ord, Hash)]
pub struct HandleWrapper<T> {
    id: ObjectId,
    marker: PhantomData<T>,
}

impl<T> Clone for HandleWrapper<T> {
    fn clone(&self) -> (r: Self)
        ensures
            r == *self,
    {
        *self
    }
}

impl<T> Copy for HandleWrapper<T> {

}

impl<T> View for HandleWrapper<T> {
    type V = ObjectId;

    /// The id of the slot that the wrapped handle refers to
    closed spec fn view(&self) -> ObjectId {
        self.id
    }
}

impl<T> HandleWrapper<T> {
    /// The wrapper of `handle`
    pub closed spec fn wrap(handle: Handle<T>) -> Self {
        HandleWrapper { id: handle.id, marker: PhantomData }
    }

    /// The handle that the wrapper holds
    pub closed spec fn unwrap(self) -> Handle<T> {
        Handle { id: self.id, marker: PhantomData }
    }

    /// The wrapped handle
    pub fn handle(&self) -> (handle: Handle<T>)
        ensures
            handle == self.unwrap(),
            handle@ == self@,
    {
        Handle::new(self.id)
    }

    /// The id of the slot that the wrapped handle refers to
    pub fn id(&self) -> (id: ObjectId)
        ensures
            id == self@,
    {
        self.id
    }

    /// Whether two wrappers hold handles to the same slot
    pub fn same(&self, other: &Self) -> (r: bool)
        ensures
            r == (self@ == other@),
    {
        self.id == other.id
    }
}

impl<T> From<Handle<T>> for HandleWrapper<T> {
    fn from(handle: Handle<T>) -> (wrapper: Self)
        ensures
            wrapper == HandleWrapper::wrap(handle),
            wrapper@ == handle@,
    {
        HandleWrapper { id: handle.id, marker: PhantomData }
    }
}

impl<T> vstd::std_specs::convert::FromSpecImpl<Handle<T>> for HandleWrapper<T> {
    open spec fn obeys_from_spec() -> bool {
        true
    }

    open spec fn from_spec(handle: Handle<T>) -> Self {
        HandleWrapper::wrap(handle)
    }
}

impl<T> From<HandleWrapper<T>> for Handle<T> {
    fn from(wrapper: HandleWrapper<T>) -> (handle: Self)
        ensures
            handle@ == wrapper@,
    {
        wrapper.handle()
    }
}

impl<T> vstd::std_specs::convert::FromSpecImpl<HandleWrapper<T>> for Handle<T> {
    open spec fn obeys_from_spec() -> bool {
        true
    }

    open spec fn from_spec(wrapper: HandleWrapper<T>) -> Self {
        wrapper.unwrap()
    }
}

} // verus!
