//! The record of what the validation of objects has found.
//!
//! The record changes by events alone. A command names objects together with
//! what their validation found; deciding on a command turns it into events,
//! and evolving the record applies one event.

use crate::storage::ObjectId;
use std::collections::BTreeMap;
use vstd::prelude::*;
use vstd::std_specs::iter::IteratorSpec;

verus! {

/// What is wrong with an object
#[derive(Debug, PartialEq, Eq)]
pub struct ValidationError {
    /// The error in words
    pub message: String,
}

impl Clone for ValidationError {
    fn clone(&self) -> (r: Self)
        ensures
            r == *self,
    {
        ValidationError { message: self.message.clone() }
    }
}

/// An object, and the errors that its validation found, in the order in which
/// it found them
#[derive(Debug)]
pub struct Validated {
    /// The id of the object
    pub object: ObjectId,
    /// The errors
    pub errors: Vec<ValidationError>,
}

/// The command accepted by the validation service
#[derive(Debug)]
pub enum ValidationCommand {
    /// Record what the validation of the provided object found
    ValidateObject {
        /// The object that was validated
        object: Validated,
    },
    /// Record what the validation of the provided objects found, and discard
    /// all other validation errors
    OnlyValidate {
        /// The objects that were validated
        objects: Vec<Validated>,
    },
}

/// The event produced by the validation service
#[derive(Debug)]
pub enum ValidationEvent {
    /// Validation of an object failed
    ValidationFailed {
        /// The object for which validation failed
        object: ObjectId,
        /// The validation error
        err: ValidationError,
    },
    /// All stored validation errors are being cleared
    ClearErrors,
}

impl Clone for ValidationEvent {
    fn clone(&self) -> (r: Self)
        ensures
            r == *self,
    {
        match self {
            ValidationEvent::ValidationFailed { object, err } => ValidationEvent::ValidationFailed {
                object: *object,
                err: err.clone(),
            },
            ValidationEvent::ClearErrors => ValidationEvent::ClearErrors,
        }
    }
}

/// The events that say what the validation of one object found: one failure
/// for each error, in the order of the errors
pub open spec fn failures(object: ObjectId, errors: Seq<ValidationError>) -> Seq<ValidationEvent> {
    Seq::new(
        errors.len(),
        |i: int| ValidationEvent::ValidationFailed { object, err: errors[i] },
    )
}

/// The events that say what the validation of some objects found: the
/// failures of each, in the order of the objects
pub open spec fn all_failures(objects: Seq<Validated>) -> Seq<ValidationEvent>
    decreases objects.len(),
{
    if objects.len() == 0 {
        Seq::empty()
    } else {
        all_failures(objects.drop_last()) + failures(
            objects.last().object,
            objects.last().errors@,
        )
    }
}

/// The events that a command is turned into
pub open spec fn decided(command: ValidationCommand) -> Seq<ValidationEvent> {
    match command {
        ValidationCommand::ValidateObject { object } => failures(object.object, object.errors@),
        ValidationCommand::OnlyValidate { objects } => seq![ValidationEvent::ClearErrors]
            + all_failures(objects@),
    }
}

/// The record after an event: a failure puts its error in the place of the
/// one recorded for the object, if there is one; a clearing leaves nothing
pub open spec fn evolved(
    errors: Map<ObjectId, ValidationError>,
    event: ValidationEvent,
) -> Map<ObjectId, ValidationError> {
    match event {
        ValidationEvent::ValidationFailed { object, err } => errors.insert(object, err),
        ValidationEvent::ClearErrors => Map::empty(),
    }
}

/// Errors that occurred while validating the objects inserted into the stores
#[derive(Debug)]
pub struct Validation {
    /// All unhandled validation errors, each under the arena and the slot of
    /// its object
    errors: BTreeMap<(u64, usize), ValidationError>,
}

impl View for Validation {
    type V = Map<ObjectId, ValidationError>;

    /// The unhandled validation errors: for an object the last one recorded
    closed spec fn view(&self) -> Map<ObjectId, ValidationError> {
        Map::new(
            |id: ObjectId| self.errors@.contains_key(id.key()),
            |id: ObjectId| self.errors@[id.key()],
        )
    }
}

impl Validation {
    /// A record without errors
    pub fn new() -> (validation: Self)
        ensures
            validation@ == Map::<ObjectId, ValidationError>::empty(),
    {
        let validation = Validation { errors: BTreeMap::new() };
        assert(validation@ =~= Map::<ObjectId, ValidationError>::empty());
        validation
    }

    /// The number of objects with an unhandled error
    pub fn num_errors(&self) -> (n: usize)
        ensures
            n == self@.len(),
            self@.dom().finite(),
    {
        broadcast use vstd::laws_cmp::group_laws_cmp;
        broadcast use vstd::std_specs::btree::axiom_key_obeys_cmp_spec_meaning;
        broadcast use vstd::std_specs::btree::axiom_spec_btree_map_len;

        proof {
            self.lemma_view_is_record();
        }
        self.errors.len()
    }

    /// The unhandled error of an object, if it has one
    pub fn error_of(&self, object: &ObjectId) -> (err: Option<&ValidationError>)
        ensures
            match err {
                Some(err) => self@.contains_key(*object) && *err == self@[*object],
                None => !self@.contains_key(*object),
            },
    {
        broadcast use vstd::laws_cmp::group_laws_cmp;
        broadcast use vstd::std_specs::btree::axiom_maps_deref_key_to_value;
        broadcast use vstd::std_specs::btree::axiom_contains_deref_key;

        let key = object.key();
        self.errors.get(&key)
    }

    /// The unhandled errors, each once, with their objects
    pub fn errors(&self) -> (list: Vec<(ObjectId, ValidationError)>)
        ensures
            list@.len() == self@.len(),
            forall|k: int|
                0 <= k < list@.len() ==> self@.contains_key((#[trigger] list@[k]).0) && self@[list@[k].0]
                    == list@[k].1,
            forall|j: int, k: int|
                0 <= j < k < list@.len() ==> (#[trigger] list@[j]).0 != (#[trigger] list@[k]).0,
    {
        broadcast use vstd::laws_cmp::group_laws_cmp;
        broadcast use vstd::std_specs::btree::axiom_key_obeys_cmp_spec_meaning;
        broadcast use vstd::std_specs::btree::axiom_spec_btree_map_iter;

        proof {
            self.lemma_view_is_record();
            ObjectId::lemma_key_is_identity();
        }
        let mut list: Vec<(ObjectId, ValidationError)> = Vec::new();
        let ghost all = vstd::std_specs::btree::spec_btree_map_iter(&self.errors).remaining();
        for kv in it: self.errors.iter()
            invariant
                it.seq() == all,
                list@.len() == it.index(),
                forall|j: int|
                    0 <= j < list@.len() ==> (#[trigger] list@[j]).0.key() == *all[j].0
                        && list@[j].1 == *all[j].1,
        {
            assert(kv == all[it.index()]);
            proof {
                ObjectId::lemma_key_is_identity();
            }
            list.push((ObjectId::from_key(*kv.0), kv.1.clone()));
        }
        assert(list@.len() == all.len());
        assert forall|k: int| 0 <= k < list@.len() implies self@.contains_key(
            (#[trigger] list@[k]).0,
        ) && self@[list@[k].0] == list@[k].1 by {
            assert(self.errors@.contains_key(*all[k].0));
            assert(self.errors@[*all[k].0] == *all[k].1);
        }
        assert forall|j: int, k: int| 0 <= j < k < list@.len() implies (#[trigger] list@[j]).0 != (
        #[trigger] list@[k]).0 by {
            if list@[j].0 == list@[k].0 {
                assert(*all[j].0 == *all[k].0);
                assert(self.errors@[*all[j].0] == *all[j].1);
                assert(self.errors@[*all[k].0] == *all[k].1);
                assert(all[j] == all[k]);
            }
        }
        list
    }

    /// Turn a command into events, which are added to `events`
    pub fn decide(&self, command: ValidationCommand, events: &mut Vec<ValidationEvent>)
        ensures
            final(events)@ == old(events)@ + decided(command),
    {
        match command {
            ValidationCommand::ValidateObject { object } => {
                push_failures(&object, events);
            },
            ValidationCommand::OnlyValidate { objects } => {
                events.push(ValidationEvent::ClearErrors);

                let mut i: usize = 0;
                assert(objects@.take(0) == Seq::<Validated>::empty());
                while i < objects.len()
                    invariant
                        i <= objects@.len(),
                        events@ == old(events)@ + seq![ValidationEvent::ClearErrors]
                            + all_failures(objects@.take(i as int)),
                    decreases objects@.len() - i,
                {
                    assert(objects@.take(i + 1).drop_last() == objects@.take(i as int));
                    push_failures(&objects[i], events);
                    i += 1;
                }
                assert(objects@.take(i as int) == objects@);
            },
        }
    }

    /// Apply an event to the record
    pub fn evolve(&mut self, event: &ValidationEvent)
        ensures
            final(self)@ == evolved(old(self)@, *event),
    {
        broadcast use vstd::laws_cmp::group_laws_cmp;

        match event {
            ValidationEvent::ValidationFailed { object, err } => {
                let key = object.key();
                self.errors.insert(key, err.clone());
                proof {
                    ObjectId::lemma_key_is_identity();
                }
                assert(self@ =~= old(self)@.insert(*object, *err));
            },
            ValidationEvent::ClearErrors => {
                self.errors.clear();
                assert(self@ =~= Map::<ObjectId, ValidationError>::empty());
            },
        }
    }

    /// The view holds an error for each key of the record
    proof fn lemma_view_is_record(&self)
        ensures
            self@.dom().finite(),
            self@.len() == self.errors@.len(),
    {
        ObjectId::lemma_key_is_identity();
        let keys = self.errors@.dom();
        let ids = self@.dom();
        assert(keys.finite());
        assert forall|id: ObjectId| ids.contains(id) implies keys.map(
            |k: (u64, usize)| ObjectId::of_key(k),
        ).contains(id) by {
            assert(keys.contains(id.key()));
            assert(ObjectId::of_key(id.key()) == id);
        }
        let f = |k: (u64, usize)| ObjectId::of_key(k);
        assert(vstd::relations::injective_on(f, keys)) by {
            assert forall|a: (u64, usize), b: (u64, usize)|
                keys.contains(a) && keys.contains(b) && #[trigger] f(a) == #[trigger] f(
                    b,
                ) implies a == b by {
                assert(ObjectId::of_key(a).key() == a);
                assert(ObjectId::of_key(b).key() == b);
            }
        }
        assert(keys.map(f) =~= ids);
        vstd::set_lib::lemma_map_size(keys, ids, f);
    }
}

/// Adds to `events` what the validation of one object found
fn push_failures(object: &Validated, events: &mut Vec<ValidationEvent>)
    ensures
        final(events)@ == old(events)@ + failures(object.object, object.errors@),
{
    let mut i: usize = 0;
    while i < object.errors.len()
        invariant
            i <= object.errors@.len(),
            events@ == old(events)@ + failures(object.object, object.errors@.take(i as int)),
        decreases object.errors@.len() - i,
    {
        events.push(
            ValidationEvent::ValidationFailed {
                object: object.object,
                err: object.errors[i].clone(),
            },
        );
        assert(events@ =~= old(events)@ + failures(
            object.object,
            object.errors@.take(i + 1),
        ));
        i += 1;
    }
    assert(object.errors@.take(i as int) == object.errors@);
}

} // verus!
