use crate::entities::query::Query;
use crate::entities::Entities;
use crate::entities::MASK_BITS;
use crate::errors::JecsError;
use crate::resources::Resources;
use vstd::prelude::*;

pub mod entities;
pub mod errors;
pub mod resources;

verus! {

/// The world façade: the entity-component store and the resource store
/// behind one handle, the sole entry point for applications and their
/// systems. Every operation forwards to one of the two stores; queries and
/// the entity builder flow are always constructed against this world's own
/// store.
pub struct World<C, R> {
    /// The entity-component store.
    pub entities: Entities<C>,
    /// The singleton resource store.
    pub resources: Resources<R>,
}

impl<C, R> World<C, R> {
    /// Well-formedness of both stores.
    pub open spec fn wf(self) -> bool {
        self.entities.wf() && self.resources.wf()
    }

    /// An empty world: no registered types, no entities, no resources.
    pub fn new() -> (r: Self)
        ensures
            r.wf(),
            r.entities.registered@.len() == 0,
            r.entities.components@.len() == 0,
            r.entities.bitmap@.len() == 0,
            r.entities.inserting_into_index == 0,
            r.resources.data@.len() == 0,
            forall|k: u64| #[trigger] r.resources.spec_get(k) is None,
    {
        World { entities: Entities::new(), resources: Resources::new() }
    }

    /// Stores `value` under the resource key `key`, overwriting any prior
    /// value of that exact key.
    pub fn add_resource(&mut self, key: u64, value: R)
        requires
            old(self).wf(),
        ensures
            final(self).wf(),
            final(self).entities == old(self).entities,
            forall|k: u64|
                #[trigger] final(self).resources.spec_get(k) == (if k == key {
                    Some(value)
                } else {
                    old(self).resources.spec_get(k)
                }),
    {
        self.resources.add(key, value);
    }

    /// A reference to the resource stored under `key`, or `None` when it is
    /// absent (absence is not an error).
    pub fn get_resource(&self, key: u64) -> (r: Option<&R>)
        requires
            self.wf(),
        ensures
            match r {
                Some(v) => self.resources.contains_key(key) && Some(*v)
                    == self.resources.spec_get(key),
                None => !self.resources.contains_key(key),
            },
    {
        self.resources.get_ref(key)
    }

    /// A mutable reference to the resource stored under `key`, or `None`
    /// when it is absent. Writing through the reference replaces the value
    /// of exactly that resource; entities are untouched.
    pub fn get_resource_mut(&mut self, key: u64) -> (r: Option<&mut R>)
        requires
            old(self).wf(),
        ensures
            final(self).entities == old(self).entities,
            !old(self).resources.contains_key(key) ==> r is None && *final(self) == *old(self),
            old(self).resources.contains_key(key) ==> {
                let i = old(self).resources.key_index(key);
                &&& r is Some
                &&& *r.unwrap() == old(self).resources.data@[i].1
                &&& final(self).resources.data@ == old(self).resources.data@.update(
                    i,
                    (key, *final(r.unwrap())),
                )
            },
    {
        self.resources.get_mut(key)
    }

    /// Deletes the resource stored under `key` if present; no-op otherwise.
    pub fn delete_resource(&mut self, key: u64)
        requires
            old(self).wf(),
        ensures
            final(self).wf(),
            final(self).entities == old(self).entities,
            forall|k: u64|
                #[trigger] final(self).resources.spec_get(k) == (if k == key {
                    None
                } else {
                    old(self).resources.spec_get(k)
                }),
    {
        self.resources.remove(key);
    }

    /// Registers a component type under `key`, assigning it the next bit
    /// position. Supported only before any entity exists.
    pub fn register_component(&mut self, key: u64)
        requires
            old(self).wf(),
            !old(self).entities.is_registered(key),
            old(self).entities.registered@.len() < MASK_BITS,
            old(self).entities.bitmap@.len() == 0,
        ensures
            final(self).wf(),
            final(self).resources == old(self).resources,
            final(self).entities.registered@ == old(self).entities.registered@.push(key),
            final(self).entities.bitmap == old(self).entities.bitmap,
            final(self).entities.is_registered(key),
            final(self).entities.bit_index_of(key) == old(self).entities.registered@.len(),
            final(self).entities.mask_of(key) == 1u32 << (old(self).entities.registered@.len() as u32),
            forall|k: u64|
                #[trigger] old(self).entities.is_registered(k) ==> final(self).entities.is_registered(k) && final(self).entities.mask_of(k) == old(self).entities.mask_of(k),
    {
        self.entities.register_component(key);
    }

    /// Opens a slot for insertion: the lowest tombstoned slot when one
    /// exists, else a fresh slot appended to every column and to the mask
    /// vector. Subsequent `with_component` calls write into this slot.
    pub fn create_entity(&mut self)
        requires
            old(self).wf(),
        ensures
            final(self).wf(),
            final(self).resources == old(self).resources,
            final(self).entities.registered == old(self).entities.registered,
            final(self).entities.inserting_into_index < final(self).entities.bitmap@.len(),
            final(self).entities.bitmap@[final(self).entities.inserting_into_index as int] == 0,
            (exists|s: int|
                0 <= s < old(self).entities.bitmap@.len() && old(self).entities.bitmap@[s] == 0)
                ==> {
                &&& final(self).entities.bitmap == old(self).entities.bitmap
                &&& final(self).entities.components == old(self).entities.components
                &&& old(self).entities.bitmap@[final(self).entities.inserting_into_index as int]
                    == 0
                &&& forall|j: int|
                    0 <= j < final(self).entities.inserting_into_index ==> old(self).entities.bitmap@[j] != 0
            },
            (forall|s: int|
                0 <= s < old(self).entities.bitmap@.len() ==> old(self).entities.bitmap@[s] != 0)
                ==> {
                &&& final(self).entities.bitmap@ == old(self).entities.bitmap@.push(0u32)
                &&& final(self).entities.inserting_into_index == old(self).entities.bitmap@.len()
                &&& final(self).entities.components@.len() == old(self).entities.components@.len()
                &&& forall|b: int|
                    0 <= b < old(self).entities.components@.len() ==> (#[trigger] final(self).entities.components@[b])@ == old(self).entities.components@[b]@.push(None)
            },
    {
        self.entities.create_entity();
    }

    /// Writes `value` into the open slot's column for `key` and sets the
    /// key's bit in that slot's mask, as `Entities::with_component` does.
    pub fn with_component(&mut self, key: u64, value: C) -> (r: Result<(), JecsError>)
        requires
            old(self).wf(),
        ensures
            final(self).wf(),
            final(self).resources == old(self).resources,
            !old(self).entities.is_registered(key) ==> r == Err::<(), JecsError>(
                JecsError::ComponentNotRegistered,
            ) && *final(self) == *old(self),
            old(self).entities.is_registered(key) && old(self).entities.inserting_into_index >= old(self).entities.bitmap@.len() ==> r == Err::<(), JecsError>(
                JecsError::CreateEntityNeverCalled,
            ) && *final(self) == *old(self),
            old(self).entities.is_registered(key) && old(self).entities.inserting_into_index < old(self).entities.bitmap@.len() ==> {
                let idx = old(self).entities.inserting_into_index as int;
                let pos = old(self).entities.bit_index_of(key);
                &&& r == Ok::<(), JecsError>(())
                &&& final(self).entities.registered == old(self).entities.registered
                &&& final(self).entities.inserting_into_index == old(self).entities.inserting_into_index
                &&& final(self).entities.bitmap@ == old(self).entities.bitmap@.update(
                    idx,
                    old(self).entities.bitmap@[idx] | old(self).entities.mask_of(key),
                )
                &&& final(self).entities.components@.len() == old(self).entities.components@.len()
                &&& (forall|b: int|
                    0 <= b < old(self).entities.components@.len() && b != pos ==> (#[trigger] final(self).entities.components@[b]) == old(self).entities.components@[b])
                &&& final(self).entities.components@[pos]@ == old(self).entities.components@[pos]@.update(idx, Some(value))
            },
    {
        self.entities.with_component(key, value)
    }

    /// A new query against this world's entity store.
    pub fn query(&self) -> (q: Query<C>)
        requires
            self.wf(),
        ensures
            q.wf(),
            q.entities == &self.entities,
            q.bitmap == 0,
            q.type_ids@.len() == 0,
    {
        Query::new(&self.entities)
    }

    /// Writes `value` into the column for `key` at slot `index` and sets
    /// the key's bit there, as `Entities::add_component_by_entity_id` does.
    pub fn add_component_by_entity_id(&mut self, key: u64, value: C, index: usize) -> (r: Result<
        (),
        JecsError,
    >)
        requires
            old(self).wf(),
            index < old(self).entities.bitmap@.len(),
        ensures
            final(self).wf(),
            final(self).resources == old(self).resources,
            !old(self).entities.is_registered(key) ==> r == Err::<(), JecsError>(
                JecsError::ComponentNotRegistered,
            ) && *final(self) == *old(self),
            old(self).entities.is_registered(key) ==> {
                let pos = old(self).entities.bit_index_of(key);
                &&& r == Ok::<(), JecsError>(())
                &&& final(self).entities.registered == old(self).entities.registered
                &&& final(self).entities.inserting_into_index == old(self).entities.inserting_into_index
                &&& final(self).entities.bitmap@ == old(self).entities.bitmap@.update(
                    index as int,
                    old(self).entities.bitmap@[index as int] | old(self).entities.mask_of(key),
                )
                &&& final(self).entities.components@.len() == old(self).entities.components@.len()
                &&& (forall|b: int|
                    0 <= b < old(self).entities.components@.len() && b != pos ==> (#[trigger] final(self).entities.components@[b]) == old(self).entities.components@[b])
                &&& final(self).entities.components@[pos]@ == old(self).entities.components@[pos]@.update(index as int, Some(value))
            },
    {
        self.entities.add_component_by_entity_id(key, value, index)
    }

    /// Clears the key's bit in the slot's mask, as
    /// `Entities::delete_component_by_entity_id` does.
    pub fn delete_component_by_entity_id(&mut self, key: u64, index: usize) -> (r: Result<
        (),
        JecsError,
    >)
        requires
            old(self).wf(),
            index < old(self).entities.bitmap@.len(),
        ensures
            final(self).wf(),
            final(self).resources == old(self).resources,
            !old(self).entities.is_registered(key) ==> r == Err::<(), JecsError>(
                JecsError::ComponentNotRegistered,
            ) && *final(self) == *old(self),
            old(self).entities.is_registered(key) ==> {
                &&& r == Ok::<(), JecsError>(())
                &&& final(self).entities.registered == old(self).entities.registered
                &&& final(self).entities.components == old(self).entities.components
                &&& final(self).entities.inserting_into_index == old(self).entities.inserting_into_index
                &&& final(self).entities.bitmap@ == old(self).entities.bitmap@.update(
                    index as int,
                    old(self).entities.bitmap@[index as int] & !old(self).entities.mask_of(key),
                )
            },
    {
        self.entities.delete_component_by_entity_id(key, index)
    }

    /// Zeroes the slot's entire mask, marking it a tombstone, as
    /// `Entities::delete_entity_by_id` does.
    pub fn delete_entity_by_id(&mut self, index: usize) -> (r: Result<(), JecsError>)
        requires
            old(self).wf(),
        ensures
            final(self).wf(),
            final(self).resources == old(self).resources,
            index < old(self).entities.bitmap@.len() ==> {
                &&& r == Ok::<(), JecsError>(())
                &&& final(self).entities.registered == old(self).entities.registered
                &&& final(self).entities.components == old(self).entities.components
                &&& final(self).entities.inserting_into_index == old(self).entities.inserting_into_index
                &&& final(self).entities.bitmap@ == old(self).entities.bitmap@.update(
                    index as int,
                    0u32,
                )
            },
            index >= old(self).entities.bitmap@.len() ==> r == Err::<(), JecsError>(
                JecsError::EntityDoesNotExist,
            ) && *final(self) == *old(self),
    {
        self.entities.delete_entity_by_id(index)
    }
}

impl<C, R> Default for World<C, R> {
    /// Same as `World::new`.
    fn default() -> (r: Self)
        ensures
            r.wf(),
            r.entities.registered@.len() == 0,
            r.entities.components@.len() == 0,
            r.entities.bitmap@.len() == 0,
            r.entities.inserting_into_index == 0,
            r.resources.data@.len() == 0,
    {
        World::new()
    }
}

} // verus!
