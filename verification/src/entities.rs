use crate::errors::JecsError;
use vstd::prelude::*;

pub mod query;

verus! {

/// The entity-component store.
///
/// Component data lives in per-type columns: `components[b]` is the column
/// of the type whose bit position is `b`, holding one optional value per
/// entity slot. A type is named by a caller-chosen `u64` key; registering a
/// key assigns it the next bit position, so the bit position of a key is its
/// index in `registered`. `bitmap[s]` is the membership mask of slot `s`:
/// bit `b` is set exactly when the column of bit `b` holds a live value for
/// slot `s`. A mask of zero marks a tombstone: the slot is free for reuse,
/// and any stale column data it still holds is ignored until overwritten.
pub struct Entities<C> {
    /// Per-type columns, indexed by bit position.
    pub components: Vec<Vec<Option<C>>>,
    /// Registered type keys in registration order; a key's bit position is
    /// its index here.
    pub registered: Vec<u64>,
    /// One membership mask per entity slot.
    pub bitmap: Vec<u32>,
    /// The slot that the most recent `create_entity` opened for insertion.
    pub inserting_into_index: usize,
}

/// The number of distinct component types a store can hold: one per bit of
/// the membership mask.
pub const MASK_BITS: u32 = 32;

/// A zero membership mask has no bit set: tombstones hold no component.
pub proof fn lemma_zero_mask_has_no_bits(b: u32)
    by (bit_vector)
    ensures
        0u32 & (1u32 << b) == 0,
{
}

/// Setting one bit of a mask leaves every other bit as it was.
pub proof fn lemma_or_sets_only_its_bit(m: u32, p: u32, b: u32)
    by (bit_vector)
    requires
        b != p,
        (m | (1u32 << p)) & (1u32 << b) != 0,
    ensures
        m & (1u32 << b) != 0,
{
}

/// Clearing one bit of a mask introduces no new bit.
pub proof fn lemma_andnot_keeps_subset(m: u32, p: u32, b: u32)
    by (bit_vector)
    requires
        (m & !(1u32 << p)) & (1u32 << b) != 0,
    ensures
        m & (1u32 << b) != 0,
{
}

/// Distinct bit positions below the mask width give distinct single-bit
/// masks.
pub proof fn lemma_distinct_bits_distinct_masks(i: u32, j: u32)
    by (bit_vector)
    requires
        i < 32,
        j < 32,
        i != j,
    ensures
        (1u32 << i) != (1u32 << j),
{
}

/// Law: bit positions are unique. Any two distinct registry positions hold
/// distinct keys, the key registered k-th carries the single-bit mask
/// `1 << k` (its `register_component` ensures the k-th registration is
/// assigned exactly that mask), and distinct registered keys carry distinct
/// masks.
pub proof fn lemma_registered_bits_unique<C>(e: Entities<C>, i: int, j: int)
    requires
        e.wf(),
        0 <= i < e.registered@.len(),
        0 <= j < e.registered@.len(),
        i != j,
    ensures
        e.registered@[i] != e.registered@[j],
        e.mask_of(e.registered@[i]) == 1u32 << (i as u32),
        e.mask_of(e.registered@[i]) != e.mask_of(e.registered@[j]),
{
    e.lemma_bit_index_is(e.registered@[i], i);
    e.lemma_bit_index_is(e.registered@[j], j);
    lemma_distinct_bits_distinct_masks(i as u32, j as u32);
}

/// Law: all columns and the membership-mask vector always have the same
/// length. In particular this holds right after `create_entity`, whether it
/// reused a tombstoned slot or appended a fresh one to every column.
pub proof fn lemma_columns_aligned<C>(e: Entities<C>, b: int)
    requires
        e.wf(),
        0 <= b < e.components@.len(),
    ensures
        e.components@[b]@.len() == e.bitmap@.len(),
{
}

/// Law: slot reuse is deterministic. The lowest tombstoned slot is unique,
/// so when `delete_entity_by_id(i)` zeroes the mask of slot `i` and no
/// lower slot is tombstoned, the next `create_entity` opens exactly slot
/// `i` (its reuse clause says the opened slot is zero-masked with every
/// lower slot live, and this lemma says only `i` satisfies that), and every
/// component the new entity writes overwrites the stale cell per
/// `with_component`'s ensures. When a lower tombstone exists, the lower
/// slot is reused instead.
pub proof fn lemma_slot_reuse<C>(e: Entities<C>, i: int, s: int)
    requires
        0 <= i < e.bitmap@.len(),
        e.bitmap@[i] == 0,
        forall|j: int| 0 <= j < i ==> e.bitmap@[j] != 0,
        0 <= s < e.bitmap@.len(),
        e.bitmap@[s] == 0,
        forall|j: int| 0 <= j < s ==> e.bitmap@[j] != 0,
    ensures
        s == i,
{
    if s < i {
        assert(e.bitmap@[s] != 0);
    } else if i < s {
        assert(e.bitmap@[i] != 0);
    }
}

impl<C> Entities<C> {
    /// A key is registered when it occurs in the registry.
    pub open spec fn is_registered(self, key: u64) -> bool {
        self.registered@.contains(key)
    }

    /// The bit position assigned to a registered key. Well-defined because
    /// `wf` makes registry entries unique.
    pub open spec fn bit_index_of(self, key: u64) -> int {
        choose|b: int| 0 <= b < self.registered@.len() && self.registered@[b] == key
    }

    /// The single-bit mask of a registered key.
    pub open spec fn mask_of(self, key: u64) -> u32 {
        1u32 << (self.bit_index_of(key) as u32)
    }

    /// Well-formedness: at most one type per mask bit, registry keys unique,
    /// one column per registered type, all columns as long as the mask
    /// vector, and every set mask bit backed by a present column value.
    pub open spec fn wf(self) -> bool {
        &&& self.registered@.len() <= MASK_BITS
        &&& self.components@.len() == self.registered@.len()
        &&& (forall|i: int, j: int|
            0 <= i < j < self.registered@.len() ==> self.registered@[i] != self.registered@[j])
        &&& (forall|b: int|
            0 <= b < self.components@.len() ==> (#[trigger] self.components@[b])@.len()
                == self.bitmap@.len())
        &&& (forall|b: int, s: int|
            0 <= b < self.components@.len() && 0 <= s < self.bitmap@.len() && self.bitmap@[s] & (
            1u32 << (b as u32)) != 0 ==> (#[trigger] self.components@[b]@[s]) is Some)
    }

    /// The registry position of a registered key is the unique index holding
    /// it, so `bit_index_of` agrees with any witness.
    pub proof fn lemma_bit_index_is(self, key: u64, b: int)
        requires
            self.wf(),
            0 <= b < self.registered@.len(),
            self.registered@[b] == key,
        ensures
            self.is_registered(key),
            self.bit_index_of(key) == b,
    {
        assert(self.registered@.contains(key));
        let c = self.bit_index_of(key);
        assert(0 <= c < self.registered@.len() && self.registered@[c] == key);
        if c < b {
            assert(self.registered@[c] != self.registered@[b]);
        } else if b < c {
            assert(self.registered@[b] != self.registered@[c]);
        }
    }

    /// An empty store: no registered types, no slots.
    pub fn new() -> (r: Self)
        ensures
            r.wf(),
            r.registered@.len() == 0,
            r.components@.len() == 0,
            r.bitmap@.len() == 0,
            r.inserting_into_index == 0,
    {
        Entities {
            components: Vec::new(),
            registered: Vec::new(),
            bitmap: Vec::new(),
            inserting_into_index: 0,
        }
    }

    /// Registers a component type, assigning it the next bit position and an
    /// empty column. Registration is only supported before any entity
    /// exists; the k-th registered key (0-indexed) gets the mask `1 << k`.
    pub fn register_component(&mut self, key: u64)
        requires
            old(self).wf(),
            !old(self).is_registered(key),
            old(self).registered@.len() < MASK_BITS,
            old(self).bitmap@.len() == 0,
        ensures
            final(self).wf(),
            final(self).registered@ == old(self).registered@.push(key),
            final(self).components@.len() == old(self).registered@.len() + 1,
            final(self).bitmap == old(self).bitmap,
            final(self).inserting_into_index == old(self).inserting_into_index,
            final(self).is_registered(key),
            final(self).bit_index_of(key) == old(self).registered@.len(),
            final(self).mask_of(key) == 1u32 << (old(self).registered@.len() as u32),
            forall|k: u64|
                #[trigger] old(self).is_registered(k) ==> final(self).is_registered(k)
                    && final(self).bit_index_of(k) == old(self).bit_index_of(k)
                    && final(self).mask_of(k) == old(self).mask_of(k),
    {
        self.registered.push(key);
        self.components.push(Vec::new());
        proof {
            let n = old(self).registered@.len() as int;
            self.lemma_bit_index_is(key, n);
            assert forall|k: u64| #[trigger] old(self).is_registered(k) implies final(self).is_registered(k)
                && final(self).bit_index_of(k) == old(self).bit_index_of(k)
                && final(self).mask_of(k) == old(self).mask_of(k) by {
                let b = old(self).bit_index_of(k);
                assert(0 <= b < n && old(self).registered@[b] == k);
                self.lemma_bit_index_is(k, b);
                old(self).lemma_bit_index_is(k, b);
            }
        }
    }

    /// Opens a slot for insertion. The lowest tombstoned slot (mask zero) is
    /// reused when one exists; otherwise a fresh slot is appended to every
    /// column and to the mask vector. Either way the opened slot's mask is
    /// zero and all columns keep the same length as the mask vector.
    pub fn create_entity(&mut self)
        requires
            old(self).wf(),
        ensures
            final(self).wf(),
            final(self).registered == old(self).registered,
            final(self).inserting_into_index < final(self).bitmap@.len(),
            final(self).bitmap@[final(self).inserting_into_index as int] == 0,
            (exists|s: int| 0 <= s < old(self).bitmap@.len() && old(self).bitmap@[s] == 0) ==> {
                &&& final(self).bitmap == old(self).bitmap
                &&& final(self).components == old(self).components
                &&& old(self).bitmap@[final(self).inserting_into_index as int] == 0
                &&& forall|j: int|
                    0 <= j < final(self).inserting_into_index ==> old(self).bitmap@[j] != 0
            },
            (forall|s: int| 0 <= s < old(self).bitmap@.len() ==> old(self).bitmap@[s] != 0) ==> {
                &&& final(self).bitmap@ == old(self).bitmap@.push(0u32)
                &&& final(self).inserting_into_index == old(self).bitmap@.len()
                &&& final(self).components@.len() == old(self).components@.len()
                &&& forall|b: int|
                    0 <= b < old(self).components@.len() ==> (#[trigger] final(self).components@[b])@
                        == old(self).components@[b]@.push(None)
            },
    {
        let n = self.bitmap.len();
        let mut idx: usize = 0;
        while idx < n && self.bitmap[idx] != 0
            invariant
                idx <= n,
                n == self.bitmap@.len(),
                forall|j: int| 0 <= j < idx ==> self.bitmap@[j] != 0,
            decreases n - idx,
        {
            idx = idx + 1;
        }
        if idx < n {
            self.inserting_into_index = idx;
        } else {
            let m = self.components.len();
            let mut b: usize = 0;
            while b < m
                invariant
                    b <= m,
                    m == self.components@.len(),
                    self.registered == old(self).registered,
                    self.bitmap == old(self).bitmap,
                    self.components@.len() == old(self).components@.len(),
                    forall|k: int|
                        0 <= k < b ==> (#[trigger] self.components@[k])@
                            == old(self).components@[k]@.push(None),
                    forall|k: int|
                        b <= k < m ==> (#[trigger] self.components@[k])
                            == old(self).components@[k],
                decreases m - b,
            {
                let col = &mut self.components[b];
                col.push(None);
                b = b + 1;
            }
            self.bitmap.push(0);
            self.inserting_into_index = self.bitmap.len() - 1;
            proof {
                let new_slot = old(self).bitmap@.len() as int;
                assert forall|b2: int, s: int|
                    0 <= b2 < self.components@.len() && 0 <= s < self.bitmap@.len()
                        && self.bitmap@[s] & (1u32 << (b2 as u32)) != 0 implies (#[trigger]
                self.components@[b2]@[s]) is Some by {
                    if s == new_slot {
                        lemma_zero_mask_has_no_bits(b2 as u32);
                    } else {
                        assert(old(self).components@[b2]@[s] is Some);
                    }
                }
            }
        }
    }

    /// The registry position of a key, or `None` when it was never
    /// registered.
    fn position_of(&self, key: u64) -> (r: Option<usize>)
        requires
            self.wf(),
        ensures
            match r {
                Some(p) => p < self.registered@.len() && self.registered@[p as int] == key
                    && self.is_registered(key) && self.bit_index_of(key) == p,
                None => !self.is_registered(key),
            },
    {
        let n = self.registered.len();
        let mut i: usize = 0;
        while i < n
            invariant
                i <= n,
                n == self.registered@.len(),
                self.wf(),
                forall|j: int| 0 <= j < i ==> self.registered@[j] != key,
            decreases n - i,
        {
            if self.registered[i] == key {
                proof {
                    self.lemma_bit_index_is(key, i as int);
                }
                return Some(i);
            }
            i = i + 1;
        }
        None
    }

    /// Writes `value` into the open slot's column for `key` and sets the
    /// key's bit in that slot's mask. Fails with `ComponentNotRegistered`
    /// when `key` was never registered, and with `CreateEntityNeverCalled`
    /// when no slot is open for insertion (the open index lies outside the
    /// columns). On failure the store is unchanged.
    pub fn with_component(&mut self, key: u64, value: C) -> (r: Result<(), JecsError>)
        requires
            old(self).wf(),
        ensures
            final(self).wf(),
            !old(self).is_registered(key) ==> r == Err::<(), JecsError>(
                JecsError::ComponentNotRegistered,
            ) && *final(self) == *old(self),
            old(self).is_registered(key) && old(self).inserting_into_index >= old(self).bitmap@.len() ==> r == Err::<(), JecsError>(JecsError::CreateEntityNeverCalled)
                && *final(self) == *old(self),
            old(self).is_registered(key) && old(self).inserting_into_index < old(self).bitmap@.len() ==> {
                let idx = old(self).inserting_into_index as int;
                let pos = old(self).bit_index_of(key);
                &&& r == Ok::<(), JecsError>(())
                &&& final(self).registered == old(self).registered
                &&& final(self).inserting_into_index == old(self).inserting_into_index
                &&& final(self).bitmap@ == old(self).bitmap@.update(
                    idx,
                    old(self).bitmap@[idx] | old(self).mask_of(key),
                )
                &&& final(self).components@.len() == old(self).components@.len()
                &&& (forall|b: int|
                    0 <= b < old(self).components@.len() && b != pos ==> (#[trigger] final(self).components@[b]) == old(self).components@[b])
                &&& final(self).components@[pos]@ == old(self).components@[pos]@.update(
                    idx,
                    Some(value),
                )
            },
    {
        let pos = match self.position_of(key) {
            Some(p) => p,
            None => {
                return Err(JecsError::ComponentNotRegistered);
            },
        };
        let index = self.inserting_into_index;
        if index >= self.components[pos].len() {
            return Err(JecsError::CreateEntityNeverCalled);
        }
        self.write_cell(pos, index, value);
        Ok(())
    }

    /// Writes `value` into the column of bit position `pos` at slot `index`
    /// and sets that bit in the slot's mask.
    fn write_cell(&mut self, pos: usize, index: usize, value: C)
        requires
            old(self).wf(),
            pos < old(self).components@.len(),
            index < old(self).bitmap@.len(),
        ensures
            final(self).wf(),
            final(self).registered == old(self).registered,
            final(self).inserting_into_index == old(self).inserting_into_index,
            final(self).bitmap@ == old(self).bitmap@.update(
                index as int,
                old(self).bitmap@[index as int] | (1u32 << (pos as u32)),
            ),
            final(self).components@.len() == old(self).components@.len(),
            forall|b: int|
                0 <= b < old(self).components@.len() && b != pos ==> (#[trigger] final(self).components@[b]) == old(self).components@[b],
            final(self).components@[pos as int]@ == old(self).components@[pos as int]@.update(
                index as int,
                Some(value),
            ),
    {
        let col = &mut self.components[pos];
        col.set(index, Some(value));
        let mask: u32 = 1u32 << (pos as u32);
        let old_mask = self.bitmap[index];
        self.bitmap.set(index, old_mask | mask);
        proof {
            assert forall|b2: int, s: int|
                0 <= b2 < self.components@.len() && 0 <= s < self.bitmap@.len() && self.bitmap@[s]
                    & (1u32 << (b2 as u32)) != 0 implies (#[trigger] self.components@[b2]@[s])
                is Some by {
                if s == index as int {
                    if b2 != pos as int {
                        lemma_or_sets_only_its_bit(
                            old(self).bitmap@[index as int],
                            pos as u32,
                            b2 as u32,
                        );
                        assert(old(self).components@[b2]@[s] is Some);
                    }
                } else {
                    assert(old(self).components@[b2]@[s] is Some);
                }
            }
        }
    }

    /// Writes `value` into the column for `key` at an arbitrary existing
    /// slot, outside the builder flow, and sets the key's bit in that slot's
    /// mask. Fails with `ComponentNotRegistered` when `key` was never
    /// registered; it does not check that the slot is live, so writing to a
    /// tombstone revives it.
    pub fn add_component_by_entity_id(&mut self, key: u64, value: C, index: usize) -> (r: Result<
        (),
        JecsError,
    >)
        requires
            old(self).wf(),
            index < old(self).bitmap@.len(),
        ensures
            final(self).wf(),
            !old(self).is_registered(key) ==> r == Err::<(), JecsError>(
                JecsError::ComponentNotRegistered,
            ) && *final(self) == *old(self),
            old(self).is_registered(key) ==> {
                let pos = old(self).bit_index_of(key);
                &&& r == Ok::<(), JecsError>(())
                &&& final(self).registered == old(self).registered
                &&& final(self).inserting_into_index == old(self).inserting_into_index
                &&& final(self).bitmap@ == old(self).bitmap@.update(
                    index as int,
                    old(self).bitmap@[index as int] | old(self).mask_of(key),
                )
                &&& final(self).components@.len() == old(self).components@.len()
                &&& (forall|b: int|
                    0 <= b < old(self).components@.len() && b != pos ==> (#[trigger] final(self).components@[b]) == old(self).components@[b])
                &&& final(self).components@[pos]@ == old(self).components@[pos]@.update(
                    index as int,
                    Some(value),
                )
            },
    {
        let pos = match self.position_of(key) {
            Some(p) => p,
            None => {
                return Err(JecsError::ComponentNotRegistered);
            },
        };
        self.write_cell(pos, index, value);
        Ok(())
    }

    /// Clears the key's bit in the slot's mask; the column cell itself is
    /// left in place (logically absent, physically stale) until overwritten.
    /// Clearing uses and-not, so a bit that is already clear stays clear.
    /// Fails with `ComponentNotRegistered` when `key` was never registered.
    pub fn delete_component_by_entity_id(&mut self, key: u64, index: usize) -> (r: Result<
        (),
        JecsError,
    >)
        requires
            old(self).wf(),
            index < old(self).bitmap@.len(),
        ensures
            final(self).wf(),
            !old(self).is_registered(key) ==> r == Err::<(), JecsError>(
                JecsError::ComponentNotRegistered,
            ) && *final(self) == *old(self),
            old(self).is_registered(key) ==> {
                &&& r == Ok::<(), JecsError>(())
                &&& final(self).registered == old(self).registered
                &&& final(self).components == old(self).components
                &&& final(self).inserting_into_index == old(self).inserting_into_index
                &&& final(self).bitmap@ == old(self).bitmap@.update(
                    index as int,
                    old(self).bitmap@[index as int] & !old(self).mask_of(key),
                )
            },
    {
        let pos = match self.position_of(key) {
            Some(p) => p,
            None => {
                return Err(JecsError::ComponentNotRegistered);
            },
        };
        let mask: u32 = 1u32 << (pos as u32);
        let old_mask = self.bitmap[index];
        self.bitmap.set(index, old_mask & !mask);
        proof {
            assert forall|b2: int, s: int|
                0 <= b2 < self.components@.len() && 0 <= s < self.bitmap@.len() && self.bitmap@[s]
                    & (1u32 << (b2 as u32)) != 0 implies (#[trigger] self.components@[b2]@[s])
                is Some by {
                if s == index as int {
                    lemma_andnot_keeps_subset(old(self).bitmap@[index as int], pos as u32, b2 as u32);
                }
                assert(old(self).components@[b2]@[s] is Some);
            }
        }
        Ok(())
    }

    /// Zeroes the slot's entire mask, marking it a tombstone eligible for
    /// reuse; column contents are not cleared. Fails with
    /// `EntityDoesNotExist` when the index lies outside the mask vector.
    pub fn delete_entity_by_id(&mut self, index: usize) -> (r: Result<(), JecsError>)
        requires
            old(self).wf(),
        ensures
            final(self).wf(),
            index < old(self).bitmap@.len() ==> {
                &&& r == Ok::<(), JecsError>(())
                &&& final(self).registered == old(self).registered
                &&& final(self).components == old(self).components
                &&& final(self).inserting_into_index == old(self).inserting_into_index
                &&& final(self).bitmap@ == old(self).bitmap@.update(index as int, 0u32)
            },
            index >= old(self).bitmap@.len() ==> r == Err::<(), JecsError>(
                JecsError::EntityDoesNotExist,
            ) && *final(self) == *old(self),
    {
        if index >= self.bitmap.len() {
            return Err(JecsError::EntityDoesNotExist);
        }
        self.bitmap.set(index, 0);
        proof {
            assert forall|b2: int, s: int|
                0 <= b2 < self.components@.len() && 0 <= s < self.bitmap@.len() && self.bitmap@[s]
                    & (1u32 << (b2 as u32)) != 0 implies (#[trigger] self.components@[b2]@[s])
                is Some by {
                if s == index as int {
                    lemma_zero_mask_has_no_bits(b2 as u32);
                }
                assert(old(self).components@[b2]@[s] is Some);
            }
        }
        Ok(())
    }

    /// The single-bit mask assigned to a key, or `None` when it was never
    /// registered. Kept on the store so query construction can translate
    /// keys to mask bits.
    pub fn get_bit_mask(&self, key: u64) -> (r: Option<u32>)
        requires
            self.wf(),
        ensures
            match r {
                Some(m) => self.is_registered(key) && m == self.mask_of(key),
                None => !self.is_registered(key),
            },
    {
        match self.position_of(key) {
            Some(p) => Some(1u32 << (p as u32)),
            None => None,
        }
    }
}

impl<C> Default for Entities<C> {
    /// Same as `Entities::new`.
    fn default() -> (r: Self)
        ensures
            r.wf(),
            r.registered@.len() == 0,
            r.components@.len() == 0,
            r.bitmap@.len() == 0,
            r.inserting_into_index == 0,
    {
        Entities::new()
    }
}

} // verus!
