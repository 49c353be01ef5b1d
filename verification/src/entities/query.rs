use crate::entities::Entities;
use crate::errors::JecsError;
use vstd::prelude::*;

verus! {

/// Whether a slot with membership mask `slot_mask` matches a query with mask
/// `query_mask`: every requested bit must be present, and the slot must be
/// live (nonzero mask). A query that requested no types has mask zero and
/// therefore acts as "no filter": it matches every live slot and never a
/// tombstone.
pub open spec fn slot_matches(slot_mask: u32, query_mask: u32) -> bool {
    slot_mask != 0 && (slot_mask & query_mask) == query_mask
}

/// A single-bit mask is never zero.
pub proof fn lemma_single_bit_nonzero(b: u32)
    by (bit_vector)
    requires
        b < 32,
    ensures
        (1u32 << b) != 0,
{
}

/// A mask that contains a nonzero mask is itself nonzero.
pub proof fn lemma_containing_mask_nonzero(m: u32, q: u32)
    by (bit_vector)
    requires
        m & q == q,
        q != 0,
    ensures
        m != 0,
{
}

/// A slot that matches a query has every single bit of the query mask set.
proof fn lemma_query_bit_present(m: u32, q: u32, p: u32)
    by (bit_vector)
    requires
        p < 32,
        m & q == q,
        q & (1u32 << p) == (1u32 << p),
    ensures
        m & (1u32 << p) != 0,
{
}

/// What `Query::run` produced: the matching slot indices in ascending
/// order, and, for each requested type in request order, the component
/// values at exactly those slots.
pub struct QueryResult<C> {
    pub indexes: Vec<usize>,
    pub result: Vec<Vec<C>>,
}

impl<C> QueryResult<C> {
    pub fn new(indexes: Vec<usize>, result: Vec<Vec<C>>) -> (r: Self)
        ensures
            r.indexes == indexes,
            r.result == result,
    {
        QueryResult { indexes, result }
    }
}

/// A query under construction against one store: the accumulated query
/// mask and the requested type keys in request order.
pub struct Query<'a, C> {
    /// The OR of the masks of all requested types.
    pub bitmap: u32,
    /// The store the query runs against.
    pub entities: &'a Entities<C>,
    /// The requested type keys, in the order they were requested.
    pub type_ids: Vec<u64>,
}

impl<'a, C> Query<'a, C> {
    /// Well-formedness: every requested type is registered and its bit is
    /// part of the accumulated query mask.
    pub open spec fn wf(self) -> bool {
        &&& self.entities.wf()
        &&& (forall|j: int|
            0 <= j < self.type_ids@.len() ==> self.entities.is_registered(
                #[trigger] self.type_ids@[j],
            ))
        &&& (forall|j: int|
            0 <= j < self.type_ids@.len() ==> self.bitmap & self.entities.mask_of(
                #[trigger] self.type_ids@[j],
            ) == self.entities.mask_of(self.type_ids@[j]))
    }

    /// An empty query against `entities`: no requested types, mask zero.
    pub fn new(entities: &'a Entities<C>) -> (r: Self)
        requires
            entities.wf(),
        ensures
            r.wf(),
            r.entities == entities,
            r.bitmap == 0,
            r.type_ids@.len() == 0,
    {
        Query { bitmap: 0, entities, type_ids: Vec::new() }
    }

    /// Requests one more component type: ORs its bit into the query mask
    /// and appends the key to the request order. Fails with
    /// `ComponentNotRegistered` (leaving the query unchanged) when the key
    /// was never registered.
    pub fn with_component(&mut self, key: u64) -> (r: Result<(), JecsError>)
        requires
            old(self).wf(),
        ensures
            final(self).wf(),
            final(self).entities == old(self).entities,
            !old(self).entities.is_registered(key) ==> r == Err::<(), JecsError>(
                JecsError::ComponentNotRegistered,
            ) && *final(self) == *old(self),
            old(self).entities.is_registered(key) ==> {
                &&& r == Ok::<(), JecsError>(())
                &&& final(self).bitmap == old(self).bitmap | old(self).entities.mask_of(key)
                &&& final(self).type_ids@ == old(self).type_ids@.push(key)
            },
    {
        let mask = match self.entities.get_bit_mask(key) {
            Some(m) => m,
            None => {
                return Err(JecsError::ComponentNotRegistered);
            },
        };
        self.bitmap = self.bitmap | mask;
        self.type_ids.push(key);
        proof {
            let q0 = old(self).bitmap;
            let q1 = self.bitmap;
            assert forall|j: int| 0 <= j < self.type_ids@.len() implies self.bitmap
                & self.entities.mask_of(#[trigger] self.type_ids@[j]) == self.entities.mask_of(
                self.type_ids@[j],
            ) by {
                let mj = self.entities.mask_of(self.type_ids@[j]);
                if j < old(self).type_ids@.len() {
                    assert(q0 & mj == mj);
                    assert(q1 & mj == mj) by (bit_vector)
                        requires
                            q0 & mj == mj,
                            q1 == q0 | mask,
                    ;
                } else {
                    assert(mj == mask);
                    assert(q1 & mj == mj) by (bit_vector)
                        requires
                            q1 == q0 | mask,
                            mj == mask,
                    ;
                }
            }
        }
        Ok(())
    }
}

impl<'a, C: Copy> Query<'a, C> {
    /// Scans the mask vector in ascending slot order and gathers, for each
    /// requested type in request order, the component values of the
    /// matching slots, index-aligned with the list of matching slots.
    #[verifier::loop_isolation(false)]
    pub fn run(&self) -> (r: QueryResult<C>)
        requires
            self.wf(),
        ensures
            forall|a: int, b: int| 0 <= a < b < r.indexes@.len() ==> r.indexes@[a] < r.indexes@[b],
            forall|k: int|
                0 <= k < r.indexes@.len() ==> (#[trigger] r.indexes@[k])
                    < self.entities.bitmap@.len() && slot_matches(
                    self.entities.bitmap@[r.indexes@[k] as int],
                    self.bitmap,
                ),
            forall|s: int|
                0 <= s < self.entities.bitmap@.len() && slot_matches(
                    #[trigger] self.entities.bitmap@[s],
                    self.bitmap,
                ) ==> r.indexes@.contains(s as usize),
            r.result@.len() == self.type_ids@.len(),
            forall|j: int|
                0 <= j < self.type_ids@.len() ==> (#[trigger] r.result@[j])@.len()
                    == r.indexes@.len(),
            forall|j: int, k: int|
                0 <= j < self.type_ids@.len() && 0 <= k < r.indexes@.len()
                    ==> self.entities.components@[self.entities.bit_index_of(
                    self.type_ids@[j],
                )]@[r.indexes@[k] as int] == Some(#[trigger] r.result@[j]@[k]),
    {
        let n = self.entities.bitmap.len();
        let mut indexes: Vec<usize> = Vec::new();
        let mut i: usize = 0;
        while i < n
            invariant
                i <= n,
                forall|a: int, b: int| 0 <= a < b < indexes@.len() ==> indexes@[a] < indexes@[b],
                forall|k: int|
                    0 <= k < indexes@.len() ==> (#[trigger] indexes@[k]) < i && slot_matches(
                        self.entities.bitmap@[indexes@[k] as int],
                        self.bitmap,
                    ),
                forall|s: int|
                    0 <= s < i && slot_matches(#[trigger] self.entities.bitmap@[s], self.bitmap)
                        ==> indexes@.contains(s as usize),
            decreases n - i,
        {
            let ghost pre = indexes@;
            let m = self.entities.bitmap[i];
            if m != 0 && (m & self.bitmap) == self.bitmap {
                indexes.push(i);
            }
            proof {
                assert forall|s: int|
                    0 <= s < i + 1 && slot_matches(
                        #[trigger] self.entities.bitmap@[s],
                        self.bitmap,
                    ) implies indexes@.contains(s as usize) by {
                    if s == i {
                        assert(indexes@[indexes@.len() - 1] == i as usize);
                    } else {
                        let w = choose|w: int| 0 <= w < pre.len() && pre[w] == s as usize;
                        assert(indexes@[w] == s as usize);
                    }
                }
            }
            i = i + 1;
        }
        let tn = self.type_ids.len();
        let mut result: Vec<Vec<C>> = Vec::new();
        let mut j: usize = 0;
        while j < tn
            invariant
                j <= tn,
                result@.len() == j,
                forall|j2: int|
                    0 <= j2 < j ==> (#[trigger] result@[j2])@.len() == indexes@.len(),
                forall|j2: int, k: int|
                    0 <= j2 < j && 0 <= k < indexes@.len()
                        ==> self.entities.components@[self.entities.bit_index_of(
                        self.type_ids@[j2],
                    )]@[indexes@[k] as int] == Some(#[trigger] result@[j2]@[k]),
            decreases tn - j,
        {
            let key = self.type_ids[j];
            proof {
                assert(self.entities.is_registered(self.type_ids@[j as int]));
            }
            let pos = self.entities.position_of(key).unwrap();
            let mut vals: Vec<C> = Vec::new();
            let mut k: usize = 0;
            while k < indexes.len()
                invariant
                    k <= indexes@.len(),
                    vals@.len() == k,
                    pos as int == self.entities.bit_index_of(key),
                    pos < self.entities.components@.len(),
                    forall|k2: int|
                        0 <= k2 < k ==> self.entities.components@[pos as int]@[indexes@[k2] as int]
                            == Some(#[trigger] vals@[k2]),
                decreases indexes@.len() - k,
            {
                let s = indexes[k];
                proof {
                    assert(self.bitmap & self.entities.mask_of(self.type_ids@[j as int])
                        == self.entities.mask_of(self.type_ids@[j as int]));
                    lemma_query_bit_present(
                        self.entities.bitmap@[s as int],
                        self.bitmap,
                        pos as u32,
                    );
                }
                let cell = self.entities.components[pos][s];
                vals.push(cell.unwrap());
                k = k + 1;
            }
            result.push(vals);
            j = j + 1;
        }
        QueryResult::new(indexes, result)
    }
}

/// Law: a component just written is immediately visible. When the bit of a
/// registered `key` is set in the mask of slot `s` — as `with_component`
/// and `add_component_by_entity_id` ensure for the slot they wrote — the
/// slot matches a query that requests exactly `key`, and the key's column
/// holds a present value there, so `run` reports `s` aligned with the
/// stored value.
pub proof fn lemma_fresh_component_visible<C>(e: Entities<C>, key: u64, s: int)
    requires
        e.wf(),
        e.is_registered(key),
        0 <= s < e.bitmap@.len(),
        e.bitmap@[s] & e.mask_of(key) == e.mask_of(key),
    ensures
        slot_matches(e.bitmap@[s], e.mask_of(key)),
        e.components@[e.bit_index_of(key)]@[s] is Some,
{
    let b = e.bit_index_of(key);
    assert(0 <= b < e.registered@.len() && e.registered@[b] == key);
    lemma_single_bit_nonzero(b as u32);
    lemma_containing_mask_nonzero(e.bitmap@[s], e.mask_of(key));
    assert(e.bitmap@[s] & (1u32 << (b as u32)) != 0);
}

/// Law: deleting a component clears only its own bit. For a slot holding
/// two distinct registered types, clearing the first type's bit — the mask
/// `delete_component_by_entity_id` ensures — makes the slot invisible to a
/// query for the first type while a query for the second still matches it.
pub proof fn lemma_delete_component_clears_only_its_bit<C>(
    e: Entities<C>,
    key_a: u64,
    key_b: u64,
    s: int,
)
    requires
        e.wf(),
        e.is_registered(key_a),
        e.is_registered(key_b),
        key_a != key_b,
        0 <= s < e.bitmap@.len(),
        e.bitmap@[s] & e.mask_of(key_a) == e.mask_of(key_a),
        e.bitmap@[s] & e.mask_of(key_b) == e.mask_of(key_b),
    ensures
        !slot_matches(e.bitmap@[s] & !e.mask_of(key_a), e.mask_of(key_a)),
        slot_matches(e.bitmap@[s] & !e.mask_of(key_a), e.mask_of(key_b)),
{
    let ba = e.bit_index_of(key_a);
    let bb = e.bit_index_of(key_b);
    assert(0 <= ba < e.registered@.len() && e.registered@[ba] == key_a);
    assert(0 <= bb < e.registered@.len() && e.registered@[bb] == key_b);
    assert(ba != bb);
    let m = e.bitmap@[s];
    let i = ba as u32;
    let j = bb as u32;
    assert((m & !(1u32 << i)) & (1u32 << i) != (1u32 << i) && (m & !(1u32 << i)) & (1u32 << j) == (
    1u32 << j) && (m & !(1u32 << i)) != 0) by (bit_vector)
        requires
            i < 32,
            j < 32,
            i != j,
            m & (1u32 << i) == (1u32 << i),
            m & (1u32 << j) == (1u32 << j),
    ;
}

/// Law: a deleted entity is invisible to every query. Zeroing a slot's
/// mask — as `delete_entity_by_id` ensures — makes it match no query mask
/// at all, including the zero-filter query (no requested types), which is
/// defined here to match only live slots.
pub proof fn lemma_tombstone_invisible(query_mask: u32)
    ensures
        !slot_matches(0u32, query_mask),
{
}

} // verus!
