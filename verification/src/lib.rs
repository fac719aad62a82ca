//! Implementation of the q-entities format: a flat sequence of
//! brace-delimited records ("entities"), each an ordered list of key/value
//! byte strings, parsed into a compact, deduplicated, immutable in-memory
//! representation with zero-copy read access.

pub mod builder;
pub mod byte_chunk;
pub mod entities_iter;
pub mod entity_kvs_iter;
pub mod grammar;
pub mod parse;

use vstd::prelude::*;
use byte_chunk::ByteChunks;
use entities_iter::QEntitiesIter;
use entity_kvs_iter::QEntityKeyValuesIter;

verus! {

/// Information describing an entity instance within a [`QEntities`]
/// collection: a contiguous run of the global key-value array.
#[derive(Debug, Clone, Copy)]
pub(crate) struct QEntityInfo {
    /// Index of the entity's first key-value.
    pub first_kv: usize,
    /// The number of key-values the entity has.
    pub kvs_length: usize,
}

/// Information describing a key-value instance within a [`QEntities`]
/// collection: the chunk ids of its key and value bytes.
#[derive(Debug, Clone, Copy)]
pub(crate) struct QEntityKeyValueInfo {
    /// Index of the byte-chunk for the key.
    pub key_chunk: usize,
    /// Index of the byte-chunk for the value.
    pub value_chunk: usize,
}

/// The key and value bytes a key-value descriptor selects out of the stored
/// chunk contents.
#[allow(private_interfaces)]
pub open(crate) spec fn kv_pair_of(chunks: Seq<Seq<u8>>, kv: QEntityKeyValueInfo) -> (
    Seq<u8>,
    Seq<u8>,
) {
    (chunks[kv.key_chunk as int], chunks[kv.value_chunk as int])
}

/// The ordered key-value pairs of one entity descriptor, resolved through
/// the global key-value array and the stored chunk contents.
#[allow(private_interfaces)]
pub open(crate) spec fn entity_pairs(
    chunks: Seq<Seq<u8>>,
    kvs: Seq<QEntityKeyValueInfo>,
    e: QEntityInfo,
) -> Seq<(Seq<u8>, Seq<u8>)> {
    Seq::new(e.kvs_length as nat, |j: int| kv_pair_of(chunks, kvs[e.first_kv + j]))
}

/// The entities described by descriptor arrays, each an ordered list of
/// key/value byte strings, in insertion order.
#[allow(private_interfaces)]
pub open(crate) spec fn parts_view(
    chunks: Seq<Seq<u8>>,
    kvs: Seq<QEntityKeyValueInfo>,
    ents: Seq<QEntityInfo>,
) -> Seq<Seq<(Seq<u8>, Seq<u8>)>> {
    Seq::new(ents.len(), |i: int| entity_pairs(chunks, kvs, ents[i]))
}

/// Every entity descriptor selects an in-bounds run of the key-value array,
/// and every key-value descriptor holds valid chunk ids.
#[allow(private_interfaces)]
pub open(crate) spec fn parts_wf(
    chunks: Seq<Seq<u8>>,
    kvs: Seq<QEntityKeyValueInfo>,
    ents: Seq<QEntityInfo>,
) -> bool {
    &&& forall|e: int|
        0 <= e < ents.len() ==> (#[trigger] ents[e]).first_kv + ents[e].kvs_length <= kvs.len()
    &&& forall|k: int|
        0 <= k < kvs.len() ==> (#[trigger] kvs[k]).key_chunk < chunks.len()
            && kvs[k].value_chunk < chunks.len()
}

/// Collection of q-entities: the frozen, immutable result of a parse or of
/// a builder session.
pub struct QEntities {
    entities: Vec<QEntityInfo>,
    key_values: Vec<QEntityKeyValueInfo>,
    byte_chunks: ByteChunks,
}

impl QEntities {
    /// The entities of the collection, each an ordered list of key/value
    /// byte strings, in insertion order.
    pub closed spec fn view(self) -> Seq<Seq<(Seq<u8>, Seq<u8>)>> {
        parts_view(self.byte_chunks@, self.key_values@, self.entities@)
    }

    /// Well-formedness: the chunk store and all descriptors are in bounds.
    pub closed spec fn wf(self) -> bool {
        &&& self.byte_chunks.wf()
        &&& parts_wf(self.byte_chunks@, self.key_values@, self.entities@)
    }

    /// Builds a collection out of its descriptor arrays and chunk store.
    pub(crate) fn from_parts(
        entities: Vec<QEntityInfo>,
        key_values: Vec<QEntityKeyValueInfo>,
        byte_chunks: ByteChunks,
    ) -> (r: Self)
        requires
            byte_chunks.wf(),
            parts_wf(byte_chunks@, key_values@, entities@),
        ensures
            r.wf(),
            r@ == parts_view(byte_chunks@, key_values@, entities@),
    {
        QEntities { entities, key_values, byte_chunks }
    }

    /// Gets the number of entities within the collection.
    pub fn len(&self) -> (n: usize)
        ensures
            n == self@.len(),
    {
        self.entities.len()
    }

    /// Gets a [`QEntityRef`] by index: `Some` exactly when the index is
    /// within the collection, referring to the entity at that index.
    pub fn get(&self, index: usize) -> (r: Option<QEntityRef>)
        requires
            self.wf(),
        ensures
            match r {
                Some(e) => index < self@.len() && e.wf() && e@ == self@[index as int],
                None => index >= self@.len(),
            },
    {
        if index < self.entities.len() {
            Some(QEntityRef { entities: self, index })
        } else {
            None
        }
    }

    /// Creates an iterator that yields [`QEntityRef`]s for the entities of
    /// the collection, in insertion order.
    pub fn iter(&self) -> (it: QEntitiesIter)
        requires
            self.wf(),
        ensures
            it.wf(),
            it.remaining() == self@,
    {
        QEntitiesIter::new(self)
    }
}

/// Reference to an entity within a [`QEntities`] collection.
#[derive(Clone, Copy)]
pub struct QEntityRef<'a> {
    /// The collection of q-entities in which the entity resides.
    entities: &'a QEntities,
    /// The index of the referenced entity.
    index: usize,
}

impl<'a> QEntityRef<'a> {
    /// The ordered key/value byte-string pairs of the referenced entity.
    pub closed spec fn view(self) -> Seq<(Seq<u8>, Seq<u8>)> {
        self.entities@[self.index as int]
    }

    /// Validity: the reference points at an entity of a well-formed
    /// collection.
    pub closed spec fn wf(self) -> bool {
        &&& self.entities.wf()
        &&& self.index < self.entities@.len()
    }

    /// The collection this entity belongs to.
    pub closed spec fn collection(self) -> QEntities {
        *self.entities
    }

    /// Internal access for the iterator modules: the underlying collection.
    pub(crate) fn collection_ref(&self) -> (r: &'a QEntities)
        ensures
            *r == self.collection(),
    {
        self.entities
    }

    /// Gets the number of key-values that compose the entity.
    pub fn len(&self) -> (n: usize)
        requires
            self.wf(),
        ensures
            n == self@.len(),
    {
        self.entities.entities[self.index].kvs_length
    }

    /// Gets a [`QEntityKeyValueRef`] by index: `Some` exactly when the
    /// index is within the entity's own key-values, referring to the pair
    /// at that index.
    pub fn get(&self, index: usize) -> (r: Option<QEntityKeyValueRef<'a>>)
        requires
            self.wf(),
        ensures
            match r {
                Some(kv) => index < self@.len() && kv.wf() && kv@ == self@[index as int],
                None => index >= self@.len(),
            },
    {
        let info = self.entities.entities[self.index];
        let n: usize = self.entities.key_values.len();
        if index < info.kvs_length {
            proof {
                assert(info.first_kv + info.kvs_length <= n);
            }
            Some(QEntityKeyValueRef { entities: self.entities, kv_index: info.first_kv + index })
        } else {
            None
        }
    }

    /// Creates an iterator that yields [`QEntityKeyValueRef`]s for the
    /// key-values of the entity, scoped to exactly its own run.
    pub fn iter(&self) -> (it: QEntityKeyValuesIter<'a>)
        requires
            self.wf(),
        ensures
            it.wf(),
            it.remaining() == self@,
    {
        QEntityKeyValuesIter::new(self)
    }
}

/// Reference to a key-value within a [`QEntities`] collection.
#[derive(Clone, Copy)]
pub struct QEntityKeyValueRef<'a> {
    /// The collection of q-entities in which the key-value resides.
    entities: &'a QEntities,
    /// The index of the referenced key-value in the global key-value array.
    kv_index: usize,
}

impl<'a> QEntityKeyValueRef<'a> {
    /// The key and value bytes of the referenced pair.
    pub closed spec fn view(self) -> (Seq<u8>, Seq<u8>) {
        kv_pair_of(self.entities.byte_chunks@, self.entities.key_values@[self.kv_index as int])
    }

    /// Validity: the reference points at a key-value of a well-formed
    /// collection.
    pub closed spec fn wf(self) -> bool {
        &&& self.entities.wf()
        &&& self.kv_index < self.entities.key_values@.len()
    }

    /// Gets a reference to the bytes of the key.
    pub fn key(&self) -> (r: &'a [u8])
        requires
            self.wf(),
        ensures
            r@ == self@.0,
    {
        let info = self.entities.key_values[self.kv_index];
        self.entities.byte_chunks.get(info.key_chunk)
    }

    /// Gets a reference to the bytes of the value.
    pub fn value(&self) -> (r: &'a [u8])
        requires
            self.wf(),
        ensures
            r@ == self@.1,
    {
        let info = self.entities.key_values[self.kv_index];
        self.entities.byte_chunks.get(info.value_chunk)
    }
}

/// Internal access for the iterator modules: an entity reference by index.
pub(crate) fn entity_ref_at<'a>(entities: &'a QEntities, index: usize) -> (r: QEntityRef<'a>)
    requires
        entities.wf(),
        index < entities@.len(),
    ensures
        r.wf(),
        r@ == entities@[index as int],
        r.collection() == *entities,
{
    QEntityRef { entities, index }
}

/// Internal access for the iterator modules: the bounds of an entity's run
/// within the global key-value array.
pub(crate) fn entity_kv_range(e: &QEntityRef) -> (r: (usize, usize))
    requires
        e.wf(),
    ensures
        r.0 + r.1 <= e.collection().kv_total(),
        e.collection().kv_total() <= usize::MAX,
        r.1 == e@.len(),
        forall|j: int|
            0 <= j < r.1 ==> e.collection().kv_at(r.0 + j) == e@[j],
{
    let info = e.entities.entities[e.index];
    let n: usize = e.entities.key_values.len();
    proof {
        assert(info.first_kv + info.kvs_length <= n);
        assert(forall|j: int|
            0 <= j < info.kvs_length ==> e.collection().kv_at(info.first_kv + j) == e@[j]);
    }
    (info.first_kv, info.kvs_length)
}

impl QEntities {
    /// The number of key-values in the global key-value array.
    pub closed spec fn kv_total(self) -> int {
        self.key_values@.len() as int
    }

    /// The resolved pair at index `k` of the global key-value array.
    pub closed spec fn kv_at(self, k: int) -> (Seq<u8>, Seq<u8>) {
        kv_pair_of(self.byte_chunks@, self.key_values@[k])
    }
}

/// Internal access for the iterator modules: a key-value reference by
/// global index.
pub(crate) fn kv_ref_at<'a>(entities: &'a QEntities, kv_index: usize) -> (r: QEntityKeyValueRef<
    'a,
>)
    requires
        entities.wf(),
        kv_index < entities.kv_total(),
    ensures
        r.wf(),
        r@ == entities.kv_at(kv_index as int),
{
    QEntityKeyValueRef { entities, kv_index }
}

} // verus!
