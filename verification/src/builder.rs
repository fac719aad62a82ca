//! A programmatic builder for [`QEntities`] collections: the same frozen
//! result as a parse, constructed entity by entity without going through
//! text.

use vstd::prelude::*;
use crate::byte_chunk::ByteChunksBuilder;
use crate::{parts_view, parts_wf, QEntities, QEntityInfo, QEntityKeyValueInfo};

verus! {

/// Builder for iteratively constructing a [`QEntities`] collection.
///
/// Entity-building is "open one entity, append key-values to it": every
/// [`entity`](Self::entity) call starts a fresh entity at the end of the
/// collection, and every [`key_value`](Self::key_value) call appends one
/// pair to the most recently started entity. [`finish`](Self::finish)
/// freezes the result; there is no operation to rewind or remove what was
/// committed.
pub struct QEntitiesBuilder {
    entities: Vec<QEntityInfo>,
    key_values: Vec<QEntityKeyValueInfo>,
    byte_chunks: ByteChunksBuilder,
}

impl QEntitiesBuilder {
    /// The entities built so far, each an ordered list of key/value byte
    /// strings, in insertion order.
    pub closed spec fn view(self) -> Seq<Seq<(Seq<u8>, Seq<u8>)>> {
        parts_view(self.byte_chunks@, self.key_values@, self.entities@)
    }

    /// Well-formedness: the chunk store and all descriptors are in bounds,
    /// and the most recently started entity's run ends exactly at the end
    /// of the key-value array, so that it can still grow.
    pub closed spec fn wf(self) -> bool {
        &&& self.byte_chunks.wf()
        &&& parts_wf(self.byte_chunks@, self.key_values@, self.entities@)
        &&& self.entities@.len() > 0 ==> self.entities@.last().first_kv
            + self.entities@.last().kvs_length == self.key_values@.len()
    }

    /// Creates a new builder holding no entities.
    pub fn new() -> (r: Self)
        ensures
            r.wf(),
            r@ == Seq::<Seq<(Seq<u8>, Seq<u8>)>>::empty(),
    {
        let r = QEntitiesBuilder {
            entities: Vec::new(),
            key_values: Vec::new(),
            byte_chunks: ByteChunksBuilder::new(),
        };
        proof {
            assert(r@ =~= Seq::<Seq<(Seq<u8>, Seq<u8>)>>::empty());
        }
        r
    }

    /// Starts a new, empty entity at the end of the collection.
    pub fn entity(&mut self)
        requires
            old(self).wf(),
        ensures
            final(self).wf(),
            final(self)@ == old(self)@.push(Seq::<(Seq<u8>, Seq<u8>)>::empty()),
    {
        let info = QEntityInfo { first_kv: self.key_values.len(), kvs_length: 0 };
        self.entities.push(info);
        proof {
            assert(crate::entity_pairs(self.byte_chunks@, self.key_values@, info) =~= Seq::<
                (Seq<u8>, Seq<u8>),
            >::empty());
            assert(self@ =~= old(self)@.push(Seq::<(Seq<u8>, Seq<u8>)>::empty()));
        }
    }

    /// Appends one key-value pair to the most recently started entity. The
    /// key and value bytes are interned: content already stored is shared.
    pub fn key_value(&mut self, key: &[u8], value: &[u8])
        requires
            old(self).wf(),
            old(self)@.len() > 0,
        ensures
            final(self).wf(),
            final(self)@ == old(self)@.update(
                old(self)@.len() - 1,
                old(self)@.last().push((key@, value@)),
            ),
    {
        let ghost pre = *old(self);
        let key_chunk = self.byte_chunks.get_or_insert(key);
        let ghost mid = self.byte_chunks;
        let value_chunk = self.byte_chunks.get_or_insert(value);
        proof {
            lemma_chunk_extension_preserves_parts(
                pre.byte_chunks@,
                mid@,
                self.key_values@,
                self.entities@,
            );
            lemma_chunk_extension_preserves_parts(mid@, self.byte_chunks@, self.key_values@, self.entities@);
        }
        let info = QEntityKeyValueInfo { key_chunk, value_chunk };
        self.key_values.push(info);
        let last_info = self.entities.pop().unwrap();
        let m: usize = self.key_values.len();
        proof {
            assert(last_info.first_kv + last_info.kvs_length == pre.key_values@.len());
            assert(m == pre.key_values@.len() + 1);
        }
        let grown = QEntityInfo {
            first_kv: last_info.first_kv,
            kvs_length: last_info.kvs_length + 1,
        };
        self.entities.push(grown);
        proof {
            assert(self.entities@ =~= pre.entities@.update(pre.entities@.len() - 1, grown));
            let chunks = self.byte_chunks@;
            let kvs = self.key_values@;
            assert(crate::entity_pairs(chunks, kvs, grown) =~= crate::entity_pairs(
                chunks,
                pre.key_values@,
                pre.entities@.last(),
            ).push((key@, value@)));
            assert forall|e: int| 0 <= e < self.entities@.len() - 1 implies crate::entity_pairs(
                chunks,
                kvs,
                #[trigger] self.entities@[e],
            ) == crate::entity_pairs(chunks, pre.key_values@, pre.entities@[e]) by {
                assert(crate::entity_pairs(chunks, kvs, self.entities@[e]) =~= crate::entity_pairs(
                    chunks,
                    pre.key_values@,
                    pre.entities@[e],
                ));
            }
            assert(self@ =~= pre@.update(pre@.len() - 1, pre@.last().push((key@, value@))));
        }
    }

    /// Consume `self` and construct a new frozen [`QEntities`] collection
    /// holding exactly the entities built.
    pub fn finish(self) -> (r: QEntities)
        requires
            self.wf(),
        ensures
            r.wf(),
            r@ == self@,
    {
        QEntities::from_parts(self.entities, self.key_values, self.byte_chunks.finish())
    }
}

/// Growing the chunk store never changes what already-recorded descriptors
/// resolve to: every stored content keeps its id.
pub(crate) proof fn lemma_chunk_extension_preserves_parts(
    old_chunks: Seq<Seq<u8>>,
    new_chunks: Seq<Seq<u8>>,
    kvs: Seq<QEntityKeyValueInfo>,
    ents: Seq<QEntityInfo>,
)
    requires
        old_chunks.len() <= new_chunks.len(),
        forall|i: int| 0 <= i < old_chunks.len() ==> new_chunks[i] == old_chunks[i],
        parts_wf(old_chunks, kvs, ents),
    ensures
        parts_wf(new_chunks, kvs, ents),
        parts_view(new_chunks, kvs, ents) == parts_view(old_chunks, kvs, ents),
{
    assert forall|e: int| 0 <= e < ents.len() implies crate::entity_pairs(
        new_chunks,
        kvs,
        #[trigger] ents[e],
    ) == crate::entity_pairs(old_chunks, kvs, ents[e]) by {
        assert(crate::entity_pairs(new_chunks, kvs, ents[e]) =~= crate::entity_pairs(
            old_chunks,
            kvs,
            ents[e],
        ));
    }
    assert(parts_view(new_chunks, kvs, ents) =~= parts_view(old_chunks, kvs, ents));
}

} // verus!
