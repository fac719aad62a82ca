//! An iterator over the key-values of one entity within a [`QEntities`]
//! collection.

use vstd::prelude::*;
use crate::{entity_kv_range, kv_ref_at, QEntities, QEntityKeyValueRef, QEntityRef};

verus! {

/// Iterator over the key-values of an entity, scoped to exactly the
/// entity's own run of the global key-value array. Pairs can be taken from
/// the front or from the back, and the exact remaining count is always
/// available.
pub struct QEntityKeyValuesIter<'a> {
    /// The collection of q-entities that contains the entity whose
    /// key-values are iterated.
    entities: &'a QEntities,
    /// The global index of the next pair yielded from the front.
    front: usize,
    /// One past the global index of the next pair yielded from the back.
    back: usize,
}

impl<'a> QEntityKeyValuesIter<'a> {
    /// The key/value pairs not yet yielded, in entity order.
    pub closed spec fn remaining(self) -> Seq<(Seq<u8>, Seq<u8>)> {
        Seq::new((self.back - self.front) as nat, |j: int| self.entities.kv_at(self.front + j))
    }

    /// Validity: the pending range lies within a well-formed collection.
    pub closed spec fn wf(self) -> bool {
        &&& self.entities.wf()
        &&& self.front <= self.back <= self.entities.kv_total()
    }

    /// Creates a new iterator over the key-values of an entity.
    pub(crate) fn new(entity: &QEntityRef<'a>) -> (it: Self)
        requires
            entity.wf(),
        ensures
            it.wf(),
            it.remaining() == entity@,
    {
        let (first, count) = entity_kv_range(entity);
        let it = QEntityKeyValuesIter {
            entities: entity.collection_ref(),
            front: first,
            back: first + count,
        };
        proof {
            assert(it.remaining() =~= entity@);
        }
        it
    }

    /// Yields a reference to the next key-value from the front, or `None`
    /// when none remain.
    pub fn next(&mut self) -> (r: Option<QEntityKeyValueRef<'a>>)
        requires
            old(self).wf(),
        ensures
            final(self).wf(),
            match r {
                Some(kv) => old(self).remaining().len() > 0 && kv.wf() && kv@ == old(
                    self,
                ).remaining()[0] && final(self).remaining() == old(self).remaining().subrange(
                    1,
                    old(self).remaining().len() as int,
                ),
                None => old(self).remaining().len() == 0 && *final(self) == *old(self),
            },
    {
        if self.front < self.back {
            let r = kv_ref_at(self.entities, self.front);
            self.front = self.front + 1;
            proof {
                assert(self.remaining() =~= old(self).remaining().subrange(
                    1,
                    old(self).remaining().len() as int,
                ));
            }
            Some(r)
        } else {
            None
        }
    }

    /// Yields a reference to the next key-value from the back, or `None`
    /// when none remain.
    pub fn next_back(&mut self) -> (r: Option<QEntityKeyValueRef<'a>>)
        requires
            old(self).wf(),
        ensures
            final(self).wf(),
            match r {
                Some(kv) => old(self).remaining().len() > 0 && kv.wf() && kv@ == old(
                    self,
                ).remaining().last() && final(self).remaining() == old(
                    self,
                ).remaining().drop_last(),
                None => old(self).remaining().len() == 0 && *final(self) == *old(self),
            },
    {
        if self.front < self.back {
            self.back = self.back - 1;
            let r = kv_ref_at(self.entities, self.back);
            proof {
                assert(self.remaining() =~= old(self).remaining().drop_last());
            }
            Some(r)
        } else {
            None
        }
    }

    /// The exact number of key-values not yet yielded.
    pub fn len(&self) -> (n: usize)
        requires
            self.wf(),
        ensures
            n == self.remaining().len(),
    {
        self.back - self.front
    }
}

} // verus!
