//! An iterator over the entities within a [`QEntities`] collection.

use vstd::prelude::*;
use crate::{entity_ref_at, QEntities, QEntityRef};

verus! {

/// Iterator over the entities within a [`QEntities`] collection. Entities
/// can be taken from the front or from the back, and the exact remaining
/// count is always available.
pub struct QEntitiesIter<'a> {
    /// The collection of q-entities being iterated.
    entities: &'a QEntities,
    /// The index of the next entity yielded from the front.
    front: usize,
    /// One past the index of the next entity yielded from the back.
    back: usize,
}

impl<'a> QEntitiesIter<'a> {
    /// The entities not yet yielded, in iteration order.
    pub closed spec fn remaining(self) -> Seq<Seq<(Seq<u8>, Seq<u8>)>> {
        self.entities@.subrange(self.front as int, self.back as int)
    }

    /// Validity: the pending range lies within a well-formed collection.
    pub closed spec fn wf(self) -> bool {
        &&& self.entities.wf()
        &&& self.front <= self.back <= self.entities@.len()
    }

    /// Creates a new iterator over the entities of a [`QEntities`]
    /// collection.
    pub(crate) fn new(entities: &'a QEntities) -> (it: Self)
        requires
            entities.wf(),
        ensures
            it.wf(),
            it.remaining() == entities@,
    {
        let it = QEntitiesIter { entities, front: 0, back: entities.len() };
        proof {
            assert(it.remaining() =~= entities@);
        }
        it
    }

    /// Yields a reference to the next entity from the front, or `None` when
    /// none remain.
    pub fn next(&mut self) -> (r: Option<QEntityRef<'a>>)
        requires
            old(self).wf(),
        ensures
            final(self).wf(),
            match r {
                Some(e) => old(self).remaining().len() > 0 && e.wf() && e@ == old(
                    self,
                ).remaining()[0] && final(self).remaining() == old(self).remaining().subrange(
                    1,
                    old(self).remaining().len() as int,
                ),
                None => old(self).remaining().len() == 0 && *final(self) == *old(self),
            },
    {
        if self.front < self.back {
            let r = entity_ref_at(self.entities, self.front);
            self.front = self.front + 1;
            proof {
                assert(self.remaining() =~= old(self).remaining().subrange(
                    1,
                    old(self).remaining().len() as int,
                ));
            }
            Some(r)
        } else {
            None
        }
    }

    /// Yields a reference to the next entity from the back, or `None` when
    /// none remain.
    pub fn next_back(&mut self) -> (r: Option<QEntityRef<'a>>)
        requires
            old(self).wf(),
        ensures
            final(self).wf(),
            match r {
                Some(e) => old(self).remaining().len() > 0 && e.wf() && e@ == old(
                    self,
                ).remaining().last() && final(self).remaining() == old(
                    self,
                ).remaining().drop_last(),
                None => old(self).remaining().len() == 0 && *final(self) == *old(self),
            },
    {
        if self.front < self.back {
            self.back = self.back - 1;
            let r = entity_ref_at(self.entities, self.back);
            proof {
                assert(self.remaining() =~= old(self).remaining().drop_last());
            }
            Some(r)
        } else {
            None
        }
    }

    /// The exact number of entities not yet yielded.
    pub fn len(&self) -> (n: usize)
        requires
            self.wf(),
        ensures
            n == self.remaining().len(),
    {
        self.back - self.front
    }
}

} // verus!
