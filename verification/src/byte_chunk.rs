//! Content-addressed storage for byte sequences.
//!
//! A *byte-chunk* is a `(offset, length)` window into one shared backing
//! buffer; a *byte-chunks* collection stores many such windows and
//! deduplicates them: equal byte sequences are stored exactly once and are
//! addressed by a stable integer id.

use vstd::prelude::*;
use core::hash::{BuildHasher, Hasher};
use hashbrown::hash_map::RawEntryMut;

verus! {

/// Information describing a chunk of bytes within a [`ByteChunks`] collection.
#[derive(Debug, Clone, Copy, PartialEq, Eq, Structural)]
pub struct ByteChunkInfo {
    /// Offset to the first byte of the chunk.
    pub offset: usize,
    /// The length of the byte-chunk.
    pub length: usize,
}

impl ByteChunkInfo {
    /// Whether this chunk describes an in-bounds window of a buffer of `n` bytes.
    pub open spec fn in_bounds_of(self, n: int) -> bool {
        self.offset + self.length <= n
    }

    /// The byte sequence this chunk selects out of a backing buffer.
    pub open spec fn window_of(self, bytes: Seq<u8>) -> Seq<u8> {
        bytes.subrange(self.offset as int, self.offset + self.length)
    }

    /// Uses the description provided by `self` to create a reference to a
    /// sub-slice of bytes within the provided slice of bytes.
    pub fn slice_from<'a>(&self, bytes: &'a [u8]) -> (r: &'a [u8])
        requires
            self.in_bounds_of(bytes@.len() as int),
        ensures
            r@ == self.window_of(bytes@),
    {
        let buffer_len: usize = bytes.len();
        proof {
            assert(self.offset + self.length <= buffer_len);
        }
        vstd::slice::slice_subrange(bytes, self.offset, self.offset + self.length)
    }
}

/// Compares two byte slices for equality of content.
fn bytes_eq(a: &[u8], b: &[u8]) -> (r: bool)
    ensures
        r == (a@ == b@),
{
    if a.len() != b.len() {
        return false;
    }
    let mut i: usize = 0;
    while i < a.len()
        invariant
            i <= a@.len(),
            a@.len() == b@.len(),
            forall|k: int| 0 <= k < i ==> a@[k] == b@[k],
        decreases a@.len() - i,
    {
        if *vstd::slice::slice_index_get(a, i) != *vstd::slice::slice_index_get(b, i) {
            return false;
        }
        i = i + 1;
    }
    proof {
        assert(a@ =~= b@);
    }
    true
}

/// Decides whether chunk `id` of a byte-chunks collection stores exactly the
/// bytes of `probe`.
fn chunk_content_eq(bytes: &Vec<u8>, chunks: &Vec<ByteChunkInfo>, id: usize, probe: &[u8]) -> (r:
    bool)
    requires
        id < chunks@.len(),
        chunks@[id as int].in_bounds_of(bytes@.len() as int),
    ensures
        r == (chunks@[id as int].window_of(bytes@) == probe@),
{
    let info = chunks[id];
    bytes_eq(info.slice_from(bytes.as_slice()), probe)
}

/// Hash index over the chunks of a [`ByteChunksBuilder`]: a table of chunk
/// ids probed by content hash, so that no copy of the content is kept in the
/// index itself. Opaque to verification; its whole meaning is
/// [`chunk_index_map`], and the only operations are the trusted wrappers
/// below.
#[verifier::external_body]
pub struct ChunkIndex {
    table: hashbrown::HashMap<usize, (), ()>,
    hasher: hashbrown::hash_map::DefaultHashBuilder,
}

/// What a [`ChunkIndex`] holds: a map from stored byte content to the chunk
/// id it was recorded under.
pub uninterp spec fn chunk_index_map(idx: ChunkIndex) -> Map<Seq<u8>, usize>;

/// A [`ChunkIndex`] agrees with a chunk table: every id it maps a content to
/// is a valid chunk whose window is exactly that content.
pub open spec fn index_consistent(idx: ChunkIndex, bytes: Seq<u8>, chunks: Seq<ByteChunkInfo>) -> bool {
    forall|c: Seq<u8>| #[trigger] chunk_index_map(idx).contains_key(c) ==> {
        let id = chunk_index_map(idx)[c];
        &&& id < chunks.len()
        &&& chunks[id as int].in_bounds_of(bytes.len() as int)
        &&& chunks[id as int].window_of(bytes) == c
    }
}

/// Relies on hashbrown's `HashMap::with_hasher`: a newly created map holds no
/// entries, so the index maps no content to any id.
#[verifier::external_body]
fn index_new() -> (r: ChunkIndex)
    ensures
        forall|c: Seq<u8>| !chunk_index_map(r).contains_key(c),
{
    ChunkIndex {
        table: hashbrown::HashMap::with_hasher(()),
        hasher: hashbrown::hash_map::DefaultHashBuilder::default(),
    }
}

/// Relies on hashbrown's `RawEntryBuilder::from_hash`: it yields the entry
/// whose stored hash matches and whose key satisfies the probe closure, and
/// `None` when no key was recorded under this hash with matching content.
/// Every entry was recorded by [`index_insert`] under the hash of its
/// content computed with the same owned hasher, so a lookup by content hash
/// finds exactly the id recorded for that content.
#[verifier::external_body]
fn index_find(idx: &ChunkIndex, bytes: &Vec<u8>, chunks: &Vec<ByteChunkInfo>, probe: &[u8]) -> (r:
    Option<usize>)
    requires
        index_consistent(*idx, bytes@, chunks@),
    ensures
        r == if chunk_index_map(*idx).contains_key(probe@) {
            Some(chunk_index_map(*idx)[probe@])
        } else {
            None::<usize>
        },
{
    let mut state = idx.hasher.build_hasher();
    state.write(probe);
    idx.table.raw_entry().from_hash(state.finish(), |found: &usize| {
        chunk_content_eq(bytes, chunks, *found, probe)
    }).map(|(found, _)| *found)
}

/// Relies on hashbrown's `RawVacantEntryMut::insert_with_hasher`: it records
/// the key `id` under the hash of its content; on growth the table rehashes
/// each stored id by resolving it to its bytes with the same owned hasher.
/// Chunk contents are never changed once stored, so those hashes stay valid.
#[verifier::external_body]
fn index_insert(idx: &mut ChunkIndex, bytes: &Vec<u8>, chunks: &Vec<ByteChunkInfo>, id: usize)
    requires
        index_consistent(*old(idx), bytes@, chunks@),
        id < chunks@.len(),
        chunks@[id as int].in_bounds_of(bytes@.len() as int),
        !chunk_index_map(*old(idx)).contains_key(chunks@[id as int].window_of(bytes@)),
    ensures
        chunk_index_map(*final(idx)) == chunk_index_map(*old(idx)).insert(
            chunks@[id as int].window_of(bytes@),
            id,
        ),
{
    let mut state = idx.hasher.build_hasher();
    state.write(chunks[id].slice_from(bytes.as_slice()));
    let hash = state.finish();
    let hasher = &idx.hasher;
    if let RawEntryMut::Vacant(vacant) = idx.table.raw_entry_mut().from_hash(hash, |_| false) {
        vacant.insert_with_hasher(hash, id, (), |stored: &usize| {
            let mut rehash = hasher.build_hasher();
            rehash.write(chunks[*stored].slice_from(bytes.as_slice()));
            rehash.finish()
        });
    }
}

/// Builder for a [`ByteChunks`] collection.
pub struct ByteChunksBuilder {
    /// Buffer holding the full collection of bytes.
    bytes: Vec<u8>,
    /// Buffer holding the information for the individual chunks.
    chunks: Vec<ByteChunkInfo>,
    /// Hash index from stored content to chunk id.
    index: ChunkIndex,
}

impl ByteChunksBuilder {
    /// The content of chunk `i`.
    pub closed spec fn content(self, i: int) -> Seq<u8> {
        self.chunks@[i].window_of(self.bytes@)
    }

    /// The stored chunk contents, in id order.
    pub closed spec fn view(self) -> Seq<Seq<u8>> {
        Seq::new(self.chunks@.len(), |i: int| self.content(i))
    }

    /// The number of bytes held by the backing buffer.
    pub closed spec fn spec_bytes_len(self) -> int {
        self.bytes@.len() as int
    }

    /// Well-formedness: every chunk window is in bounds, stored contents are
    /// pairwise distinct, and the hash index maps exactly the stored
    /// contents to their ids.
    pub closed spec fn wf(self) -> bool {
        &&& forall|i: int|
            0 <= i < self.chunks@.len() ==> (#[trigger] self.chunks@[i]).in_bounds_of(
                self.bytes@.len() as int,
            )
        &&& forall|i: int, j: int|
            0 <= i < j < self.chunks@.len() ==> self.content(i) != self.content(j)
        &&& forall|i: int|
            0 <= i < self.chunks@.len() ==> chunk_index_map(self.index).contains_key(
                #[trigger] self.content(i),
            ) && chunk_index_map(self.index)[self.content(i)] == i
        &&& forall|c: Seq<u8>| #[trigger] chunk_index_map(self.index).contains_key(c) ==> {
            let id = chunk_index_map(self.index)[c];
            0 <= id < self.chunks@.len() && self.content(id as int) == c
        }
    }

    /// Creates a new, empty builder.
    pub fn new() -> (r: Self)
        ensures
            r.wf(),
            r@ == Seq::<Seq<u8>>::empty(),
            r.spec_bytes_len() == 0,
    {
        let r = ByteChunksBuilder { bytes: Vec::new(), chunks: Vec::new(), index: index_new() };
        proof {
            assert(r@ =~= Seq::<Seq<u8>>::empty());
        }
        r
    }

    /// Gets the id of the chunk holding exactly the bytes of `data`, already
    /// present in the builder. If there exists no such chunk, a new one is
    /// stored and its fresh id returned. Equal content always yields the
    /// same id, and the backing buffer grows only on first occurrence.
    pub fn get_or_insert(&mut self, data: &[u8]) -> (id: usize)
        requires
            old(self).wf(),
        ensures
            final(self).wf(),
            id < final(self)@.len(),
            final(self)@[id as int] == data@,
            old(self)@.contains(data@) ==> *final(self) == *old(self) && old(self)@[id as int]
                == data@,
            !old(self)@.contains(data@) ==> final(self)@ == old(self)@.push(data@) && id == old(
                self,
            )@.len() && final(self).spec_bytes_len() == old(self).spec_bytes_len() + data@.len(),
    {
        proof {
            assert(forall|j: int|
                0 <= j < old(self)@.len() ==> old(self)@[j] == old(self).content(j));
        }
        match index_find(&self.index, &self.bytes, &self.chunks, data) {
            Some(found) => {
                proof {
                    assert(chunk_index_map(self.index).contains_key(data@));
                    assert(self.content(found as int) == data@);
                    assert(self@[found as int] == data@);
                }
                found
            },
            None => {
                let ghost pre = *old(self);
                let ghost m0 = chunk_index_map(old(self).index);
                let id = self.chunks.len();
                let info = ByteChunkInfo { offset: self.bytes.len(), length: data.len() };
                proof {
                    assert forall|j: int| 0 <= j < pre@.len() implies pre.content(j) != data@ by {
                        assert(m0.contains_key(pre.content(j)));
                    }
                }
                append_bytes(&mut self.bytes, data);
                self.chunks.push(info);
                proof {
                    assert(self.content(id as int) =~= data@);
                    assert forall|j: int| 0 <= j < pre.chunks@.len() implies #[trigger] self
                        .content(j) == pre.content(j) by {
                        assert(self.content(j) =~= pre.content(j));
                    }
                    assert forall|c: Seq<u8>|
                        #[trigger] chunk_index_map(self.index).contains_key(c) implies {
                        let cid = chunk_index_map(self.index)[c];
                        &&& cid < self.chunks@.len()
                        &&& self.chunks@[cid as int].in_bounds_of(self.bytes@.len() as int)
                        &&& self.chunks@[cid as int].window_of(self.bytes@) == c
                    } by {
                        let cid = m0[c];
                        assert(pre.content(cid as int) == c);
                        assert(self.content(cid as int) == pre.content(cid as int));
                    }
                    assert(index_consistent(self.index, self.bytes@, self.chunks@));
                }
                index_insert(&mut self.index, &self.bytes, &self.chunks, id);
                proof {
                    let m1 = chunk_index_map(self.index);
                    assert(m1 == m0.insert(data@, id));
                    assert forall|i: int|
                        0 <= i < self.chunks@.len() implies m1.contains_key(
                        #[trigger] self.content(i),
                    ) && m1[self.content(i)] == i by {
                        if i < pre.chunks@.len() {
                            assert(self.content(i) == pre.content(i));
                            assert(m0.contains_key(pre.content(i)) && m0[pre.content(i)] == i);
                        }
                    }
                    assert forall|c: Seq<u8>| #[trigger] m1.contains_key(c) implies {
                        let cid = m1[c];
                        0 <= cid < self.chunks@.len() && self.content(cid as int) == c
                    } by {
                        if c != data@ {
                            assert(m0.contains_key(c));
                            assert(self.content(m0[c] as int) == pre.content(m0[c] as int));
                        }
                    }
                    assert(self.wf());
                    assert(self@ =~= pre@.push(data@));
                }
                id
            },
        }
    }

    /// The number of distinct chunks stored so far.
    pub fn chunk_count(&self) -> (n: usize)
        ensures
            n == self@.len(),
    {
        self.chunks.len()
    }

    /// Consume `self` and construct a new [`ByteChunks`] collection.
    pub fn finish(self) -> (r: ByteChunks)
        requires
            self.wf(),
        ensures
            r.wf(),
            r@ == self@,
            r.spec_bytes_len() == self.spec_bytes_len(),
    {
        let r = ByteChunks { bytes: self.bytes, chunks: self.chunks };
        proof {
            assert(r@ =~= self@);
        }
        r
    }
}

/// Appends the bytes of `src` to `dst`.
fn append_bytes(dst: &mut Vec<u8>, src: &[u8])
    ensures
        final(dst)@ == old(dst)@ + src@,
{
    proof {
        assert(dst@ =~= dst@ + src@.subrange(0, 0));
    }
    let mut i: usize = 0;
    while i < src.len()
        invariant
            i <= src@.len(),
            dst@ == old(dst)@ + src@.subrange(0, i as int),
        decreases src@.len() - i,
    {
        dst.push(*vstd::slice::slice_index_get(src, i));
        proof {
            assert(old(dst)@ + src@.subrange(0, i as int) + seq![src@[i as int]] =~= old(dst)@
                + src@.subrange(0, i + 1));
        }
        i = i + 1;
    }
    proof {
        assert(src@.subrange(0, src@.len() as int) =~= src@);
    }
}

/// Collection of byte-chunks: the frozen, deduplicated result of a
/// [`ByteChunksBuilder`].
pub struct ByteChunks {
    /// The full collection of bytes.
    bytes: Vec<u8>,
    /// The individual chunk infos.
    chunks: Vec<ByteChunkInfo>,
}

impl ByteChunks {
    /// The content of chunk `i`.
    pub closed spec fn content(self, i: int) -> Seq<u8> {
        self.chunks@[i].window_of(self.bytes@)
    }

    /// The stored chunk contents, in id order.
    pub closed spec fn view(self) -> Seq<Seq<u8>> {
        Seq::new(self.chunks@.len(), |i: int| self.content(i))
    }

    /// The number of bytes held by the backing buffer.
    pub closed spec fn spec_bytes_len(self) -> int {
        self.bytes@.len() as int
    }

    /// Well-formedness: every chunk window is in bounds.
    pub closed spec fn wf(self) -> bool {
        forall|i: int|
            0 <= i < self.chunks@.len() ==> (#[trigger] self.chunks@[i]).in_bounds_of(
                self.bytes@.len() as int,
            )
    }

    /// The number of chunks in the collection.
    pub fn len(&self) -> (n: usize)
        ensures
            n == self@.len(),
    {
        self.chunks.len()
    }

    /// The number of bytes held by the backing buffer.
    pub fn bytes_len(&self) -> (n: usize)
        ensures
            n == self.spec_bytes_len(),
    {
        self.bytes.len()
    }

    /// Retrieves a byte-chunk from `self` by id.
    pub fn get(&self, id: usize) -> (r: &[u8])
        requires
            self.wf(),
            id < self@.len(),
        ensures
            r@ == self@[id as int],
    {
        let info = self.chunks[id];
        info.slice_from(self.bytes.as_slice())
    }
}

/// Deduplication is total: within one well-formed builder, two chunk ids
/// holding equal content are the same id, so every content is stored under
/// exactly one id.
pub proof fn lemma_equal_content_same_id(b: ByteChunksBuilder, i: int, j: int)
    requires
        b.wf(),
        0 <= i < b@.len(),
        0 <= j < b@.len(),
        b@[i] == b@[j],
    ensures
        i == j,
{
    if i < j {
        assert(b.content(i) != b.content(j));
    } else if j < i {
        assert(b.content(j) != b.content(i));
    }
}

/// Deduplication is stable across a whole session: every call of
/// [`ByteChunksBuilder::get_or_insert`] extends the stored contents without
/// changing what an id resolves to, so when some content was ever returned
/// under id `i`, any later lookup of equal content returns `i` again.
pub proof fn lemma_dedup_stable(earlier: ByteChunksBuilder, later: ByteChunksBuilder, i: int, j: int)
    requires
        later.wf(),
        earlier@.len() <= later@.len(),
        forall|k: int| 0 <= k < earlier@.len() ==> later@[k] == earlier@[k],
        0 <= i < earlier@.len(),
        0 <= j < later@.len(),
        earlier@[i] == later@[j],
    ensures
        i == j,
{
    lemma_equal_content_same_id(later, i, j);
}

} // verus!
