use qentities::byte_chunk::{ByteChunkInfo, ByteChunks, ByteChunksBuilder};

#[test]
fn byte_chunk_slicing() {
    let bytes = b"classnameworldspawn";

    let info_a = ByteChunkInfo {
        offset: 0,
        length: 9,
    };
    let info_b = ByteChunkInfo {
        offset: 9,
        length: 10,
    };
    let info_c = ByteChunkInfo {
        offset: bytes.len(),
        length: 0,
    };
    let info_d = ByteChunkInfo {
        offset: 0,
        length: bytes.len(),
    };

    let chunk_a = info_a.slice_from(bytes);
    let chunk_b = info_b.slice_from(bytes);
    let chunk_c = info_c.slice_from(bytes);
    let chunk_d = info_d.slice_from(bytes);

    assert_eq!(chunk_a, b"classname");
    assert_eq!(chunk_b, b"worldspawn");
    assert_eq!(chunk_c, b"");
    assert_eq!(chunk_d, bytes);
}

/// Helper for asserting that a [`ByteChunksBuilder`] deduplicates
/// consistently: every insertion of the same byte-sequence must return the
/// chunk index that the first insertion returned, and after finalization
/// that index must resolve to the same byte-sequence.
struct ByteChunkConsistifier {
    bytes: &'static [u8],
    chunk: Option<usize>,
}

impl ByteChunkConsistifier {
    fn new(bytes: &'static [u8]) -> Self {
        Self { bytes, chunk: None }
    }

    fn insert_into(&mut self, builder: &mut ByteChunksBuilder) {
        let chunk = builder.get_or_insert(self.bytes);
        if let Some(expected_chunk) = self.chunk {
            assert_eq!(expected_chunk, chunk);
        } else {
            self.chunk = Some(chunk);
        }
    }

    fn finalize(self, byte_chunks: &ByteChunks) {
        let chunk = self.chunk.expect("consistifier is used at least once");
        assert_eq!(self.bytes, byte_chunks.get(chunk));
    }

    fn finalize_many<const N: usize>(many: [Self; N], byte_chunks: &ByteChunks) {
        let mut total_length = 0usize;
        for one in many {
            total_length += one.bytes.len();
            one.finalize(byte_chunks);
        }

        // Assuming that the byte-chunks builder interned the bytes correctly,
        // the total length of the byte-chunks should never exceed the total
        // length of the inputs.
        assert!(total_length <= byte_chunks.bytes_len());
    }
}

#[test]
fn byte_chunk_building() {
    let mut builder = ByteChunksBuilder::new();

    let mut classname_consistifier = ByteChunkConsistifier::new(b"classname");
    let mut worldspawn_consistifier = ByteChunkConsistifier::new(b"worldspawn");
    let mut wad_consistifier = ByteChunkConsistifier::new(b"wad");
    let mut my_wad_consistifier = ByteChunkConsistifier::new(b"mywad.wad");
    let mut light_consistifier = ByteChunkConsistifier::new(b"light");
    let mut origin_consistifier = ByteChunkConsistifier::new(b"origin");
    let mut zero_zero_zero_consistifier = ByteChunkConsistifier::new(b"0 0 0");

    // Repeat simulation four times to ensure that all consistifiers perform
    // multiple insertions.
    for _ in 0..4 {
        // Simulate the worldspawn entity being interned.
        classname_consistifier.insert_into(&mut builder);
        worldspawn_consistifier.insert_into(&mut builder);
        wad_consistifier.insert_into(&mut builder);
        my_wad_consistifier.insert_into(&mut builder);

        // Simulate four lights being interned.
        for _ in 0..4 {
            classname_consistifier.insert_into(&mut builder);
            light_consistifier.insert_into(&mut builder);
            origin_consistifier.insert_into(&mut builder);
            zero_zero_zero_consistifier.insert_into(&mut builder);
        }
    }

    ByteChunkConsistifier::finalize_many(
        [
            classname_consistifier,
            worldspawn_consistifier,
            wad_consistifier,
            my_wad_consistifier,
            light_consistifier,
            origin_consistifier,
            zero_zero_zero_consistifier,
        ],
        &builder.finish(),
    );
}

#[test]
fn byte_chunk_dedup_ids_and_buffer() {
    let mut builder = ByteChunksBuilder::new();
    let first = builder.get_or_insert(b"ab");
    let second = builder.get_or_insert(b"cd");
    let third = builder.get_or_insert(b"ab");
    let fourth = builder.get_or_insert(b"");
    let fifth = builder.get_or_insert(b"cd");

    assert_eq!(first, 0);
    assert_eq!(second, 1);
    assert_eq!(third, 0);
    assert_eq!(fourth, 2);
    assert_eq!(fifth, 1);
    assert_eq!(builder.chunk_count(), 3);

    let chunks = builder.finish();
    assert_eq!(chunks.len(), 3);
    // Unique content is stored exactly once: the buffer holds "ab" and "cd"
    // and the empty chunk contributes nothing.
    assert_eq!(chunks.bytes_len(), 4);
    assert_eq!(chunks.get(0), b"ab");
    assert_eq!(chunks.get(1), b"cd");
    assert_eq!(chunks.get(2), b"");
}
