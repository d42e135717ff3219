use gltf::binary::{ChunkType, Error as GlbError, Glb};
use gltf::Error;

fn le(x: u32) -> [u8; 4] {
    x.to_le_bytes()
}

fn container(magic: &[u8; 4], version: u32, length: u32, chunks: &[u8]) -> Vec<u8> {
    let mut v = Vec::new();
    v.extend_from_slice(magic);
    v.extend_from_slice(&le(version));
    v.extend_from_slice(&le(length));
    v.extend_from_slice(chunks);
    v
}

fn chunk(tag: &[u8; 4], declared: u32, payload: &[u8]) -> Vec<u8> {
    let mut v = Vec::new();
    v.extend_from_slice(&le(declared));
    v.extend_from_slice(tag);
    v.extend_from_slice(payload);
    v
}

const JSON8: &[u8; 8] = b"{\"a\":1}\n";

fn binary_error(r: Result<Glb<'_>, Error>) -> GlbError {
    match r {
        Err(Error::Binary(e)) => e,
        Err(e) => panic!("unexpected error {:?}", e),
        Ok(g) => panic!("unexpected success {:?}", g),
    }
}

#[test]
fn json_only_container_parses() {
    let data = container(b"glTF", 2, 28, &chunk(b"JSON", 8, JSON8));
    let glb = Glb::from_slice(&data).unwrap();
    assert_eq!(glb.header.magic, *b"glTF");
    assert_eq!(glb.header.version, 2);
    assert_eq!(glb.header.length, 28);
    assert_eq!(glb.json, &JSON8[..]);
    assert!(glb.bin.is_none());
}

#[test]
fn declared_length_beyond_data_is_rejected() {
    let data = container(b"glTF", 2, 32, &chunk(b"JSON", 8, JSON8));
    let e = binary_error(Glb::from_slice(&data));
    assert!(matches!(e, GlbError::Length { length: 20, length_read: 16 }));
}

#[test]
fn wrong_magic_is_rejected() {
    let data = container(b"glXX", 2, 28, &chunk(b"JSON", 8, JSON8));
    let e = binary_error(Glb::from_slice(&data));
    assert!(matches!(e, GlbError::Magic(m) if m == *b"glXX"));
}

#[test]
fn wrong_magic_is_rejected_whatever_follows() {
    let data = container(b"GLTF", 7, 3, &[0xff; 5]);
    let e = binary_error(Glb::from_slice(&data));
    assert!(matches!(e, GlbError::Magic(m) if m == *b"GLTF"));
}

#[test]
fn version_one_is_rejected() {
    let data = container(b"glTF", 1, 28, &chunk(b"JSON", 8, JSON8));
    let e = binary_error(Glb::from_slice(&data));
    assert!(matches!(e, GlbError::Version(1)));
}

#[test]
fn version_is_read_little_endian_before_chunks() {
    let data = container(b"glTF", 258, 12, &[]);
    let e = binary_error(Glb::from_slice(&data));
    assert!(matches!(e, GlbError::Version(258)));
}

#[test]
fn json_chunk_longer_than_data_is_rejected() {
    let data = container(b"glTF", 2, 28, &chunk(b"JSON", 100, JSON8));
    let e = binary_error(Glb::from_slice(&data));
    assert!(matches!(
        e,
        GlbError::ChunkLength { ty: ChunkType::Json, length: 100, length_read: 8 }
    ));
}

#[test]
fn bin_chunk_longer_than_data_is_rejected() {
    let mut chunks = chunk(b"JSON", 8, JSON8);
    chunks.extend(chunk(b"BIN\0", 9, &[1, 2, 3]));
    let data = container(b"glTF", 2, 12 + chunks.len() as u32, &chunks);
    let e = binary_error(Glb::from_slice(&data));
    assert!(matches!(
        e,
        GlbError::ChunkLength { ty: ChunkType::Bin, length: 9, length_read: 3 }
    ));
}

#[test]
fn unknown_second_chunk_is_rejected() {
    let mut chunks = chunk(b"JSON", 8, JSON8);
    chunks.extend(chunk(b"XYZW", 0, &[]));
    let data = container(b"glTF", 2, 12 + chunks.len() as u32, &chunks);
    let e = binary_error(Glb::from_slice(&data));
    assert!(matches!(e, GlbError::UnknownChunkType(t) if t == *b"XYZW"));
}

#[test]
fn bin_chunk_first_is_rejected() {
    let data = container(b"glTF", 2, 28, &chunk(b"BIN\0", 8, JSON8));
    let e = binary_error(Glb::from_slice(&data));
    assert!(matches!(e, GlbError::ChunkType(ChunkType::Bin)));
}

#[test]
fn second_json_chunk_is_rejected() {
    let mut chunks = chunk(b"JSON", 8, JSON8);
    chunks.extend(chunk(b"JSON", 8, JSON8));
    let data = container(b"glTF", 2, 12 + chunks.len() as u32, &chunks);
    let e = binary_error(Glb::from_slice(&data));
    assert!(matches!(e, GlbError::ChunkType(ChunkType::Json)));
}

#[test]
fn short_header_is_io_error() {
    let e = binary_error(Glb::from_slice(b"glTF\x02\x00\x00"));
    assert!(matches!(e, GlbError::Io));
    let e = binary_error(Glb::from_slice(&[]));
    assert!(matches!(e, GlbError::Io));
}

#[test]
fn truncated_chunk_preamble_is_io_error() {
    let data = container(b"glTF", 2, 12, &[1, 0, 0]);
    let e = binary_error(Glb::from_slice(&data));
    assert!(matches!(e, GlbError::Io));
    let mut chunks = chunk(b"JSON", 8, JSON8);
    chunks.extend([0u8, 0, 0, 0, b'B']);
    let data = container(b"glTF", 2, 12, &chunks);
    let e = binary_error(Glb::from_slice(&data));
    assert!(matches!(e, GlbError::Io));
}

#[test]
fn total_length_below_header_size_is_rejected() {
    let data = container(b"glTF", 2, 4, &chunk(b"JSON", 8, JSON8));
    let e = binary_error(Glb::from_slice(&data));
    assert!(matches!(e, GlbError::Length { length: 0xffff_fff8, length_read: 16 }));
}

#[test]
fn truncated_container_reports_both_lengths() {
    let data = container(b"glTF", 2, 1000, &chunk(b"JSON", 8, JSON8));
    let e = binary_error(Glb::from_slice(&data));
    assert!(matches!(e, GlbError::Length { length: 988, length_read: 16 }));
}

#[test]
fn container_with_bin_round_trips() {
    let json = b"{\"buffers\":[]}";
    let bin = [9u8, 8, 7, 6, 5];
    let mut chunks = chunk(b"JSON", json.len() as u32, json);
    chunks.extend(chunk(b"BIN\0", bin.len() as u32, &bin));
    let total = 12 + chunks.len() as u32;
    let data = container(b"glTF", 2, total, &chunks);
    let glb = Glb::from_slice(&data).unwrap();
    assert_eq!(glb.header.magic, *b"glTF");
    assert_eq!(glb.header.version, 2);
    assert_eq!(glb.header.length, total);
    assert_eq!(glb.json, &json[..]);
    assert_eq!(glb.bin, Some(&bin[..]));
}

#[test]
fn empty_bin_chunk_is_present() {
    let mut chunks = chunk(b"JSON", 8, JSON8);
    chunks.extend(chunk(b"BIN\0", 0, &[]));
    let data = container(b"glTF", 2, 12 + chunks.len() as u32, &chunks);
    let glb = Glb::from_slice(&data).unwrap();
    assert_eq!(glb.bin, Some(&[][..]));
}

#[test]
fn bytes_after_bin_chunk_are_left_unread() {
    let mut chunks = chunk(b"JSON", 8, JSON8);
    chunks.extend(chunk(b"BIN\0", 2, &[1, 2, 0xaa, 0xbb]));
    let data = container(b"glTF", 2, 12 + chunks.len() as u32, &chunks);
    let glb = Glb::from_slice(&data).unwrap();
    assert_eq!(glb.bin, Some(&[1u8, 2][..]));
}

#[test]
fn parsing_twice_gives_equal_results() {
    let mut chunks = chunk(b"JSON", 8, JSON8);
    chunks.extend(chunk(b"BIN\0", 4, &[1, 2, 3, 4]));
    let data = container(b"glTF", 2, 12 + chunks.len() as u32, &chunks);
    let a = Glb::from_slice(&data).unwrap();
    let b = Glb::from_slice(&data).unwrap();
    assert_eq!(a.header.magic, b.header.magic);
    assert_eq!(a.header.version, b.header.version);
    assert_eq!(a.header.length, b.header.length);
    assert_eq!(a.json, b.json);
    assert_eq!(a.bin, b.bin);
    let bad = container(b"glTF", 5, 12, &[]);
    let x = binary_error(Glb::from_slice(&bad));
    let y = binary_error(Glb::from_slice(&bad));
    assert_eq!(format!("{:?}", x), format!("{:?}", y));
}

#[test]
fn error_messages() {
    assert_eq!(GlbError::Io.message(), "Io error");
    assert_eq!(GlbError::Version(3).message(), "unsupported version");
    assert_eq!(GlbError::Magic(*b"abcd").message(), "not glTF magic");
    assert_eq!(
        GlbError::Length { length: 1, length_read: 0 }.message(),
        "could not completely read the object"
    );
    assert_eq!(
        GlbError::ChunkLength { ty: ChunkType::Bin, length: 1, length_read: 0 }.message(),
        "BIN\\0 chunk length exceeds that of slice"
    );
    assert_eq!(
        GlbError::ChunkType(ChunkType::Json).message(),
        "was not expecting JSON chunk"
    );
    assert_eq!(GlbError::UnknownChunkType(*b"abcd").message(), "unknown chunk type");
}
