//! Framing of the binary container: a 12-byte header, a mandatory JSON chunk
//! and an optional BIN chunk.
use vstd::prelude::*;
use vstd::slice::slice_subrange;

verus! {

/// Represents a Glb loader error.
#[derive(Debug)]
pub enum Error {
    /// Fewer bytes were available than a fixed-size field needs.
    Io,
    /// Unsupported version.
    Version(u32),
    /// Magic says that file is not glTF.
    Magic([u8; 4]),
    /// Length specified in GLB header exceeds that of slice.
    Length {
        /// Content length specified in GLB header (total length less the header).
        length: u32,
        /// Actual length of data read.
        length_read: usize,
    },
    /// Stream ended before we could read the chunk.
    ChunkLength {
        /// chunkType error happened at.
        ty: ChunkType,
        /// chunkLength.
        length: u32,
        /// Actual length of data read.
        length_read: usize,
    },
    /// Chunk of this chunkType was not expected.
    ChunkType(ChunkType),
    /// Unknown chunk type.
    UnknownChunkType([u8; 4]),
}

/// Binary glTF contents.
#[derive(Clone, Debug)]
pub struct Glb<'a> {
    /// The header section of the `.glb` file.
    pub header: Header,
    /// The JSON section of the `.glb` file.
    pub json: &'a [u8],
    /// The optional BIN section of the `.glb` file.
    pub bin: Option<&'a [u8]>,
}

/// The header section of a .glb file.
#[derive(Copy, Clone, Debug)]
pub struct Header {
    /// Must be `b"glTF"`.
    pub magic: [u8; 4],
    /// Must be `2`.
    pub version: u32,
    /// Must match the length of the parent .glb file.
    pub length: u32,
}

/// GLB chunk type.
#[derive(Copy, Clone, Debug, PartialEq, Eq, Structural)]
pub enum ChunkType {
    /// `JSON` chunk.
    Json,
    /// `BIN` chunk.
    Bin,
}

/// Chunk header with no data read yet.
#[derive(Copy, Clone, Debug)]
struct ChunkHeader {
    /// The length of the chunk data in byte excluding the header.
    length: u32,
    /// Chunk type.
    ty: ChunkType,
}

/// What an [`Error`] reports, with byte arrays seen as sequences.
pub enum ErrorView {
    Io,
    Version(nat),
    Magic(Seq<u8>),
    Length { length: nat, length_read: nat },
    ChunkLength { ty: ChunkType, length: nat, length_read: nat },
    ChunkType(ChunkType),
    UnknownChunkType(Seq<u8>),
}

/// The fields of a [`Header`].
pub struct HeaderView {
    pub magic: Seq<u8>,
    pub version: nat,
    pub length: nat,
}

/// The parts of a [`Glb`]: header fields, JSON payload, optional BIN payload.
pub struct GlbView {
    pub header: HeaderView,
    pub json: Seq<u8>,
    pub bin: Option<Seq<u8>>,
}

/// The human-readable description of an error.
pub open spec fn error_message(e: Error) -> Seq<char> {
    match e {
        Error::Io => "Io error"@,
        Error::Version(_) => "unsupported version"@,
        Error::Magic(_) => "not glTF magic"@,
        Error::Length { .. } => "could not completely read the object"@,
        Error::ChunkLength { ty, .. } => match ty {
            ChunkType::Json => "JSON chunk length exceeds that of slice"@,
            ChunkType::Bin => "BIN\\0 chunk length exceeds that of slice"@,
        },
        Error::ChunkType(ty) => match ty {
            ChunkType::Json => "was not expecting JSON chunk"@,
            ChunkType::Bin => "was not expecting BIN\\0 chunk"@,
        },
        Error::UnknownChunkType(_) => "unknown chunk type"@,
    }
}

impl Error {
    /// A human-readable description of the error.
    pub fn message(&self) -> (r: &'static str)
        ensures
            r@ == error_message(*self),
    {
        match *self {
            Error::Io => "Io error",
            Error::Version(_) => "unsupported version",
            Error::Magic(_) => "not glTF magic",
            Error::Length { .. } => "could not completely read the object",
            Error::ChunkLength { ty, .. } => match ty {
                ChunkType::Json => "JSON chunk length exceeds that of slice",
                ChunkType::Bin => "BIN\\0 chunk length exceeds that of slice",
            },
            Error::ChunkType(ty) => match ty {
                ChunkType::Json => "was not expecting JSON chunk",
                ChunkType::Bin => "was not expecting BIN\\0 chunk",
            },
            Error::UnknownChunkType(_) => "unknown chunk type",
        }
    }
}

impl View for Error {
    type V = ErrorView;

    open spec fn view(&self) -> ErrorView {
        match *self {
            Error::Io => ErrorView::Io,
            Error::Version(v) => ErrorView::Version(v as nat),
            Error::Magic(m) => ErrorView::Magic(m@),
            Error::Length { length, length_read } => ErrorView::Length {
                length: length as nat,
                length_read: length_read as nat,
            },
            Error::ChunkLength { ty, length, length_read } => ErrorView::ChunkLength {
                ty,
                length: length as nat,
                length_read: length_read as nat,
            },
            Error::ChunkType(ty) => ErrorView::ChunkType(ty),
            Error::UnknownChunkType(t) => ErrorView::UnknownChunkType(t@),
        }
    }
}

impl View for Header {
    type V = HeaderView;

    open spec fn view(&self) -> HeaderView {
        HeaderView { magic: self.magic@, version: self.version as nat, length: self.length as nat }
    }
}

impl<'a> View for Glb<'a> {
    type V = GlbView;

    open spec fn view(&self) -> GlbView {
        GlbView {
            header: self.header@,
            json: self.json@,
            bin: match self.bin {
                Some(b) => Some(b@),
                None => None,
            },
        }
    }
}

/// Size in bytes of the container header.
pub open spec fn header_size() -> nat {
    12
}

/// Size in bytes of a chunk preamble (length and type tag).
pub open spec fn chunk_header_size() -> nat {
    8
}

/// ASCII `glTF`.
pub open spec fn glb_magic() -> Seq<u8> {
    seq![0x67u8, 0x6cu8, 0x54u8, 0x46u8]
}

/// ASCII `JSON`.
pub open spec fn json_tag() -> Seq<u8> {
    seq![0x4au8, 0x53u8, 0x4fu8, 0x4eu8]
}

/// ASCII `BIN` followed by a zero byte.
pub open spec fn bin_tag() -> Seq<u8> {
    seq![0x42u8, 0x49u8, 0x4eu8, 0x00u8]
}

/// The unsigned integer whose little-endian encoding starts `b`.
pub open spec fn le_u32(b: Seq<u8>) -> nat {
    (b[0] + 256 * b[1] + 65536 * b[2] + 16777216 * b[3]) as nat
}

/// The four-byte little-endian encoding of `x`.
pub open spec fn le_bytes(x: nat) -> Seq<u8> {
    seq![(x % 256) as u8, (x / 256 % 256) as u8, (x / 65536 % 256) as u8, (x / 16777216 % 256) as u8]
}

/// The header at the start of `d`: only the magic is checked.
pub open spec fn read_header(d: Seq<u8>) -> Result<HeaderView, ErrorView> {
    if d.len() < header_size() {
        Err(ErrorView::Io)
    } else if d.subrange(0, 4) != glb_magic() {
        Err(ErrorView::Magic(d.subrange(0, 4)))
    } else {
        Ok(
            HeaderView {
                magic: d.subrange(0, 4),
                version: le_u32(d.subrange(4, 8)),
                length: le_u32(d.subrange(8, 12)),
            },
        )
    }
}

/// The chunk preamble at the start of `d`: its declared length and kind.
pub open spec fn read_chunk(d: Seq<u8>) -> Result<(nat, ChunkType), ErrorView> {
    if d.len() < chunk_header_size() {
        Err(ErrorView::Io)
    } else if d.subrange(4, 8) == json_tag() {
        Ok((le_u32(d.subrange(0, 4)), ChunkType::Json))
    } else if d.subrange(4, 8) == bin_tag() {
        Ok((le_u32(d.subrange(0, 4)), ChunkType::Bin))
    } else {
        Err(ErrorView::UnknownChunkType(d.subrange(4, 8)))
    }
}

/// A chunk of kind `ty` at the start of `d`: its payload and what follows it.
pub open spec fn take_chunk(d: Seq<u8>, ty: ChunkType) -> Result<(Seq<u8>, Seq<u8>), ErrorView> {
    match read_chunk(d) {
        Err(e) => Err(e),
        Ok((len, t)) => if t != ty {
            Err(ErrorView::ChunkType(t))
        } else if len > d.len() - chunk_header_size() {
            Err(
                ErrorView::ChunkLength {
                    ty,
                    length: len,
                    length_read: (d.len() - chunk_header_size()) as nat,
                },
            )
        } else {
            Ok((d.subrange(8, 8 + len as int), d.subrange(8 + len as int, d.len() as int)))
        },
    }
}

/// The region after the header split into the JSON payload and the optional
/// BIN payload. Bytes after the BIN payload are left unread.
pub open spec fn split_chunks(d: Seq<u8>) -> Result<(Seq<u8>, Option<Seq<u8>>), ErrorView> {
    match take_chunk(d, ChunkType::Json) {
        Err(e) => Err(e),
        Ok((json, rest)) => if rest.len() == 0 {
            Ok((json, None))
        } else {
            match take_chunk(rest, ChunkType::Bin) {
                Err(e) => Err(e),
                Ok((bin, _)) => Ok((json, Some(bin))),
            }
        },
    }
}

/// The declared content length (total length less the header), as a `u32`
/// that wraps around below zero.
pub open spec fn content_length(total: nat) -> nat {
    if total >= header_size() {
        (total - header_size()) as nat
    } else {
        (total + 0x1_0000_0000 - header_size()) as nat
    }
}

/// What parsing `d` as a whole container gives.
pub open spec fn parse_glb(d: Seq<u8>) -> Result<GlbView, ErrorView> {
    match read_header(d) {
        Err(e) => Err(e),
        Ok(h) => {
            let rest = d.subrange(12, d.len() as int);
            if h.length < header_size() || h.length - header_size() > rest.len() {
                Err(
                    ErrorView::Length {
                        length: content_length(h.length),
                        length_read: rest.len(),
                    },
                )
            } else if h.version != 2 {
                Err(ErrorView::Version(h.version))
            } else {
                match split_chunks(rest) {
                    Err(e) => Err(e),
                    Ok((json, bin)) => Ok(GlbView { header: h, json, bin }),
                }
            }
        },
    }
}

/// `r` is the parse outcome `m`.
pub open spec fn parsed_as<'a>(r: Result<Glb<'a>, crate::Error>, m: Result<GlbView, ErrorView>) -> bool {
    match m {
        Ok(g) => r is Ok && r->Ok_0@ == g,
        Err(e) => r is Err && r->Err_0 is Binary && r->Err_0->Binary_0@ == e,
    }
}

/// Total length of the container holding `json` and, if present, `bin`.
pub open spec fn glb_len(json: Seq<u8>, bin: Option<Seq<u8>>) -> nat {
    header_size() + chunk_header_size() + json.len() + match bin {
        Some(b) => chunk_header_size() + b.len(),
        None => 0,
    }
}

/// The container with header fields `h`, JSON payload `json` and, if
/// present, BIN payload `bin`.
pub open spec fn encode_glb(h: HeaderView, json: Seq<u8>, bin: Option<Seq<u8>>) -> Seq<u8> {
    h.magic + le_bytes(h.version) + le_bytes(h.length) + le_bytes(json.len()) + json_tag() + json
        + match bin {
        Some(b) => le_bytes(b.len()) + bin_tag() + b,
        None => seq![],
    }
}

/// Reading back the little-endian encoding of a 32-bit value gives the value.
pub proof fn lemma_le_round_trip(x: nat)
    requires
        x < 0x1_0000_0000,
    ensures
        le_bytes(x).len() == 4,
        le_u32(le_bytes(x)) == x,
{
}

proof fn lemma_take_encoded_chunk(len_bytes: Seq<u8>, tag: Seq<u8>, payload: Seq<u8>, tail: Seq<u8>, ty: ChunkType)
    requires
        payload.len() < 0x1_0000_0000,
        len_bytes == le_bytes(payload.len()),
        tag == json_tag() || tag == bin_tag(),
        ty == (if tag == json_tag() { ChunkType::Json } else { ChunkType::Bin }),
    ensures
        take_chunk(len_bytes + tag + payload + tail, ty) == Ok::<(Seq<u8>, Seq<u8>), ErrorView>((payload, tail)),
{
    let d = len_bytes + tag + payload + tail;
    lemma_le_round_trip(payload.len());
    assert(json_tag()[0] != bin_tag()[0]);
    assert(d.subrange(0, 4) =~= len_bytes);
    assert(d.subrange(4, 8) =~= tag);
    assert(d.subrange(8, 8 + payload.len() as int) =~= payload);
    assert(d.subrange(8 + payload.len() as int, d.len() as int) =~= tail);
}

/// Encoding a valid header, a JSON payload and an optional BIN payload, and
/// parsing the result, gives back the same header fields and payloads.
pub proof fn lemma_round_trip(h: HeaderView, json: Seq<u8>, bin: Option<Seq<u8>>)
    requires
        h.magic == glb_magic(),
        h.version == 2,
        h.length == glb_len(json, bin),
        h.length < 0x1_0000_0000,
    ensures
        parse_glb(encode_glb(h, json, bin)) == Ok::<GlbView, ErrorView>(GlbView { header: h, json, bin }),
{
    let d = encode_glb(h, json, bin);
    let tail = match bin {
        Some(b) => le_bytes(b.len()) + bin_tag() + b,
        None => seq![],
    };
    lemma_le_round_trip(2);
    lemma_le_round_trip(h.length);
    let rest = le_bytes(json.len()) + json_tag() + json + tail;
    assert(d =~= h.magic + le_bytes(h.version) + le_bytes(h.length) + rest);
    assert(d.subrange(0, 4) =~= h.magic);
    assert(d.subrange(4, 8) =~= le_bytes(h.version));
    assert(d.subrange(8, 12) =~= le_bytes(h.length));
    assert(d.subrange(12, d.len() as int) =~= rest);
    lemma_take_encoded_chunk(le_bytes(json.len()), json_tag(), json, tail, ChunkType::Json);
    match bin {
        Some(b) => {
            lemma_take_encoded_chunk(le_bytes(b.len()), bin_tag(), b, seq![], ChunkType::Bin);
            assert(tail =~= le_bytes(b.len()) + bin_tag() + b + seq![]);
        },
        None => {},
    }
}

/// Parsing is deterministic: two parses of the same bytes give equal results.
pub proof fn lemma_parse_idempotent<'a, 'b>(
    d: Seq<u8>,
    r1: Result<Glb<'a>, crate::Error>,
    r2: Result<Glb<'b>, crate::Error>,
)
    requires
        parsed_as(r1, parse_glb(d)),
        parsed_as(r2, parse_glb(d)),
    ensures
        r1 is Ok <==> r2 is Ok,
        r1 is Ok ==> r1->Ok_0@ == r2->Ok_0@,
        r1 is Err ==> r1->Err_0 is Binary && r2->Err_0 is Binary && r1->Err_0->Binary_0@
            == r2->Err_0->Binary_0@,
{
}

/// Whenever a full header is present whose first four bytes are not `glTF`,
/// parsing fails with those bytes, whatever follows.
pub proof fn lemma_magic_rejected(d: Seq<u8>)
    requires
        d.len() >= header_size(),
        d.subrange(0, 4) != glb_magic(),
    ensures
        parse_glb(d) == Err::<GlbView, ErrorView>(ErrorView::Magic(d.subrange(0, 4))),
{
}

/// A container whose magic and total length are right but whose version is
/// not 2 is rejected with that version, whatever its chunks hold.
pub proof fn lemma_version_gate(d: Seq<u8>)
    requires
        d.len() >= header_size(),
        d.subrange(0, 4) == glb_magic(),
        le_u32(d.subrange(4, 8)) != 2,
        header_size() <= le_u32(d.subrange(8, 12)) <= d.len(),
    ensures
        parse_glb(d) == Err::<GlbView, ErrorView>(ErrorView::Version(le_u32(d.subrange(4, 8)))),
{
}

/// A header declaring a total length `L` over fewer than `L` bytes is rejected
/// with the declared and the available content lengths.
pub proof fn lemma_truncation_detected(d: Seq<u8>)
    requires
        d.len() >= header_size(),
        d.subrange(0, 4) == glb_magic(),
        header_size() <= le_u32(d.subrange(8, 12)),
        d.len() < le_u32(d.subrange(8, 12)),
    ensures
        parse_glb(d) == Err::<GlbView, ErrorView>(
            ErrorView::Length {
                length: (le_u32(d.subrange(8, 12)) - header_size()) as nat,
                length_read: (d.len() - header_size()) as nat,
            },
        ),
{
}

fn u8_arr_to_u32(arr: [u8; 4]) -> (r: u32)
    ensures
        r as nat == le_u32(arr@),
{
    arr[0] as u32 + (arr[1] as u32) * 256 + (arr[2] as u32) * 65536 + (arr[3] as u32) * 16777216
}

impl Header {
    fn from_reader(reader: &[u8]) -> (r: Result<Self, Error>)
        ensures
            match read_header(reader@) {
                Ok(h) => r is Ok && r->Ok_0@ == h,
                Err(e) => r is Err && r->Err_0@ == e,
            },
    {
        if reader.len() < Header::size_of() {
            return Err(Error::Io);
        }
        let magic: [u8; 4] = [reader[0], reader[1], reader[2], reader[3]];
        let version: [u8; 4] = [reader[4], reader[5], reader[6], reader[7]];
        let length: [u8; 4] = [reader[8], reader[9], reader[10], reader[11]];
        assert(magic@ =~= reader@.subrange(0, 4));
        assert(version@ =~= reader@.subrange(4, 8));
        assert(length@ =~= reader@.subrange(8, 12));
        // We only validate magic as we don't care for version and length of
        // contents, the caller does.
        if magic[0] == 0x67 && magic[1] == 0x6c && magic[2] == 0x54 && magic[3] == 0x46 {
            assert(magic@ =~= glb_magic());
            Ok(Self { magic, version: u8_arr_to_u32(version), length: u8_arr_to_u32(length) })
        } else {
            assert(magic@ != glb_magic()) by {
                if magic@ == glb_magic() {
                    assert(magic@[0] == glb_magic()[0]);
                    assert(magic@[1] == glb_magic()[1]);
                    assert(magic@[2] == glb_magic()[2]);
                    assert(magic@[3] == glb_magic()[3]);
                }
            }
            Err(Error::Magic(magic))
        }
    }

    fn size_of() -> (r: usize)
        ensures
            r == header_size(),
    {
        12
    }
}

impl ChunkHeader {
    fn from_reader(reader: &[u8]) -> (r: Result<Self, Error>)
        ensures
            match read_chunk(reader@) {
                Ok((len, ty)) => r is Ok && r->Ok_0.length as nat == len && r->Ok_0.ty == ty,
                Err(e) => r is Err && r->Err_0@ == e,
            },
    {
        if reader.len() < 8 {
            return Err(Error::Io);
        }
        let length: [u8; 4] = [reader[0], reader[1], reader[2], reader[3]];
        let ty: [u8; 4] = [reader[4], reader[5], reader[6], reader[7]];
        assert(length@ =~= reader@.subrange(0, 4));
        assert(ty@ =~= reader@.subrange(4, 8));
        let is_json = ty[0] == 0x4a && ty[1] == 0x53 && ty[2] == 0x4f && ty[3] == 0x4e;
        let is_bin = ty[0] == 0x42 && ty[1] == 0x49 && ty[2] == 0x4e && ty[3] == 0x00;
        assert(is_json <==> ty@ == json_tag()) by {
            if ty@ == json_tag() {
                assert(ty@[0] == json_tag()[0] && ty@[1] == json_tag()[1]);
                assert(ty@[2] == json_tag()[2] && ty@[3] == json_tag()[3]);
            }
            if is_json {
                assert(ty@ =~= json_tag());
            }
        }
        assert(is_bin <==> ty@ == bin_tag()) by {
            if ty@ == bin_tag() {
                assert(ty@[0] == bin_tag()[0] && ty@[1] == bin_tag()[1]);
                assert(ty@[2] == bin_tag()[2] && ty@[3] == bin_tag()[3]);
            }
            if is_bin {
                assert(ty@ =~= bin_tag());
            }
        }
        let ty = if is_json {
            ChunkType::Json
        } else if is_bin {
            ChunkType::Bin
        } else {
            return Err(Error::UnknownChunkType(ty));
        };
        Ok(Self { length: u8_arr_to_u32(length), ty })
    }
}

/// Reads the chunk of kind `ty` at the start of `data`, returning its payload
/// and the bytes that follow it.
fn take_chunk_exec(data: &[u8], ty: ChunkType) -> (r: Result<(&[u8], &[u8]), Error>)
    ensures
        match take_chunk(data@, ty) {
            Ok((payload, rest)) => r is Ok && r->Ok_0.0@ == payload && r->Ok_0.1@ == rest,
            Err(e) => r is Err && r->Err_0@ == e,
        },
{
    let h = match ChunkHeader::from_reader(data) {
        Ok(h) => h,
        Err(e) => return Err(e),
    };
    if h.ty != ty {
        return Err(Error::ChunkType(h.ty));
    }
    let body = slice_subrange(data, 8, data.len());
    if h.length as usize <= body.len() {
        let payload = slice_subrange(body, 0, h.length as usize);
        let rest = slice_subrange(body, h.length as usize, body.len());
        assert(payload@ =~= data@.subrange(8, 8 + h.length as int));
        assert(rest@ =~= data@.subrange(8 + h.length as int, data@.len() as int));
        Ok((payload, rest))
    } else {
        Err(Error::ChunkLength { ty, length: h.length, length_read: body.len() })
    }
}

fn split_binary_gltf(data: &[u8]) -> (r: Result<(&[u8], Option<&[u8]>), Error>)
    ensures
        match split_chunks(data@) {
            Ok((json, bin)) => r is Ok && r->Ok_0.0@ == json && match bin {
                Some(b) => r->Ok_0.1 is Some && r->Ok_0.1->Some_0@ == b,
                None => r->Ok_0.1 is None,
            },
            Err(e) => r is Err && r->Err_0@ == e,
        },
{
    let (json, data) = match take_chunk_exec(data, ChunkType::Json) {
        Ok(p) => p,
        Err(e) => return Err(e),
    };
    let bin = if !data.is_empty() {
        match take_chunk_exec(data, ChunkType::Bin) {
            Ok((bin, _)) => Some(bin),
            Err(e) => return Err(e),
        }
    } else {
        None
    };
    Ok((json, bin))
}

impl<'a> Glb<'a> {
    /// Splits loaded GLB into its three chunks.
    ///
    /// * Mandatory GLB header.
    /// * Mandatory JSON chunk.
    /// * Optional BIN chunk.
    pub fn from_slice(data: &'a [u8]) -> (r: Result<Self, crate::Error>)
        ensures
            parsed_as(r, parse_glb(data@)),
    {
        let header = match Header::from_reader(data) {
            Ok(h) => h,
            Err(e) => return Err(crate::Error::Binary(e)),
        };
        let data = slice_subrange(data, Header::size_of(), data.len());
        if header.length < 12 || (header.length - 12) as usize > data.len() {
            return Err(
                crate::Error::Binary(
                    Error::Length { length: header.length.wrapping_sub(12), length_read: data.len() },
                ),
            );
        }
        if header.version != 2 {
            return Err(crate::Error::Binary(Error::Version(header.version)));
        }
        match split_binary_gltf(data) {
            Ok((json, bin)) => Ok(Glb { header, json, bin }),
            Err(e) => Err(crate::Error::Binary(e)),
        }
    }
}

} // verus!
