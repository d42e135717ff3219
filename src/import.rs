//! Turning a document's buffer descriptors and the embedded BIN payload into
//! owned, padded buffer data.
use vstd::prelude::*;
use vstd::slice::slice_to_vec;
use crate::Error;
use crate::binary::{Glb, parse_glb};
use crate::buffer::{Data, pad_len, padded};
use crate::document::{Document, Gltf};

verus! {

/// The buffers realized for the descriptors `lengths[i..]` when the embedded
/// payload slot holds `slot`: each descriptor takes the slot's content, padded,
/// and leaves the slot empty.
pub open spec fn materialize_from(lengths: Seq<usize>, i: int, slot: Option<Seq<u8>>) -> Result<
    Seq<Seq<u8>>,
    Error,
>
    decreases lengths.len() - i,
{
    if i < 0 || i >= lengths.len() {
        Ok(seq![])
    } else {
        match slot {
            None => Err(Error::MissingBlob),
            Some(b) => if padded(b).len() < lengths[i] {
                Err(
                    Error::BufferLength {
                        buffer: i as usize,
                        expected: lengths[i],
                        actual: padded(b).len() as usize,
                    },
                )
            } else {
                match materialize_from(lengths, i + 1, None) {
                    Ok(rest) => Ok(seq![padded(b)] + rest),
                    Err(e) => Err(e),
                }
            },
        }
    }
}

/// The buffers realized for all descriptors `lengths` from the payload `blob`.
pub open spec fn materialize(lengths: Seq<usize>, blob: Option<Seq<u8>>) -> Result<
    Seq<Seq<u8>>,
    Error,
> {
    materialize_from(lengths, 0, blob)
}

/// The payload bytes held by an optional vector.
pub open spec fn blob_view(blob: Option<Vec<u8>>) -> Option<Seq<u8>> {
    match blob {
        Some(v) => Some(v@),
        None => None,
    }
}

/// `r` is the outcome `m` of materializing buffers.
pub open spec fn realized_as(r: Result<Vec<Data>, Error>, m: Result<Seq<Seq<u8>>, Error>) -> bool {
    match m {
        Ok(bufs) => r is Ok && r->Ok_0@.map_values(|d: Data| d@) == bufs,
        Err(e) => r is Err && r->Err_0 == e,
    }
}

/// Padding appends fewer than four zero bytes, keeps the original bytes in
/// front and gives a multiple of four; it never truncates.
pub proof fn lemma_padding(s: Seq<u8>)
    ensures
        padded(s).len() % 4 == 0,
        s.len() <= padded(s).len() < s.len() + 4,
        padded(s).subrange(0, s.len() as int) == s,
        forall|i: int| s.len() <= i < padded(s).len() ==> padded(s)[i] == 0,
{
    assert(padded(s).subrange(0, s.len() as int) =~= s);
}

/// When two or more descriptors draw on the embedded payload, the first one
/// takes it and the second finds it gone.
pub proof fn lemma_single_consumption(lengths: Seq<usize>, b: Seq<u8>)
    requires
        lengths.len() >= 2,
        padded(b).len() >= lengths[0],
    ensures
        materialize(lengths, Some(b)) == Err::<Seq<Seq<u8>>, Error>(Error::MissingBlob),
{
    assert(materialize_from(lengths, 1, None) == Err::<Seq<Seq<u8>>, Error>(Error::MissingBlob));
}

/// Every realized buffer is at least as long as its descriptor declares and a
/// multiple of four bytes long, one per descriptor.
pub proof fn lemma_realized_buffers(lengths: Seq<usize>, blob: Option<Seq<u8>>)
    requires
        materialize(lengths, blob) is Ok,
    ensures
        materialize(lengths, blob)->Ok_0.len() == lengths.len(),
        forall|i: int|
            0 <= i < lengths.len() ==> {
                &&& (#[trigger] materialize(lengths, blob)->Ok_0[i]).len() >= lengths[i]
                &&& materialize(lengths, blob)->Ok_0[i].len() % 4 == 0
            },
{
    if lengths.len() >= 1 {
        let b = blob->Some_0;
        lemma_padding(b);
        if lengths.len() >= 2 {
            lemma_single_consumption(lengths, b);
        } else {
            assert(materialize_from(lengths, 1, None) == Ok::<Seq<Seq<u8>>, Error>(seq![]));
            assert(materialize(lengths, blob)->Ok_0 =~= seq![padded(b)]);
        }
    }
}

impl Data {
    /// Construct a buffer data object by taking the `BIN` section of a binary
    /// glTF file out of `blob`, padded with zero bytes to a multiple of four.
    pub fn from_blob(blob: &mut Option<Vec<u8>>) -> (r: Result<Self, Error>)
        ensures
            *final(blob) is None,
            match *old(blob) {
                None => r is Err && r->Err_0 is MissingBlob,
                Some(v) => r is Ok && r->Ok_0@ == padded(v@),
            },
    {
        let mut data = match blob.take() {
            Some(d) => d,
            None => return Err(Error::MissingBlob),
        };
        let ghost v = data@;
        while data.len() % 4 != 0
            invariant
                v.len() <= data@.len() <= v.len() + pad_len(v.len()),
                data@ == padded(v).subrange(0, data@.len() as int),
            decreases v.len() + pad_len(v.len()) - data@.len(),
        {
            data.push(0);
            assert(data@ =~= padded(v).subrange(0, data@.len() as int));
        }
        assert(data@ =~= padded(v));
        Ok(Data(data))
    }
}

/// Import buffer data referenced by a glTF document: every descriptor, in
/// order, takes the embedded payload, which can be taken only once.
pub fn import_buffers(document: &Document, blob: Option<Vec<u8>>) -> (r: Result<Vec<Data>, Error>)
    ensures
        realized_as(r, materialize(document@, blob_view(blob))),
{
    let mut remaining = blob;
    let mut buffers: Vec<Data> = Vec::new();
    let ghost lengths = document@;
    let ghost original = blob_view(remaining);
    let n = document.buffers().len();
    let mut i: usize = 0;
    while i < n
        invariant
            n == document.buffers@.len(),
            lengths == document@,
            lengths.len() == n,
            0 <= i <= n,
            original == blob_view(blob),
            materialize(lengths, original) == match materialize_from(
                lengths,
                i as int,
                blob_view(remaining),
            ) {
                Ok(rest) => Ok(buffers@.map_values(|d: Data| d@) + rest),
                Err(e) => Err(e),
            },
        decreases n - i,
    {
        let length = document.buffers()[i].length();
        assert(length == lengths[i as int]);
        let ghost slot = blob_view(remaining);
        let data = match Data::from_blob(&mut remaining) {
            Ok(d) => d,
            Err(e) => return Err(e),
        };
        assert(slot is Some && data@ == padded(slot->Some_0));
        if data.len() < length {
            return Err(Error::BufferLength { buffer: i, expected: length, actual: data.len() });
        }
        let ghost before = buffers@.map_values(|d: Data| d@);
        buffers.push(data);
        assert(buffers@.map_values(|d: Data| d@) =~= before.push(data@));
        i = i + 1;
        proof {
            match materialize_from(lengths, i as int, None) {
                Ok(rest) => {
                    assert(before + (seq![data@] + rest) =~= before.push(data@) + rest);
                },
                Err(_) => {},
            }
        }
    }
    Ok(buffers)
}

/// `r` is the outcome `m` of materializing the buffers of `document`, which
/// comes back with them.
pub open spec fn imported_as(
    r: Result<(Document, Vec<Data>), Error>,
    document: Document,
    m: Result<Seq<Seq<u8>>, Error>,
) -> bool {
    match m {
        Ok(bufs) => r is Ok && r->Ok_0.0 == document && r->Ok_0.1@.map_values(|d: Data| d@) == bufs,
        Err(e) => r is Err && r->Err_0 == e,
    }
}

/// What importing a binary container gives, given the decoded document of
/// its JSON chunk.
pub open spec fn import_outcome(
    r: Result<(Document, Vec<Data>), Error>,
    slice: Seq<u8>,
    document: Document,
) -> bool {
    match parse_glb(slice) {
        Err(e) => r is Err && r->Err_0 is Binary && r->Err_0->Binary_0@ == e,
        Ok(g) => imported_as(r, document, materialize(document@, g.bin)),
    }
}

fn import_impl(gltf: Gltf) -> (r: Result<(Document, Vec<Data>), Error>)
    ensures
        imported_as(r, gltf.document, materialize(gltf.document@, blob_view(gltf.blob))),
{
    let Gltf { document, blob } = gltf;
    let buffer_data = match import_buffers(&document, blob) {
        Ok(b) => b,
        Err(e) => return Err(e),
    };
    Ok((document, buffer_data))
}

fn import_slice_impl(slice: &[u8], document: Document) -> (r: Result<(Document, Vec<Data>), Error>)
    ensures
        import_outcome(r, slice@, document),
{
    let glb = match Glb::from_slice(slice) {
        Ok(g) => g,
        Err(e) => return Err(e),
    };
    let blob = match glb.bin {
        Some(b) => Some(slice_to_vec(b)),
        None => None,
    };
    import_impl(Gltf { document, blob })
}

/// Import glTF 2.0 from a slice holding a binary container, given the
/// document decoded from its JSON chunk: the container is split and the
/// document's buffers are realized from its BIN chunk.
pub fn import_slice(slice: &[u8], document: Document) -> (r: Result<(Document, Vec<Data>), Error>)
    ensures
        import_outcome(r, slice@, document),
{
    import_slice_impl(slice, document)
}

} // verus!
