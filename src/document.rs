//! The part of a decoded glTF document that buffer import reads.
use vstd::prelude::*;

verus! {

/// A buffer descriptor: the declared byte length of one logical buffer.
#[derive(Clone, Copy, Debug)]
pub struct Buffer {
    /// The length of the buffer in bytes.
    pub length: usize,
}

impl Buffer {
    /// The length of the buffer in bytes.
    pub fn length(&self) -> (r: usize)
        ensures
            r == self.length,
    {
        self.length
    }
}

/// The structured form of a container's JSON chunk, as far as buffer import
/// needs it: the buffer descriptors in declaration order. A descriptor's index
/// is its position.
#[derive(Clone, Debug)]
pub struct Document {
    /// The buffer descriptors of the document.
    pub buffers: Vec<Buffer>,
}

impl View for Document {
    type V = Seq<usize>;

    /// The declared buffer lengths, in order.
    open spec fn view(&self) -> Seq<usize> {
        self.buffers@.map_values(|b: Buffer| b.length)
    }
}

impl Document {
    /// The buffer descriptors, in declaration order.
    pub fn buffers(&self) -> (r: &Vec<Buffer>)
        ensures
            r == &self.buffers,
    {
        &self.buffers
    }
}

/// A decoded document together with the embedded BIN payload, if any.
#[derive(Clone, Debug)]
pub struct Gltf {
    /// The decoded document.
    pub document: Document,
    /// The BIN payload of a binary container.
    pub blob: Option<Vec<u8>>,
}

} // verus!
