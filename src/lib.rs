//! Reading of binary glTF containers and materialization of their embedded
//! buffers.
use vstd::prelude::*;

pub mod binary;
pub mod buffer;
pub mod document;
pub mod import;

pub use binary::Glb;
pub use buffer::Data;
pub use document::{Buffer, Document, Gltf};
pub use import::{import_buffers, import_slice};

verus! {

/// Represents a runtime error.
#[derive(Debug)]
pub enum Error {
    /// The binary container could not be split into its chunks.
    Binary(binary::Error),
    /// A buffer needs the embedded BIN payload, but it is absent or already taken.
    MissingBlob,
    /// A buffer's data is shorter than its declared length.
    BufferLength {
        /// Index of the affected buffer.
        buffer: usize,
        /// Declared length of the buffer.
        expected: usize,
        /// Length of the data that was found for it.
        actual: usize,
    },
}

} // verus!
