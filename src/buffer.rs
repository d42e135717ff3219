//! Materialized buffer contents.
use vstd::prelude::*;

verus! {

/// Buffer data belonging to an imported glTF asset: always a whole number of
/// four-byte words.
#[derive(Clone, Debug)]
pub struct Data(pub Vec<u8>);

impl View for Data {
    type V = Seq<u8>;

    open spec fn view(&self) -> Seq<u8> {
        self.0@
    }
}

impl Data {
    /// The number of bytes held.
    pub fn len(&self) -> (r: usize)
        ensures
            r == self@.len(),
    {
        self.0.len()
    }
}

/// How many zero bytes bring a length of `n` to a multiple of four.
pub open spec fn pad_len(n: nat) -> nat {
    ((4 - n % 4) % 4) as nat
}

/// `s` followed by zero bytes up to the next multiple of four.
pub open spec fn padded(s: Seq<u8>) -> Seq<u8> {
    s + Seq::new(pad_len(s.len()), |_i: int| 0u8)
}

} // verus!
