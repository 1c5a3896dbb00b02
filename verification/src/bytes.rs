//! Byte values as an evaluation hands them out.

use vstd::prelude::*;
use vstd::utf8::encode_utf8;

verus! {

/// The bytes of a value that a worker returned.
#[derive(Debug, PartialEq, Eq)]
pub struct BytesValue {
    bytes: Vec<u8>,
}

impl View for BytesValue {
    type V = Seq<u8>;

    closed spec fn view(&self) -> Seq<u8> {
        self.bytes@
    }
}

impl BytesValue {
    /// The UTF-8 bytes of `text`.
    pub fn from_text(text: &str) -> (value: BytesValue)
        ensures
            value@ == encode_utf8(text@),
    {
        BytesValue { bytes: text.as_bytes_vec() }
    }

    /// The bytes themselves.
    pub fn as_bytes(&self) -> (bytes: &[u8])
        ensures
            bytes@ == self@,
    {
        self.bytes.as_slice()
    }
}

} // verus!
