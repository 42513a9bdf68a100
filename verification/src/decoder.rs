//! The decoder shell: owns a byte source and the frame metadata that the
//! scan decoding it is built towards will fill in. Entropy-coded scan
//! decoding itself is outside this library.

use vstd::prelude::*;

verus! {

/// Owner of a byte source and of the frame metadata of the image it holds,
/// zeroed until a header parse fills it.
#[derive(Debug)]
pub struct Decoder {
    data: Vec<u8>,
    width: u32,
    height: u32,
    bits_per_sample: u8,
    component_count: u8,
}

impl Decoder {
    /// The bytes of the owned source.
    pub closed spec fn bytes(&self) -> Seq<u8> {
        self.data@
    }

    /// The samples per line recorded so far.
    pub closed spec fn width(&self) -> u32 {
        self.width
    }

    /// The number of lines recorded so far.
    pub closed spec fn height(&self) -> u32 {
        self.height
    }

    /// The bits per sample recorded so far.
    pub closed spec fn bits_per_sample(&self) -> u8 {
        self.bits_per_sample
    }

    /// The component count recorded so far.
    pub closed spec fn component_count(&self) -> u8 {
        self.component_count
    }

    /// Builds a decoder over the given bytes with zeroed frame metadata.
    pub fn new(data: Vec<u8>) -> (r: Decoder)
        ensures
            r.bytes() == data@,
            r.width() == 0,
            r.height() == 0,
            r.bits_per_sample() == 0,
            r.component_count() == 0,
    {
        let width: u32 = 0;
        let height: u32 = 0;
        let bits_per_sample: u8 = 0;
        let component_count: u8 = 0;
        Decoder { data, width, height, bits_per_sample, component_count }
    }
}

} // verus!
