//! The byte source: an image buffer with little-endian field readers.

use vstd::prelude::*;

verus! {

/// Little-endian 16-bit value stored at `off` in `b`.
pub open spec fn le16(b: Seq<u8>, off: int) -> int
    recommends
        0 <= off,
        off + 2 <= b.len(),
{
    b[off] as int + 0x100 * (b[off + 1] as int)
}

/// Little-endian 32-bit value stored at `off` in `b`.
pub open spec fn le32(b: Seq<u8>, off: int) -> int
    recommends
        0 <= off,
        off + 4 <= b.len(),
{
    b[off] as int + 0x100 * (b[off + 1] as int) + 0x10000 * (b[off + 2] as int) + 0x1000000 * (b[
        off + 3
    ] as int)
}

/// The complete contents of one candidate file, immutable once loaded.
pub struct ImageBuffer {
    pub data: Vec<u8>,
}

impl View for ImageBuffer {
    type V = Seq<u8>;

    open spec fn view(&self) -> Seq<u8> {
        self.data@
    }
}

impl ImageBuffer {
    pub fn new(data: Vec<u8>) -> (r: ImageBuffer)
        ensures
            r@ == data@,
    {
        ImageBuffer { data }
    }

    pub fn len(&self) -> (r: usize)
        ensures
            r == self@.len(),
    {
        self.data.len()
    }

    /// Reads the little-endian 16-bit field at `off`.
    pub fn read_u16(&self, off: usize) -> (r: u16)
        requires
            off + 2 <= self@.len(),
        ensures
            r as int == le16(self@, off as int),
    {
        let _n = self.data.len();
        let lo = self.data[off] as u16;
        let hi = self.data[off + 1] as u16;
        lo + 0x100 * hi
    }

    /// Reads the little-endian 32-bit field at `off`.
    pub fn read_u32(&self, off: usize) -> (r: u32)
        requires
            off + 4 <= self@.len(),
        ensures
            r as int == le32(self@, off as int),
    {
        let _n = self.data.len();
        let b0 = self.data[off] as u32;
        let b1 = self.data[off + 1] as u32;
        let b2 = self.data[off + 2] as u32;
        let b3 = self.data[off + 3] as u32;
        b0 + 0x100 * b1 + 0x10000 * b2 + 0x1000000 * b3
    }

    pub fn byte_at(&self, off: usize) -> (r: u8)
        requires
            off < self@.len(),
        ensures
            r == self@[off as int],
    {
        self.data[off]
    }
}

} // verus!
