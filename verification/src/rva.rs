//! The RVA resolver: maps a relative virtual address to a file offset through
//! the section table, first containing section in file order winning.

use vstd::prelude::*;
use crate::errors::ParseError;
use crate::pe::{ImageLayout, LayoutModel, SectionModel};

verus! {

/// A resolved range of bytes inside the image buffer.
#[derive(Clone, Copy, Debug, PartialEq, Eq, Structural)]
pub struct ByteRange {
    pub start: usize,
    pub len: usize,
}

/// The span of addresses a section covers: its virtual address up to the
/// larger of its virtual size and its raw data size.
pub open spec fn sec_contains(s: SectionModel, rva: u64) -> bool {
    s.virtual_address <= rva
        && (rva as int) < s.virtual_address as int + if s.virtual_size >= s.raw_data_size {
        s.virtual_size as int
    } else {
        s.raw_data_size as int
    }
}

/// Index of the first section at or after `i` that contains `rva`.
pub open spec fn first_containing_from(ss: Seq<SectionModel>, rva: u64, i: int) -> Option<int>
    recommends
        0 <= i <= ss.len(),
    decreases ss.len() - i when 0 <= i <= ss.len()
{
    if i >= ss.len() {
        None
    } else if sec_contains(ss[i], rva) {
        Some(i)
    } else {
        first_containing_from(ss, rva, i + 1)
    }
}

/// What `resolve` returns on every input: the file range of `len` bytes that
/// `rva` denotes, or the first failure.
pub open spec fn resolve_spec(l: LayoutModel, rva: u64, len: u64) -> Result<ByteRange, ParseError> {
    match first_containing_from(l.sections, rva, 0) {
        None => Err(ParseError::UnresolvedRva),
        Some(i) => {
            let s = l.sections[i];
            let start = s.raw_data_pointer as int + (rva as int - s.virtual_address as int);
            if start + len as int <= l.image_size {
                Ok(ByteRange { start: start as usize, len: len as usize })
            } else {
                Err(ParseError::Truncated)
            }
        },
    }
}

/// A found index points at a section that contains the address.
pub proof fn lemma_first_containing_props(ss: Seq<SectionModel>, rva: u64, i: int)
    requires
        0 <= i <= ss.len(),
    ensures
        match first_containing_from(ss, rva, i) {
            Some(j) => i <= j < ss.len() && sec_contains(ss[j], rva),
            None => true,
        },
    decreases ss.len() - i,
{
    if i < ss.len() && !sec_contains(ss[i], rva) {
        lemma_first_containing_props(ss, rva, i + 1);
    }
}

/// A successful resolution stays inside the image: the range has the
/// requested length and ends at or before the end of the buffer.
pub proof fn lemma_resolve_ok_bounds(l: LayoutModel, rva: u64, len: u64)
    requires
        resolve_spec(l, rva, len) is Ok,
        l.image_size <= usize::MAX,
        len <= usize::MAX,
    ensures
        ({
            let rg = resolve_spec(l, rva, len)->Ok_0;
            rg.len == len && rg.start + rg.len <= l.image_size
        }),
{
    lemma_first_containing_props(l.sections, rva, 0);
}

/// Resolving the same address twice yields the same byte range: the result of
/// `resolve` is a function of the layout and the address alone.
pub proof fn lemma_resolve_idempotent(
    l: LayoutModel,
    rva: u64,
    len: u64,
    r1: Result<ByteRange, ParseError>,
    r2: Result<ByteRange, ParseError>,
)
    requires
        r1 == resolve_spec(l, rva, len),
        r2 == resolve_spec(l, rva, len),
    ensures
        r1 == r2,
{
}

impl ImageLayout {
    /// Maps `rva` to the file offset of a `len`-byte range.
    ///
    /// Fails with `UnresolvedRva` when no section contains the address, and
    /// with `Truncated` when the mapped range passes the end of the buffer.
    pub fn resolve(&self, rva: u64, len: u64) -> (r: Result<ByteRange, ParseError>)
        ensures
            r == resolve_spec(self@, rva, len),
    {
        let n = self.sections.len();
        let mut i: usize = 0;
        while i < n
            invariant
                n == self.sections@.len(),
                0 <= i <= n,
                first_containing_from(self@.sections, rva, 0) == first_containing_from(
                    self@.sections,
                    rva,
                    i as int,
                ),
            decreases n - i,
        {
            let s = &self.sections[i];
            let top: u64 = s.virtual_address as u64 + if s.virtual_size >= s.raw_data_size {
                s.virtual_size as u64
            } else {
                s.raw_data_size as u64
            };
            if s.virtual_address as u64 <= rva && rva < top {
                proof {
                    assert(sec_contains(self@.sections[i as int], rva));
                }
                let start: u64 = s.raw_data_pointer as u64 + (rva - s.virtual_address as u64);
                if len <= u64::MAX - start && start + len <= self.image_size as u64 {
                    return Ok(ByteRange { start: start as usize, len: len as usize });
                } else {
                    return Err(ParseError::Truncated);
                }
            }
            proof {
                assert(!sec_contains(self@.sections[i as int], rva));
            }
            i = i + 1;
        }
        Err(ParseError::UnresolvedRva)
    }
}

} // verus!
