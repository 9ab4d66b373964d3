//! The PE image parser: validates the DOS stub, the NT signature and the
//! 64-bit optional-header magic, then reads the section table and the
//! resource-directory slot of the data-directory array.

use vstd::prelude::*;
use crate::bytes::{le16, le32, ImageBuffer};
use crate::errors::ParseError;

verus! {

/// One slot of the optional header's data-directory array.
#[derive(Clone, Copy, Debug, PartialEq, Eq, Structural)]
pub struct DataDirectoryEntry {
    pub virtual_address: u32,
    pub size: u32,
}

/// One row of the section table, as the resolver consumes it.
pub struct SectionDescriptor {
    /// The fixed 8-byte identifier, trimmed at its first NUL byte.
    pub name: Vec<u8>,
    pub virtual_address: u32,
    pub virtual_size: u32,
    pub raw_data_pointer: u32,
    pub raw_data_size: u32,
}

/// Mathematical model of one section.
#[verifier::ext_equal]
pub struct SectionModel {
    pub name: Seq<u8>,
    pub virtual_address: u32,
    pub virtual_size: u32,
    pub raw_data_pointer: u32,
    pub raw_data_size: u32,
}

impl View for SectionDescriptor {
    type V = SectionModel;

    open spec fn view(&self) -> SectionModel {
        SectionModel {
            name: self.name@,
            virtual_address: self.virtual_address,
            virtual_size: self.virtual_size,
            raw_data_pointer: self.raw_data_pointer,
            raw_data_size: self.raw_data_size,
        }
    }
}

/// Everything the later stages need from a parsed image: the section table in
/// file order, the resource-directory slot, and the buffer length the layout
/// was parsed from.
pub struct ImageLayout {
    pub sections: Vec<SectionDescriptor>,
    pub resource_dir: DataDirectoryEntry,
    pub image_size: usize,
}

/// Mathematical model of a parsed layout.
#[verifier::ext_equal]
pub struct LayoutModel {
    pub sections: Seq<SectionModel>,
    pub resource_dir: DataDirectoryEntry,
    pub image_size: int,
}

impl View for ImageLayout {
    type V = LayoutModel;

    open spec fn view(&self) -> LayoutModel {
        LayoutModel {
            sections: self.sections@.map_values(|s: SectionDescriptor| s@),
            resource_dir: self.resource_dir,
            image_size: self.image_size as int,
        }
    }
}

/// Index of the first NUL byte of `s` at or after `i`, or `s.len()` if none.
pub open spec fn name_cut(s: Seq<u8>, i: int) -> int
    recommends
        0 <= i <= s.len(),
    decreases s.len() - i when 0 <= i <= s.len()
{
    if i >= s.len() {
        i
    } else if s[i] == 0 {
        i
    } else {
        name_cut(s, i + 1)
    }
}

/// A section name is its 8 raw bytes up to the first NUL.
pub open spec fn trim_name(s: Seq<u8>) -> Seq<u8> {
    s.take(name_cut(s, 0))
}

pub proof fn lemma_name_cut_at(s: Seq<u8>, i: int, n: int)
    requires
        0 <= i <= n <= s.len(),
        forall|k: int| i <= k < n ==> s[k] != 0,
        n == s.len() || s[n] == 0,
    ensures
        name_cut(s, i) == n,
    decreases n - i,
{
    if i < n {
        lemma_name_cut_at(s, i + 1, n);
    }
}

/// The section-table row stored at offset `off` of the buffer.
pub open spec fn section_model(b: Seq<u8>, off: int) -> SectionModel
    recommends
        0 <= off,
        off + 40 <= b.len(),
{
    SectionModel {
        name: trim_name(b.subrange(off, off + 8)),
        virtual_size: le32(b, off + 8) as u32,
        virtual_address: le32(b, off + 12) as u32,
        raw_data_size: le32(b, off + 16) as u32,
        raw_data_pointer: le32(b, off + 20) as u32,
    }
}

/// The resource-directory slot of the data-directory array, whose entries
/// start 112 bytes into the optional header; the slot is present only when
/// the optional header is long enough and the directory count covers it.
pub open spec fn resource_dir_model(b: Seq<u8>, opt: int, optsize: int) -> DataDirectoryEntry {
    if optsize >= 136 && le32(b, opt + 108) >= 3 {
        DataDirectoryEntry {
            virtual_address: le32(b, opt + 128) as u32,
            size: le32(b, opt + 132) as u32,
        }
    } else {
        DataDirectoryEntry { virtual_address: 0, size: 0 }
    }
}

/// What `parse` returns on every input: the validated layout of a 64-bit PE
/// image, or the first failure in validation order.
pub open spec fn parse_spec(b: Seq<u8>) -> Result<LayoutModel, ParseError> {
    if b.len() < 64 {
        Err(ParseError::Truncated)
    } else if !(b[0] == 0x4d && b[1] == 0x5a) {
        Err(ParseError::BadMagic)
    } else {
        let pe = le32(b, 60);
        if pe + 26 > b.len() {
            Err(ParseError::Truncated)
        } else if !(b[pe] == 0x50 && b[pe + 1] == 0x45 && b[pe + 2] == 0 && b[pe + 3] == 0) {
            Err(ParseError::BadMagic)
        } else {
            let optmagic = le16(b, pe + 24);
            if optmagic == 0x10b {
                Err(ParseError::Not64Bit)
            } else if optmagic != 0x20b {
                Err(ParseError::BadMagic)
            } else {
                let nsec = le16(b, pe + 6);
                let optsize = le16(b, pe + 20);
                let sect = pe + 24 + optsize;
                if sect + 40 * nsec > b.len() {
                    Err(ParseError::Truncated)
                } else {
                    Ok(LayoutModel {
                        sections: Seq::new(nsec as nat, |i: int| section_model(b, sect + 40 * i)),
                        resource_dir: resource_dir_model(b, pe + 24, optsize),
                        image_size: b.len() as int,
                    })
                }
            }
        }
    }
}

/// Any buffer shorter than a minimal DOS header is rejected outright.
pub proof fn lemma_short_buffer_rejected(b: Seq<u8>)
    requires
        b.len() < 64,
    ensures
        parse_spec(b) == Err::<LayoutModel, ParseError>(ParseError::Truncated),
{
}

/// Reads one section name: the 8 bytes at `off`, trimmed at the first NUL.
fn read_section_name(buf: &ImageBuffer, off: usize) -> (r: Vec<u8>)
    requires
        off + 8 <= buf@.len(),
    ensures
        r@ == trim_name(buf@.subrange(off as int, off as int + 8)),
{
    let ghost s = buf@.subrange(off as int, off as int + 8);
    let _blen = buf.len();
    let mut n: usize = 0;
    while n < 8 && buf.byte_at(off + n) != 0
        invariant
            off + 8 <= buf@.len(),
            buf@.len() <= usize::MAX,
            s == buf@.subrange(off as int, off as int + 8),
            0 <= n <= 8,
            forall|k: int| 0 <= k < n ==> s[k] != 0,
        decreases 8 - n,
    {
        proof {
            assert(s[n as int] == buf@[off as int + n as int]);
        }
        n = n + 1;
    }
    proof {
        lemma_name_cut_at(s, 0, n as int);
    }
    let mut out: Vec<u8> = Vec::new();
    let mut j: usize = 0;
    while j < n
        invariant
            n <= 8,
            off + 8 <= buf@.len(),
            buf@.len() <= usize::MAX,
            s == buf@.subrange(off as int, off as int + 8),
            0 <= j <= n,
            out@ == s.take(j as int),
        decreases n - j,
    {
        out.push(buf.byte_at(off + j));
        proof {
            assert(s[j as int] == buf@[off as int + j as int]);
            assert(out@ =~= s.take(j as int + 1));
        }
        j = j + 1;
    }
    proof {
        assert(out@ =~= trim_name(s));
    }
    out
}

/// Validates the header chain of a 64-bit PE image and returns its layout.
///
/// Fails with `Truncated` when a required read would pass the end of the
/// buffer, `BadMagic` when a signature check fails, and `Not64Bit` when the
/// optional-header magic identifies a 32-bit image.
pub fn parse(buf: &ImageBuffer) -> (r: Result<ImageLayout, ParseError>)
    ensures
        match r {
            Ok(l) => parse_spec(buf@) == Ok::<LayoutModel, ParseError>(l@),
            Err(e) => parse_spec(buf@) == Err::<LayoutModel, ParseError>(e),
        },
{
    let len = buf.len();
    if len < 64 {
        return Err(ParseError::Truncated);
    }
    if !(buf.byte_at(0) == 0x4d && buf.byte_at(1) == 0x5a) {
        return Err(ParseError::BadMagic);
    }
    let pe64: u64 = buf.read_u32(60) as u64;
    if pe64 + 26 > len as u64 {
        return Err(ParseError::Truncated);
    }
    let pe = pe64 as usize;
    if !(buf.byte_at(pe) == 0x50 && buf.byte_at(pe + 1) == 0x45 && buf.byte_at(pe + 2) == 0
        && buf.byte_at(pe + 3) == 0) {
        return Err(ParseError::BadMagic);
    }
    let optmagic = buf.read_u16(pe + 24);
    if optmagic == 0x10b {
        return Err(ParseError::Not64Bit);
    }
    if optmagic != 0x20b {
        return Err(ParseError::BadMagic);
    }
    let nsec = buf.read_u16(pe + 6) as usize;
    let optsize = buf.read_u16(pe + 20) as usize;
    let sect64 = pe as u64 + 24 + optsize as u64;
    if sect64 + 40 * nsec as u64 > len as u64 {
        return Err(ParseError::Truncated);
    }
    let sect = sect64 as usize;
    let ghost b = buf@;
    let ghost secs_spec = Seq::new(nsec as nat, |i: int| section_model(b, sect as int + 40 * i));

    let mut sections: Vec<SectionDescriptor> = Vec::new();
    let mut i: usize = 0;
    while i < nsec
        invariant
            sect + 40 * nsec <= buf@.len(),
            buf@.len() <= usize::MAX,
            b == buf@,
            secs_spec == Seq::new(nsec as nat, |k: int| section_model(b, sect as int + 40 * k)),
            0 <= i <= nsec,
            sections@.len() == i,
            forall|j: int| 0 <= j < i ==> #[trigger] sections@[j]@ == secs_spec[j],
        decreases nsec - i,
    {
        let soff = sect + 40 * i;
        let name = read_section_name(buf, soff);
        let sd = SectionDescriptor {
            name,
            virtual_size: buf.read_u32(soff + 8),
            virtual_address: buf.read_u32(soff + 12),
            raw_data_size: buf.read_u32(soff + 16),
            raw_data_pointer: buf.read_u32(soff + 20),
        };
        proof {
            assert(sd@ =~= section_model(b, soff as int));
        }
        sections.push(sd);
        i = i + 1;
    }

    let resource_dir = if optsize >= 136 {
        let ndirs = buf.read_u32(pe + 24 + 108);
        if ndirs >= 3 {
            DataDirectoryEntry {
                virtual_address: buf.read_u32(pe + 24 + 128),
                size: buf.read_u32(pe + 24 + 132),
            }
        } else {
            DataDirectoryEntry { virtual_address: 0, size: 0 }
        }
    } else {
        DataDirectoryEntry { virtual_address: 0, size: 0 }
    };

    let layout = ImageLayout { sections, resource_dir, image_size: len };
    proof {
        assert(layout@.sections =~= secs_spec);
        assert(layout@ =~= parse_spec(b)->Ok_0);
    }
    Ok(layout)
}

} // verus!
