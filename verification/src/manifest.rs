//! The manifest extractor: resolves a located resource's data range and
//! decodes the raw bytes as UTF-8 text.

use vstd::prelude::*;
use vstd::utf8::{decode_utf8, valid_utf8};
use crate::bytes::ImageBuffer;
use crate::errors::ExtractError;
use crate::pe::{ImageLayout, LayoutModel};
use crate::resource::ResourceDataEntry;
use crate::rva::{lemma_resolve_ok_bounds, resolve_spec};

verus! {

/// What `extract` returns on every input: the decoding of the resource's raw
/// bytes, `InvalidEncoding` when they are not valid UTF-8, or the resolver's
/// failure when the data range does not fit the buffer.
pub open spec fn extract_spec(b: Seq<u8>, l: LayoutModel, d: ResourceDataEntry) -> Result<
    Seq<char>,
    ExtractError,
> {
    match resolve_spec(l, d.data_rva as u64, d.size as u64) {
        Err(e) => Err(ExtractError::Parse(e)),
        Ok(rg) => {
            let raw = b.subrange(rg.start as int, rg.start as int + rg.len as int);
            if valid_utf8(raw) {
                Ok(decode_utf8(raw))
            } else {
                Err(ExtractError::InvalidEncoding)
            }
        },
    }
}

/// Relies on `String::from_utf8`: it succeeds exactly on input that is valid
/// UTF-8, and the returned string's characters are the input's decoding.
#[verifier::external_body]
fn string_from_utf8(bytes: Vec<u8>) -> (r: Option<String>)
    ensures
        r is Some <==> valid_utf8(bytes@),
        r is Some ==> r->0@ == decode_utf8(bytes@),
{
    match String::from_utf8(bytes) {
        Ok(s) => Some(s),
        Err(_) => None,
    }
}

/// Resolves the data entry's range and decodes the bytes there as text.
///
/// Fails with `InvalidEncoding` when the bytes are not valid UTF-8, and wraps
/// the resolver's error when the range does not fit the buffer; the text of a
/// successful extraction equals the decoding of exactly the bytes embedded at
/// the resolved range.
pub fn extract(buf: &ImageBuffer, layout: &ImageLayout, entry: ResourceDataEntry) -> (r: Result<
    String,
    ExtractError,
>)
    requires
        layout@.image_size == buf@.len(),
    ensures
        match r {
            Ok(s) => extract_spec(buf@, layout@, entry) == Ok::<Seq<char>, ExtractError>(s@),
            Err(e) => extract_spec(buf@, layout@, entry) == Err::<Seq<char>, ExtractError>(e),
        },
{
    let rg = match layout.resolve(entry.data_rva as u64, entry.size as u64) {
        Err(e) => {
            return Err(ExtractError::Parse(e));
        },
        Ok(rg) => rg,
    };
    proof {
        lemma_resolve_ok_bounds(layout@, entry.data_rva as u64, entry.size as u64);
    }
    let mut raw: Vec<u8> = Vec::new();
    let mut i: usize = 0;
    while i < rg.len
        invariant
            rg.start + rg.len <= buf@.len(),
            buf@.len() <= usize::MAX,
            0 <= i <= rg.len,
            raw@ == buf@.subrange(rg.start as int, rg.start as int + i as int),
        decreases rg.len - i,
    {
        raw.push(buf.byte_at(rg.start + i));
        proof {
            assert(raw@ =~= buf@.subrange(rg.start as int, rg.start as int + i as int + 1));
        }
        i = i + 1;
    }
    match string_from_utf8(raw) {
        Some(s) => Ok(s),
        None => Err(ExtractError::InvalidEncoding),
    }
}

} // verus!
