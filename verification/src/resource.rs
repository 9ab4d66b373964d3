//! The resource tree navigator: walks the three-level resource directory
//! (Type, Name, Language) rooted at the resource-directory RVA and collects,
//! for a requested resource type, every leaf data entry at the Language level.
//!
//! Every offset inside the directory is relative to the directory's own RVA,
//! so each read adds that root before resolving through the section table.

use vstd::prelude::*;
use crate::bytes::{le16, le32, ImageBuffer};
use crate::errors::ParseError;
use crate::pe::{ImageLayout, LayoutModel};
use crate::rva::resolve_spec;

verus! {

/// The well-known resource type id of an embedded application manifest.
pub const RT_MANIFEST: u32 = 24;

/// A leaf of the resource tree: the raw resource bytes' address and size.
#[derive(Clone, Copy, Debug, PartialEq, Eq, Structural)]
pub struct ResourceDataEntry {
    pub data_rva: u32,
    pub size: u32,
    /// Stored but never consumed; manifests are treated as plain text.
    pub codepage: u32,
}

/// Image address of the byte `rel` inside the resource directory.
pub open spec fn table_rva(root: u32, rel: u32) -> u64 {
    (root as int + rel as int) as u64
}

/// The (named, id) entry counts of the directory table at `rel`:
/// two 16-bit fields, 12 and 14 bytes into the 16-byte table header.
pub open spec fn table_counts_spec(b: Seq<u8>, l: LayoutModel, root: u32, rel: u32) -> Result<
    (int, int),
    ParseError,
> {
    match resolve_spec(l, table_rva(root, rel), 16) {
        Err(e) => Err(e),
        Ok(rg) => Ok((le16(b, rg.start as int + 12), le16(b, rg.start as int + 14))),
    }
}

/// The two 32-bit fields of entry `i` of the table at `rel`: the identifier
/// field and the offset field. Entries are 8 bytes each and follow the
/// 16-byte table header.
pub open spec fn entry_fields_spec(
    b: Seq<u8>,
    l: LayoutModel,
    root: u32,
    rel: u32,
    i: int,
) -> Result<(int, int), ParseError> {
    match resolve_spec(l, (root as int + rel as int + 16 + 8 * i) as u64, 8) {
        Err(e) => Err(e),
        Ok(rg) => Ok((le32(b, rg.start as int), le32(b, rg.start as int + 4))),
    }
}

/// The leaf data entry stored at `rel`: data RVA, size, codepage.
pub open spec fn data_entry_spec(b: Seq<u8>, l: LayoutModel, root: u32, rel: u32) -> Result<
    ResourceDataEntry,
    ParseError,
> {
    match resolve_spec(l, table_rva(root, rel), 16) {
        Err(e) => Err(e),
        Ok(rg) => Ok(
            ResourceDataEntry {
                data_rva: le32(b, rg.start as int) as u32,
                size: le32(b, rg.start as int + 4) as u32,
                codepage: le32(b, rg.start as int + 8) as u32,
            },
        ),
    }
}

/// Leaves found among the first `i` entries of the Language-level table at
/// `rel`, in entry order. An entry whose offset field has its high bit set
/// points at a deeper table, which a well-formed image does not have below
/// the Language level; such an entry contributes nothing.
pub open spec fn lang_prefix_spec(
    b: Seq<u8>,
    l: LayoutModel,
    root: u32,
    rel: u32,
    i: int,
) -> Result<Seq<ResourceDataEntry>, ParseError>
    decreases i when i >= 0
{
    if i <= 0 {
        Ok(Seq::empty())
    } else {
        match lang_prefix_spec(b, l, root, rel, i - 1) {
            Err(e) => Err(e),
            Ok(acc) => match entry_fields_spec(b, l, root, rel, i - 1) {
                Err(e) => Err(e),
                Ok((ident, off)) => if off < 0x80000000 {
                    match data_entry_spec(b, l, root, off as u32) {
                        Err(e) => Err(e),
                        Ok(d) => Ok(acc.push(d)),
                    }
                } else {
                    Ok(acc)
                },
            },
        }
    }
}

/// All leaves of the Language-level table at `rel`.
pub open spec fn lang_leaves_spec(b: Seq<u8>, l: LayoutModel, root: u32, rel: u32) -> Result<
    Seq<ResourceDataEntry>,
    ParseError,
> {
    match table_counts_spec(b, l, root, rel) {
        Err(e) => Err(e),
        Ok((nn, ni)) => lang_prefix_spec(b, l, root, rel, nn + ni),
    }
}

/// Leaves found under the first `j` entries of the Name-level table at `rel`,
/// in entry order. A Name-level entry that is itself a leaf is malformed
/// (the tree is three levels deep in a well-formed image) and contributes
/// nothing.
pub open spec fn name_prefix_spec(
    b: Seq<u8>,
    l: LayoutModel,
    root: u32,
    rel: u32,
    j: int,
) -> Result<Seq<ResourceDataEntry>, ParseError>
    decreases j when j >= 0
{
    if j <= 0 {
        Ok(Seq::empty())
    } else {
        match name_prefix_spec(b, l, root, rel, j - 1) {
            Err(e) => Err(e),
            Ok(acc) => match entry_fields_spec(b, l, root, rel, j - 1) {
                Err(e) => Err(e),
                Ok((ident, off)) => if off >= 0x80000000 {
                    match lang_leaves_spec(b, l, root, (off - 0x80000000) as u32) {
                        Err(e) => Err(e),
                        Ok(s) => Ok(acc + s),
                    }
                } else {
                    Ok(acc)
                },
            },
        }
    }
}

/// All leaves under the Name-level table at `rel`.
pub open spec fn name_leaves_spec(b: Seq<u8>, l: LayoutModel, root: u32, rel: u32) -> Result<
    Seq<ResourceDataEntry>,
    ParseError,
> {
    match table_counts_spec(b, l, root, rel) {
        Err(e) => Err(e),
        Ok((nn, ni)) => name_prefix_spec(b, l, root, rel, nn + ni),
    }
}

/// First entry of the Type-level table, scanning from `i`, whose identifier
/// field is a plain integer id (high bit clear) equal to `tid`.
pub open spec fn type_scan_spec(
    b: Seq<u8>,
    l: LayoutModel,
    root: u32,
    count: int,
    tid: u32,
    i: int,
) -> Result<Option<int>, ParseError>
    decreases count - i when i <= count
{
    if i >= count {
        Ok(None)
    } else {
        match entry_fields_spec(b, l, root, 0, i) {
            Err(e) => Err(e),
            Ok((ident, off)) => if ident < 0x80000000 && ident == tid {
                Ok(Some(i))
            } else {
                type_scan_spec(b, l, root, count, tid, i + 1)
            },
        }
    }
}

/// What `find_resource` returns on every input: every Language-level leaf
/// under the first Type-level entry whose id equals `tid`, or the failure.
/// An image with no resource directory, no entry of that type, or an empty
/// subtree under it yields `ResourceNotFound`.
pub open spec fn find_resource_spec(b: Seq<u8>, l: LayoutModel, tid: u32) -> Result<
    Seq<ResourceDataEntry>,
    ParseError,
> {
    if l.resource_dir.virtual_address == 0 {
        Err(ParseError::ResourceNotFound)
    } else {
        let root = l.resource_dir.virtual_address;
        match table_counts_spec(b, l, root, 0) {
            Err(e) => Err(e),
            Ok((nn, ni)) => match type_scan_spec(b, l, root, nn + ni, tid, 0) {
                Err(e) => Err(e),
                Ok(None) => Err(ParseError::ResourceNotFound),
                Ok(Some(i)) => match entry_fields_spec(b, l, root, 0, i) {
                    Err(e) => Err(e),
                    Ok((ident, off)) => if off < 0x80000000 {
                        Err(ParseError::ResourceNotFound)
                    } else {
                        match name_leaves_spec(b, l, root, (off - 0x80000000) as u32) {
                            Err(e) => Err(e),
                            Ok(s) => if s.len() == 0 {
                                Err(ParseError::ResourceNotFound)
                            } else {
                                Ok(s)
                            },
                        }
                    },
                },
            },
        }
    }
}

/// A found resource is never empty: whenever `find_resource_spec` succeeds,
/// it returns at least one data entry.
pub proof fn lemma_found_resource_nonempty(b: Seq<u8>, l: LayoutModel, tid: u32)
    requires
        find_resource_spec(b, l, tid) is Ok,
    ensures
        find_resource_spec(b, l, tid)->Ok_0.len() > 0,
{
}

/// An image with no resource directory has no resources of any type.
pub proof fn lemma_no_directory_no_resource(b: Seq<u8>, l: LayoutModel, tid: u32)
    requires
        l.resource_dir.virtual_address == 0,
    ensures
        find_resource_spec(b, l, tid) == Err::<Seq<ResourceDataEntry>, ParseError>(
            ParseError::ResourceNotFound,
        ),
{
}

/// Once a prefix fails, every longer prefix fails the same way.
proof fn lemma_lang_prefix_err(b: Seq<u8>, l: LayoutModel, root: u32, rel: u32, i: int, m: int)
    requires
        0 <= i <= m,
        lang_prefix_spec(b, l, root, rel, i) is Err,
    ensures
        lang_prefix_spec(b, l, root, rel, m) == lang_prefix_spec(b, l, root, rel, i),
    decreases m - i,
{
    if i < m {
        lemma_lang_prefix_err(b, l, root, rel, i, m - 1);
    }
}

/// Once a prefix fails, every longer prefix fails the same way.
proof fn lemma_name_prefix_err(b: Seq<u8>, l: LayoutModel, root: u32, rel: u32, j: int, m: int)
    requires
        0 <= j <= m,
        name_prefix_spec(b, l, root, rel, j) is Err,
    ensures
        name_prefix_spec(b, l, root, rel, m) == name_prefix_spec(b, l, root, rel, j),
    decreases m - j,
{
    if j < m {
        lemma_name_prefix_err(b, l, root, rel, j, m - 1);
    }
}

/// Reads the entry counts of the directory table at `rel`.
fn read_table_counts(buf: &ImageBuffer, layout: &ImageLayout, root: u32, rel: u32) -> (r: Result<
    (u16, u16),
    ParseError,
>)
    requires
        layout@.image_size == buf@.len(),
    ensures
        match r {
            Ok(c) => table_counts_spec(buf@, layout@, root, rel) == Ok::<(int, int), ParseError>(
                (c.0 as int, c.1 as int),
            ),
            Err(e) => table_counts_spec(buf@, layout@, root, rel) == Err::<(int, int), ParseError>(
                e,
            ),
        },
{
    let rva = root as u64 + rel as u64;
    match layout.resolve(rva, 16) {
        Err(e) => Err(e),
        Ok(rg) => {
            proof {
                crate::rva::lemma_resolve_ok_bounds(layout@, rva, 16);
            }
            let named = buf.read_u16(rg.start + 12);
            let ids = buf.read_u16(rg.start + 14);
            Ok((named, ids))
        },
    }
}

/// Reads the identifier and offset fields of entry `i` of the table at `rel`.
fn read_entry_fields(buf: &ImageBuffer, layout: &ImageLayout, root: u32, rel: u32, i: usize) -> (r:
    Result<(u32, u32), ParseError>)
    requires
        layout@.image_size == buf@.len(),
        i < 0x20000,
    ensures
        match r {
            Ok(f) => entry_fields_spec(buf@, layout@, root, rel, i as int) == Ok::<
                (int, int),
                ParseError,
            >((f.0 as int, f.1 as int)),
            Err(e) => entry_fields_spec(buf@, layout@, root, rel, i as int) == Err::<
                (int, int),
                ParseError,
            >(e),
        },
{
    let rva = root as u64 + rel as u64 + 16 + 8 * (i as u64);
    match layout.resolve(rva, 8) {
        Err(e) => Err(e),
        Ok(rg) => {
            proof {
                crate::rva::lemma_resolve_ok_bounds(layout@, rva, 8);
            }
            let ident = buf.read_u32(rg.start);
            let off = buf.read_u32(rg.start + 4);
            Ok((ident, off))
        },
    }
}

/// Reads the leaf data entry stored at `rel`.
fn read_data_entry(buf: &ImageBuffer, layout: &ImageLayout, root: u32, rel: u32) -> (r: Result<
    ResourceDataEntry,
    ParseError,
>)
    requires
        layout@.image_size == buf@.len(),
    ensures
        match r {
            Ok(d) => data_entry_spec(buf@, layout@, root, rel) == Ok::<
                ResourceDataEntry,
                ParseError,
            >(d),
            Err(e) => data_entry_spec(buf@, layout@, root, rel) == Err::<
                ResourceDataEntry,
                ParseError,
            >(e),
        },
{
    let rva = root as u64 + rel as u64;
    match layout.resolve(rva, 16) {
        Err(e) => Err(e),
        Ok(rg) => {
            proof {
                crate::rva::lemma_resolve_ok_bounds(layout@, rva, 16);
            }
            let d = ResourceDataEntry {
                data_rva: buf.read_u32(rg.start),
                size: buf.read_u32(rg.start + 4),
                codepage: buf.read_u32(rg.start + 8),
            };
            Ok(d)
        },
    }
}

/// Collects every leaf of the Language-level table at `rel`, in entry order.
fn collect_lang(buf: &ImageBuffer, layout: &ImageLayout, root: u32, rel: u32) -> (r: Result<
    Vec<ResourceDataEntry>,
    ParseError,
>)
    requires
        layout@.image_size == buf@.len(),
    ensures
        match r {
            Ok(v) => lang_leaves_spec(buf@, layout@, root, rel) == Ok::<
                Seq<ResourceDataEntry>,
                ParseError,
            >(v@),
            Err(e) => lang_leaves_spec(buf@, layout@, root, rel) == Err::<
                Seq<ResourceDataEntry>,
                ParseError,
            >(e),
        },
{
    let counts = match read_table_counts(buf, layout, root, rel) {
        Err(e) => {
            return Err(e);
        },
        Ok(c) => c,
    };
    let total: usize = counts.0 as usize + counts.1 as usize;
    let mut out: Vec<ResourceDataEntry> = Vec::new();
    let mut k: usize = 0;
    while k < total
        invariant
            layout@.image_size == buf@.len(),
            table_counts_spec(buf@, layout@, root, rel) == Ok::<(int, int), ParseError>(
                (counts.0 as int, counts.1 as int),
            ),
            total == counts.0 as int + counts.1 as int,
            total < 0x20000,
            0 <= k <= total,
            lang_prefix_spec(buf@, layout@, root, rel, k as int) == Ok::<
                Seq<ResourceDataEntry>,
                ParseError,
            >(out@),
        decreases total - k,
    {
        let fields = match read_entry_fields(buf, layout, root, rel, k) {
            Err(e) => {
                proof {
                    lemma_lang_prefix_err(buf@, layout@, root, rel, k as int + 1, total as int);
                }
                return Err(e);
            },
            Ok(f) => f,
        };
        if fields.1 < 0x80000000 {
            match read_data_entry(buf, layout, root, fields.1) {
                Err(e) => {
                    proof {
                        lemma_lang_prefix_err(buf@, layout@, root, rel, k as int + 1, total as int);
                    }
                    return Err(e);
                },
                Ok(d) => {
                    out.push(d);
                },
            }
        }
        k = k + 1;
    }
    Ok(out)
}

/// Collects every Language-level leaf under the Name-level table at `rel`.
fn collect_names(buf: &ImageBuffer, layout: &ImageLayout, root: u32, rel: u32) -> (r: Result<
    Vec<ResourceDataEntry>,
    ParseError,
>)
    requires
        layout@.image_size == buf@.len(),
    ensures
        match r {
            Ok(v) => name_leaves_spec(buf@, layout@, root, rel) == Ok::<
                Seq<ResourceDataEntry>,
                ParseError,
            >(v@),
            Err(e) => name_leaves_spec(buf@, layout@, root, rel) == Err::<
                Seq<ResourceDataEntry>,
                ParseError,
            >(e),
        },
{
    let counts = match read_table_counts(buf, layout, root, rel) {
        Err(e) => {
            return Err(e);
        },
        Ok(c) => c,
    };
    let total: usize = counts.0 as usize + counts.1 as usize;
    let mut out: Vec<ResourceDataEntry> = Vec::new();
    let mut j: usize = 0;
    while j < total
        invariant
            layout@.image_size == buf@.len(),
            table_counts_spec(buf@, layout@, root, rel) == Ok::<(int, int), ParseError>(
                (counts.0 as int, counts.1 as int),
            ),
            total == counts.0 as int + counts.1 as int,
            total < 0x20000,
            0 <= j <= total,
            name_prefix_spec(buf@, layout@, root, rel, j as int) == Ok::<
                Seq<ResourceDataEntry>,
                ParseError,
            >(out@),
        decreases total - j,
    {
        let fields = match read_entry_fields(buf, layout, root, rel, j) {
            Err(e) => {
                proof {
                    lemma_name_prefix_err(buf@, layout@, root, rel, j as int + 1, total as int);
                }
                return Err(e);
            },
            Ok(f) => f,
        };
        if fields.1 >= 0x80000000 {
            let mut langs = match collect_lang(buf, layout, root, fields.1 - 0x80000000) {
                Err(e) => {
                    proof {
                        lemma_name_prefix_err(buf@, layout@, root, rel, j as int + 1, total as int);
                    }
                    return Err(e);
                },
                Ok(v) => v,
            };
            out.append(&mut langs);
        }
        j = j + 1;
    }
    Ok(out)
}

/// Walks the resource directory of a parsed image and returns every leaf data
/// entry of resource type `type_id`, in tree order.
///
/// Fails with `ResourceNotFound` when the image has no resource directory,
/// no Type-level entry with that id, or an empty subtree under it; a read
/// that cannot be resolved or would pass the end of the buffer fails with
/// the resolver's error.
pub fn find_resource(layout: &ImageLayout, buf: &ImageBuffer, type_id: u32) -> (r: Result<
    Vec<ResourceDataEntry>,
    ParseError,
>)
    requires
        layout@.image_size == buf@.len(),
    ensures
        match r {
            Ok(v) => find_resource_spec(buf@, layout@, type_id) == Ok::<
                Seq<ResourceDataEntry>,
                ParseError,
            >(v@) && v@.len() > 0,
            Err(e) => find_resource_spec(buf@, layout@, type_id) == Err::<
                Seq<ResourceDataEntry>,
                ParseError,
            >(e),
        },
{
    let root = layout.resource_dir.virtual_address;
    if root == 0 {
        return Err(ParseError::ResourceNotFound);
    }
    let counts = match read_table_counts(buf, layout, root, 0) {
        Err(e) => {
            return Err(e);
        },
        Ok(c) => c,
    };
    let total: usize = counts.0 as usize + counts.1 as usize;
    let mut i: usize = 0;
    while i < total
        invariant
            layout@.image_size == buf@.len(),
            root == layout@.resource_dir.virtual_address,
            root != 0,
            table_counts_spec(buf@, layout@, root, 0) == Ok::<(int, int), ParseError>(
                (counts.0 as int, counts.1 as int),
            ),
            total == counts.0 as int + counts.1 as int,
            total < 0x20000,
            0 <= i <= total,
            type_scan_spec(buf@, layout@, root, total as int, type_id, 0) == type_scan_spec(
                buf@,
                layout@,
                root,
                total as int,
                type_id,
                i as int,
            ),
        decreases total - i,
    {
        let fields = match read_entry_fields(buf, layout, root, 0, i) {
            Err(e) => {
                return Err(e);
            },
            Ok(f) => f,
        };
        if fields.0 < 0x80000000 && fields.0 == type_id {
            if fields.1 < 0x80000000 {
                return Err(ParseError::ResourceNotFound);
            }
            let found = match collect_names(buf, layout, root, fields.1 - 0x80000000) {
                Err(e) => {
                    return Err(e);
                },
                Ok(v) => v,
            };
            if found.len() == 0 {
                return Err(ParseError::ResourceNotFound);
            }
            return Ok(found);
        }
        i = i + 1;
    }
    Err(ParseError::ResourceNotFound)
}

} // verus!
