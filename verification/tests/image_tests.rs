use elevscan::bytes::ImageBuffer;
use elevscan::errors::{ParseError, ScanError};
use elevscan::pe::parse;
use elevscan::resource::find_resource;
use elevscan::manifest::extract;
use elevscan::scan::{image_auto_elevates, image_manifest};

fn put16(b: &mut Vec<u8>, off: usize, v: u16) {
    b[off] = v as u8;
    b[off + 1] = (v >> 8) as u8;
}

fn put32(b: &mut Vec<u8>, off: usize, v: u32) {
    b[off] = v as u8;
    b[off + 1] = (v >> 8) as u8;
    b[off + 2] = (v >> 16) as u8;
    b[off + 3] = (v >> 24) as u8;
}

/// Builds a minimal 64-bit PE image with one `.rsrc` section holding one
/// resource of type `type_id` whose raw bytes are `payload`.
fn build_pe(payload: &[u8], type_id: u32) -> Vec<u8> {
    let pe_off = 0x40;
    let opt_off = pe_off + 24; // 0x58
    let sect_off = opt_off + 240; // 0x148
    let rsrc_file_off = 0x200;
    let rsrc_rva: u32 = 0x1000;
    let payload_rel: u32 = 0x58;
    let rsrc_size = payload_rel as usize + payload.len();

    let mut b = vec![0u8; rsrc_file_off + rsrc_size];
    // DOS header
    b[0] = 0x4d; // 'M'
    b[1] = 0x5a; // 'Z'
    put32(&mut b, 60, pe_off as u32);
    // NT signature
    b[pe_off] = 0x50; // 'P'
    b[pe_off + 1] = 0x45; // 'E'
    // COFF header
    put16(&mut b, pe_off + 4, 0x8664); // machine: x86-64
    put16(&mut b, pe_off + 6, 1); // one section
    put16(&mut b, pe_off + 20, 240); // optional header size
    put16(&mut b, pe_off + 22, 0x0022); // characteristics
    // Optional header (PE32+)
    put16(&mut b, opt_off, 0x20b);
    put32(&mut b, opt_off + 108, 16); // NumberOfRvaAndSizes
    put32(&mut b, opt_off + 112 + 16, rsrc_rva); // resource directory slot
    put32(&mut b, opt_off + 112 + 20, rsrc_size as u32);
    // Section header: .rsrc
    b[sect_off] = b'.';
    b[sect_off + 1] = b'r';
    b[sect_off + 2] = b's';
    b[sect_off + 3] = b'r';
    b[sect_off + 4] = b'c';
    put32(&mut b, sect_off + 8, rsrc_size as u32); // virtual size
    put32(&mut b, sect_off + 12, rsrc_rva); // virtual address
    put32(&mut b, sect_off + 16, rsrc_size as u32); // raw data size
    put32(&mut b, sect_off + 20, rsrc_file_off as u32); // raw data pointer
    // Resource directory, offsets relative to rsrc_file_off:
    // Type table at 0x00: 0 named, 1 id entry at 0x10.
    put16(&mut b, rsrc_file_off + 12, 0);
    put16(&mut b, rsrc_file_off + 14, 1);
    put32(&mut b, rsrc_file_off + 0x10, type_id);
    put32(&mut b, rsrc_file_off + 0x14, 0x8000_0018); // subdirectory at 0x18
    // Name table at 0x18: 0 named, 1 id entry at 0x28.
    put16(&mut b, rsrc_file_off + 0x18 + 12, 0);
    put16(&mut b, rsrc_file_off + 0x18 + 14, 1);
    put32(&mut b, rsrc_file_off + 0x28, 1);
    put32(&mut b, rsrc_file_off + 0x2c, 0x8000_0030); // subdirectory at 0x30
    // Language table at 0x30: 0 named, 1 id entry at 0x40.
    put16(&mut b, rsrc_file_off + 0x30 + 12, 0);
    put16(&mut b, rsrc_file_off + 0x30 + 14, 1);
    put32(&mut b, rsrc_file_off + 0x40, 0x0409);
    put32(&mut b, rsrc_file_off + 0x44, 0x48); // leaf data entry at 0x48
    // Data entry at 0x48: RVA, size, codepage.
    put32(&mut b, rsrc_file_off + 0x48, rsrc_rva + payload_rel);
    put32(&mut b, rsrc_file_off + 0x4c, payload.len() as u32);
    put32(&mut b, rsrc_file_off + 0x50, 0);
    // The payload itself.
    b[rsrc_file_off + payload_rel as usize..].copy_from_slice(payload);
    b
}

/// Builds an image like `build_pe` but with two Language-level leaves under
/// the single name, holding `first` and `second`.
fn build_pe_two_langs(first: &[u8], second: &[u8]) -> Vec<u8> {
    let rsrc_file_off = 0x200;
    let rsrc_rva: u32 = 0x1000;
    let first_rel: u32 = 0x70;
    let second_rel: u32 = first_rel + first.len() as u32;
    let rsrc_size = second_rel as usize + second.len();

    let mut b = build_pe(&[], 24);
    b.truncate(rsrc_file_off);
    b.resize(rsrc_file_off + rsrc_size, 0);
    // Patch the sizes the prefix recorded for the resource section.
    put32(&mut b, 0x58 + 112 + 20, rsrc_size as u32);
    put32(&mut b, 0x148 + 8, rsrc_size as u32);
    put32(&mut b, 0x148 + 16, rsrc_size as u32);
    // Type table at 0x00 and name table at 0x18, one id entry each.
    put16(&mut b, rsrc_file_off + 14, 1);
    put32(&mut b, rsrc_file_off + 0x10, 24);
    put32(&mut b, rsrc_file_off + 0x14, 0x8000_0018);
    put16(&mut b, rsrc_file_off + 0x18 + 14, 1);
    put32(&mut b, rsrc_file_off + 0x28, 1);
    put32(&mut b, rsrc_file_off + 0x2c, 0x8000_0030);
    // Language table at 0x30 with two id entries.
    put16(&mut b, rsrc_file_off + 0x30 + 14, 2);
    put32(&mut b, rsrc_file_off + 0x40, 0x0409);
    put32(&mut b, rsrc_file_off + 0x44, 0x50); // leaf data entry at 0x50
    put32(&mut b, rsrc_file_off + 0x48, 0x0411);
    put32(&mut b, rsrc_file_off + 0x4c, 0x60); // leaf data entry at 0x60
    // The two data entries.
    put32(&mut b, rsrc_file_off + 0x50, rsrc_rva + first_rel);
    put32(&mut b, rsrc_file_off + 0x54, first.len() as u32);
    put32(&mut b, rsrc_file_off + 0x60, rsrc_rva + second_rel);
    put32(&mut b, rsrc_file_off + 0x64, second.len() as u32);
    // The payloads.
    b[rsrc_file_off + first_rel as usize..rsrc_file_off + second_rel as usize]
        .copy_from_slice(first);
    b[rsrc_file_off + second_rel as usize..].copy_from_slice(second);
    b
}

const ELEVATING: &str = "<assembly><trustInfo><security><requestedExecutionLevel level=\"requireAdministrator\"/></security></trustInfo><autoElevate>true</autoElevate></assembly>";

#[test]
fn manifest_round_trip() {
    let img = ImageBuffer::new(build_pe(ELEVATING.as_bytes(), 24));
    let layout = parse(&img).expect("well-formed image parses");
    let entries = find_resource(&layout, &img, 24).expect("type 24 present");
    assert!(!entries.is_empty());
    assert_eq!(entries.len(), 1);
    let text = extract(&img, &layout, entries[0]).expect("plain text decodes");
    assert_eq!(text, ELEVATING);
}

#[test]
fn image_manifest_returns_first_manifest() {
    let img = ImageBuffer::new(build_pe(ELEVATING.as_bytes(), 24));
    assert_eq!(image_manifest(&img).expect("pipeline succeeds"), ELEVATING);
}

#[test]
fn all_manifests_are_returned_and_the_first_is_used() {
    let img = ImageBuffer::new(build_pe_two_langs(b"first manifest", b"second manifest"));
    let layout = parse(&img).expect("well-formed image parses");
    let entries = find_resource(&layout, &img, 24).expect("type 24 present");
    assert_eq!(entries.len(), 2);
    assert_eq!(extract(&img, &layout, entries[0]).unwrap(), "first manifest");
    assert_eq!(extract(&img, &layout, entries[1]).unwrap(), "second manifest");
    assert_eq!(image_manifest(&img).unwrap(), "first manifest");
}

#[test]
fn no_resource_directory_is_resource_not_found() {
    let payload = b"x";
    let mut raw = build_pe(payload, 24);
    // Zero the resource-directory slot: the image now has no resource tree.
    put32(&mut raw, 0x58 + 112 + 16, 0);
    let img = ImageBuffer::new(raw);
    let layout = parse(&img).expect("header chain is still valid");
    assert_eq!(find_resource(&layout, &img, 24), Err(ParseError::ResourceNotFound));
}

#[test]
fn wrong_type_id_is_resource_not_found() {
    let img = ImageBuffer::new(build_pe(b"icon bytes", 3));
    let layout = parse(&img).expect("well-formed image parses");
    assert_eq!(find_resource(&layout, &img, 24), Err(ParseError::ResourceNotFound));
}

#[test]
fn empty_buffer_is_truncated() {
    let img = ImageBuffer::new(Vec::new());
    assert_eq!(parse(&img).err(), Some(ParseError::Truncated));
}

#[test]
fn short_buffer_is_truncated() {
    let img = ImageBuffer::new(vec![0x4d, 0x5a, 0x00]);
    assert_eq!(parse(&img).err(), Some(ParseError::Truncated));
}

#[test]
fn zeroed_header_is_bad_magic() {
    let img = ImageBuffer::new(vec![0u8; 64]);
    assert_eq!(parse(&img).err(), Some(ParseError::BadMagic));
}

#[test]
fn thirty_two_bit_image_is_rejected() {
    let mut raw = build_pe(b"m", 24);
    put16(&mut raw, 0x58, 0x10b); // PE32 optional-header magic
    let img = ImageBuffer::new(raw);
    assert_eq!(parse(&img).err(), Some(ParseError::Not64Bit));
}

#[test]
fn resolve_twice_same_range() {
    let img = ImageBuffer::new(build_pe(b"manifest", 24));
    let layout = parse(&img).expect("well-formed image parses");
    let r1 = layout.resolve(0x1000, 8);
    let r2 = layout.resolve(0x1000, 8);
    assert!(r1.is_ok());
    assert_eq!(r1, r2);
}

#[test]
fn unresolved_rva_is_reported() {
    let img = ImageBuffer::new(build_pe(b"manifest", 24));
    let layout = parse(&img).expect("well-formed image parses");
    assert_eq!(layout.resolve(0x9000_0000, 4), Err(ParseError::UnresolvedRva));
    // A range that starts inside the section but overruns the buffer.
    assert_eq!(layout.resolve(0x1000, 0x10_0000), Err(ParseError::Truncated));
}

#[test]
fn non_utf8_manifest_is_invalid_encoding() {
    let img = ImageBuffer::new(build_pe(&[0xff, 0xfe, 0x00, 0x41], 24));
    match image_manifest(&img) {
        Err(ScanError::Extract(e)) => {
            assert_eq!(e, elevscan::errors::ExtractError::InvalidEncoding)
        },
        other => panic!("expected an encoding failure, got {:?}", other),
    }
}

#[test]
fn elevating_image_matches() {
    let img = ImageBuffer::new(build_pe(ELEVATING.as_bytes(), 24));
    assert!(image_auto_elevates(&img));
}

#[test]
fn as_invoker_image_does_not_match() {
    let manifest = ELEVATING.replace("requireAdministrator", "asInvoker");
    let img = ImageBuffer::new(build_pe(manifest.as_bytes(), 24));
    assert!(!image_auto_elevates(&img));
}

#[test]
fn non_pe_file_does_not_match() {
    let img = ImageBuffer::new(b"just a text file pretending to be tool.exe".to_vec());
    assert!(!image_auto_elevates(&img));
}

#[test]
fn whitespace_tolerant_manifest_matches() {
    let manifest = "<assembly><requestedExecutionLevel level=\"requireAdministrator\"/>< autoElevate >  true  < / autoElevate ></assembly>";
    let img = ImageBuffer::new(build_pe(manifest.as_bytes(), 24));
    assert!(image_auto_elevates(&img));
}
