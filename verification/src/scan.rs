//! The single-file pipeline: parse the image, locate the manifest resource,
//! extract its text, and test the two patterns; plus the candidate filter and
//! the report line, so a directory walker outside the library only walks,
//! reads files and prints.

use vstd::prelude::*;
use vstd::string::StringExecFns;
use crate::bytes::ImageBuffer;
use crate::errors::ScanError;
use crate::manifest::{extract, extract_spec};
use crate::matcher::{manifest_matches, manifest_matches_spec};
use crate::pe::{parse, parse_spec};
use crate::resource::{find_resource, find_resource_spec, RT_MANIFEST};

verus! {

/// What `image_manifest` returns on every input: the decoded text of the
/// first manifest resource of the image, or the first failure along the
/// pipeline. When an image carries several manifests (several names or
/// languages), the first one in tree order is used: a deliberate choice,
/// since which of several manifests governs elevation is ambiguous anyway.
pub open spec fn image_manifest_spec(b: Seq<u8>) -> Result<Seq<char>, ScanError> {
    match parse_spec(b) {
        Err(e) => Err(ScanError::Parse(e)),
        Ok(l) => match find_resource_spec(b, l, RT_MANIFEST) {
            Err(e) => Err(ScanError::Parse(e)),
            Ok(entries) => match extract_spec(b, l, entries[0]) {
                Err(e) => Err(ScanError::Extract(e)),
                Ok(t) => Ok(t),
            },
        },
    }
}

/// Parses `buf` as a 64-bit PE image and returns its manifest text.
pub fn image_manifest(buf: &ImageBuffer) -> (r: Result<String, ScanError>)
    ensures
        match r {
            Ok(s) => image_manifest_spec(buf@) == Ok::<Seq<char>, ScanError>(s@),
            Err(e) => image_manifest_spec(buf@) == Err::<Seq<char>, ScanError>(e),
        },
{
    let layout = match parse(buf) {
        Err(e) => {
            return Err(ScanError::Parse(e));
        },
        Ok(l) => l,
    };
    let entries = match find_resource(&layout, buf, RT_MANIFEST) {
        Err(e) => {
            return Err(ScanError::Parse(e));
        },
        Ok(v) => v,
    };
    let first = entries[0];
    match extract(buf, &layout, first) {
        Err(e) => Err(ScanError::Extract(e)),
        Ok(s) => Ok(s),
    }
}

/// Whether the buffer is a 64-bit PE image whose manifest requests silent
/// elevation: the manifest extracts and both patterns hold. Any failure along
/// the pipeline means "no".
pub open spec fn image_auto_elevates_spec(b: Seq<u8>) -> bool {
    match image_manifest_spec(b) {
        Err(_) => false,
        Ok(t) => manifest_matches_spec(t),
    }
}

/// Tests one loaded file: does its manifest request silent elevation?
pub fn image_auto_elevates(buf: &ImageBuffer) -> (r: bool)
    ensures
        r == image_auto_elevates_spec(buf@),
{
    match image_manifest(buf) {
        Err(_) => false,
        Ok(s) => manifest_matches(s.as_str()),
    }
}

/// The file name ends in the extension `exe`, compared case-insensitively:
/// a final `.` followed by exactly three letters spelling `exe`, with at
/// least one character of stem before the dot.
pub open spec fn is_exe_name(t: Seq<char>) -> bool {
    t.len() >= 5 && t[t.len() - 4] == '.' && (t[t.len() - 3] == 'e' || t[t.len() - 3] == 'E') && (
    t[t.len() - 2] == 'x' || t[t.len() - 2] == 'X') && (t[t.len() - 1] == 'e' || t[t.len() - 1]
        == 'E')
}

/// Whether a file name (the last path component) names an executable.
pub fn has_exe_extension(name: &str) -> (r: bool)
    ensures
        r == is_exe_name(name@),
{
    let n = name.unicode_len();
    if n < 5 {
        return false;
    }
    let c1 = name.get_char(n - 4);
    let c2 = name.get_char(n - 3);
    let c3 = name.get_char(n - 2);
    let c4 = name.get_char(n - 1);
    c1 == '.' && (c2 == 'e' || c2 == 'E') && (c3 == 'x' || c3 == 'X') && (c4 == 'e' || c4 == 'E')
}

/// The one line reported for a matching file.
pub fn report_line(path: &str) -> (r: String)
    ensures
        r@ == "Found EXE: "@ + path@,
{
    String::from_str("Found EXE: ").concat(path)
}

} // verus!
