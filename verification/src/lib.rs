//! Locates Windows executables that request automatic privilege elevation by
//! inspecting the application manifest embedded in their PE64 image.
//!
//! The library parses the PE64 header chain, resolves relative virtual
//! addresses through the section table, walks the three-level resource
//! directory to the manifest resource, decodes it as text, and tests the two
//! textual patterns that together indicate silent elevation.

pub mod bytes;
pub mod errors;
pub mod manifest;
pub mod matcher;
pub mod pe;
pub mod resource;
pub mod rva;
pub mod scan;

use vstd::prelude::*;

verus! {

} // verus!
