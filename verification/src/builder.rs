//! Inputs and constants of the flash image builder.

use vstd::prelude::*;

verus! {

/// Version of the metadata format produced.
pub const METADATA_VERSION: u32 = 1;

/// Flash reserved for the firmware, at the start of flash (48KB).
pub const FIRMWARE_SIZE: usize = 49152;

/// A file the builder was given: its id in the configuration and its bytes.
#[derive(Debug, Clone)]
pub struct FileData {
    pub id: usize,
    pub data: Vec<u8>,
}

/// Version of the metadata format produced, as text.
pub fn metadata_version() -> (r: &'static str)
    ensures
        r@ == "1"@,
{
    "1"
}

} // verus!
