use vstd::prelude::*;
use crate::spec::ChunkId;

verus! {

/// Image Header
pub const IHDR: ChunkId = 0x49484452;

/// Palette
pub const PLTE: ChunkId = 0x504c5445;

/// Image Data
pub const IDAT: ChunkId = 0x49444154;

/// Image Trailer
pub const IEND: ChunkId = 0x49454e44;

/// Transparency
#[allow(non_upper_case_globals)]
pub const tRNS: ChunkId = 0x74524e53;

/// Image Gamma
#[allow(non_upper_case_globals)]
pub const gAMA: ChunkId = 0x67414d41;

/// Primary Chromaticities
#[allow(non_upper_case_globals)]
pub const cHRM: ChunkId = 0x6348524d;

/// Standard RGB Color Space
#[allow(non_upper_case_globals)]
pub const sRGB: ChunkId = 0x73524742;

/// Embedded ICC Profile
#[allow(non_upper_case_globals)]
pub const iCCP: ChunkId = 0x69434350;

/// Textual Data
#[allow(non_upper_case_globals)]
pub const tEXt: ChunkId = 0x74455874;

/// Compressed Textual Data
#[allow(non_upper_case_globals)]
pub const zTXt: ChunkId = 0x7a545874;

/// International Textual Data
#[allow(non_upper_case_globals)]
pub const iTXt: ChunkId = 0x69545874;

/// Background Color
#[allow(non_upper_case_globals)]
pub const bKGD: ChunkId = 0x624b4744;

/// Physical Pixel Dimensions
#[allow(non_upper_case_globals)]
pub const pHYs: ChunkId = 0x70485973;

/// Significant Bits
#[allow(non_upper_case_globals)]
pub const sBIT: ChunkId = 0x73424954;

/// Suggested Palette
#[allow(non_upper_case_globals)]
pub const sPLT: ChunkId = 0x73504c54;

/// Palette Histogram
#[allow(non_upper_case_globals)]
pub const hIST: ChunkId = 0x68495354;

/// Image Last Modification Time
#[allow(non_upper_case_globals)]
pub const tIME: ChunkId = 0x74494d45;

} // verus!
