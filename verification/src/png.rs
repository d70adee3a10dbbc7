use vstd::prelude::*;

verus! {

/// The header of an image with every field as the byte or number that the
/// stream holds.
#[derive(Debug)]
pub struct HeaderInfo {
    pub width: u32,
    pub height: u32,
    pub bit_depth: u8,
    pub color_type: u8,
    pub compression: u8,
    pub filter: u8,
    pub interlace: u8,
}

/// The colors of a palette.
#[derive(Debug)]
pub struct PaletteInfo {
    pub colors: Vec<(u8, u8, u8)>,
}

/// A chunk that an image can do without, with its fields as the stream
/// holds them.
#[derive(Debug)]
pub enum AncillaryChunk {
    Gamma { gamma: u32 },
    StandardRGB { rendering_intent: u8 },
    PhysicalIndex { x: u32, y: u32, unit: u8 },
}

/// An image in its plainest form: header, palette, data and the chunks
/// beside them.
#[derive(Debug)]
pub struct PngInfo {
    pub header: HeaderInfo,
    pub palette: Option<PaletteInfo>,
    pub data: Vec<u8>,
    pub ancillary_chunks: Vec<AncillaryChunk>,
}

} // verus!
