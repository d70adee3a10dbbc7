use vstd::prelude::*;
use crate::error::IoFailure;
use crate::error::ParserError;
use crate::source::CursorView;
use crate::spec::BackgroundInfo;
use crate::spec::BackgroundVariant;
use crate::spec::ChromaticityInfo;
use crate::spec::chunk_ids;
use crate::spec::ChunkId;
use crate::spec::ColorType;
use crate::spec::CompressedDataView;
use crate::spec::CompressedTextualDataView;
use crate::spec::CompressionMethod;
use crate::spec::FilterMethod;
use crate::spec::GammaInfo;
use crate::spec::HeaderInfo;
use crate::spec::ICCProfileView;
use crate::spec::InterlaceMethod;
use crate::spec::InternationalTextualDataView;
use crate::spec::LastModificationInfo;
use crate::spec::PhysicalPixelDimensionInfo;
use crate::spec::PhysicalUnitSpecifier;
use crate::spec::PngInfoView;
use crate::spec::RenderingIntent;
use crate::spec::SIGNATURE;
use crate::spec::SignificantBitsInfo;
use crate::spec::SignificantBitsVariant;
use crate::spec::StandardRGBInfo;
use crate::spec::SuggestedPaletteEntry;
use crate::spec::SuggestedPaletteView;
use crate::spec::TextualDataView;
use crate::spec::TrailerInfo;
use crate::spec::TransparencyView;
use crate::spec::UnknownChunkView;
use crate::utils::be_bytes;
use crate::utils::be_u16;
use crate::utils::be_u32;
use crate::utils::chunk_of;
use crate::utils::decoded_text;
use crate::utils::leading_string;
use crate::utils::string_end;

verus! {

/// The chunk has to stand before the palette.
pub const BEFORE_PLTE_CHUNK: u8 = 1;

/// The chunk has to stand after the palette.
pub const AFTER_PLTE_CHUNK: u8 = 2;

/// The chunk has to stand before the image data.
pub const BEFORE_IDAT_CHUNK: u8 = 4;

/// The failure of a read that met the end of the source.
pub open spec fn end_of_source() -> ParserError {
    ParserError::IOError(IoFailure::UnexpectedEof)
}

/// What a parse has gathered so far, and where it stands in its source.
pub struct ParserView {
    pub source: CursorView,
    pub header: Option<HeaderInfo>,
    pub palette: Option<Seq<(u8, u8, u8)>>,
    pub compressed_data: Option<CompressedDataView>,
    pub trailer: Option<TrailerInfo>,
    pub transparency: Option<TransparencyView>,
    pub gamma: Option<GammaInfo>,
    pub chromaticity: Option<ChromaticityInfo>,
    pub standard_rgb: Option<StandardRGBInfo>,
    pub icc_profile: Option<ICCProfileView>,
    pub textual_data: Seq<TextualDataView>,
    pub compressed_textual_data: Seq<CompressedTextualDataView>,
    pub international_textual_data: Seq<InternationalTextualDataView>,
    pub background: Option<BackgroundInfo>,
    pub physical_pixel_dimension: Option<PhysicalPixelDimensionInfo>,
    pub significant_bits: Option<SignificantBitsInfo>,
    pub suggested_palettes: Seq<SuggestedPaletteView>,
    pub palette_histogram: Option<Seq<u16>>,
    pub last_modification: Option<LastModificationInfo>,
    pub unknown_chunks: Seq<UnknownChunkView>,
}

/// One chunk as it stands in the stream, without its checksum.
pub struct RawChunk {
    pub length: u32,
    pub chunk_type: ChunkId,
    pub data: Seq<u8>,
}

/// A parse that has gathered nothing and stands before the first byte.
pub open spec fn initial(bytes: Seq<u8>) -> ParserView {
    ParserView {
        source: CursorView { bytes, pos: 0 },
        header: None,
        palette: None,
        compressed_data: None,
        trailer: None,
        transparency: None,
        gamma: None,
        chromaticity: None,
        standard_rgb: None,
        icc_profile: None,
        textual_data: Seq::empty(),
        compressed_textual_data: Seq::empty(),
        international_textual_data: Seq::empty(),
        background: None,
        physical_pixel_dimension: None,
        significant_bits: None,
        suggested_palettes: Seq::empty(),
        palette_histogram: None,
        last_modification: None,
        unknown_chunks: Seq::empty(),
    }
}

/// The part of `data` from `start` to its end.
pub open spec fn tail(data: Seq<u8>, start: int) -> Seq<u8> {
    data.subrange(start, data.len() as int)
}

// ---------------------------------------------------------------------------
// Signature
// ---------------------------------------------------------------------------

/// The check of the first eight bytes: anything but the signature, a short
/// source included, is an invalid signature.
pub open spec fn signature_step(st: ParserView) -> Result<ParserView, ParserError> {
    if st.source.can_read(8) && st.source.peek(8) == SIGNATURE@ {
        Ok(ParserView { source: st.source.advance(8), ..st })
    } else {
        Err(ParserError::InvalidSignature)
    }
}

// ---------------------------------------------------------------------------
// Chunk framing
// ---------------------------------------------------------------------------

/// The chunk that starts at the position of `source`, and the source behind
/// it. A chunk is four bytes of length, four of type, as many bytes of data
/// as the length says, and four bytes of checksum, which are passed over
/// unread. A source that ends before the chunk does is a failed read.
pub open spec fn read_chunk(source: CursorView) -> Result<(RawChunk, CursorView), ParserError> {
    if !source.can_read(4) {
        Err(end_of_source())
    } else {
        let length = be_u32(source.peek(4));
        if !source.can_read(12 + length as nat) {
            Err(end_of_source())
        } else {
            Ok(
                (
                    RawChunk {
                        length,
                        chunk_type: be_u32(source.advance(4).peek(4)),
                        data: source.advance(8).peek(length as nat),
                    },
                    source.advance(12 + length as nat),
                ),
            )
        }
    }
}

// ---------------------------------------------------------------------------
// Header
// ---------------------------------------------------------------------------

/// The color type that a byte of the header names.
pub open spec fn color_type_of(byte: u8) -> Option<ColorType> {
    if byte == 0 {
        Some(ColorType::Grayscale)
    } else if byte == 2 {
        Some(ColorType::TrueColor)
    } else if byte == 3 {
        Some(ColorType::IndexedColor)
    } else if byte == 4 {
        Some(ColorType::GrayscaleAlpha)
    } else if byte == 6 {
        Some(ColorType::TrueColorAlpha)
    } else {
        None
    }
}

/// The compression method that a byte names.
pub open spec fn compression_method_of(byte: u8) -> Option<CompressionMethod> {
    if byte == 0 {
        Some(CompressionMethod::Deflate)
    } else {
        None
    }
}

/// The filter method that a byte of the header names.
pub open spec fn filter_method_of(byte: u8) -> Option<FilterMethod> {
    if byte == 0 {
        Some(FilterMethod::Adaptive)
    } else {
        None
    }
}

/// The interlace method that a byte of the header names.
pub open spec fn interlace_method_of(byte: u8) -> Option<InterlaceMethod> {
    if byte == 0 {
        Some(InterlaceMethod::NoInterlace)
    } else if byte == 1 {
        Some(InterlaceMethod::Adam7)
    } else {
        None
    }
}

/// The bit depths that each color type allows.
pub open spec fn legal_bit_depth(color_type: ColorType, bit_depth: u8) -> bool {
    match color_type {
        ColorType::Grayscale => bit_depth == 1 || bit_depth == 2 || bit_depth == 4 || bit_depth
            == 8 || bit_depth == 16,
        ColorType::IndexedColor => bit_depth == 1 || bit_depth == 2 || bit_depth == 4
            || bit_depth == 8,
        ColorType::TrueColor | ColorType::GrayscaleAlpha | ColorType::TrueColorAlpha => bit_depth
            == 8 || bit_depth == 16,
    }
}

/// The header that thirteen bytes of header data stand for, where they stand
/// for one: width and height are not zero, each method byte names a method,
/// and the color type allows the bit depth.
pub open spec fn header_of(data: Seq<u8>) -> Option<HeaderInfo>
    recommends
        data.len() == 13,
{
    let width = be_u32(data.subrange(0, 4));
    let height = be_u32(data.subrange(4, 8));
    let bit_depth = data[8];
    if color_type_of(data[9]) is Some && compression_method_of(data[10]) is Some
        && filter_method_of(data[11]) is Some && interlace_method_of(data[12]) is Some && width
        != 0 && height != 0 && legal_bit_depth(color_type_of(data[9])->0, bit_depth) {
        Some(
            HeaderInfo {
                width,
                height,
                bit_depth,
                color_type: color_type_of(data[9])->0,
                compression_method: compression_method_of(data[10])->0,
                filter_method: filter_method_of(data[11])->0,
                interlace_method: interlace_method_of(data[12])->0,
            },
        )
    } else {
        None
    }
}

/// The reading of the header: the first chunk has to be of the header's
/// type, thirteen bytes long, and hold a legal header.
pub open spec fn header_step(st: ParserView) -> Result<ParserView, ParserError> {
    match read_chunk(st.source) {
        Err(e) => Err(e),
        Ok((chunk, source)) => {
            if chunk.chunk_type != chunk_ids::IHDR {
                Err(ParserError::MissingRequiredChunk(chunk_ids::IHDR))
            } else if chunk.length != 13 {
                Err(ParserError::InvalidChunkLength(chunk_ids::IHDR))
            } else {
                match header_of(chunk.data) {
                    Some(header) => Ok(ParserView { source, header: Some(header), ..st }),
                    None => Err(ParserError::InvalidFieldValue),
                }
            }
        },
    }
}

// ---------------------------------------------------------------------------
// Order of chunks
// ---------------------------------------------------------------------------

/// Whether the chunk that is about to be taken breaks one of the conditions
/// that `constraint` asks for, a bit for each.
pub open spec fn order_violated(st: ParserView, constraint: u8) -> bool {
    ||| (constraint & BEFORE_PLTE_CHUNK) != 0 && st.palette is Some
    ||| (constraint & AFTER_PLTE_CHUNK) != 0 && st.palette is None
    ||| (constraint & BEFORE_IDAT_CHUNK) != 0 && st.compressed_data is Some
}

/// The three sets of conditions that the chunk types ask for, in plain
/// words: before the image data; behind the palette and before the image
/// data; before the palette and the image data.
pub proof fn lemma_order_violated(st: ParserView)
    ensures
        order_violated(st, BEFORE_IDAT_CHUNK) <==> st.compressed_data is Some,
        order_violated(st, AFTER_PLTE_CHUNK | BEFORE_IDAT_CHUNK) <==> st.palette is None
            || st.compressed_data is Some,
        order_violated(st, BEFORE_PLTE_CHUNK | BEFORE_IDAT_CHUNK) <==> st.palette is Some
            || st.compressed_data is Some,
{
    assert(4u8 & 1u8 == 0 && 4u8 & 2u8 == 0 && 4u8 & 4u8 != 0) by (bit_vector);
    assert((2u8 | 4u8) & 1u8 == 0 && (2u8 | 4u8) & 2u8 != 0 && (2u8 | 4u8) & 4u8 != 0)
        by (bit_vector);
    assert((1u8 | 4u8) & 1u8 != 0 && (1u8 | 4u8) & 2u8 == 0 && (1u8 | 4u8) & 4u8 != 0)
        by (bit_vector);
}

// ---------------------------------------------------------------------------
// Keywords
// ---------------------------------------------------------------------------

/// The keyword or name at the start of `data`, and the place of the zero
/// byte behind it: the string has to be there, be text, and be 1 to 79
/// bytes long.
pub open spec fn leading_keyword(data: Seq<u8>) -> Result<(Seq<char>, int), ParserError> {
    match leading_string(data) {
        Err(e) => Err(e),
        Ok(text) => {
            let end = string_end(data)->0;
            if end == 0 || end > 79 {
                Err(ParserError::InvalidStringLength)
            } else {
                Ok((text, end))
            }
        },
    }
}

// ---------------------------------------------------------------------------
// The chunk types
// ---------------------------------------------------------------------------

/// The color that a block of three bytes stands for.
pub open spec fn rgb_of(block: Seq<u8>) -> (u8, u8, u8) {
    (block[0], block[1], block[2])
}

/// The colors of a palette chunk, three bytes each.
pub open spec fn palette_entries(data: Seq<u8>) -> Seq<(u8, u8, u8)> {
    Seq::new(data.len() / 3, |i: int| rgb_of(chunk_of(data, 3, i)))
}

/// The palette chunk: once, before the image data, a multiple of three bytes.
pub open spec fn plte_step(st: ParserView, data: Seq<u8>) -> Result<ParserView, ParserError> {
    if st.palette is Some {
        Err(ParserError::DuplicateChunk(chunk_ids::PLTE))
    } else if order_violated(st, BEFORE_IDAT_CHUNK) {
        Err(ParserError::InvalidChunkOrder(chunk_ids::PLTE))
    } else if data.len() % 3 != 0 {
        Err(ParserError::InvalidChunkLength(chunk_ids::PLTE))
    } else {
        Ok(ParserView { palette: Some(palette_entries(data)), ..st })
    }
}

/// The run of data chunks that follows a first one. `data` and `count` are
/// what has been gathered so far, and `source` stands behind the last chunk
/// taken. The run goes on while the next chunk is a data chunk; it ends
/// before the first chunk of another type, which is left in the source. A
/// data chunk without data ends the parse, as does a source that ends
/// within the run, and a run of more chunks than the count can hold.
#[verifier::opaque]
pub open spec fn data_run(source: CursorView, data: Seq<u8>, count: u32) -> Result<
    (CursorView, CompressedDataView),
    ParserError,
>
    decreases source.remaining(),
{
    if !source.can_read(8) {
        Err(end_of_source())
    } else {
        let length = be_u32(source.peek(4));
        let chunk_type = be_u32(source.advance(4).peek(4));
        if chunk_type != chunk_ids::IDAT {
            Ok((source, CompressedDataView { chunk_count: count, data }))
        } else if length == 0 {
            Err(ParserError::InvalidChunkLength(chunk_ids::IDAT))
        } else if !source.can_read(12 + length as nat) {
            Err(end_of_source())
        } else if count == u32::MAX {
            Err(ParserError::InvalidChunkLength(chunk_ids::IDAT))
        } else {
            data_run(
                source.advance(12 + length as nat),
                data + source.advance(8).peek(length as nat),
                (count + 1) as u32,
            )
        }
    }
}

/// What the next chunk does to a run of data chunks, case by case.
pub proof fn lemma_data_run_unfold(source: CursorView, data: Seq<u8>, count: u32)
    ensures
        !source.can_read(8) ==> data_run(source, data, count) == Err::<
            (CursorView, CompressedDataView),
            ParserError,
        >(end_of_source()),
        source.can_read(8) ==> ({
            let length = be_u32(source.peek(4));
            let chunk_type = be_u32(source.advance(4).peek(4));
            data_run(source, data, count) == if chunk_type != chunk_ids::IDAT {
                Ok((source, CompressedDataView { chunk_count: count, data }))
            } else if length == 0 {
                Err(ParserError::InvalidChunkLength(chunk_ids::IDAT))
            } else if !source.can_read(12 + length as nat) {
                Err(end_of_source())
            } else if count == u32::MAX {
                Err(ParserError::InvalidChunkLength(chunk_ids::IDAT))
            } else {
                data_run(
                    source.advance(12 + length as nat),
                    data + source.advance(8).peek(length as nat),
                    (count + 1) as u32,
                )
            }
        }),
{
    reveal(data_run);
}

/// The first data chunk: it must hold data, and no run of data chunks may
/// have gone before. The whole run that it starts is taken with it.
pub open spec fn idat_step(st: ParserView, data: Seq<u8>) -> Result<ParserView, ParserError> {
    if st.compressed_data is Some {
        Err(ParserError::NonConsecutiveData)
    } else if data.len() == 0 {
        Err(ParserError::InvalidChunkLength(chunk_ids::IDAT))
    } else {
        match data_run(st.source, data, 1) {
            Err(e) => Err(e),
            Ok((source, run)) => Ok(ParserView { source, compressed_data: Some(run), ..st }),
        }
    }
}

/// The trailer: once, and empty.
pub open spec fn iend_step(st: ParserView, data: Seq<u8>) -> Result<ParserView, ParserError> {
    if st.trailer is Some {
        Err(ParserError::DuplicateChunk(chunk_ids::IEND))
    } else if data.len() != 0 {
        Err(ParserError::InvalidChunkLength(chunk_ids::IEND))
    } else {
        Ok(ParserView { trailer: Some(TrailerInfo { found: true }), ..st })
    }
}

/// The transparency chunk: once, after the palette and before the image
/// data. Its shape goes by the color type of the header, which has to be
/// there; for indexed color it holds one byte for each entry of the
/// palette, and the color types with an alpha sample have none.
pub open spec fn trns_step(st: ParserView, data: Seq<u8>) -> Result<ParserView, ParserError> {
    if st.transparency is Some {
        Err(ParserError::DuplicateChunk(chunk_ids::tRNS))
    } else if order_violated(st, AFTER_PLTE_CHUNK | BEFORE_IDAT_CHUNK) {
        Err(ParserError::InvalidChunkOrder(chunk_ids::tRNS))
    } else if st.header is None {
        Err(ParserError::MissingRequiredChunk(chunk_ids::IHDR))
    } else {
        match st.header->0.color_type {
            ColorType::Grayscale => {
                if data.len() != 2 {
                    Err(ParserError::InvalidChunkLength(chunk_ids::tRNS))
                } else {
                    Ok(
                        ParserView {
                            transparency: Some(TransparencyView::Grayscale(be_u16(data))),
                            ..st
                        },
                    )
                }
            },
            ColorType::TrueColor => {
                if data.len() != 6 {
                    Err(ParserError::InvalidChunkLength(chunk_ids::tRNS))
                } else {
                    Ok(
                        ParserView {
                            transparency: Some(
                                TransparencyView::TrueColor(
                                    be_u16(data.subrange(0, 2)),
                                    be_u16(data.subrange(2, 4)),
                                    be_u16(data.subrange(4, 6)),
                                ),
                            ),
                            ..st
                        },
                    )
                }
            },
            ColorType::IndexedColor => {
                if st.palette is None || data.len() != st.palette->0.len() {
                    Err(ParserError::InvalidChunkLength(chunk_ids::tRNS))
                } else {
                    Ok(
                        ParserView {
                            transparency: Some(TransparencyView::IndexedColor(data)),
                            ..st
                        },
                    )
                }
            },
            _ => Err(ParserError::InvalidFieldValue),
        }
    }
}

/// The gamma chunk: once, before the palette and the image data, four bytes.
pub open spec fn gama_step(st: ParserView, data: Seq<u8>) -> Result<ParserView, ParserError> {
    if st.gamma is Some {
        Err(ParserError::DuplicateChunk(chunk_ids::gAMA))
    } else if order_violated(st, BEFORE_PLTE_CHUNK | BEFORE_IDAT_CHUNK) {
        Err(ParserError::InvalidChunkOrder(chunk_ids::gAMA))
    } else if data.len() != 4 {
        Err(ParserError::InvalidChunkLength(chunk_ids::gAMA))
    } else {
        Ok(ParserView { gamma: Some(GammaInfo { gamma: be_u32(data) }), ..st })
    }
}

/// The chromaticities of a chunk of 32 bytes: four pairs of coordinates.
pub open spec fn chromaticity_of(data: Seq<u8>) -> ChromaticityInfo
    recommends
        data.len() == 32,
{
    ChromaticityInfo {
        white_point: (be_u32(data.subrange(0, 4)), be_u32(data.subrange(4, 8))),
        red: (be_u32(data.subrange(8, 12)), be_u32(data.subrange(12, 16))),
        green: (be_u32(data.subrange(16, 20)), be_u32(data.subrange(20, 24))),
        blue: (be_u32(data.subrange(24, 28)), be_u32(data.subrange(28, 32))),
    }
}

/// The chromaticity chunk: once, before the palette and the image data, 32
/// bytes.
pub open spec fn chrm_step(st: ParserView, data: Seq<u8>) -> Result<ParserView, ParserError> {
    if st.chromaticity is Some {
        Err(ParserError::DuplicateChunk(chunk_ids::cHRM))
    } else if order_violated(st, BEFORE_PLTE_CHUNK | BEFORE_IDAT_CHUNK) {
        Err(ParserError::InvalidChunkOrder(chunk_ids::cHRM))
    } else if data.len() != 32 {
        Err(ParserError::InvalidChunkLength(chunk_ids::cHRM))
    } else {
        Ok(ParserView { chromaticity: Some(chromaticity_of(data)), ..st })
    }
}

/// The rendering intent that a byte names.
pub open spec fn rendering_intent_of(byte: u8) -> Option<RenderingIntent> {
    if byte == 0 {
        Some(RenderingIntent::Perceptual)
    } else if byte == 1 {
        Some(RenderingIntent::RelativeColorimetric)
    } else if byte == 2 {
        Some(RenderingIntent::Saturation)
    } else if byte == 3 {
        Some(RenderingIntent::AbsoluteColorimetric)
    } else {
        None
    }
}

/// The standard color space chunk: once, before the palette and the image
/// data, one byte that names a rendering intent.
pub open spec fn srgb_step(st: ParserView, data: Seq<u8>) -> Result<ParserView, ParserError> {
    if st.standard_rgb is Some {
        Err(ParserError::DuplicateChunk(chunk_ids::sRGB))
    } else if order_violated(st, BEFORE_PLTE_CHUNK | BEFORE_IDAT_CHUNK) {
        Err(ParserError::InvalidChunkOrder(chunk_ids::sRGB))
    } else if data.len() != 1 {
        Err(ParserError::InvalidChunkLength(chunk_ids::sRGB))
    } else {
        match rendering_intent_of(data[0]) {
            Some(rendering_intent) => Ok(
                ParserView { standard_rgb: Some(StandardRGBInfo { rendering_intent }), ..st },
            ),
            None => Err(ParserError::InvalidFieldValue),
        }
    }
}

/// The embedded profile that the data of a chunk stand for: a name, a zero
/// byte, a byte that names the compression method, and the compressed
/// profile. Data that end with the zero byte are refused for their length.
pub open spec fn icc_profile_of(data: Seq<u8>) -> Result<ICCProfileView, ParserError> {
    match leading_keyword(data) {
        Err(e) => Err(e),
        Ok((name, end)) => {
            let rest = tail(data, end + 1);
            if rest.len() < 1 {
                Err(ParserError::InvalidChunkLength(chunk_ids::iCCP))
            } else {
                match compression_method_of(rest[0]) {
                    None => Err(ParserError::InvalidFieldValue),
                    Some(compression_method) => Ok(
                        ICCProfileView {
                            name,
                            compression_method,
                            compressed_profile_data: tail(rest, 1),
                        },
                    ),
                }
            }
        },
    }
}

/// The embedded profile chunk: once, before the palette and the image data.
pub open spec fn iccp_step(st: ParserView, data: Seq<u8>) -> Result<ParserView, ParserError> {
    if st.icc_profile is Some {
        Err(ParserError::DuplicateChunk(chunk_ids::iCCP))
    } else if order_violated(st, BEFORE_PLTE_CHUNK | BEFORE_IDAT_CHUNK) {
        Err(ParserError::InvalidChunkOrder(chunk_ids::iCCP))
    } else {
        match icc_profile_of(data) {
            Err(e) => Err(e),
            Ok(profile) => Ok(ParserView { icc_profile: Some(profile), ..st }),
        }
    }
}

/// The text that the data of a text chunk stand for: a keyword, a zero
/// byte, and the text.
pub open spec fn textual_data_of(data: Seq<u8>) -> Result<TextualDataView, ParserError> {
    match leading_keyword(data) {
        Err(e) => Err(e),
        Ok((keyword, end)) => match decoded_text(tail(data, end + 1)) {
            Err(e) => Err(e),
            Ok(text) => Ok(TextualDataView { keyword, text }),
        },
    }
}

/// The text chunk: any number of times, anywhere.
pub open spec fn text_step(st: ParserView, data: Seq<u8>) -> Result<ParserView, ParserError> {
    match textual_data_of(data) {
        Err(e) => Err(e),
        Ok(text) => Ok(ParserView { textual_data: st.textual_data.push(text), ..st }),
    }
}

/// The compressed text that the data of a chunk stand for: a keyword, a
/// zero byte, a byte that names the compression method, and the compressed
/// text. Data that end with the zero byte are refused for their length.
pub open spec fn compressed_textual_data_of(data: Seq<u8>) -> Result<
    CompressedTextualDataView,
    ParserError,
> {
    match leading_keyword(data) {
        Err(e) => Err(e),
        Ok((keyword, end)) => {
            let rest = tail(data, end + 1);
            if rest.len() < 1 {
                Err(ParserError::InvalidChunkLength(chunk_ids::zTXt))
            } else {
                match compression_method_of(rest[0]) {
                    None => Err(ParserError::InvalidFieldValue),
                    Some(compression_method) => Ok(
                        CompressedTextualDataView {
                            keyword,
                            compression_method,
                            text: tail(rest, 1),
                        },
                    ),
                }
            }
        },
    }
}

/// The compressed text chunk: any number of times, anywhere.
pub open spec fn ztxt_step(st: ParserView, data: Seq<u8>) -> Result<ParserView, ParserError> {
    match compressed_textual_data_of(data) {
        Err(e) => Err(e),
        Ok(text) => Ok(
            ParserView { compressed_textual_data: st.compressed_textual_data.push(text), ..st },
        ),
    }
}

/// The international text that the data of a chunk stand for: a keyword, a
/// zero byte, a flag that says whether the text is compressed, a byte that
/// names the compression method, a language tag and a translated keyword,
/// each with a zero byte behind it, and the text. The flag says compressed
/// where it is 1. Data that end before the byte of the compression method
/// are refused for their length. The language tag and the translated
/// keyword may have any length.
pub open spec fn international_textual_data_of(data: Seq<u8>) -> Result<
    InternationalTextualDataView,
    ParserError,
> {
    match leading_keyword(data) {
        Err(e) => Err(e),
        Ok((keyword, end)) => {
            let rest = tail(data, end + 1);
            if rest.len() < 2 {
                Err(ParserError::InvalidChunkLength(chunk_ids::iTXt))
            } else {
                match compression_method_of(rest[1]) {
                    None => Err(ParserError::InvalidFieldValue),
                    Some(compression_method) => {
                        let tagged = tail(rest, 2);
                        match leading_string(tagged) {
                            Err(e) => Err(e),
                            Ok(language_tag) => {
                                let translated = tail(tagged, string_end(tagged)->0 + 1);
                                match leading_string(translated) {
                                    Err(e) => Err(e),
                                    Ok(translated_keyword) => Ok(
                                        InternationalTextualDataView {
                                            keyword,
                                            is_compressed: rest[0] == 1,
                                            compression_method,
                                            language_tag,
                                            translated_keyword,
                                            text: tail(
                                                translated,
                                                string_end(translated)->0 + 1,
                                            ),
                                        },
                                    ),
                                }
                            },
                        }
                    },
                }
            }
        },
    }
}

/// The international text chunk: any number of times, anywhere.
pub open spec fn itxt_step(st: ParserView, data: Seq<u8>) -> Result<ParserView, ParserError> {
    match international_textual_data_of(data) {
        Err(e) => Err(e),
        Ok(text) => Ok(
            ParserView {
                international_textual_data: st.international_textual_data.push(text),
                ..st
            },
        ),
    }
}

/// The background chunk: once, after the palette and before the image
/// data. Its shape goes by the color type of the header, which has to be
/// there; the color types with an alpha sample have none.
pub open spec fn bkgd_step(st: ParserView, data: Seq<u8>) -> Result<ParserView, ParserError> {
    if st.background is Some {
        Err(ParserError::DuplicateChunk(chunk_ids::bKGD))
    } else if order_violated(st, AFTER_PLTE_CHUNK | BEFORE_IDAT_CHUNK) {
        Err(ParserError::InvalidChunkOrder(chunk_ids::bKGD))
    } else if st.header is None {
        Err(ParserError::MissingRequiredChunk(chunk_ids::IHDR))
    } else {
        match st.header->0.color_type {
            ColorType::Grayscale => {
                if data.len() != 2 {
                    Err(ParserError::InvalidChunkLength(chunk_ids::bKGD))
                } else {
                    Ok(
                        ParserView {
                            background: Some(
                                BackgroundInfo {
                                    background: BackgroundVariant::Grayscale(be_u16(data)),
                                },
                            ),
                            ..st
                        },
                    )
                }
            },
            ColorType::TrueColor => {
                if data.len() != 6 {
                    Err(ParserError::InvalidChunkLength(chunk_ids::bKGD))
                } else {
                    Ok(
                        ParserView {
                            background: Some(
                                BackgroundInfo {
                                    background: BackgroundVariant::TrueColor(
                                        be_u16(data.subrange(0, 2)),
                                        be_u16(data.subrange(2, 4)),
                                        be_u16(data.subrange(4, 6)),
                                    ),
                                },
                            ),
                            ..st
                        },
                    )
                }
            },
            ColorType::IndexedColor => {
                if data.len() != 1 {
                    Err(ParserError::InvalidChunkLength(chunk_ids::bKGD))
                } else {
                    Ok(
                        ParserView {
                            background: Some(
                                BackgroundInfo {
                                    background: BackgroundVariant::IndexedColor(data[0]),
                                },
                            ),
                            ..st
                        },
                    )
                }
            },
            _ => Err(ParserError::InvalidFieldValue),
        }
    }
}

/// The unit that a byte of the pixel dimension chunk names.
pub open spec fn unit_specifier_of(byte: u8) -> Option<PhysicalUnitSpecifier> {
    if byte == 0 {
        Some(PhysicalUnitSpecifier::Unknown)
    } else if byte == 1 {
        Some(PhysicalUnitSpecifier::Meter)
    } else {
        None
    }
}

/// The pixel dimension chunk: once, before the image data, nine bytes.
pub open spec fn phys_step(st: ParserView, data: Seq<u8>) -> Result<ParserView, ParserError> {
    if st.physical_pixel_dimension is Some {
        Err(ParserError::DuplicateChunk(chunk_ids::pHYs))
    } else if order_violated(st, BEFORE_IDAT_CHUNK) {
        Err(ParserError::InvalidChunkOrder(chunk_ids::pHYs))
    } else if data.len() != 9 {
        Err(ParserError::InvalidChunkLength(chunk_ids::pHYs))
    } else {
        match unit_specifier_of(data[8]) {
            Some(unit_specifier) => Ok(
                ParserView {
                    physical_pixel_dimension: Some(
                        PhysicalPixelDimensionInfo {
                            pixels_per_unit: (
                                be_u32(data.subrange(0, 4)),
                                be_u32(data.subrange(4, 8)),
                            ),
                            unit_specifier,
                        },
                    ),
                    ..st
                },
            ),
            None => Err(ParserError::InvalidFieldValue),
        }
    }
}

/// The number of bytes that the significant bits of a color type take.
pub open spec fn significant_bits_len(color_type: ColorType) -> nat {
    match color_type {
        ColorType::Grayscale => 1,
        ColorType::TrueColor => 3,
        ColorType::IndexedColor => 3,
        ColorType::GrayscaleAlpha => 2,
        ColorType::TrueColorAlpha => 4,
    }
}

/// The significant bits that the bytes hold for a color type.
pub open spec fn significant_bits_of(color_type: ColorType, data: Seq<u8>) -> SignificantBitsVariant
    recommends
        data.len() == significant_bits_len(color_type),
{
    match color_type {
        ColorType::Grayscale => SignificantBitsVariant::Grayscale(data[0]),
        ColorType::TrueColor => SignificantBitsVariant::TrueColor(data[0], data[1], data[2]),
        ColorType::IndexedColor => SignificantBitsVariant::IndexedColor(data[0], data[1], data[2]),
        ColorType::GrayscaleAlpha => SignificantBitsVariant::GrayscaleAlpha(data[0], data[1]),
        ColorType::TrueColorAlpha => SignificantBitsVariant::TrueColorAlpha(
            data[0],
            data[1],
            data[2],
            data[3],
        ),
    }
}

/// The significant bits chunk: once, before the palette and the image
/// data. Its length goes by the color type of the header, which has to be
/// there.
pub open spec fn sbit_step(st: ParserView, data: Seq<u8>) -> Result<ParserView, ParserError> {
    if st.significant_bits is Some {
        Err(ParserError::DuplicateChunk(chunk_ids::sBIT))
    } else if order_violated(st, BEFORE_PLTE_CHUNK | BEFORE_IDAT_CHUNK) {
        Err(ParserError::InvalidChunkOrder(chunk_ids::sBIT))
    } else if st.header is None {
        Err(ParserError::MissingRequiredChunk(chunk_ids::IHDR))
    } else if data.len() != significant_bits_len(st.header->0.color_type) {
        Err(ParserError::InvalidChunkLength(chunk_ids::sBIT))
    } else {
        Ok(
            ParserView {
                significant_bits: Some(
                    SignificantBitsInfo {
                        significant_bits: significant_bits_of(st.header->0.color_type, data),
                    },
                ),
                ..st
            },
        )
    }
}

/// The entry that a block of six bytes stands for: four samples of one
/// byte, and the frequency.
pub open spec fn narrow_entry_of(block: Seq<u8>) -> SuggestedPaletteEntry {
    SuggestedPaletteEntry {
        red: block[0] as u16,
        green: block[1] as u16,
        blue: block[2] as u16,
        alpha: block[3] as u16,
        frequency: be_u16(block.subrange(4, 6)),
    }
}

/// The entry that a block of ten bytes stands for: four samples of two
/// bytes, and the frequency.
pub open spec fn wide_entry_of(block: Seq<u8>) -> SuggestedPaletteEntry {
    SuggestedPaletteEntry {
        red: be_u16(block.subrange(0, 2)),
        green: be_u16(block.subrange(2, 4)),
        blue: be_u16(block.subrange(4, 6)),
        alpha: be_u16(block.subrange(6, 8)),
        frequency: be_u16(block.subrange(8, 10)),
    }
}

/// The suggested palette that the data of a chunk stand for: a name, a zero
/// byte, the sample depth in bytes, and entries of six or ten bytes. Data
/// that end with the zero byte are refused for their length.
pub open spec fn suggested_palette_of(data: Seq<u8>) -> Result<SuggestedPaletteView, ParserError> {
    match leading_keyword(data) {
        Err(e) => Err(e),
        Ok((name, end)) => {
            let rest = tail(data, end + 1);
            if rest.len() < 1 {
                Err(ParserError::InvalidChunkLength(chunk_ids::sPLT))
            } else {
                let sample_depth = rest[0];
                let body = tail(rest, 1);
                if sample_depth == 1 {
                    if body.len() % 6 != 0 {
                        Err(ParserError::InvalidChunkLength(chunk_ids::sPLT))
                    } else {
                        Ok(
                            SuggestedPaletteView {
                                name,
                                sample_depth,
                                entries: Seq::new(
                                    body.len() / 6,
                                    |i: int| narrow_entry_of(chunk_of(body, 6, i)),
                                ),
                            },
                        )
                    }
                } else if sample_depth == 2 {
                    if body.len() % 10 != 0 {
                        Err(ParserError::InvalidChunkLength(chunk_ids::sPLT))
                    } else {
                        Ok(
                            SuggestedPaletteView {
                                name,
                                sample_depth,
                                entries: Seq::new(
                                    body.len() / 10,
                                    |i: int| wide_entry_of(chunk_of(body, 10, i)),
                                ),
                            },
                        )
                    }
                } else {
                    Err(ParserError::InvalidFieldValue)
                }
            }
        },
    }
}

/// The suggested palette chunk: any number of times, before the image data.
pub open spec fn splt_step(st: ParserView, data: Seq<u8>) -> Result<ParserView, ParserError> {
    if order_violated(st, BEFORE_IDAT_CHUNK) {
        Err(ParserError::InvalidChunkOrder(chunk_ids::sPLT))
    } else {
        match suggested_palette_of(data) {
            Err(e) => Err(e),
            Ok(palette) => Ok(
                ParserView { suggested_palettes: st.suggested_palettes.push(palette), ..st },
            ),
        }
    }
}

/// The counts of a histogram chunk, two bytes each.
pub open spec fn histogram_entries(data: Seq<u8>) -> Seq<u16> {
    Seq::new(data.len() / 2, |i: int| be_u16(chunk_of(data, 2, i)))
}

/// The histogram chunk: once, after the palette and before the image data,
/// with one count for each entry of the palette.
pub open spec fn hist_step(st: ParserView, data: Seq<u8>) -> Result<ParserView, ParserError> {
    if st.palette_histogram is Some {
        Err(ParserError::DuplicateChunk(chunk_ids::hIST))
    } else if order_violated(st, AFTER_PLTE_CHUNK | BEFORE_IDAT_CHUNK) {
        Err(ParserError::InvalidChunkOrder(chunk_ids::hIST))
    } else if st.palette is None || data.len() != st.palette->0.len() * 2 {
        Err(ParserError::InvalidChunkLength(chunk_ids::hIST))
    } else {
        Ok(ParserView { palette_histogram: Some(histogram_entries(data)), ..st })
    }
}

/// The time of last modification that seven bytes stand for. No field is
/// held to the range of a calendar.
pub open spec fn last_modification_of(data: Seq<u8>) -> LastModificationInfo
    recommends
        data.len() == 7,
{
    LastModificationInfo {
        year: be_u16(data.subrange(0, 2)),
        month: data[2],
        day: data[3],
        hour: data[4],
        minute: data[5],
        second: data[6],
    }
}

/// The time chunk: once, seven bytes.
pub open spec fn time_step(st: ParserView, data: Seq<u8>) -> Result<ParserView, ParserError> {
    if st.last_modification is Some {
        Err(ParserError::DuplicateChunk(chunk_ids::tIME))
    } else if data.len() != 7 {
        Err(ParserError::InvalidChunkLength(chunk_ids::tIME))
    } else {
        Ok(ParserView { last_modification: Some(last_modification_of(data)), ..st })
    }
}

/// A chunk of a type that is not known: it is kept as it is, whatever it
/// holds and wherever it stands.
pub open spec fn unknown_step(st: ParserView, chunk_type: ChunkId, data: Seq<u8>) -> ParserView {
    ParserView {
        unknown_chunks: st.unknown_chunks.push(
            UnknownChunkView { chunk_type: be_bytes(chunk_type), data },
        ),
        ..st
    }
}

/// Whether a chunk type is one of those that have a meaning behind the
/// header. The type of the header itself is not among them.
pub open spec fn recognized(chunk_type: ChunkId) -> bool {
    ||| chunk_type == chunk_ids::PLTE
    ||| chunk_type == chunk_ids::IDAT
    ||| chunk_type == chunk_ids::IEND
    ||| chunk_type == chunk_ids::tRNS
    ||| chunk_type == chunk_ids::gAMA
    ||| chunk_type == chunk_ids::cHRM
    ||| chunk_type == chunk_ids::sRGB
    ||| chunk_type == chunk_ids::iCCP
    ||| chunk_type == chunk_ids::tEXt
    ||| chunk_type == chunk_ids::zTXt
    ||| chunk_type == chunk_ids::iTXt
    ||| chunk_type == chunk_ids::bKGD
    ||| chunk_type == chunk_ids::pHYs
    ||| chunk_type == chunk_ids::sBIT
    ||| chunk_type == chunk_ids::sPLT
    ||| chunk_type == chunk_ids::hIST
    ||| chunk_type == chunk_ids::tIME
}

/// What one chunk behind the header does to the parse. A chunk of a type
/// that is not recognized is kept as unknown; so is a second header.
pub open spec fn dispatch(st: ParserView, chunk_type: ChunkId, data: Seq<u8>) -> Result<
    ParserView,
    ParserError,
> {
    if chunk_type == chunk_ids::PLTE {
        plte_step(st, data)
    } else if chunk_type == chunk_ids::IDAT {
        idat_step(st, data)
    } else if chunk_type == chunk_ids::IEND {
        iend_step(st, data)
    } else if chunk_type == chunk_ids::tRNS {
        trns_step(st, data)
    } else if chunk_type == chunk_ids::gAMA {
        gama_step(st, data)
    } else if chunk_type == chunk_ids::cHRM {
        chrm_step(st, data)
    } else if chunk_type == chunk_ids::sRGB {
        srgb_step(st, data)
    } else if chunk_type == chunk_ids::iCCP {
        iccp_step(st, data)
    } else if chunk_type == chunk_ids::tEXt {
        text_step(st, data)
    } else if chunk_type == chunk_ids::zTXt {
        ztxt_step(st, data)
    } else if chunk_type == chunk_ids::iTXt {
        itxt_step(st, data)
    } else if chunk_type == chunk_ids::bKGD {
        bkgd_step(st, data)
    } else if chunk_type == chunk_ids::pHYs {
        phys_step(st, data)
    } else if chunk_type == chunk_ids::sBIT {
        sbit_step(st, data)
    } else if chunk_type == chunk_ids::sPLT {
        splt_step(st, data)
    } else if chunk_type == chunk_ids::hIST {
        hist_step(st, data)
    } else if chunk_type == chunk_ids::tIME {
        time_step(st, data)
    } else {
        Ok(unknown_step(st, chunk_type, data))
    }
}

/// The run of data chunks leaves the bytes of the source alone and does not
/// go back in it.
pub proof fn lemma_data_run_source(source: CursorView, data: Seq<u8>, count: u32)
    requires
        source.wf(),
    ensures
        data_run(source, data, count) matches Ok((after, run)) ==> after.bytes == source.bytes
            && after.wf() && after.pos >= source.pos,
    decreases source.remaining(),
{
    reveal(data_run);
    if source.can_read(8) {
        let length = be_u32(source.peek(4));
        let chunk_type = be_u32(source.advance(4).peek(4));
        if chunk_type == chunk_ids::IDAT && length != 0 && source.can_read(12 + length as nat)
            && count != u32::MAX {
            lemma_data_run_source(
                source.advance(12 + length as nat),
                data + source.advance(8).peek(length as nat),
                (count + 1) as u32,
            );
        }
    }
}

/// No chunk changes the bytes of the source or goes back in it.
pub proof fn lemma_dispatch_source(st: ParserView, chunk_type: ChunkId, data: Seq<u8>)
    requires
        st.source.wf(),
    ensures
        dispatch(st, chunk_type, data) matches Ok(next) ==> next.source.bytes == st.source.bytes
            && next.source.wf() && next.source.pos >= st.source.pos,
{
    if chunk_type == chunk_ids::IDAT {
        lemma_data_run_source(st.source, data, 1);
    }
}

/// The next chunk of the stream, read and taken.
pub open spec fn chunk_step(st: ParserView) -> Result<ParserView, ParserError> {
    match read_chunk(st.source) {
        Err(e) => Err(e),
        Ok((chunk, source)) => dispatch(ParserView { source, ..st }, chunk.chunk_type, chunk.data),
    }
}

/// The chunks behind the header, one after the other, up to the trailer.
/// The first failure ends the parse.
pub open spec fn chunks_step(st: ParserView) -> Result<ParserView, ParserError>
    decreases st.source.remaining(),
    via chunks_step_decreases
{
    if st.trailer is Some {
        Ok(st)
    } else {
        match chunk_step(st) {
            Err(e) => Err(e),
            Ok(next) => chunks_step(next),
        }
    }
}

#[via_fn]
proof fn chunks_step_decreases(st: ParserView) {
    if st.trailer is None {
        lemma_chunk_step_source(st);
    }
}

/// A chunk that is taken leaves the bytes of the source alone and moves
/// the source forward.
pub proof fn lemma_chunk_step_source(st: ParserView)
    ensures
        chunk_step(st) matches Ok(next) ==> st.source.wf() && next.source.bytes
            == st.source.bytes && next.source.wf() && next.source.pos > st.source.pos,
{
    match read_chunk(st.source) {
        Err(e) => {},
        Ok((chunk, source)) => {
            lemma_dispatch_source(ParserView { source, ..st }, chunk.chunk_type, chunk.data);
        },
    }
}

/// The image description that a finished parse gives: the header, the image
/// data and the trailer have to be there, and the palette too where the
/// color type is indexed color.
pub open spec fn collect_step(st: ParserView) -> Result<PngInfoView, ParserError> {
    if st.header is None {
        Err(ParserError::MissingRequiredChunk(chunk_ids::IHDR))
    } else if st.palette is None && st.header->0.color_type == ColorType::IndexedColor {
        Err(ParserError::MissingRequiredChunk(chunk_ids::PLTE))
    } else if st.compressed_data is None {
        Err(ParserError::MissingRequiredChunk(chunk_ids::IDAT))
    } else if st.trailer is None || !st.trailer->0.found {
        Err(ParserError::MissingRequiredChunk(chunk_ids::IEND))
    } else {
        Ok(
            PngInfoView {
                header: st.header->0,
                palette: st.palette,
                compressed_data: st.compressed_data->0,
                trailer: st.trailer->0,
                transparency: st.transparency,
                gamma: st.gamma,
                chromaticity: st.chromaticity,
                standard_rgb: st.standard_rgb,
                icc_profile: st.icc_profile,
                textual_data: st.textual_data,
                compressed_textual_data: st.compressed_textual_data,
                international_textual_data: st.international_textual_data,
                background: st.background,
                physical_pixel_dimension: st.physical_pixel_dimension,
                significant_bits: st.significant_bits,
                suggested_palettes: st.suggested_palettes,
                palette_histogram: st.palette_histogram,
                last_modification: st.last_modification,
                unknown_chunks: st.unknown_chunks,
            },
        )
    }
}

/// What the parse of a whole stream gives: the signature, the header, the
/// chunks up to the trailer, and the image description gathered from them,
/// or the first failure on the way.
pub open spec fn parsed(bytes: Seq<u8>) -> Result<PngInfoView, ParserError> {
    match signature_step(initial(bytes)) {
        Err(e) => Err(e),
        Ok(signed) => match header_step(signed) {
            Err(e) => Err(e),
            Ok(headed) => match chunks_step(headed) {
                Err(e) => Err(e),
                Ok(done) => collect_step(done),
            },
        },
    }
}

} // verus!
