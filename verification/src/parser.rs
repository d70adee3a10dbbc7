use vstd::prelude::*;
use vstd::slice::slice_to_vec;
use crate::error::IoFailure;
use crate::error::ParserError;
use crate::model::ParserView;
use crate::model;
use crate::source::ByteCursor;
use crate::source::CursorView;
use crate::spec::BackgroundInfo;
use crate::spec::BackgroundVariant;
use crate::spec::ChromaticityInfo;
use crate::spec::chunk_ids;
use crate::spec::ChunkId;
use crate::spec::ColorType;
use crate::spec::CompressedDataInfo;
use crate::spec::CompressedDataView;
use crate::spec::CompressedTextualDataInfo;
use crate::spec::CompressionMethod;
use crate::spec::FilterMethod;
use crate::spec::GammaInfo;
use crate::spec::HeaderInfo;
use crate::spec::ICCProfileInfo;
use crate::spec::InterlaceMethod;
use crate::spec::InternationalTextualDataInfo;
use crate::spec::LastModificationInfo;
use crate::spec::PaletteHistogramInfo;
use crate::spec::PaletteInfo;
use crate::spec::PhysicalPixelDimensionInfo;
use crate::spec::PhysicalUnitSpecifier;
use crate::spec::PngInfo;
use crate::spec::RenderingIntent;
use crate::spec::SIGNATURE;
use crate::spec::SignificantBitsInfo;
use crate::spec::SignificantBitsVariant;
use crate::spec::StandardRGBInfo;
use crate::spec::SuggestedPaletteEntry;
use crate::spec::SuggestedPaletteInfo;
use crate::spec::TextualDataInfo;
use crate::spec::TrailerInfo;
use crate::spec::TransparencyInfo;
use crate::spec::TransparencyVariant;
use crate::spec::UnknownChunkInfo;
use crate::utils;

verus! {

/// Represents a parser that handles PNG data.
pub struct Parser<'a> {
    source: ByteCursor<'a>,
    header: Option<HeaderInfo>,
    palette: Option<PaletteInfo>,
    compressed_data: Option<CompressedDataInfo>,
    trailer: Option<TrailerInfo>,
    transparency: Option<TransparencyInfo>,
    gamma: Option<GammaInfo>,
    chromaticity: Option<ChromaticityInfo>,
    standard_rgb: Option<StandardRGBInfo>,
    icc_profile: Option<ICCProfileInfo>,
    textual_data: Vec<TextualDataInfo>,
    compressed_textual_data: Vec<CompressedTextualDataInfo>,
    international_textual_data: Vec<InternationalTextualDataInfo>,
    background: Option<BackgroundInfo>,
    physical_pixel_dimension: Option<PhysicalPixelDimensionInfo>,
    significant_bits: Option<SignificantBitsInfo>,
    suggested_palettes: Vec<SuggestedPaletteInfo>,
    palette_histogram: Option<PaletteHistogramInfo>,
    last_modification: Option<LastModificationInfo>,
    unknown_chunks: Vec<UnknownChunkInfo>,
}

impl<'a> View for Parser<'a> {
    type V = ParserView;

    closed spec fn view(&self) -> ParserView {
        ParserView {
            source: self.source@,
            header: self.header,
            palette: self.palette.deep_view(),
            compressed_data: self.compressed_data.deep_view(),
            trailer: self.trailer,
            transparency: self.transparency.deep_view(),
            gamma: self.gamma,
            chromaticity: self.chromaticity,
            standard_rgb: self.standard_rgb,
            icc_profile: self.icc_profile.deep_view(),
            textual_data: self.textual_data.deep_view(),
            compressed_textual_data: self.compressed_textual_data.deep_view(),
            international_textual_data: self.international_textual_data.deep_view(),
            background: self.background,
            physical_pixel_dimension: self.physical_pixel_dimension,
            significant_bits: self.significant_bits,
            suggested_palettes: self.suggested_palettes.deep_view(),
            palette_histogram: self.palette_histogram.deep_view(),
            last_modification: self.last_modification,
            unknown_chunks: self.unknown_chunks.deep_view(),
        }
    }
}

/// How a step that reads nothing from the source ends, held against what
/// the model says of it. Where the model gives a next state, the step
/// succeeds and leaves the parser in that state. Where the model fails,
/// the step fails in the same way and leaves the parser as it was.
spec fn follows(
    before: ParserView,
    expected: Result<ParserView, ParserError>,
    after: ParserView,
    r: Result<(), ParserError>,
) -> bool {
    match expected {
        Ok(next) => r is Ok && after == next,
        Err(e) => r == Err::<(), ParserError>(e) && after == before,
    }
}

/// How a step that reads from the source ends, held against what the model
/// says of it. It is as with the other steps, but that a step which fails
/// may have moved on in the source: nothing that was gathered has changed,
/// and the bytes of the source are the same.
spec fn follows_reading(
    before: ParserView,
    expected: Result<ParserView, ParserError>,
    after: ParserView,
    r: Result<(), ParserError>,
) -> bool {
    match expected {
        Ok(next) => r is Ok && after == next,
        Err(e) => r == Err::<(), ParserError>(e) && after == (ParserView {
            source: after.source,
            ..before
        }) && after.source.bytes == before.source.bytes,
    }
}

fn is_signature(bytes: &[u8]) -> (r: bool)
    requires
        bytes@.len() == 8,
    ensures
        r <==> bytes@ == SIGNATURE@,
{
    let mut i: usize = 0;
    while i < 8
        invariant
            i <= 8,
            bytes@.len() == 8,
            forall|j: int| 0 <= j < i ==> bytes@[j] == SIGNATURE@[j],
        decreases 8 - i,
    {
        if bytes[i] != SIGNATURE[i] {
            return false;
        }
        i += 1;
    }
    assert(bytes@ =~= SIGNATURE@);
    true
}

/// The keyword or name at the start of `data`, and the number of its bytes.
fn leading_keyword(data: &[u8]) -> (r: Result<(String, usize), ParserError>)
    ensures
        match model::leading_keyword(data@) {
            Ok((text, end)) => r matches Ok((keyword, length)) && keyword@ == text && length
                == end && end < data@.len(),
            Err(e) => r matches Err(err) && err == e,
        },
{
    let keyword = utils::get_string(data)?;
    proof {
        utils::lemma_leading_string(data@);
    }
    let _ = data.len();
    utils::validate_string(keyword.as_str())?;
    let length = keyword.as_str().len();

    Ok((keyword, length))
}

/// Gathers the run of data chunks that begins with a chunk whose data are
/// `data`, and behind which `source` stands. Each time it looks at the
/// length and type of the next chunk: a data chunk is taken and joined to
/// what is there, and before the first chunk of another type the source is
/// moved back by the eight bytes looked at, and the run ends.
fn aggregate_data(source: &mut ByteCursor, data: &[u8]) -> (r: Result<
    CompressedDataInfo,
    ParserError,
>)
    requires
        old(source)@.wf(),
    ensures
        final(source)@.wf(),
        final(source)@.bytes == old(source)@.bytes,
        match model::data_run(old(source)@, data@, 1) {
            Ok((after, run)) => (r matches Ok(info) && info@ == run) && final(source)@ == after,
            Err(e) => r matches Err(err) && err == e,
        },
{
    let mut gathered = slice_to_vec(data);
    let mut chunk_count: u32 = 1;

    loop
        invariant
            source@.wf(),
            source@.bytes == old(source)@.bytes,
            model::data_run(source@, gathered@, chunk_count) == model::data_run(
                old(source)@,
                data@,
                1,
            ),
        ensures
            source@.wf(),
            source@.bytes == old(source)@.bytes,
            model::data_run(old(source)@, data@, 1) == Ok::<
                (CursorView, CompressedDataView),
                ParserError,
            >((source@, CompressedDataView { chunk_count, data: gathered@ })),
        decreases source@.remaining(),
    {
        let ghost start = source@;
        let ghost run = model::data_run(start, gathered@, chunk_count);
        proof {
            model::lemma_data_run_unfold(start, gathered@, chunk_count);
        }
        let length = utils::read_u32(source)?;
        let chunk_type = utils::read_u32(source)?;
        assert(start.can_read(8));
        assert(length == utils::be_u32(start.peek(4)));
        assert(chunk_type == utils::be_u32(start.advance(4).peek(4)));

        if chunk_type != chunk_ids::IDAT {
            utils::seek(source, -8)?;
            assert(source@ == start);
            break ;
        }

        if length == 0 {
            return Err(ParserError::InvalidChunkLength(chunk_ids::IDAT));
        }

        utils::seek(source, -4)?;
        assert(source@ == start.advance(4));
        let size = match (length as usize).checked_add(4) {
            Some(size) => size,
            None => {
                let _ = source.remaining();
                return Err(ParserError::IOError(IoFailure::UnexpectedEof));
            },
        };
        let type_and_data = utils::read_bytes(source, size)?;
        // The checksum is read and not held against the data.
        let _crc = utils::read_u32(source)?;
        assert(start.can_read(12 + length as nat));
        assert(source@ == start.advance(12 + length as nat));

        if chunk_count == u32::MAX {
            return Err(ParserError::InvalidChunkLength(chunk_ids::IDAT));
        }

        proof {
            assert(type_and_data@.subrange(4, size as int) =~= start.advance(8).peek(
                length as nat,
            ));
            assert(run == model::data_run(
                start.advance(12 + length as nat),
                gathered@ + start.advance(8).peek(length as nat),
                (chunk_count + 1) as u32,
            ));
        }
        let ghost before = gathered@;
        gathered.extend_from_slice(&type_and_data[4..size]);
        chunk_count += 1;
        assert(gathered@ =~= before + start.advance(8).peek(length as nat));
    }

    Ok(CompressedDataInfo { chunk_count, data: gathered })
}

impl<'a> Parser<'a> {
    /// Whether the source of this parser stands within its bytes.
    spec fn wf(&self) -> bool {
        self.source@.wf()
    }

    fn validate_signature(&mut self) -> (r: Result<(), ParserError>)
        requires
            old(self).wf(),
        ensures
            final(self).wf(),
            follows_reading(old(self)@, model::signature_step(old(self)@), final(self)@, r),
            r is Err ==> final(self)@.source == if old(self)@.source.can_read(8) {
                old(self)@.source.advance(8)
            } else {
                old(self)@.source
            },
    {
        let mut signature = [0u8; 8];
        match utils::read_to(&mut self.source, &mut signature) {
            Ok(filled) => {
                if !is_signature(filled) {
                    return Err(ParserError::InvalidSignature);
                }
                Ok(())
            },
            Err(_) => Err(ParserError::InvalidSignature),
        }
    }

    /// Reads the next chunk: its length, and its type and data in one
    /// block. The checksum behind it is read and dropped.
    fn next_chunk(&mut self) -> (r: Result<(u32, Vec<u8>), ParserError>)
        requires
            old(self).wf(),
        ensures
            final(self).wf(),
            match model::read_chunk(old(self)@.source) {
                Ok((chunk, source)) => (r matches Ok((length, block)) && length == chunk.length
                    && block@.len() == 4 + length && utils::be_u32(block@.subrange(0, 4))
                    == chunk.chunk_type && block@.subrange(4, 4 + length) == chunk.data)
                    && final(self)@ == (ParserView { source, ..old(self)@ }),
                Err(e) => (r matches Err(err) && err == e) && final(self)@ == (ParserView {
                    source: final(self)@.source,
                    ..old(self)@
                }) && final(self)@.source.bytes == old(self)@.source.bytes,
            },
    {
        let ghost start = self.source@;
        let length = utils::read_u32(&mut self.source)?;
        let size = match (length as usize).checked_add(4) {
            Some(size) => size,
            None => {
                let _ = self.source.remaining();
                return Err(ParserError::IOError(IoFailure::UnexpectedEof));
            },
        };
        let type_and_data = utils::read_bytes(&mut self.source, size)?;
        // The checksum is read and not held against the data.
        let _crc = utils::read_u32(&mut self.source)?;
        proof {
            assert(type_and_data@.subrange(0, 4) =~= start.advance(4).peek(4));
            assert(type_and_data@.subrange(4, 4 + length) =~= start.advance(8).peek(
                length as nat,
            ));
        }
        Ok((length, type_and_data))
    }

    fn parse_header(&mut self) -> (r: Result<(), ParserError>)
        requires
            old(self).wf(),
        ensures
            final(self).wf(),
            follows_reading(old(self)@, model::header_step(old(self)@), final(self)@, r),
    {
        let (length, type_and_data) = self.next_chunk()?;

        let chunk_type = utils::to_u32(&type_and_data[0..4]);
        let data = &type_and_data[4..type_and_data.len()];

        if chunk_type != chunk_ids::IHDR {
            return Err(ParserError::MissingRequiredChunk(chunk_ids::IHDR));
        }

        if length != 13 {
            return Err(ParserError::InvalidChunkLength(chunk_ids::IHDR));
        }

        let header_info = HeaderInfo {
            width: utils::to_u32(&data[0..4]),
            height: utils::to_u32(&data[4..8]),
            bit_depth: data[8],
            color_type: match data[9] {
                0 => ColorType::Grayscale,
                2 => ColorType::TrueColor,
                3 => ColorType::IndexedColor,
                4 => ColorType::GrayscaleAlpha,
                6 => ColorType::TrueColorAlpha,
                _ => return Err(ParserError::InvalidFieldValue),
            },
            compression_method: match data[10] {
                0 => CompressionMethod::Deflate,
                _ => return Err(ParserError::InvalidFieldValue),
            },
            filter_method: match data[11] {
                0 => FilterMethod::Adaptive,
                _ => return Err(ParserError::InvalidFieldValue),
            },
            interlace_method: match data[12] {
                0 => InterlaceMethod::NoInterlace,
                1 => InterlaceMethod::Adam7,
                _ => return Err(ParserError::InvalidFieldValue),
            },
        };

        if header_info.width == 0 || header_info.height == 0 {
            return Err(ParserError::InvalidFieldValue);
        }

        let is_valid_bit_depth = match header_info.color_type {
            ColorType::Grayscale => matches!(header_info.bit_depth, 1 | 2 | 4 | 8 | 16),
            ColorType::IndexedColor => matches!(header_info.bit_depth, 1 | 2 | 4 | 8),
            ColorType::TrueColor | ColorType::GrayscaleAlpha | ColorType::TrueColorAlpha => {
                matches!(header_info.bit_depth, 8 | 16)
            },
        };

        if !is_valid_bit_depth {
            return Err(ParserError::InvalidFieldValue);
        }

        self.header = Some(header_info);

        Ok(())
    }

    fn check_chunk_order(&self, chunk_id: ChunkId, constraint: u8) -> (r: Result<
        (),
        ParserError,
    >)
        ensures
            model::order_violated(self@, constraint) ==> r == Err::<(), ParserError>(
                ParserError::InvalidChunkOrder(chunk_id),
            ),
            !model::order_violated(self@, constraint) ==> r is Ok,
    {
        if (constraint & model::BEFORE_PLTE_CHUNK) != 0 && !self.palette.is_none() {
            return Err(ParserError::InvalidChunkOrder(chunk_id));
        }

        if (constraint & model::AFTER_PLTE_CHUNK) != 0 && self.palette.is_none() {
            return Err(ParserError::InvalidChunkOrder(chunk_id));
        }

        if (constraint & model::BEFORE_IDAT_CHUNK) != 0 && !self.compressed_data.is_none() {
            return Err(ParserError::InvalidChunkOrder(chunk_id));
        }

        Ok(())
    }

    fn parse_iend(&mut self, length: u32, _data: &[u8]) -> (r: Result<(), ParserError>)
        requires
            old(self).wf(),
            length == _data@.len(),
        ensures
            final(self).wf(),
            follows(old(self)@, model::iend_step(old(self)@, _data@), final(self)@, r),
    {
        if !self.trailer.is_none() {
            return Err(ParserError::DuplicateChunk(chunk_ids::IEND));
        }

        if length != 0 {
            return Err(ParserError::InvalidChunkLength(chunk_ids::IEND));
        }

        self.trailer = Some(TrailerInfo { found: true });

        Ok(())
    }

    fn parse_gama(&mut self, length: u32, data: &[u8]) -> (r: Result<(), ParserError>)
        requires
            old(self).wf(),
            length == data@.len(),
        ensures
            final(self).wf(),
            follows(old(self)@, model::gama_step(old(self)@, data@), final(self)@, r),
    {
        if !self.gamma.is_none() {
            return Err(ParserError::DuplicateChunk(chunk_ids::gAMA));
        }

        self.check_chunk_order(
            chunk_ids::gAMA,
            model::BEFORE_PLTE_CHUNK | model::BEFORE_IDAT_CHUNK,
        )?;

        if length != 4 {
            return Err(ParserError::InvalidChunkLength(chunk_ids::gAMA));
        }

        let gamma = utils::to_u32(data);

        self.gamma = Some(GammaInfo { gamma });

        Ok(())
    }

    fn parse_chrm(&mut self, length: u32, data: &[u8]) -> (r: Result<(), ParserError>)
        requires
            old(self).wf(),
            length == data@.len(),
        ensures
            final(self).wf(),
            follows(old(self)@, model::chrm_step(old(self)@, data@), final(self)@, r),
    {
        if !self.chromaticity.is_none() {
            return Err(ParserError::DuplicateChunk(chunk_ids::cHRM));
        }

        self.check_chunk_order(
            chunk_ids::cHRM,
            model::BEFORE_PLTE_CHUNK | model::BEFORE_IDAT_CHUNK,
        )?;

        if length != 32 {
            return Err(ParserError::InvalidChunkLength(chunk_ids::cHRM));
        }

        let white_point = (utils::to_u32(&data[0..4]), utils::to_u32(&data[4..8]));
        let red = (utils::to_u32(&data[8..12]), utils::to_u32(&data[12..16]));
        let green = (utils::to_u32(&data[16..20]), utils::to_u32(&data[20..24]));
        let blue = (utils::to_u32(&data[24..28]), utils::to_u32(&data[28..32]));

        self.chromaticity = Some(ChromaticityInfo { white_point, red, green, blue });

        Ok(())
    }

    fn parse_srgb(&mut self, length: u32, data: &[u8]) -> (r: Result<(), ParserError>)
        requires
            old(self).wf(),
            length == data@.len(),
        ensures
            final(self).wf(),
            follows(old(self)@, model::srgb_step(old(self)@, data@), final(self)@, r),
    {
        if !self.standard_rgb.is_none() {
            return Err(ParserError::DuplicateChunk(chunk_ids::sRGB));
        }

        self.check_chunk_order(
            chunk_ids::sRGB,
            model::BEFORE_PLTE_CHUNK | model::BEFORE_IDAT_CHUNK,
        )?;

        if length != 1 {
            return Err(ParserError::InvalidChunkLength(chunk_ids::sRGB));
        }

        let rendering_intent = match data[0] {
            0 => RenderingIntent::Perceptual,
            1 => RenderingIntent::RelativeColorimetric,
            2 => RenderingIntent::Saturation,
            3 => RenderingIntent::AbsoluteColorimetric,
            _ => return Err(ParserError::InvalidFieldValue),
        };

        self.standard_rgb = Some(StandardRGBInfo { rendering_intent });

        Ok(())
    }

    fn parse_phys(&mut self, length: u32, data: &[u8]) -> (r: Result<(), ParserError>)
        requires
            old(self).wf(),
            length == data@.len(),
        ensures
            final(self).wf(),
            follows(old(self)@, model::phys_step(old(self)@, data@), final(self)@, r),
    {
        if !self.physical_pixel_dimension.is_none() {
            return Err(ParserError::DuplicateChunk(chunk_ids::pHYs));
        }

        self.check_chunk_order(chunk_ids::pHYs, model::BEFORE_IDAT_CHUNK)?;

        if length != 9 {
            return Err(ParserError::InvalidChunkLength(chunk_ids::pHYs));
        }

        let pixels_per_unit = (utils::to_u32(&data[0..4]), utils::to_u32(&data[4..8]));
        let unit_specifier = match data[8] {
            0 => PhysicalUnitSpecifier::Unknown,
            1 => PhysicalUnitSpecifier::Meter,
            _ => return Err(ParserError::InvalidFieldValue),
        };

        self.physical_pixel_dimension = Some(
            PhysicalPixelDimensionInfo { pixels_per_unit, unit_specifier },
        );

        Ok(())
    }

    fn parse_time(&mut self, length: u32, data: &[u8]) -> (r: Result<(), ParserError>)
        requires
            old(self).wf(),
            length == data@.len(),
        ensures
            final(self).wf(),
            follows(old(self)@, model::time_step(old(self)@, data@), final(self)@, r),
    {
        if !self.last_modification.is_none() {
            return Err(ParserError::DuplicateChunk(chunk_ids::tIME));
        }

        if length != 7 {
            return Err(ParserError::InvalidChunkLength(chunk_ids::tIME));
        }

        let year = utils::to_u16(&data[0..2]);
        let month = data[2];
        let day = data[3];
        let hour = data[4];
        let minute = data[5];
        let second = data[6];

        self.last_modification = Some(
            LastModificationInfo { year, month, day, hour, minute, second },
        );

        Ok(())
    }

    fn parse_plte(&mut self, length: u32, data: &[u8]) -> (r: Result<(), ParserError>)
        requires
            old(self).wf(),
            length == data@.len(),
        ensures
            final(self).wf(),
            follows(old(self)@, model::plte_step(old(self)@, data@), final(self)@, r),
    {
        if !self.palette.is_none() {
            return Err(ParserError::DuplicateChunk(chunk_ids::PLTE));
        }

        self.check_chunk_order(chunk_ids::PLTE, model::BEFORE_IDAT_CHUNK)?;

        if length % 3 != 0 {
            return Err(ParserError::InvalidChunkLength(chunk_ids::PLTE));
        }

        let rgb = |c: &[u8; 3]| -> (color: (u8, u8, u8))
            ensures
                color == model::rgb_of(c@),
            { (c[0], c[1], c[2]) };
        let entries = utils::to_chunked::<3, _, _>(data, rgb);
        proof {
            assert forall|i: int| 0 <= i < entries@.len() implies entries@[i] == model::rgb_of(
                utils::chunk_of(data@, 3, i),
            ) by {
                assert(utils::projects::<3, _, _>(rgb, utils::chunk_of(data@, 3, i), entries@[i]));
            }
            assert(entries@ =~= model::palette_entries(data@));
        }

        self.palette = Some(PaletteInfo { entries });

        Ok(())
    }

    fn parse_trns(&mut self, length: u32, data: &[u8]) -> (r: Result<(), ParserError>)
        requires
            old(self).wf(),
            length == data@.len(),
        ensures
            final(self).wf(),
            follows(old(self)@, model::trns_step(old(self)@, data@), final(self)@, r),
    {
        if !self.transparency.is_none() {
            return Err(ParserError::DuplicateChunk(chunk_ids::tRNS));
        }

        self.check_chunk_order(
            chunk_ids::tRNS,
            model::AFTER_PLTE_CHUNK | model::BEFORE_IDAT_CHUNK,
        )?;

        let color_type = match self.header {
            Some(header) => header.color_type,
            None => return Err(ParserError::MissingRequiredChunk(chunk_ids::IHDR)),
        };

        let transparency = match color_type {
            ColorType::Grayscale => {
                if length != 2 {
                    return Err(ParserError::InvalidChunkLength(chunk_ids::tRNS));
                }

                assert(data@.subrange(0, 2) =~= data@);
                TransparencyVariant::Grayscale(utils::to_u16(&data[0..2]))
            },
            ColorType::TrueColor => {
                if length != 6 {
                    return Err(ParserError::InvalidChunkLength(chunk_ids::tRNS));
                }

                TransparencyVariant::TrueColor(
                    utils::to_u16(&data[0..2]),
                    utils::to_u16(&data[2..4]),
                    utils::to_u16(&data[4..6]),
                )
            },
            ColorType::IndexedColor => {
                let entry_count = match &self.palette {
                    Some(palette) => palette.entries.len(),
                    None => return Err(ParserError::InvalidChunkLength(chunk_ids::tRNS)),
                };
                if length as usize != entry_count {
                    return Err(ParserError::InvalidChunkLength(chunk_ids::tRNS));
                }

                TransparencyVariant::IndexedColor(slice_to_vec(data))
            },
            _ => return Err(ParserError::InvalidFieldValue),
        };

        self.transparency = Some(TransparencyInfo { transparency });

        Ok(())
    }

    fn parse_bkgd(&mut self, length: u32, data: &[u8]) -> (r: Result<(), ParserError>)
        requires
            old(self).wf(),
            length == data@.len(),
        ensures
            final(self).wf(),
            follows(old(self)@, model::bkgd_step(old(self)@, data@), final(self)@, r),
    {
        if !self.background.is_none() {
            return Err(ParserError::DuplicateChunk(chunk_ids::bKGD));
        }

        self.check_chunk_order(
            chunk_ids::bKGD,
            model::AFTER_PLTE_CHUNK | model::BEFORE_IDAT_CHUNK,
        )?;

        let color_type = match self.header {
            Some(header) => header.color_type,
            None => return Err(ParserError::MissingRequiredChunk(chunk_ids::IHDR)),
        };

        let background = match color_type {
            ColorType::Grayscale => {
                if length != 2 {
                    return Err(ParserError::InvalidChunkLength(chunk_ids::bKGD));
                }

                assert(data@.subrange(0, 2) =~= data@);
                BackgroundVariant::Grayscale(utils::to_u16(&data[0..2]))
            },
            ColorType::TrueColor => {
                if length != 6 {
                    return Err(ParserError::InvalidChunkLength(chunk_ids::bKGD));
                }

                BackgroundVariant::TrueColor(
                    utils::to_u16(&data[0..2]),
                    utils::to_u16(&data[2..4]),
                    utils::to_u16(&data[4..6]),
                )
            },
            ColorType::IndexedColor => {
                if length != 1 {
                    return Err(ParserError::InvalidChunkLength(chunk_ids::bKGD));
                }

                BackgroundVariant::IndexedColor(data[0])
            },
            _ => return Err(ParserError::InvalidFieldValue),
        };

        self.background = Some(BackgroundInfo { background });

        Ok(())
    }

    fn parse_sbit(&mut self, length: u32, data: &[u8]) -> (r: Result<(), ParserError>)
        requires
            old(self).wf(),
            length == data@.len(),
        ensures
            final(self).wf(),
            follows(old(self)@, model::sbit_step(old(self)@, data@), final(self)@, r),
    {
        if !self.significant_bits.is_none() {
            return Err(ParserError::DuplicateChunk(chunk_ids::sBIT));
        }

        self.check_chunk_order(
            chunk_ids::sBIT,
            model::BEFORE_PLTE_CHUNK | model::BEFORE_IDAT_CHUNK,
        )?;

        let color_type = match self.header {
            Some(header) => header.color_type,
            None => return Err(ParserError::MissingRequiredChunk(chunk_ids::IHDR)),
        };

        let variant = match color_type {
            ColorType::Grayscale => {
                if length != 1 {
                    return Err(ParserError::InvalidChunkLength(chunk_ids::sBIT));
                }

                SignificantBitsVariant::Grayscale(data[0])
            },
            ColorType::TrueColor => {
                if length != 3 {
                    return Err(ParserError::InvalidChunkLength(chunk_ids::sBIT));
                }

                SignificantBitsVariant::TrueColor(data[0], data[1], data[2])
            },
            ColorType::IndexedColor => {
                if length != 3 {
                    return Err(ParserError::InvalidChunkLength(chunk_ids::sBIT));
                }

                SignificantBitsVariant::IndexedColor(data[0], data[1], data[2])
            },
            ColorType::GrayscaleAlpha => {
                if length != 2 {
                    return Err(ParserError::InvalidChunkLength(chunk_ids::sBIT));
                }

                SignificantBitsVariant::GrayscaleAlpha(data[0], data[1])
            },
            ColorType::TrueColorAlpha => {
                if length != 4 {
                    return Err(ParserError::InvalidChunkLength(chunk_ids::sBIT));
                }

                SignificantBitsVariant::TrueColorAlpha(data[0], data[1], data[2], data[3])
            },
        };

        self.significant_bits = Some(SignificantBitsInfo { significant_bits: variant });

        Ok(())
    }

    fn parse_hist(&mut self, length: u32, data: &[u8]) -> (r: Result<(), ParserError>)
        requires
            old(self).wf(),
            length == data@.len(),
        ensures
            final(self).wf(),
            follows(old(self)@, model::hist_step(old(self)@, data@), final(self)@, r),
    {
        if !self.palette_histogram.is_none() {
            return Err(ParserError::DuplicateChunk(chunk_ids::hIST));
        }

        self.check_chunk_order(
            chunk_ids::hIST,
            model::AFTER_PLTE_CHUNK | model::BEFORE_IDAT_CHUNK,
        )?;

        let entry_count = match &self.palette {
            Some(palette) => palette.entries.len(),
            None => return Err(ParserError::InvalidChunkLength(chunk_ids::hIST)),
        };

        if length % 2 != 0 || (length / 2) as usize != entry_count {
            return Err(ParserError::InvalidChunkLength(chunk_ids::hIST));
        }

        let count = |c: &[u8; 2]| -> (value: u16)
            ensures
                value == utils::be_u16(c@),
            { utils::to_u16(c) };
        let entries = utils::to_chunked::<2, _, _>(data, count);
        proof {
            assert forall|i: int| 0 <= i < entries@.len() implies entries@[i] == utils::be_u16(
                utils::chunk_of(data@, 2, i),
            ) by {
                assert(utils::projects::<2, _, _>(
                    count,
                    utils::chunk_of(data@, 2, i),
                    entries@[i],
                ));
            }
            assert(entries@ =~= model::histogram_entries(data@));
        }

        self.palette_histogram = Some(PaletteHistogramInfo { entries });

        Ok(())
    }

    fn parse_iccp(&mut self, _length: u32, data: &[u8]) -> (r: Result<(), ParserError>)
        requires
            old(self).wf(),
            _length == data@.len(),
        ensures
            final(self).wf(),
            follows(old(self)@, model::iccp_step(old(self)@, data@), final(self)@, r),
    {
        if !self.icc_profile.is_none() {
            return Err(ParserError::DuplicateChunk(chunk_ids::iCCP));
        }

        self.check_chunk_order(
            chunk_ids::iCCP,
            model::BEFORE_PLTE_CHUNK | model::BEFORE_IDAT_CHUNK,
        )?;

        let (name, name_length) = leading_keyword(data)?;
        let rest = &data[name_length + 1..data.len()];

        if rest.len() < 1 {
            return Err(ParserError::InvalidChunkLength(chunk_ids::iCCP));
        }

        let compression_method = match rest[0] {
            0 => CompressionMethod::Deflate,
            _ => return Err(ParserError::InvalidFieldValue),
        };
        let rest = &rest[1..rest.len()];

        let compressed_profile_data = slice_to_vec(rest);

        self.icc_profile = Some(ICCProfileInfo { name, compression_method, compressed_profile_data });

        Ok(())
    }

    fn parse_text(&mut self, _length: u32, data: &[u8]) -> (r: Result<(), ParserError>)
        requires
            old(self).wf(),
            _length == data@.len(),
        ensures
            final(self).wf(),
            follows(old(self)@, model::text_step(old(self)@, data@), final(self)@, r),
    {
        let (keyword, keyword_length) = leading_keyword(data)?;
        let rest = &data[keyword_length + 1..data.len()];

        let text = utils::decode_string(rest)?;

        let ghost before = self.textual_data.deep_view();
        let ghost entry = (TextualDataInfo { keyword, text })@;
        self.textual_data.push(TextualDataInfo { keyword, text });
        assert(self.textual_data.deep_view() =~= before.push(entry));

        Ok(())
    }

    fn parse_ztxt(&mut self, _length: u32, data: &[u8]) -> (r: Result<(), ParserError>)
        requires
            old(self).wf(),
            _length == data@.len(),
        ensures
            final(self).wf(),
            follows(old(self)@, model::ztxt_step(old(self)@, data@), final(self)@, r),
    {
        let (keyword, keyword_length) = leading_keyword(data)?;
        let rest = &data[keyword_length + 1..data.len()];

        if rest.len() < 1 {
            return Err(ParserError::InvalidChunkLength(chunk_ids::zTXt));
        }

        let compression_method = match rest[0] {
            0 => CompressionMethod::Deflate,
            _ => return Err(ParserError::InvalidFieldValue),
        };
        let rest = &rest[1..rest.len()];

        let text = slice_to_vec(rest);

        let ghost before = self.compressed_textual_data.deep_view();
        let ghost entry = (CompressedTextualDataInfo { keyword, compression_method, text })@;
        self.compressed_textual_data.push(
            CompressedTextualDataInfo { keyword, compression_method, text },
        );
        assert(self.compressed_textual_data.deep_view() =~= before.push(entry));

        Ok(())
    }

    fn parse_itxt(&mut self, _length: u32, data: &[u8]) -> (r: Result<(), ParserError>)
        requires
            old(self).wf(),
            _length == data@.len(),
        ensures
            final(self).wf(),
            follows(old(self)@, model::itxt_step(old(self)@, data@), final(self)@, r),
    {
        let (keyword, keyword_length) = leading_keyword(data)?;
        let rest = &data[keyword_length + 1..data.len()];

        if rest.len() < 2 {
            return Err(ParserError::InvalidChunkLength(chunk_ids::iTXt));
        }

        let is_compressed = rest[0] == 1;
        let compression_method = match rest[1] {
            0 => CompressionMethod::Deflate,
            _ => return Err(ParserError::InvalidFieldValue),
        };
        let tagged = &rest[2..rest.len()];

        let language_tag = utils::get_string(tagged)?;
        proof {
            utils::lemma_leading_string(tagged@);
        }
        let translated = &tagged[language_tag.as_str().len() + 1..tagged.len()];

        let translated_keyword = utils::get_string(translated)?;
        proof {
            utils::lemma_leading_string(translated@);
        }
        let rest = &translated[translated_keyword.as_str().len() + 1..translated.len()];

        let text = slice_to_vec(rest);

        let ghost before = self.international_textual_data.deep_view();
        let ghost entry = (InternationalTextualDataInfo {
            keyword,
            is_compressed,
            compression_method,
            language_tag,
            translated_keyword,
            text,
        })@;
        self.international_textual_data.push(
            InternationalTextualDataInfo {
                keyword,
                is_compressed,
                compression_method,
                language_tag,
                translated_keyword,
                text,
            },
        );
        assert(self.international_textual_data.deep_view() =~= before.push(entry));

        Ok(())
    }

    fn parse_splt(&mut self, _length: u32, data: &[u8]) -> (r: Result<(), ParserError>)
        requires
            old(self).wf(),
            _length == data@.len(),
        ensures
            final(self).wf(),
            follows(old(self)@, model::splt_step(old(self)@, data@), final(self)@, r),
    {
        self.check_chunk_order(chunk_ids::sPLT, model::BEFORE_IDAT_CHUNK)?;

        let (name, name_length) = leading_keyword(data)?;
        let rest = &data[name_length + 1..data.len()];

        if rest.len() < 1 {
            return Err(ParserError::InvalidChunkLength(chunk_ids::sPLT));
        }

        let sample_depth = rest[0];
        let body = &rest[1..rest.len()];

        let entries = match sample_depth {
            1 => {
                if body.len() % 6 != 0 {
                    return Err(ParserError::InvalidChunkLength(chunk_ids::sPLT));
                }

                let narrow = |c: &[u8; 6]| -> (entry: SuggestedPaletteEntry)
                    ensures
                        entry == model::narrow_entry_of(c@),
                    {
                        SuggestedPaletteEntry {
                            red: c[0] as u16,
                            green: c[1] as u16,
                            blue: c[2] as u16,
                            alpha: c[3] as u16,
                            frequency: utils::to_u16(&c[4..6]),
                        }
                    };
                let entries = utils::to_chunked::<6, _, _>(body, narrow);
                proof {
                    assert forall|i: int| 0 <= i < entries@.len() implies entries@[i]
                        == model::narrow_entry_of(utils::chunk_of(body@, 6, i)) by {
                        assert(utils::projects::<6, _, _>(
                            narrow,
                            utils::chunk_of(body@, 6, i),
                            entries@[i],
                        ));
                    }
                    assert(entries@ =~= Seq::new(
                        body@.len() / 6,
                        |i: int| model::narrow_entry_of(utils::chunk_of(body@, 6, i)),
                    ));
                }
                entries
            },
            2 => {
                if body.len() % 10 != 0 {
                    return Err(ParserError::InvalidChunkLength(chunk_ids::sPLT));
                }

                let wide = |c: &[u8; 10]| -> (entry: SuggestedPaletteEntry)
                    ensures
                        entry == model::wide_entry_of(c@),
                    {
                        SuggestedPaletteEntry {
                            red: utils::to_u16(&c[0..2]),
                            green: utils::to_u16(&c[2..4]),
                            blue: utils::to_u16(&c[4..6]),
                            alpha: utils::to_u16(&c[6..8]),
                            frequency: utils::to_u16(&c[8..10]),
                        }
                    };
                let entries = utils::to_chunked::<10, _, _>(body, wide);
                proof {
                    assert forall|i: int| 0 <= i < entries@.len() implies entries@[i]
                        == model::wide_entry_of(utils::chunk_of(body@, 10, i)) by {
                        assert(utils::projects::<10, _, _>(
                            wide,
                            utils::chunk_of(body@, 10, i),
                            entries@[i],
                        ));
                    }
                    assert(entries@ =~= Seq::new(
                        body@.len() / 10,
                        |i: int| model::wide_entry_of(utils::chunk_of(body@, 10, i)),
                    ));
                }
                entries
            },
            _ => return Err(ParserError::InvalidFieldValue),
        };

        let ghost before = self.suggested_palettes.deep_view();
        let ghost entry = (SuggestedPaletteInfo { name, sample_depth, entries })@;
        self.suggested_palettes.push(SuggestedPaletteInfo { name, sample_depth, entries });
        assert(self.suggested_palettes.deep_view() =~= before.push(entry));

        Ok(())
    }

    fn parse_idat(&mut self, length: u32, data: &[u8]) -> (r: Result<(), ParserError>)
        requires
            old(self).wf(),
            length == data@.len(),
        ensures
            final(self).wf(),
            follows_reading(old(self)@, model::idat_step(old(self)@, data@), final(self)@, r),
            old(self)@.compressed_data is Some || length == 0 ==> final(self)@ == old(self)@,
    {
        if !self.compressed_data.is_none() {
            return Err(ParserError::NonConsecutiveData);
        }

        if length == 0 {
            return Err(ParserError::InvalidChunkLength(chunk_ids::IDAT));
        }

        let compressed_data = aggregate_data(&mut self.source, data)?;

        self.compressed_data = Some(compressed_data);

        Ok(())
    }

    fn parse_unknown(&mut self, chunk_type: ChunkId, data: &[u8])
        requires
            old(self).wf(),
        ensures
            final(self).wf(),
            final(self)@ == model::unknown_step(old(self)@, chunk_type, data@),
    {
        let ghost before = self.unknown_chunks.deep_view();
        let chunk = UnknownChunkInfo {
            chunk_type: utils::to_be_bytes(chunk_type),
            data: slice_to_vec(data),
        };
        let ghost entry = chunk@;
        self.unknown_chunks.push(chunk);
        assert(self.unknown_chunks.deep_view() =~= before.push(entry));
    }

    fn parse_chunks(&mut self) -> (r: Result<(), ParserError>)
        requires
            old(self).wf(),
        ensures
            final(self).wf(),
            match model::chunks_step(old(self)@) {
                Ok(done) => r is Ok && final(self)@ == done,
                Err(e) => r == Err::<(), ParserError>(e),
            },
    {
        while self.trailer.is_none()
            invariant
                self.wf(),
                model::chunks_step(self@) == model::chunks_step(old(self)@),
            decreases self@.source.remaining(),
        {
            let ghost before = self@;
            let (length, type_and_data) = self.next_chunk()?;

            let chunk_type = utils::to_u32(&type_and_data[0..4]);
            let data = &type_and_data[4..type_and_data.len()];
            proof {
                model::lemma_dispatch_source(self@, chunk_type, data@);
            }

            if chunk_type == chunk_ids::PLTE {
                self.parse_plte(length, data)?
            } else if chunk_type == chunk_ids::IDAT {
                self.parse_idat(length, data)?
            } else if chunk_type == chunk_ids::IEND {
                self.parse_iend(length, data)?
            } else if chunk_type == chunk_ids::tRNS {
                self.parse_trns(length, data)?
            } else if chunk_type == chunk_ids::gAMA {
                self.parse_gama(length, data)?
            } else if chunk_type == chunk_ids::cHRM {
                self.parse_chrm(length, data)?
            } else if chunk_type == chunk_ids::sRGB {
                self.parse_srgb(length, data)?
            } else if chunk_type == chunk_ids::iCCP {
                self.parse_iccp(length, data)?
            } else if chunk_type == chunk_ids::tEXt {
                self.parse_text(length, data)?
            } else if chunk_type == chunk_ids::zTXt {
                self.parse_ztxt(length, data)?
            } else if chunk_type == chunk_ids::iTXt {
                self.parse_itxt(length, data)?
            } else if chunk_type == chunk_ids::bKGD {
                self.parse_bkgd(length, data)?
            } else if chunk_type == chunk_ids::pHYs {
                self.parse_phys(length, data)?
            } else if chunk_type == chunk_ids::sBIT {
                self.parse_sbit(length, data)?
            } else if chunk_type == chunk_ids::sPLT {
                self.parse_splt(length, data)?
            } else if chunk_type == chunk_ids::hIST {
                self.parse_hist(length, data)?
            } else if chunk_type == chunk_ids::tIME {
                self.parse_time(length, data)?
            } else {
                self.parse_unknown(chunk_type, data)
            };
        }

        Ok(())
    }

    fn collect(self) -> (r: Result<PngInfo, ParserError>)
        ensures
            match model::collect_step(self@) {
                Ok(image) => r matches Ok(info) && info@ == image,
                Err(e) => r matches Err(err) && err == e,
            },
    {
        let header = match self.header {
            Some(header) => header,
            None => return Err(ParserError::MissingRequiredChunk(chunk_ids::IHDR)),
        };
        let palette = match self.palette {
            Some(palette) => Some(palette),
            None => {
                if let ColorType::IndexedColor = header.color_type {
                    return Err(ParserError::MissingRequiredChunk(chunk_ids::PLTE));
                }
                None
            },
        };
        let compressed_data = match self.compressed_data {
            Some(data) => data,
            None => return Err(ParserError::MissingRequiredChunk(chunk_ids::IDAT)),
        };
        let trailer = match self.trailer {
            Some(trailer) => {
                if !trailer.found {
                    return Err(ParserError::MissingRequiredChunk(chunk_ids::IEND));
                }
                trailer
            },
            None => return Err(ParserError::MissingRequiredChunk(chunk_ids::IEND)),
        };

        Ok(
            PngInfo {
                header,
                compressed_data,
                palette,
                trailer,
                transparency: self.transparency,
                gamma: self.gamma,
                chromaticity: self.chromaticity,
                standard_rgb: self.standard_rgb,
                icc_profile: self.icc_profile,
                textual_data: self.textual_data,
                compressed_textual_data: self.compressed_textual_data,
                international_textual_data: self.international_textual_data,
                background: self.background,
                physical_pixel_dimension: self.physical_pixel_dimension,
                significant_bits: self.significant_bits,
                suggested_palettes: self.suggested_palettes,
                palette_histogram: self.palette_histogram,
                last_modification: self.last_modification,
                unknown_chunks: self.unknown_chunks,
            },
        )
    }

    /// Tries to parse PNG data from provided source.
    ///
    /// The result is what the model says of the bytes: the image
    /// description where they hold one, and else the first failure. The
    /// checksum behind each chunk is passed over and not held against the
    /// chunk. Bytes behind the trailer are not looked at.
    pub fn parse(source: &'a [u8]) -> (r: Result<PngInfo, ParserError>)
        ensures
            match model::parsed(source@) {
                Ok(image) => r matches Ok(info) && info@ == image,
                Err(e) => r matches Err(err) && err == e,
            },
    {
        let mut parser = Parser {
            source: ByteCursor::new(source),
            header: None,
            palette: None,
            compressed_data: None,
            trailer: None,
            transparency: None,
            gamma: None,
            chromaticity: None,
            standard_rgb: None,
            icc_profile: None,
            textual_data: Vec::new(),
            compressed_textual_data: Vec::new(),
            international_textual_data: Vec::new(),
            background: None,
            physical_pixel_dimension: None,
            significant_bits: None,
            suggested_palettes: Vec::new(),
            palette_histogram: None,
            last_modification: None,
            unknown_chunks: Vec::new(),
        };
        proof {
            assert(parser.textual_data.deep_view() =~= Seq::empty());
            assert(parser.compressed_textual_data.deep_view() =~= Seq::empty());
            assert(parser.international_textual_data.deep_view() =~= Seq::empty());
            assert(parser.suggested_palettes.deep_view() =~= Seq::empty());
            assert(parser.unknown_chunks.deep_view() =~= Seq::empty());
        }

        parser.validate_signature()?;
        parser.parse_header()?;
        parser.parse_chunks()?;

        parser.collect()
    }
}

} // verus!
