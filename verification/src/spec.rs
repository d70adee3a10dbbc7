use vstd::prelude::*;

pub mod chunk_ids;

verus! {

/// The byte values of PNG signature.
pub const SIGNATURE: [u8; 8] = [0x89, 0x50, 0x4E, 0x47, 0x0D, 0x0A, 0x1A, 0x0A];

/// The type of each chunk id.
pub type ChunkId = u32;

/// Describes the pixel interpretation of an image data.
#[derive(Debug, Clone, Copy, PartialEq, Eq, Structural)]
pub enum ColorType {
    /// Each pixel is a grayscale sample.
    Grayscale,
    /// Each pixel is an RGB triplet.
    TrueColor,
    /// Each pixel is palette index; a PLTE chunk must appear.
    IndexedColor,
    /// Each pixel is a grayscale sample, followed by an alpha sample.
    GrayscaleAlpha,
    /// Each pixel is an RGB triplet, followed by an alpha sample.
    TrueColorAlpha,
}

/// Describes the compression method used to compress data.
#[derive(Debug, Clone, Copy, PartialEq, Eq, Structural)]
pub enum CompressionMethod {
    /// Deflate/Inflate compression with a sliding window of at most 32768 (2^15) bytes.
    Deflate,
}

/// Describes the preprocessing method applied to the image data before compression.
#[derive(Debug, Clone, Copy, PartialEq, Eq, Structural)]
pub enum FilterMethod {
    /// Adaptive filtering with five basic filter types.
    Adaptive,
}

/// Describes the transmission order of the image data.
#[derive(Debug, Clone, Copy, PartialEq, Eq, Structural)]
pub enum InterlaceMethod {
    /// No interlace.
    NoInterlace,
    /// Adam7 interlace.
    Adam7,
}

/// Represents the info of `IHDR` chunk.
#[derive(Debug, Clone, Copy, PartialEq, Eq, Structural)]
pub struct HeaderInfo {
    /// The width in pixels.
    pub width: u32,
    /// The height in pixels.
    pub height: u32,
    /// The number of bits per sample.
    pub bit_depth: u8,
    /// The color type.
    pub color_type: ColorType,
    /// The compression method.
    pub compression_method: CompressionMethod,
    /// The filter method.
    pub filter_method: FilterMethod,
    /// The interlace method.
    pub interlace_method: InterlaceMethod,
}

/// Represents the info of `PLTE` chunk.
#[derive(Debug)]
pub struct PaletteInfo {
    /// The colors in the form of an RGB triplet.
    pub entries: Vec<(u8, u8, u8)>,
}

impl View for PaletteInfo {
    type V = Seq<(u8, u8, u8)>;

    open spec fn view(&self) -> Seq<(u8, u8, u8)> {
        self.entries@
    }
}

impl DeepView for PaletteInfo {
    type V = Seq<(u8, u8, u8)>;

    open spec fn deep_view(&self) -> Seq<(u8, u8, u8)> {
        self@
    }
}

/// Represents the info of `IDAT` chunk.
#[derive(Debug)]
pub struct CompressedDataInfo {
    /// The number of chunks.
    pub chunk_count: u32,
    /// The compressed pixel data.
    pub data: Vec<u8>,
}

/// The image data as a value: how many chunks it came in, and their
/// payloads joined in stream order.
pub struct CompressedDataView {
    pub chunk_count: u32,
    pub data: Seq<u8>,
}

impl View for CompressedDataInfo {
    type V = CompressedDataView;

    open spec fn view(&self) -> CompressedDataView {
        CompressedDataView { chunk_count: self.chunk_count, data: self.data@ }
    }
}

impl DeepView for CompressedDataInfo {
    type V = CompressedDataView;

    open spec fn deep_view(&self) -> CompressedDataView {
        self@
    }
}

/// Represents the info of `IEND` chunk.
#[derive(Debug, Clone, Copy, PartialEq, Eq, Structural)]
pub struct TrailerInfo {
    /// Whether the chunk is found or not.
    pub found: bool,
}

/// Describes the transparency.
#[derive(Debug)]
pub enum TransparencyVariant {
    /// For grayscale images, a single gray level value.
    Grayscale(u16),
    /// For true-color images, an RGB color value.
    TrueColor(u16, u16, u16),
    /// For indexed-color images, series of alpha values corresponding to the palette entries.
    IndexedColor(Vec<u8>),
}

/// The transparency as a value.
pub enum TransparencyView {
    Grayscale(u16),
    TrueColor(u16, u16, u16),
    IndexedColor(Seq<u8>),
}

impl View for TransparencyVariant {
    type V = TransparencyView;

    open spec fn view(&self) -> TransparencyView {
        match self {
            TransparencyVariant::Grayscale(gray) => TransparencyView::Grayscale(*gray),
            TransparencyVariant::TrueColor(red, green, blue) => TransparencyView::TrueColor(
                *red,
                *green,
                *blue,
            ),
            TransparencyVariant::IndexedColor(alphas) => TransparencyView::IndexedColor(alphas@),
        }
    }
}

/// Represents the info of `tRNS` chunk.
#[derive(Debug)]
pub struct TransparencyInfo {
    /// The transparency variant.
    pub transparency: TransparencyVariant,
}

impl View for TransparencyInfo {
    type V = TransparencyView;

    open spec fn view(&self) -> TransparencyView {
        self.transparency@
    }
}

impl DeepView for TransparencyInfo {
    type V = TransparencyView;

    open spec fn deep_view(&self) -> TransparencyView {
        self@
    }
}

/// Represents the info of `gAMA` chunk.
#[derive(Debug, Clone, Copy, PartialEq, Eq, Structural)]
pub struct GammaInfo {
    /// The gamma value, in units of 1/100000.
    pub gamma: u32,
}

/// Represents the info of `cHRM` chunk. Every coordinate is in units of
/// 1/100000.
#[derive(Debug, Clone, Copy)]
pub struct ChromaticityInfo {
    /// The white point chromaticity of X and Y axes.
    pub white_point: (u32, u32),
    /// The red chromaticity of X and Y axes.
    pub red: (u32, u32),
    /// The green chromaticity of X and Y axes.
    pub green: (u32, u32),
    /// The blue chromaticity of X and Y axes.
    pub blue: (u32, u32),
}

/// Describes the rendering intent image.
#[derive(Debug, Clone, Copy, PartialEq, Eq, Structural)]
pub enum RenderingIntent {
    /// Images preferring good adaptation to the output device gamut at the expense of colorimetric accuracy, like photographs.
    Perceptual,
    /// Images requiring color appearance matching (relative to the output device white point), like logos.
    RelativeColorimetric,
    /// Images preferring preservation of saturation at the expense of hue and lightness, like charts and graphs.
    Saturation,
    /// Images requiring preservation of absolute colorimetry, like proofs (previews of images destined for a different output device).
    AbsoluteColorimetric,
}

/// Represents the info of `sRGB` chunk.
#[derive(Debug, Clone, Copy, PartialEq, Eq, Structural)]
pub struct StandardRGBInfo {
    /// The rendering intent.
    pub rendering_intent: RenderingIntent,
}

/// Represents the info of `iCCP` chunk.
#[derive(Debug)]
pub struct ICCProfileInfo {
    /// The profile name.
    pub name: String,
    /// The compression method used to compress profile data.
    pub compression_method: CompressionMethod,
    /// The compressed profile data.
    pub compressed_profile_data: Vec<u8>,
}

/// The embedded profile as a value.
pub struct ICCProfileView {
    pub name: Seq<char>,
    pub compression_method: CompressionMethod,
    pub compressed_profile_data: Seq<u8>,
}

impl View for ICCProfileInfo {
    type V = ICCProfileView;

    open spec fn view(&self) -> ICCProfileView {
        ICCProfileView {
            name: self.name@,
            compression_method: self.compression_method,
            compressed_profile_data: self.compressed_profile_data@,
        }
    }
}

impl DeepView for ICCProfileInfo {
    type V = ICCProfileView;

    open spec fn deep_view(&self) -> ICCProfileView {
        self@
    }
}

/// Represents the info of `tEXt` chunk.
#[derive(Debug)]
pub struct TextualDataInfo {
    /// The keyword.
    pub keyword: String,
    /// The text.
    pub text: String,
}

/// A keyword with its text, as a value.
pub struct TextualDataView {
    pub keyword: Seq<char>,
    pub text: Seq<char>,
}

impl View for TextualDataInfo {
    type V = TextualDataView;

    open spec fn view(&self) -> TextualDataView {
        TextualDataView { keyword: self.keyword@, text: self.text@ }
    }
}

impl DeepView for TextualDataInfo {
    type V = TextualDataView;

    open spec fn deep_view(&self) -> TextualDataView {
        self@
    }
}

/// Represents the info of `zTXt` chunk.
#[derive(Debug)]
pub struct CompressedTextualDataInfo {
    /// The keyword.
    pub keyword: String,
    /// The compression method used to compress text.
    pub compression_method: CompressionMethod,
    /// The compressed text data.
    pub text: Vec<u8>,
}

/// A keyword with its compressed text, as a value.
pub struct CompressedTextualDataView {
    pub keyword: Seq<char>,
    pub compression_method: CompressionMethod,
    pub text: Seq<u8>,
}

impl View for CompressedTextualDataInfo {
    type V = CompressedTextualDataView;

    open spec fn view(&self) -> CompressedTextualDataView {
        CompressedTextualDataView {
            keyword: self.keyword@,
            compression_method: self.compression_method,
            text: self.text@,
        }
    }
}

impl DeepView for CompressedTextualDataInfo {
    type V = CompressedTextualDataView;

    open spec fn deep_view(&self) -> CompressedTextualDataView {
        self@
    }
}

/// Represents the info of `iTXt` chunk.
#[derive(Debug)]
pub struct InternationalTextualDataInfo {
    /// The keyword.
    pub keyword: String,
    /// Whether the text is compressed.
    pub is_compressed: bool,
    /// The compression method used to compress text.
    pub compression_method: CompressionMethod,
    /// The language.
    pub language_tag: String,
    /// The translated keyword.
    pub translated_keyword: String,
    /// The international (maybe compressed) text data.
    pub text: Vec<u8>,
}

/// An international text entry as a value.
pub struct InternationalTextualDataView {
    pub keyword: Seq<char>,
    pub is_compressed: bool,
    pub compression_method: CompressionMethod,
    pub language_tag: Seq<char>,
    pub translated_keyword: Seq<char>,
    pub text: Seq<u8>,
}

impl View for InternationalTextualDataInfo {
    type V = InternationalTextualDataView;

    open spec fn view(&self) -> InternationalTextualDataView {
        InternationalTextualDataView {
            keyword: self.keyword@,
            is_compressed: self.is_compressed,
            compression_method: self.compression_method,
            language_tag: self.language_tag@,
            translated_keyword: self.translated_keyword@,
            text: self.text@,
        }
    }
}

impl DeepView for InternationalTextualDataInfo {
    type V = InternationalTextualDataView;

    open spec fn deep_view(&self) -> InternationalTextualDataView {
        self@
    }
}

/// Describes the default background color of image.
#[derive(Debug, Clone, Copy, PartialEq, Eq, Structural)]
pub enum BackgroundVariant {
    /// For grayscale images, a single value as gray level.
    Grayscale(u16),
    /// For true-color images, an RGB color.
    TrueColor(u16, u16, u16),
    /// For indexed-color images, a palette index.
    IndexedColor(u8),
}

/// Represents the info of `bKGD` chunk.
#[derive(Debug, Clone, Copy, PartialEq, Eq, Structural)]
pub struct BackgroundInfo {
    /// The background variant.
    pub background: BackgroundVariant,
}

/// Describes physical pixel unit specifier.
#[derive(Debug, Clone, Copy, PartialEq, Eq, Structural)]
pub enum PhysicalUnitSpecifier {
    /// Unit is unknown, used to define pixel aspect ratio only.
    Unknown,
    /// Unit is in meters.
    Meter,
}

/// Represents the info of `pHYs` chunk.
#[derive(Debug, Clone, Copy)]
pub struct PhysicalPixelDimensionInfo {
    /// The pixels per unit in X and Y axes.
    pub pixels_per_unit: (u32, u32),
    /// The physical unit specifier.
    pub unit_specifier: PhysicalUnitSpecifier,
}

/// Describes the significant bits.
#[derive(Debug, Clone, Copy, PartialEq, Eq, Structural)]
pub enum SignificantBitsVariant {
    /// For grayscale images, a single byte, indicating the number of bits that were significant in the source data.
    Grayscale(u8),
    /// For true-color images, three bytes, indicating the number of bits that were significant in the source data for the red, green, and blue channels, respectively.
    TrueColor(u8, u8, u8),
    /// For indexed-colors, three bytes, indicating the number of bits that were significant in the source data for the red, green, and blue components of the palette entries, respectively.
    IndexedColor(u8, u8, u8),
    /// For grayscale images with alpha channel, two bytes, indicating the number of bits that were significant in the source grayscale data and the source alpha data, respectively.
    GrayscaleAlpha(u8, u8),
    /// For true-color images with alpha channel, four bytes, indicating the number of bits that were significant in the source data for the red, green, blue, and alpha channels, respectively.
    TrueColorAlpha(u8, u8, u8, u8),
}

/// Represents the info of `sBIT` chunk.
#[derive(Debug, Clone, Copy, PartialEq, Eq, Structural)]
pub struct SignificantBitsInfo {
    /// The significant bits.
    pub significant_bits: SignificantBitsVariant,
}

/// Represents an entry for suggested palette info.
#[derive(Debug, Clone, Copy, PartialEq, Eq, Structural)]
pub struct SuggestedPaletteEntry {
    /// The red sample.
    pub red: u16,
    /// The green sample.
    pub green: u16,
    /// The blue sample.
    pub blue: u16,
    /// The alpha sample.
    pub alpha: u16,
    /// The frequency.
    pub frequency: u16,
}

/// Represents the info of `sPLT` chunk.
#[derive(Debug)]
pub struct SuggestedPaletteInfo {
    /// The palette name.
    pub name: String,
    /// The sample depth
    pub sample_depth: u8,
    /// The sample entries.
    pub entries: Vec<SuggestedPaletteEntry>,
}

/// A suggested palette as a value.
pub struct SuggestedPaletteView {
    pub name: Seq<char>,
    pub sample_depth: u8,
    pub entries: Seq<SuggestedPaletteEntry>,
}

impl View for SuggestedPaletteInfo {
    type V = SuggestedPaletteView;

    open spec fn view(&self) -> SuggestedPaletteView {
        SuggestedPaletteView {
            name: self.name@,
            sample_depth: self.sample_depth,
            entries: self.entries@,
        }
    }
}

impl DeepView for SuggestedPaletteInfo {
    type V = SuggestedPaletteView;

    open spec fn deep_view(&self) -> SuggestedPaletteView {
        self@
    }
}

/// Represents the info of `hIST` chunk.
#[derive(Debug)]
pub struct PaletteHistogramInfo {
    /// The histogram entries corresponding to the palette entries.
    pub entries: Vec<u16>,
}

impl View for PaletteHistogramInfo {
    type V = Seq<u16>;

    open spec fn view(&self) -> Seq<u16> {
        self.entries@
    }
}

impl DeepView for PaletteHistogramInfo {
    type V = Seq<u16>;

    open spec fn deep_view(&self) -> Seq<u16> {
        self@
    }
}

/// Represents the info of `tIME` chunk.
#[derive(Debug, Clone, Copy, PartialEq, Eq, Structural)]
pub struct LastModificationInfo {
    /// The last modified full year.
    pub year: u16,
    /// The last modified month. (1-12)
    pub month: u8,
    /// The last modified day. (1-31)
    pub day: u8,
    /// The last modified hour. (0-23)
    pub hour: u8,
    /// The last modified minute. (0-59)
    pub minute: u8,
    /// The last modified second. (0-60; 60 for leap seconds)
    pub second: u8,
}

/// Represents the info of an unknown chunk.
#[derive(Debug)]
pub struct UnknownChunkInfo {
    /// The chunk type.
    pub chunk_type: [u8; 4],
    /// The raw data.
    pub data: Vec<u8>,
}

/// An unknown chunk as a value: its four type bytes and its payload.
pub struct UnknownChunkView {
    pub chunk_type: Seq<u8>,
    pub data: Seq<u8>,
}

impl View for UnknownChunkInfo {
    type V = UnknownChunkView;

    open spec fn view(&self) -> UnknownChunkView {
        UnknownChunkView { chunk_type: self.chunk_type@, data: self.data@ }
    }
}

impl DeepView for UnknownChunkInfo {
    type V = UnknownChunkView;

    open spec fn deep_view(&self) -> UnknownChunkView {
        self@
    }
}

/// Represents the info of a PNG image.
#[derive(Debug)]
pub struct PngInfo {
    /// The header.
    pub header: HeaderInfo,
    /// The palette.
    pub palette: Option<PaletteInfo>,
    /// The compressed data.
    pub compressed_data: CompressedDataInfo,
    /// The trailer.
    pub trailer: TrailerInfo,
    /// The transparency values.
    pub transparency: Option<TransparencyInfo>,
    /// The gamma value.
    pub gamma: Option<GammaInfo>,
    /// The primary chromaticities.
    pub chromaticity: Option<ChromaticityInfo>,
    /// The standard rgb.
    pub standard_rgb: Option<StandardRGBInfo>,
    /// The ICC profile.
    pub icc_profile: Option<ICCProfileInfo>,
    /// The vector of textual data.
    pub textual_data: Vec<TextualDataInfo>,
    /// The vector of compressed textual data.
    pub compressed_textual_data: Vec<CompressedTextualDataInfo>,
    /// The vector of international textual data.
    pub international_textual_data: Vec<InternationalTextualDataInfo>,
    /// The background color.
    pub background: Option<BackgroundInfo>,
    /// The physical pixel dimension.
    pub physical_pixel_dimension: Option<PhysicalPixelDimensionInfo>,
    /// The significant bits.
    pub significant_bits: Option<SignificantBitsInfo>,
    /// The vector of suggested palettes.
    pub suggested_palettes: Vec<SuggestedPaletteInfo>,
    /// The histogram of the palette if exists.
    pub palette_histogram: Option<PaletteHistogramInfo>,
    /// The last modification time.
    pub last_modification: Option<LastModificationInfo>,
    /// The unidentified chunks.
    pub unknown_chunks: Vec<UnknownChunkInfo>,
}

/// A whole image description as a value.
pub struct PngInfoView {
    pub header: HeaderInfo,
    pub palette: Option<Seq<(u8, u8, u8)>>,
    pub compressed_data: CompressedDataView,
    pub trailer: TrailerInfo,
    pub transparency: Option<TransparencyView>,
    pub gamma: Option<GammaInfo>,
    pub chromaticity: Option<ChromaticityInfo>,
    pub standard_rgb: Option<StandardRGBInfo>,
    pub icc_profile: Option<ICCProfileView>,
    pub textual_data: Seq<TextualDataView>,
    pub compressed_textual_data: Seq<CompressedTextualDataView>,
    pub international_textual_data: Seq<InternationalTextualDataView>,
    pub background: Option<BackgroundInfo>,
    pub physical_pixel_dimension: Option<PhysicalPixelDimensionInfo>,
    pub significant_bits: Option<SignificantBitsInfo>,
    pub suggested_palettes: Seq<SuggestedPaletteView>,
    pub palette_histogram: Option<Seq<u16>>,
    pub last_modification: Option<LastModificationInfo>,
    pub unknown_chunks: Seq<UnknownChunkView>,
}

impl View for PngInfo {
    type V = PngInfoView;

    open spec fn view(&self) -> PngInfoView {
        PngInfoView {
            header: self.header,
            palette: self.palette.deep_view(),
            compressed_data: self.compressed_data@,
            trailer: self.trailer,
            transparency: self.transparency.deep_view(),
            gamma: self.gamma,
            chromaticity: self.chromaticity,
            standard_rgb: self.standard_rgb,
            icc_profile: self.icc_profile.deep_view(),
            textual_data: self.textual_data.deep_view(),
            compressed_textual_data: self.compressed_textual_data.deep_view(),
            international_textual_data: self.international_textual_data.deep_view(),
            background: self.background,
            physical_pixel_dimension: self.physical_pixel_dimension,
            significant_bits: self.significant_bits,
            suggested_palettes: self.suggested_palettes.deep_view(),
            palette_histogram: self.palette_histogram.deep_view(),
            last_modification: self.last_modification,
            unknown_chunks: self.unknown_chunks.deep_view(),
        }
    }
}

} // verus!
