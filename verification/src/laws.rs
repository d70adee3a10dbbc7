use vstd::prelude::*;
use vstd::utf8::valid_utf8;
use crate::error::ParserError;
use crate::model::chunk_step;
use crate::model::chunks_step;
use crate::model::collect_step;
use crate::model::data_run;
use crate::model::dispatch;
use crate::model::header_of;
use crate::model::header_step;
use crate::model::icc_profile_of;
use crate::model::initial;
use crate::model::leading_keyword;
use crate::model::legal_bit_depth;
use crate::model::lemma_chunk_step_source;
use crate::model::lemma_dispatch_source;
use crate::model::lemma_data_run_unfold;
use crate::model::lemma_order_violated;
use crate::model::palette_entries;
use crate::model::parsed;
use crate::model::ParserView;
use crate::model::RawChunk;
use crate::model::read_chunk;
use crate::model::recognized;
use crate::model::signature_step;
use crate::model::suggested_palette_of;
use crate::model::unknown_step;
use crate::source::CursorView;
use crate::spec::BackgroundInfo;
use crate::spec::chunk_ids;
use crate::spec::ChunkId;
use crate::spec::ColorType;
use crate::spec::CompressedDataView;
use crate::spec::HeaderInfo;
use crate::spec::ICCProfileView;
use crate::spec::InterlaceMethod;
use crate::spec::PngInfoView;
use crate::spec::SIGNATURE;
use crate::spec::SignificantBitsInfo;
use crate::spec::SuggestedPaletteView;
use crate::spec::TrailerInfo;
use crate::spec::TransparencyView;
use crate::spec::UnknownChunkView;
use crate::utils::be_bytes;
use crate::utils::be_u32;
use crate::utils::is_string_end;
use crate::utils::lemma_be_u32_of_be_bytes;
use crate::utils::lemma_no_string_end;
use crate::utils::lemma_string_end;

verus! {

// ---------------------------------------------------------------------------
// How streams are described
// ---------------------------------------------------------------------------

/// Whether the stream holds, from `pos` on, a whole chunk of the given type
/// with the given data: the length and the type spelled highest byte first,
/// the data, and four bytes of checksum, which may be anything.
pub open spec fn chunk_at(bytes: Seq<u8>, pos: int, chunk_type: ChunkId, data: Seq<u8>) -> bool {
    &&& 0 <= pos
    &&& data.len() <= u32::MAX
    &&& pos + 12 + data.len() <= bytes.len()
    &&& bytes.subrange(pos, pos + 4) == be_bytes(data.len() as u32)
    &&& bytes.subrange(pos + 4, pos + 8) == be_bytes(chunk_type)
    &&& bytes.subrange(pos + 8, pos + 8 + data.len()) == data
}

/// The place behind a chunk that starts at `pos` and holds `data`.
pub open spec fn behind(pos: int, data: Seq<u8>) -> int {
    pos + 12 + data.len()
}

/// Whether the stream begins with the signature.
pub open spec fn signed(bytes: Seq<u8>) -> bool {
    bytes.len() >= 8 && bytes.subrange(0, 8) == SIGNATURE@
}

/// The byte that names a color type in the header.
pub open spec fn color_type_byte(color_type: ColorType) -> u8 {
    match color_type {
        ColorType::Grayscale => 0,
        ColorType::TrueColor => 2,
        ColorType::IndexedColor => 3,
        ColorType::GrayscaleAlpha => 4,
        ColorType::TrueColorAlpha => 6,
    }
}

/// The byte that names an interlace method in the header.
pub open spec fn interlace_method_byte(interlace_method: InterlaceMethod) -> u8 {
    match interlace_method {
        InterlaceMethod::NoInterlace => 0,
        InterlaceMethod::Adam7 => 1,
    }
}

/// The thirteen bytes that spell a header.
pub open spec fn header_bytes(header: HeaderInfo) -> Seq<u8> {
    be_bytes(header.width) + be_bytes(header.height) + seq![
        header.bit_depth,
        color_type_byte(header.color_type),
        0u8,
        0u8,
        interlace_method_byte(header.interlace_method),
    ]
}

/// Whether a header is one that a stream may hold: width and height are
/// not zero, and the color type allows the bit depth.
pub open spec fn legal_header(header: HeaderInfo) -> bool {
    header.width != 0 && header.height != 0 && legal_bit_depth(
        header.color_type,
        header.bit_depth,
    )
}

/// The image description of a stream that holds nothing but a header,
/// image data and the trailer.
pub open spec fn plain_image(
    header: HeaderInfo,
    compressed_data: CompressedDataView,
) -> PngInfoView {
    PngInfoView {
        header,
        palette: None,
        compressed_data,
        trailer: TrailerInfo { found: true },
        transparency: None,
        gamma: None,
        chromaticity: None,
        standard_rgb: None,
        icc_profile: None,
        textual_data: Seq::empty(),
        compressed_textual_data: Seq::empty(),
        international_textual_data: Seq::empty(),
        background: None,
        physical_pixel_dimension: None,
        significant_bits: None,
        suggested_palettes: Seq::empty(),
        palette_histogram: None,
        last_modification: None,
        unknown_chunks: Seq::empty(),
    }
}

/// The parse as it stands behind the signature and a header.
pub open spec fn headed(bytes: Seq<u8>, header: HeaderInfo) -> ParserView {
    ParserView { source: CursorView { bytes, pos: 33 }, header: Some(header), ..initial(bytes) }
}

// ---------------------------------------------------------------------------
// Framing
// ---------------------------------------------------------------------------

/// A chunk that the stream holds at the place of the source is the chunk
/// that is read there, and the source then stands behind it.
pub proof fn lemma_read_chunk_at(bytes: Seq<u8>, pos: nat, chunk_type: ChunkId, data: Seq<u8>)
    requires
        chunk_at(bytes, pos as int, chunk_type, data),
    ensures
        read_chunk(CursorView { bytes, pos }) == Ok::<(RawChunk, CursorView), ParserError>(
            (
                RawChunk { length: data.len() as u32, chunk_type, data },
                CursorView { bytes, pos: (pos + 12 + data.len()) as nat },
            ),
        ),
{
    let source = CursorView { bytes, pos };
    lemma_be_u32_of_be_bytes(data.len() as u32);
    lemma_be_u32_of_be_bytes(chunk_type);
    let at = pos as int;
    assert(source.peek(4) == bytes.subrange(at, at + 4));
    assert(source.advance(4).peek(4) == bytes.subrange(at + 4, at + 8));
    assert(source.advance(8).peek(data.len()) == bytes.subrange(at + 8, at + 8 + data.len()));
}

/// A header that is legal and spelled out is read back as it was.
pub proof fn lemma_header_round_trip(header: HeaderInfo)
    requires
        legal_header(header),
    ensures
        header_bytes(header).len() == 13,
        header_of(header_bytes(header)) == Some(header),
{
    let data = header_bytes(header);
    assert(data.subrange(0, 4) =~= be_bytes(header.width));
    assert(data.subrange(4, 8) =~= be_bytes(header.height));
    lemma_be_u32_of_be_bytes(header.width);
    lemma_be_u32_of_be_bytes(header.height);
}

/// What the chunks behind the header come to when the next chunk is one
/// that the stream holds whole: that chunk is taken, and the parse goes on
/// behind it or ends with its failure.
pub proof fn lemma_take_chunk(st: ParserView, chunk_type: ChunkId, data: Seq<u8>)
    requires
        st.trailer is None,
        chunk_at(st.source.bytes, st.source.pos as int, chunk_type, data),
    ensures
        chunks_step(st) == match dispatch(
            ParserView { source: st.source.advance(12 + data.len()), ..st },
            chunk_type,
            data,
        ) {
            Ok(next) => chunks_step(next),
            Err(e) => Err(e),
        },
{
    lemma_chunk_at_step(st, chunk_type, data);
    lemma_chunk_step_source(st);
}

/// The stream up to the first chunk behind the header: a signed stream
/// that holds a legal header first stands behind that header with nothing
/// else gathered.
pub proof fn lemma_headed(bytes: Seq<u8>, header: HeaderInfo)
    requires
        signed(bytes),
        legal_header(header),
        chunk_at(bytes, 8, chunk_ids::IHDR, header_bytes(header)),
    ensures
        signature_step(initial(bytes)) is Ok,
        header_step(signature_step(initial(bytes))->Ok_0) == Ok::<ParserView, ParserError>(
            headed(bytes, header),
        ),
        parsed(bytes) == match chunks_step(headed(bytes, header)) {
            Ok(done) => collect_step(done),
            Err(e) => Err(e),
        },
{
    let start = initial(bytes);
    assert(start.source.peek(8) == bytes.subrange(0, 8));
    let after_signature = signature_step(start)->Ok_0;
    assert(after_signature.source == CursorView { bytes, pos: 8 });
    lemma_header_round_trip(header);
    lemma_read_chunk_at(bytes, 8, chunk_ids::IHDR, header_bytes(header));
}

// ---------------------------------------------------------------------------
// Signature and header
// ---------------------------------------------------------------------------

/// A stream that differs from the signature in one of its first eight
/// bytes, or ends before it, is refused as an invalid signature, whatever
/// else it holds.
pub proof fn law_signature_corruption(bytes: Seq<u8>, place: int)
    requires
        0 <= place < 8,
        bytes.len() <= place || bytes[place] != SIGNATURE@[place],
    ensures
        parsed(bytes) == Err::<PngInfoView, ParserError>(ParserError::InvalidSignature),
{
    let start = initial(bytes);
    if start.source.can_read(8) {
        assert(start.source.peek(8)[place] == bytes[place]);
    }
}

/// The check of the signature, for every source: where the next eight
/// bytes are the signature, exactly those eight bytes are passed and
/// nothing else changes; where they are anything else, or fewer, the check
/// fails as an invalid signature and in no other way.
pub proof fn law_signature_step(st: ParserView)
    ensures
        st.source.can_read(8) && st.source.peek(8) == SIGNATURE@ ==> signature_step(st) == Ok::<
            ParserView,
            ParserError,
        >(ParserView { source: st.source.advance(8), ..st }),
        !(st.source.can_read(8) && st.source.peek(8) == SIGNATURE@) ==> signature_step(st)
            == Err::<ParserView, ParserError>(ParserError::InvalidSignature),
{
}

/// A signed stream whose first chunk is a whole chunk of the header's
/// type, with data of any length but thirteen, is refused for the length
/// of its header, whatever the data are.
pub proof fn law_header_length(bytes: Seq<u8>, data: Seq<u8>)
    requires
        signed(bytes),
        chunk_at(bytes, 8, chunk_ids::IHDR, data),
        data.len() != 13,
    ensures
        parsed(bytes) == Err::<PngInfoView, ParserError>(
            ParserError::InvalidChunkLength(chunk_ids::IHDR),
        ),
{
    let start = initial(bytes);
    assert(start.source.peek(8) == bytes.subrange(0, 8));
    let after_signature = signature_step(start)->Ok_0;
    assert(after_signature.source == CursorView { bytes, pos: 8 });
    lemma_read_chunk_at(bytes, 8, chunk_ids::IHDR, data);
}

/// A signed stream that holds a legal header of a color type without
/// palette, one data chunk that is not empty, and the trailer, is parsed:
/// the header comes out as it went in, the image data are the data of the
/// one chunk, and nothing else is there.
pub proof fn law_minimal_document(bytes: Seq<u8>, header: HeaderInfo, data: Seq<u8>)
    requires
        signed(bytes),
        legal_header(header),
        header.color_type != ColorType::IndexedColor,
        chunk_at(bytes, 8, chunk_ids::IHDR, header_bytes(header)),
        data.len() > 0,
        chunk_at(bytes, 33, chunk_ids::IDAT, data),
        chunk_at(bytes, behind(33, data), chunk_ids::IEND, Seq::empty()),
    ensures
        parsed(bytes) == Ok::<PngInfoView, ParserError>(
            plain_image(header, CompressedDataView { chunk_count: 1, data }),
        ),
{
    lemma_headed(bytes, header);
    lemma_data_to_trailer(headed(bytes, header), data, Seq::empty());
    assert(data + joined(Seq::<Seq<u8>>::empty()) =~= data);
}

// ---------------------------------------------------------------------------
// Any place in the stream
// ---------------------------------------------------------------------------

/// The parse as it stands when `count` chunks have been taken from the
/// state `st` on, or fewer where the trailer ended it before.
pub open spec fn after_chunks(st: ParserView, count: nat) -> Result<ParserView, ParserError>
    decreases count,
{
    if count == 0 {
        Ok(st)
    } else {
        match after_chunks(st, (count - 1) as nat) {
            Err(e) => Err(e),
            Ok(mid) => if mid.trailer is Some {
                Ok(mid)
            } else {
                chunk_step(mid)
            },
        }
    }
}

/// The parse of a stream as it stands behind the signature, the header and
/// `count` further chunks.
pub open spec fn reached(bytes: Seq<u8>, count: nat) -> Result<ParserView, ParserError> {
    match signature_step(initial(bytes)) {
        Err(e) => Err(e),
        Ok(signed) => match header_step(signed) {
            Err(e) => Err(e),
            Ok(headed) => after_chunks(headed, count),
        },
    }
}

/// What is left of a parse from a state on: the chunks up to the trailer,
/// and the image description gathered.
pub open spec fn finish(st: ParserView) -> Result<PngInfoView, ParserError> {
    match chunks_step(st) {
        Ok(done) => collect_step(done),
        Err(e) => Err(e),
    }
}

/// Taking some chunks first and the rest then is taking all chunks.
pub proof fn lemma_after_chunks(st: ParserView, count: nat)
    ensures
        match after_chunks(st, count) {
            Ok(mid) => mid.source.bytes == st.source.bytes && mid.header == st.header
                && chunks_step(st) == chunks_step(mid),
            Err(e) => chunks_step(st) == Err::<ParserView, ParserError>(e),
        },
    decreases count,
{
    if count > 0 {
        lemma_after_chunks(st, (count - 1) as nat);
        match after_chunks(st, (count - 1) as nat) {
            Err(e) => {},
            Ok(mid) => {
                if mid.trailer is None {
                    lemma_chunk_step_source(mid);
                    lemma_chunk_step_header(mid);
                }
            },
        }
    }
}

/// No chunk behind the header changes the header.
pub proof fn lemma_chunk_step_header(st: ParserView)
    ensures
        chunk_step(st) matches Ok(next) ==> next.header == st.header,
{
}

/// The result of a parse is the result of what is left of it at any place
/// that it reaches, and a failure on the way is the failure of the parse.
pub proof fn lemma_reached(bytes: Seq<u8>, count: nat)
    ensures
        match reached(bytes, count) {
            Ok(mid) => mid.source.bytes == bytes && mid.header is Some && parsed(bytes)
                == finish(mid),
            Err(e) => parsed(bytes) == Err::<PngInfoView, ParserError>(e),
        },
{
    match signature_step(initial(bytes)) {
        Err(e) => {},
        Ok(signed) => match header_step(signed) {
            Err(e) => {},
            Ok(headed) => {
                lemma_after_chunks(headed, count);
            },
        },
    }
}

/// Where the parse has reached a state that still waits for chunks, and
/// the stream holds a whole chunk there, the parse is what taking that
/// chunk and going on comes to.
pub proof fn lemma_reached_chunk(
    bytes: Seq<u8>,
    count: nat,
    mid: ParserView,
    chunk_type: ChunkId,
    data: Seq<u8>,
)
    requires
        reached(bytes, count) == Ok::<ParserView, ParserError>(mid),
        mid.trailer is None,
        chunk_at(bytes, mid.source.pos as int, chunk_type, data),
    ensures
        mid.source.bytes == bytes,
        mid.header is Some,
        reached(bytes, count + 1) == dispatch(
            ParserView { source: mid.source.advance(12 + data.len()), ..mid },
            chunk_type,
            data,
        ),
        parsed(bytes) == match reached(bytes, count + 1) {
            Ok(next) => finish(next),
            Err(e) => Err(e),
        },
{
    lemma_reached(bytes, count);
    lemma_reached(bytes, count + 1);
    lemma_chunk_at_step(mid, chunk_type, data);
}

/// Where the stream holds a whole chunk at the place of the source, taking
/// the next chunk is taking that chunk.
pub proof fn lemma_chunk_at_step(st: ParserView, chunk_type: ChunkId, data: Seq<u8>)
    requires
        chunk_at(st.source.bytes, st.source.pos as int, chunk_type, data),
    ensures
        chunk_step(st) == dispatch(
            ParserView { source: st.source.advance(12 + data.len()), ..st },
            chunk_type,
            data,
        ),
{
    lemma_read_chunk_at(st.source.bytes, st.source.pos, chunk_type, data);
    let source = st.source;
    assert(source == CursorView { bytes: source.bytes, pos: source.pos });
    let after = source.advance(12 + data.len());
    assert(after == CursorView {
        bytes: source.bytes,
        pos: (source.pos + 12 + data.len()) as nat,
    });
    let chunk = RawChunk { length: data.len() as u32, chunk_type, data };
    assert(read_chunk(source) == Ok::<(RawChunk, CursorView), ParserError>((chunk, after)));
}

// ---------------------------------------------------------------------------
// Image data
// ---------------------------------------------------------------------------

/// A run of data chunks goes on over a whole data chunk that is not empty.
pub proof fn lemma_data_run_continues(
    bytes: Seq<u8>,
    pos: nat,
    next: Seq<u8>,
    data: Seq<u8>,
    count: u32,
)
    requires
        chunk_at(bytes, pos as int, chunk_ids::IDAT, next),
        next.len() > 0,
        count < u32::MAX,
    ensures
        data_run(CursorView { bytes, pos }, data, count) == data_run(
            CursorView { bytes, pos: behind(pos as int, next) as nat },
            data + next,
            (count + 1) as u32,
        ),
{
    let source = CursorView { bytes, pos };
    lemma_data_run_unfold(source, data, count);
    lemma_be_u32_of_be_bytes(chunk_ids::IDAT);
    lemma_be_u32_of_be_bytes(next.len() as u32);
    let at = pos as int;
    assert(source.peek(4) == bytes.subrange(at, at + 4));
    assert(source.advance(4).peek(4) == bytes.subrange(at + 4, at + 8));
    assert(source.advance(8).peek(next.len()) == bytes.subrange(at + 8, at + 8 + next.len()));
    assert(source.advance(12 + next.len()) == CursorView {
        bytes,
        pos: behind(pos as int, next) as nat,
    });
}

/// Whether the stream holds, from `pos` on, one data chunk behind the
/// other with the given payloads, none of them empty.
pub open spec fn data_chunks_at(bytes: Seq<u8>, pos: int, payloads: Seq<Seq<u8>>) -> bool
    decreases payloads.len(),
{
    if payloads.len() == 0 {
        true
    } else {
        &&& payloads[0].len() > 0
        &&& chunk_at(bytes, pos, chunk_ids::IDAT, payloads[0])
        &&& data_chunks_at(bytes, behind(pos, payloads[0]), payloads.drop_first())
    }
}

/// The place behind chunks that start at `pos` and hold the given payloads.
pub open spec fn behind_all(pos: int, payloads: Seq<Seq<u8>>) -> int
    decreases payloads.len(),
{
    if payloads.len() == 0 {
        pos
    } else {
        behind_all(behind(pos, payloads[0]), payloads.drop_first())
    }
}

/// The payloads one behind the other.
pub open spec fn joined(payloads: Seq<Seq<u8>>) -> Seq<u8>
    decreases payloads.len(),
{
    if payloads.len() == 0 {
        Seq::empty()
    } else {
        payloads[0] + joined(payloads.drop_first())
    }
}

/// Whether the stream holds, at `pos`, the length and the type of a chunk
/// that is no data chunk.
pub open spec fn other_chunk_ahead(bytes: Seq<u8>, pos: int) -> bool {
    0 <= pos && pos + 8 <= bytes.len() && be_u32(bytes.subrange(pos + 4, pos + 8))
        != chunk_ids::IDAT
}

/// A whole chunk of another type is a chunk of another type ahead.
pub proof fn lemma_other_chunk_ahead(bytes: Seq<u8>, pos: int, chunk_type: ChunkId, data: Seq<u8>)
    requires
        chunk_at(bytes, pos, chunk_type, data),
        chunk_type != chunk_ids::IDAT,
    ensures
        other_chunk_ahead(bytes, pos),
{
    lemma_be_u32_of_be_bytes(chunk_type);
}

/// A run of data chunks takes every data chunk that follows, joins the
/// payloads in the order of the stream, counts them, and ends before the
/// first chunk of another type, with the source at the length of that
/// chunk.
pub proof fn law_data_run(
    bytes: Seq<u8>,
    pos: nat,
    payloads: Seq<Seq<u8>>,
    data: Seq<u8>,
    count: u32,
)
    requires
        data_chunks_at(bytes, pos as int, payloads),
        other_chunk_ahead(bytes, behind_all(pos as int, payloads)),
        count + payloads.len() <= u32::MAX,
    ensures
        data_run(CursorView { bytes, pos }, data, count) == Ok::<
            (CursorView, CompressedDataView),
            ParserError,
        >(
            (
                CursorView { bytes, pos: behind_all(pos as int, payloads) as nat },
                CompressedDataView {
                    chunk_count: (count + payloads.len()) as u32,
                    data: data + joined(payloads),
                },
            ),
        ),
    decreases payloads.len(),
{
    let source = CursorView { bytes, pos };
    if payloads.len() == 0 {
        lemma_data_run_unfold(source, data, count);
        let at = pos as int;
        assert(source.advance(4).peek(4) == bytes.subrange(at + 4, at + 8));
        assert(data + joined(payloads) =~= data);
    } else {
        let next = payloads[0];
        lemma_data_run_continues(bytes, pos, next, data, count);
        law_data_run(
            bytes,
            behind(pos as int, next) as nat,
            payloads.drop_first(),
            data + next,
            (count + 1) as u32,
        );
        assert((data + next) + joined(payloads.drop_first()) =~= data + joined(payloads));
    }
}

/// A first data chunk takes the whole run with it. Where no image data
/// have been gathered, a data chunk that is not empty, with data chunks
/// that are not empty behind it and a chunk of another type behind those,
/// leaves the parse with the payloads joined in the order of the stream
/// and counted, and with the source at the length of the chunk of another
/// type. Nothing else changes.
pub proof fn law_data_chunks_joined(st: ParserView, first: Seq<u8>, rest: Seq<Seq<u8>>)
    requires
        st.compressed_data is None,
        first.len() > 0,
        data_chunks_at(st.source.bytes, st.source.pos as int, rest),
        other_chunk_ahead(st.source.bytes, behind_all(st.source.pos as int, rest)),
        1 + rest.len() <= u32::MAX,
    ensures
        dispatch(st, chunk_ids::IDAT, first) == Ok::<ParserView, ParserError>(
            ParserView {
                source: CursorView {
                    bytes: st.source.bytes,
                    pos: behind_all(st.source.pos as int, rest) as nat,
                },
                compressed_data: Some(
                    CompressedDataView {
                        chunk_count: (1 + rest.len()) as u32,
                        data: first + joined(rest),
                    },
                ),
                ..st
            },
        ),
{
    law_data_run(st.source.bytes, st.source.pos, rest, first, 1);
    assert(st.source == CursorView { bytes: st.source.bytes, pos: st.source.pos });
}

/// Where image data have been gathered, a further data chunk is refused,
/// whatever it holds, and nothing is gathered from it.
pub proof fn law_sealed_run(st: ParserView, data: Seq<u8>)
    requires
        st.compressed_data is Some,
    ensures
        dispatch(st, chunk_ids::IDAT, data) == Err::<ParserView, ParserError>(
            ParserError::NonConsecutiveData,
        ),
{
}

/// The end of a stream that holds its image data last: where the parse
/// waits for chunks with no image data gathered, and the stream holds
/// there a data chunk that is not empty, further such data chunks, and
/// the trailer, the parse ends behind the trailer with the payloads joined
/// and counted and with the trailer found, and with nothing else changed.
#[verifier::rlimit(40)]
pub proof fn lemma_data_to_trailer(st: ParserView, first: Seq<u8>, rest: Seq<Seq<u8>>)
    requires
        st.trailer is None,
        st.compressed_data is None,
        first.len() > 0,
        chunk_at(st.source.bytes, st.source.pos as int, chunk_ids::IDAT, first),
        data_chunks_at(st.source.bytes, behind(st.source.pos as int, first), rest),
        chunk_at(
            st.source.bytes,
            behind_all(behind(st.source.pos as int, first), rest),
            chunk_ids::IEND,
            Seq::empty(),
        ),
        1 + rest.len() <= u32::MAX,
    ensures
        chunks_step(st) == Ok::<ParserView, ParserError>(
            ParserView {
                source: CursorView {
                    bytes: st.source.bytes,
                    pos: (behind_all(behind(st.source.pos as int, first), rest) + 12) as nat,
                },
                compressed_data: Some(
                    CompressedDataView {
                        chunk_count: (1 + rest.len()) as u32,
                        data: first + joined(rest),
                    },
                ),
                trailer: Some(TrailerInfo { found: true }),
                ..st
            },
        ),
{
    let bytes = st.source.bytes;
    let rest_at = behind(st.source.pos as int, first);
    let trailer_at = behind_all(rest_at, rest);
    lemma_take_chunk(st, chunk_ids::IDAT, first);
    let taken = ParserView { source: st.source.advance(12 + first.len()), ..st };
    assert(taken.source == CursorView { bytes, pos: rest_at as nat });
    lemma_other_chunk_ahead(bytes, trailer_at, chunk_ids::IEND, Seq::empty());
    law_data_chunks_joined(taken, first, rest);
    let gathered = ParserView {
        source: CursorView { bytes, pos: trailer_at as nat },
        compressed_data: Some(
            CompressedDataView { chunk_count: (1 + rest.len()) as u32, data: first + joined(rest) },
        ),
        ..st
    };
    assert(chunks_step(st) == chunks_step(gathered));
    lemma_take_chunk(gathered, chunk_ids::IEND, Seq::empty());
    let done = ParserView {
        source: gathered.source.advance(12),
        trailer: Some(TrailerInfo { found: true }),
        ..gathered
    };
    assert(chunks_step(gathered) == chunks_step(done));
    assert(chunks_step(done) == Ok::<ParserView, ParserError>(done));
}

/// Two data chunks that follow each other are one piece of image data: a
/// signed stream that holds a legal header of a color type without
/// palette, two data chunks that are not empty, and the trailer, is parsed,
/// and its image data are the data of the first chunk with those of the
/// second behind them, counted as two chunks.
pub proof fn law_two_data_chunks(
    bytes: Seq<u8>,
    header: HeaderInfo,
    first: Seq<u8>,
    second: Seq<u8>,
)
    requires
        signed(bytes),
        legal_header(header),
        header.color_type != ColorType::IndexedColor,
        chunk_at(bytes, 8, chunk_ids::IHDR, header_bytes(header)),
        first.len() > 0,
        second.len() > 0,
        chunk_at(bytes, 33, chunk_ids::IDAT, first),
        chunk_at(bytes, behind(33, first), chunk_ids::IDAT, second),
        chunk_at(bytes, behind(behind(33, first), second), chunk_ids::IEND, Seq::empty()),
    ensures
        parsed(bytes) == Ok::<PngInfoView, ParserError>(
            plain_image(header, CompressedDataView { chunk_count: 2, data: first + second }),
        ),
{
    lemma_headed(bytes, header);
    let rest = seq![second];
    assert(rest.drop_first() =~= Seq::<Seq<u8>>::empty());
    assert(data_chunks_at(bytes, behind(33, first), rest)) by {
        assert(data_chunks_at(bytes, behind(behind(33, first), second), rest.drop_first()));
    }
    assert(behind_all(behind(33, first), rest) == behind(behind(33, first), second)) by {
        assert(behind_all(behind(behind(33, first), second), rest.drop_first()) == behind(
            behind(33, first),
            second,
        ));
    }
    assert(joined(rest) =~= second) by {
        assert(joined(rest.drop_first()) =~= Seq::<u8>::empty());
    }
    lemma_data_to_trailer(headed(bytes, header), first, rest);
}

/// Image data come in one run only. Wherever the parse stands with image
/// data gathered, a data chunk that comes then ends the parse: the run had
/// ended before a chunk of another type, so this one is cut off from it.
pub proof fn law_data_after_run(bytes: Seq<u8>, count: nat, mid: ParserView, data: Seq<u8>)
    requires
        reached(bytes, count) == Ok::<ParserView, ParserError>(mid),
        mid.trailer is None,
        mid.compressed_data is Some,
        chunk_at(bytes, mid.source.pos as int, chunk_ids::IDAT, data),
    ensures
        parsed(bytes) == Err::<PngInfoView, ParserError>(ParserError::NonConsecutiveData),
{
    lemma_reached_chunk(bytes, count, mid, chunk_ids::IDAT, data);
}

/// A chunk of a type that is not recognized between two data chunks parts
/// them: a signed stream that holds a legal header, a data chunk that is
/// not empty, such a chunk, and a data chunk again, is refused for its
/// image data not being in one run.
#[verifier::rlimit(40)]
pub proof fn law_interrupted_data(
    bytes: Seq<u8>,
    header: HeaderInfo,
    first: Seq<u8>,
    chunk_type: ChunkId,
    between: Seq<u8>,
    last: Seq<u8>,
)
    requires
        signed(bytes),
        legal_header(header),
        chunk_at(bytes, 8, chunk_ids::IHDR, header_bytes(header)),
        first.len() > 0,
        chunk_at(bytes, 33, chunk_ids::IDAT, first),
        !recognized(chunk_type),
        chunk_at(bytes, behind(33, first), chunk_type, between),
        chunk_at(bytes, behind(behind(33, first), between), chunk_ids::IDAT, last),
    ensures
        parsed(bytes) == Err::<PngInfoView, ParserError>(ParserError::NonConsecutiveData),
{
    lemma_headed(bytes, header);
    let s2 = headed(bytes, header);
    lemma_take_chunk(s2, chunk_ids::IDAT, first);
    let between_at = behind(33, first);
    let taken = ParserView { source: s2.source.advance(12 + first.len()), ..s2 };
    assert(taken.source == CursorView { bytes, pos: between_at as nat });
    lemma_other_chunk_ahead(bytes, between_at, chunk_type, between);
    law_data_chunks_joined(taken, first, Seq::empty());
    assert(first + joined(Seq::<Seq<u8>>::empty()) =~= first);
    let s3 = ParserView {
        source: CursorView { bytes, pos: between_at as nat },
        compressed_data: Some(CompressedDataView { chunk_count: 1, data: first }),
        ..s2
    };
    assert(chunks_step(s2) == chunks_step(s3));
    lemma_take_chunk(s3, chunk_type, between);
    let passed = ParserView { source: s3.source.advance(12 + between.len()), ..s3 };
    law_unknown_step(passed, chunk_type, between);
    let s4 = unknown_step(passed, chunk_type, between);
    assert(chunks_step(s3) == chunks_step(s4));
    lemma_take_chunk(s4, chunk_ids::IDAT, last);
    law_sealed_run(ParserView { source: s4.source.advance(12 + last.len()), ..s4 }, last);
}

// ---------------------------------------------------------------------------
// Palette
// ---------------------------------------------------------------------------

/// The palette chunk at any state. Where a palette is there, the chunk is
/// a duplicate, whatever it holds and whether image data have been
/// gathered or not, and the first palette stays. Where none is there but
/// image data are, the chunk is out of order, whatever it holds. Else it
/// is refused for a length that three does not divide, and taken
/// otherwise, three bytes an entry.
pub proof fn law_palette_step(st: ParserView, data: Seq<u8>)
    ensures
        st.palette is Some ==> dispatch(st, chunk_ids::PLTE, data) == Err::<
            ParserView,
            ParserError,
        >(ParserError::DuplicateChunk(chunk_ids::PLTE)),
        st.palette is None && st.compressed_data is Some ==> dispatch(st, chunk_ids::PLTE, data)
            == Err::<ParserView, ParserError>(ParserError::InvalidChunkOrder(chunk_ids::PLTE)),
        st.palette is None && st.compressed_data is None && data.len() % 3 != 0 ==> dispatch(
            st,
            chunk_ids::PLTE,
            data,
        ) == Err::<ParserView, ParserError>(ParserError::InvalidChunkLength(chunk_ids::PLTE)),
        st.palette is None && st.compressed_data is None && data.len() % 3 == 0 ==> dispatch(
            st,
            chunk_ids::PLTE,
            data,
        ) == Ok::<ParserView, ParserError>(
            ParserView { palette: Some(palette_entries(data)), ..st },
        ),
{
    lemma_order_violated(st);
}

/// What the end of a parse gives, at any state with a header, image data
/// and the trailer found. With a header of indexed color and no palette it
/// is the failure for the missing palette. Else it is the image
/// description that holds every part as it was gathered, the palette also
/// where the color type does not need it.
pub proof fn law_collect(st: ParserView)
    requires
        st.header is Some,
        st.compressed_data is Some,
        st.trailer matches Some(trailer) && trailer.found,
    ensures
        st.palette is None && st.header->0.color_type == ColorType::IndexedColor
            ==> collect_step(st) == Err::<PngInfoView, ParserError>(
            ParserError::MissingRequiredChunk(chunk_ids::PLTE),
        ),
        st.palette is Some || st.header->0.color_type != ColorType::IndexedColor
            ==> collect_step(st) == Ok::<PngInfoView, ParserError>(
            PngInfoView {
                header: st.header->0,
                palette: st.palette,
                compressed_data: st.compressed_data->0,
                trailer: st.trailer->0,
                transparency: st.transparency,
                gamma: st.gamma,
                chromaticity: st.chromaticity,
                standard_rgb: st.standard_rgb,
                icc_profile: st.icc_profile,
                textual_data: st.textual_data,
                compressed_textual_data: st.compressed_textual_data,
                international_textual_data: st.international_textual_data,
                background: st.background,
                physical_pixel_dimension: st.physical_pixel_dimension,
                significant_bits: st.significant_bits,
                suggested_palettes: st.suggested_palettes,
                palette_histogram: st.palette_histogram,
                last_modification: st.last_modification,
                unknown_chunks: st.unknown_chunks,
            },
        ),
{
}

/// Wherever the parse stands with image data gathered and no palette, a
/// palette chunk that comes then ends the parse for its place.
pub proof fn law_palette_after_data(bytes: Seq<u8>, count: nat, mid: ParserView, data: Seq<u8>)
    requires
        reached(bytes, count) == Ok::<ParserView, ParserError>(mid),
        mid.trailer is None,
        mid.palette is None,
        mid.compressed_data is Some,
        chunk_at(bytes, mid.source.pos as int, chunk_ids::PLTE, data),
    ensures
        parsed(bytes) == Err::<PngInfoView, ParserError>(
            ParserError::InvalidChunkOrder(chunk_ids::PLTE),
        ),
{
    lemma_reached_chunk(bytes, count, mid, chunk_ids::PLTE, data);
    lemma_order_violated(ParserView { source: mid.source.advance(12 + data.len()), ..mid });
}

/// Wherever the parse stands with a palette gathered, a palette chunk that
/// comes then ends the parse as a duplicate.
pub proof fn law_second_palette(bytes: Seq<u8>, count: nat, mid: ParserView, data: Seq<u8>)
    requires
        reached(bytes, count) == Ok::<ParserView, ParserError>(mid),
        mid.trailer is None,
        mid.palette is Some,
        chunk_at(bytes, mid.source.pos as int, chunk_ids::PLTE, data),
    ensures
        parsed(bytes) == Err::<PngInfoView, ParserError>(
            ParserError::DuplicateChunk(chunk_ids::PLTE),
        ),
{
    lemma_reached_chunk(bytes, count, mid, chunk_ids::PLTE, data);
}

/// A parse that meets the trailer with a header of indexed color and no
/// palette gathered fails for the missing palette.
pub proof fn law_missing_palette(bytes: Seq<u8>, count: nat, mid: ParserView)
    requires
        reached(bytes, count) == Ok::<ParserView, ParserError>(mid),
        mid.trailer is Some,
        mid.header matches Some(header) && header.color_type == ColorType::IndexedColor,
        mid.palette is None,
    ensures
        parsed(bytes) == Err::<PngInfoView, ParserError>(
            ParserError::MissingRequiredChunk(chunk_ids::PLTE),
        ),
{
    lemma_reached(bytes, count);
}

/// A signed stream that holds a legal header of indexed color, a data
/// chunk that is not empty, and the trailer, fails for the missing palette.
pub proof fn law_indexed_without_palette(bytes: Seq<u8>, header: HeaderInfo, data: Seq<u8>)
    requires
        signed(bytes),
        legal_header(header),
        header.color_type == ColorType::IndexedColor,
        chunk_at(bytes, 8, chunk_ids::IHDR, header_bytes(header)),
        data.len() > 0,
        chunk_at(bytes, 33, chunk_ids::IDAT, data),
        chunk_at(bytes, behind(33, data), chunk_ids::IEND, Seq::empty()),
    ensures
        parsed(bytes) == Err::<PngInfoView, ParserError>(
            ParserError::MissingRequiredChunk(chunk_ids::PLTE),
        ),
{
    lemma_headed(bytes, header);
    lemma_data_to_trailer(headed(bytes, header), data, Seq::empty());
}

/// A palette is allowed where it is not needed: a signed stream that holds
/// a legal header of a color type without palette, a palette chunk of a
/// multiple of three bytes, a data chunk that is not empty, and the
/// trailer, is parsed, and the palette is part of what comes out.
#[verifier::rlimit(40)]
pub proof fn law_optional_palette(
    bytes: Seq<u8>,
    header: HeaderInfo,
    palette: Seq<u8>,
    data: Seq<u8>,
)
    requires
        signed(bytes),
        legal_header(header),
        header.color_type != ColorType::IndexedColor,
        chunk_at(bytes, 8, chunk_ids::IHDR, header_bytes(header)),
        palette.len() % 3 == 0,
        chunk_at(bytes, 33, chunk_ids::PLTE, palette),
        data.len() > 0,
        chunk_at(bytes, behind(33, palette), chunk_ids::IDAT, data),
        chunk_at(bytes, behind(behind(33, palette), data), chunk_ids::IEND, Seq::empty()),
    ensures
        parsed(bytes) == Ok::<PngInfoView, ParserError>(
            PngInfoView {
                palette: Some(palette_entries(palette)),
                ..plain_image(header, CompressedDataView { chunk_count: 1, data })
            },
        ),
{
    lemma_headed(bytes, header);
    let s2 = headed(bytes, header);
    lemma_take_chunk(s2, chunk_ids::PLTE, palette);
    lemma_order_violated(ParserView { source: s2.source.advance(12 + palette.len()), ..s2 });
    let s3 = ParserView {
        source: CursorView { bytes, pos: behind(33, palette) as nat },
        palette: Some(palette_entries(palette)),
        ..s2
    };
    assert(s2.source.advance(12 + palette.len()) == s3.source);
    assert(chunks_step(s2) == chunks_step(s3));
    lemma_data_to_trailer(s3, data, Seq::empty());
    assert(data + joined(Seq::<Seq<u8>>::empty()) =~= data);
}

// ---------------------------------------------------------------------------
// Transparency
// ---------------------------------------------------------------------------

/// With a header of indexed color, a transparency chunk in its place (no
/// transparency yet, behind the palette, before the image data) is taken
/// exactly where it holds one byte for each entry of the palette, and is
/// then kept as it is; any other length is refused.
pub proof fn law_transparency_length(st: ParserView, data: Seq<u8>)
    requires
        st.header matches Some(header) && header.color_type == ColorType::IndexedColor,
        st.transparency is None,
        st.palette is Some,
        st.compressed_data is None,
    ensures
        data.len() == st.palette->0.len() ==> dispatch(st, chunk_ids::tRNS, data) == Ok::<
            ParserView,
            ParserError,
        >(ParserView { transparency: Some(TransparencyView::IndexedColor(data)), ..st }),
        data.len() != st.palette->0.len() ==> dispatch(st, chunk_ids::tRNS, data) == Err::<
            ParserView,
            ParserError,
        >(ParserError::InvalidChunkLength(chunk_ids::tRNS)),
{
    lemma_order_violated(st);
}

// ---------------------------------------------------------------------------
// Keywords
// ---------------------------------------------------------------------------

/// A chunk that begins with a keyword or name and holds no zero byte is
/// refused for the missing end of the string, whatever its length. For
/// the three kinds of text this holds wherever the chunk stands; for the
/// embedded profile and the suggested palette it holds where the chunk
/// stands in its place.
pub proof fn law_keyword_without_end(st: ParserView, data: Seq<u8>)
    requires
        forall|i: int| 0 <= i < data.len() ==> data[i] != 0,
    ensures
        leading_keyword(data) == Err::<(Seq<char>, int), ParserError>(
            ParserError::MissingNullTerminator,
        ),
        dispatch(st, chunk_ids::tEXt, data) == Err::<ParserView, ParserError>(
            ParserError::MissingNullTerminator,
        ),
        dispatch(st, chunk_ids::zTXt, data) == Err::<ParserView, ParserError>(
            ParserError::MissingNullTerminator,
        ),
        dispatch(st, chunk_ids::iTXt, data) == Err::<ParserView, ParserError>(
            ParserError::MissingNullTerminator,
        ),
        icc_profile_of(data) == Err::<ICCProfileView, ParserError>(
            ParserError::MissingNullTerminator,
        ),
        suggested_palette_of(data) == Err::<
            SuggestedPaletteView,
            ParserError,
        >(ParserError::MissingNullTerminator),
        st.icc_profile is None && st.palette is None && st.compressed_data is None ==> dispatch(
            st,
            chunk_ids::iCCP,
            data,
        ) == Err::<ParserView, ParserError>(ParserError::MissingNullTerminator),
        st.compressed_data is None ==> dispatch(st, chunk_ids::sPLT, data) == Err::<
            ParserView,
            ParserError,
        >(ParserError::MissingNullTerminator),
{
    lemma_no_string_end(data);
    lemma_order_violated(st);
}

/// A chunk that begins with a keyword or name of no bytes, or of more than
/// 79 bytes of text, is refused for the length of the string, whatever
/// follows. For the three kinds of text this holds wherever the chunk
/// stands; for the embedded profile and the suggested palette it holds
/// where the chunk stands in its place.
pub proof fn law_keyword_length(st: ParserView, data: Seq<u8>, end: int)
    requires
        is_string_end(data, end),
        end == 0 || end > 79,
        valid_utf8(data.subrange(0, end)),
    ensures
        leading_keyword(data) == Err::<(Seq<char>, int), ParserError>(
            ParserError::InvalidStringLength,
        ),
        dispatch(st, chunk_ids::tEXt, data) == Err::<ParserView, ParserError>(
            ParserError::InvalidStringLength,
        ),
        dispatch(st, chunk_ids::zTXt, data) == Err::<ParserView, ParserError>(
            ParserError::InvalidStringLength,
        ),
        dispatch(st, chunk_ids::iTXt, data) == Err::<ParserView, ParserError>(
            ParserError::InvalidStringLength,
        ),
        icc_profile_of(data) == Err::<ICCProfileView, ParserError>(
            ParserError::InvalidStringLength,
        ),
        suggested_palette_of(data) == Err::<
            SuggestedPaletteView,
            ParserError,
        >(ParserError::InvalidStringLength),
        st.icc_profile is None && st.palette is None && st.compressed_data is None ==> dispatch(
            st,
            chunk_ids::iCCP,
            data,
        ) == Err::<ParserView, ParserError>(ParserError::InvalidStringLength),
        st.compressed_data is None ==> dispatch(st, chunk_ids::sPLT, data) == Err::<
            ParserView,
            ParserError,
        >(ParserError::InvalidStringLength),
{
    lemma_string_end(data, end);
    lemma_order_violated(st);
}

// ---------------------------------------------------------------------------
// Unknown chunks
// ---------------------------------------------------------------------------

/// Whether `after` still holds all that `before` had gathered: each part
/// that comes once is the same where it was there, and each list begins
/// with what it held.
pub open spec fn keeps(before: ParserView, after: ParserView) -> bool {
    &&& before.header is Some ==> after.header == before.header
    &&& before.palette is Some ==> after.palette == before.palette
    &&& before.compressed_data is Some ==> after.compressed_data == before.compressed_data
    &&& before.trailer is Some ==> after.trailer == before.trailer
    &&& before.transparency is Some ==> after.transparency == before.transparency
    &&& before.gamma is Some ==> after.gamma == before.gamma
    &&& before.chromaticity is Some ==> after.chromaticity == before.chromaticity
    &&& before.standard_rgb is Some ==> after.standard_rgb == before.standard_rgb
    &&& before.icc_profile is Some ==> after.icc_profile == before.icc_profile
    &&& before.background is Some ==> after.background == before.background
    &&& before.physical_pixel_dimension is Some ==> after.physical_pixel_dimension
        == before.physical_pixel_dimension
    &&& before.significant_bits is Some ==> after.significant_bits == before.significant_bits
    &&& before.palette_histogram is Some ==> after.palette_histogram == before.palette_histogram
    &&& before.last_modification is Some ==> after.last_modification == before.last_modification
    &&& before.textual_data.is_prefix_of(after.textual_data)
    &&& before.compressed_textual_data.is_prefix_of(after.compressed_textual_data)
    &&& before.international_textual_data.is_prefix_of(after.international_textual_data)
    &&& before.suggested_palettes.is_prefix_of(after.suggested_palettes)
    &&& before.unknown_chunks.is_prefix_of(after.unknown_chunks)
}

/// A chunk that is taken adds to what has been gathered and replaces
/// nothing of it.
#[verifier::rlimit(40)]
pub proof fn law_chunk_adds(st: ParserView, chunk_type: ChunkId, data: Seq<u8>)
    ensures
        dispatch(st, chunk_type, data) matches Ok(next) ==> keeps(st, next),
{
}

/// The parse adds to what has been gathered and replaces nothing of it:
/// whatever a parse holds at some place, it still holds at its end.
pub proof fn law_parse_adds(st: ParserView)
    ensures
        chunks_step(st) matches Ok(done) ==> keeps(st, done),
    decreases st.source.remaining(),
{
    if st.trailer is None {
        match read_chunk(st.source) {
            Err(e) => {},
            Ok((chunk, source)) => {
                let taken = ParserView { source, ..st };
                law_chunk_adds(taken, chunk.chunk_type, chunk.data);
                lemma_chunk_step_source(st);
                match dispatch(taken, chunk.chunk_type, chunk.data) {
                    Err(e) => {},
                    Ok(next) => {
                        law_parse_adds(next);
                    },
                }
            },
        }
    }
}

/// A chunk of a type that is not recognized, at any state: it is taken
/// without failure, whatever it holds, its type bytes and its data are put
/// behind the unknown chunks that are there, and nothing else changes.
pub proof fn law_unknown_step(st: ParserView, chunk_type: ChunkId, data: Seq<u8>)
    requires
        !recognized(chunk_type),
    ensures
        dispatch(st, chunk_type, data) == Ok::<ParserView, ParserError>(
            ParserView {
                unknown_chunks: st.unknown_chunks.push(
                    UnknownChunkView { chunk_type: be_bytes(chunk_type), data },
                ),
                ..st
            },
        ),
{
}

/// A chunk of a type that is not recognized never ends the parse, whatever
/// it holds and wherever it stands behind the header and before the
/// trailer. The parse goes on behind it with one more unknown chunk, which
/// holds the four type bytes and the data as the stream has them, and
/// nothing else changed. Where the parse then comes to its end, the image
/// description holds that chunk at the place at which it was gathered.
pub proof fn law_unknown_chunk(
    bytes: Seq<u8>,
    count: nat,
    mid: ParserView,
    chunk_type: ChunkId,
    data: Seq<u8>,
)
    requires
        reached(bytes, count) == Ok::<ParserView, ParserError>(mid),
        mid.trailer is None,
        !recognized(chunk_type),
        chunk_at(bytes, mid.source.pos as int, chunk_type, data),
    ensures
        ({
            let kept = UnknownChunkView {
                chunk_type: bytes.subrange(mid.source.pos as int + 4, mid.source.pos as int + 8),
                data,
            };
            &&& reached(bytes, count + 1) == Ok::<ParserView, ParserError>(
                ParserView {
                    source: mid.source.advance(12 + data.len()),
                    unknown_chunks: mid.unknown_chunks.push(kept),
                    ..mid
                },
            )
            &&& parsed(bytes) matches Ok(image) ==> image.unknown_chunks.len()
                > mid.unknown_chunks.len() && image.unknown_chunks[mid.unknown_chunks.len() as int]
                == kept
        }),
{
    lemma_reached_chunk(bytes, count, mid, chunk_type, data);
    let next = reached(bytes, count + 1)->Ok_0;
    lemma_reached(bytes, count + 1);
    law_parse_adds(next);
    let kept = UnknownChunkView { chunk_type: be_bytes(chunk_type), data };
    assert(next.unknown_chunks[mid.unknown_chunks.len() as int] == kept);
}

/// Whether two sources hold the same bytes from their places on.
pub open spec fn same_ahead(a: CursorView, b: CursorView) -> bool {
    &&& a.wf()
    &&& b.wf()
    &&& a.bytes.subrange(a.pos as int, a.bytes.len() as int) == b.bytes.subrange(
        b.pos as int,
        b.bytes.len() as int,
    )
}

/// Whether `b` is the parse `a` with one more unknown chunk at `place` of
/// its unknown chunks: the bytes ahead are the same, and all that was
/// gathered is the same but for that one chunk.
pub open spec fn alike(a: ParserView, b: ParserView, place: int, extra: UnknownChunkView) -> bool {
    &&& same_ahead(a.source, b.source)
    &&& 0 <= place <= a.unknown_chunks.len()
    &&& b == (ParserView {
        source: b.source,
        unknown_chunks: a.unknown_chunks.insert(place, extra),
        ..a
    })
}

/// Whether two steps end alike: both fail in the same way, or both go on
/// with parses that are alike.
pub open spec fn steps_alike(
    a: Result<ParserView, ParserError>,
    b: Result<ParserView, ParserError>,
    place: int,
    extra: UnknownChunkView,
) -> bool {
    match (a, b) {
        (Ok(next_a), Ok(next_b)) => alike(next_a, next_b, place, extra),
        (Err(e_a), Err(e_b)) => e_a == e_b,
        _ => false,
    }
}

/// Whether `b` is the image description `a` with one more unknown chunk at
/// `place` of its unknown chunks, and the same in every other part; or
/// both are the same failure.
pub open spec fn images_alike(
    a: Result<PngInfoView, ParserError>,
    b: Result<PngInfoView, ParserError>,
    place: int,
    extra: UnknownChunkView,
) -> bool {
    match (a, b) {
        (Ok(image_a), Ok(image_b)) => 0 <= place <= image_a.unknown_chunks.len() && image_b
            == (PngInfoView {
            unknown_chunks: image_a.unknown_chunks.insert(place, extra),
            ..image_a
        }),
        (Err(e_a), Err(e_b)) => e_a == e_b,
        _ => false,
    }
}

/// Sources with the same bytes ahead read the same, and have the same
/// bytes ahead behind what they read.
pub proof fn lemma_same_ahead(a: CursorView, b: CursorView, count: nat)
    requires
        same_ahead(a, b),
    ensures
        a.can_read(count) == b.can_read(count),
        a.can_read(count) ==> a.peek(count) == b.peek(count) && same_ahead(
            a.advance(count),
            b.advance(count),
        ),
{
    let ahead_a = a.bytes.subrange(a.pos as int, a.bytes.len() as int);
    let ahead_b = b.bytes.subrange(b.pos as int, b.bytes.len() as int);
    assert(ahead_a.len() == ahead_b.len());
    if a.can_read(count) {
        assert(a.peek(count) =~= ahead_a.subrange(0, count as int));
        assert(b.peek(count) =~= ahead_b.subrange(0, count as int));
        let next_a = a.advance(count);
        let next_b = b.advance(count);
        assert(next_a.bytes.subrange(next_a.pos as int, next_a.bytes.len() as int)
            =~= ahead_a.subrange(count as int, ahead_a.len() as int));
        assert(next_b.bytes.subrange(next_b.pos as int, next_b.bytes.len() as int)
            =~= ahead_b.subrange(count as int, ahead_b.len() as int));
    }
}

/// Sources with the same bytes ahead give the same next chunk.
pub proof fn lemma_read_chunk_alike(a: CursorView, b: CursorView)
    requires
        same_ahead(a, b),
    ensures
        match (read_chunk(a), read_chunk(b)) {
            (Ok((chunk_a, next_a)), Ok((chunk_b, next_b))) => chunk_a == chunk_b && same_ahead(
                next_a,
                next_b,
            ),
            (Err(e_a), Err(e_b)) => e_a == e_b,
            _ => false,
        },
{
    lemma_same_ahead(a, b, 4);
    if a.can_read(4) {
        let length = be_u32(a.peek(4));
        lemma_same_ahead(a, b, 12 + length as nat);
        if a.can_read(12 + length as nat) {
            lemma_same_ahead(a.advance(4), b.advance(4), 4);
            lemma_same_ahead(a, b, 8);
            lemma_same_ahead(a.advance(8), b.advance(8), length as nat);
        }
    }
}

/// Sources with the same bytes ahead give the same run of data chunks.
pub proof fn lemma_data_run_alike(a: CursorView, b: CursorView, data: Seq<u8>, count: u32)
    requires
        same_ahead(a, b),
    ensures
        match (data_run(a, data, count), data_run(b, data, count)) {
            (Ok((next_a, run_a)), Ok((next_b, run_b))) => run_a == run_b && same_ahead(
                next_a,
                next_b,
            ),
            (Err(e_a), Err(e_b)) => e_a == e_b,
            _ => false,
        },
    decreases a.remaining(),
{
    lemma_data_run_unfold(a, data, count);
    lemma_data_run_unfold(b, data, count);
    lemma_same_ahead(a, b, 8);
    if a.can_read(8) {
        lemma_same_ahead(a, b, 4);
        lemma_same_ahead(a.advance(4), b.advance(4), 4);
        let length = be_u32(a.peek(4));
        let chunk_type = be_u32(a.advance(4).peek(4));
        lemma_same_ahead(a, b, 12 + length as nat);
        if chunk_type == chunk_ids::IDAT && length != 0 && a.can_read(12 + length as nat)
            && count != u32::MAX {
            lemma_same_ahead(a.advance(8), b.advance(8), length as nat);
            lemma_data_run_alike(
                a.advance(12 + length as nat),
                b.advance(12 + length as nat),
                data + a.advance(8).peek(length as nat),
                (count + 1) as u32,
            );
        }
    }
}

/// Parses that are alike take the same chunk alike.
#[verifier::rlimit(40)]
pub proof fn lemma_dispatch_alike(
    a: ParserView,
    b: ParserView,
    place: int,
    extra: UnknownChunkView,
    chunk_type: ChunkId,
    data: Seq<u8>,
)
    requires
        alike(a, b, place, extra),
    ensures
        steps_alike(
            dispatch(a, chunk_type, data),
            dispatch(b, chunk_type, data),
            place,
            extra,
        ),
{
    if chunk_type == chunk_ids::IDAT {
        lemma_data_run_alike(a.source, b.source, data, 1);
    } else if !recognized(chunk_type) {
        let kept = UnknownChunkView { chunk_type: be_bytes(chunk_type), data };
        assert(a.unknown_chunks.push(kept).insert(place, extra) =~= a.unknown_chunks.insert(
            place,
            extra,
        ).push(kept));
    }
}

/// Parses that are alike end alike.
#[verifier::rlimit(40)]
pub proof fn lemma_chunks_alike(a: ParserView, b: ParserView, place: int, extra: UnknownChunkView)
    requires
        alike(a, b, place, extra),
    ensures
        steps_alike(chunks_step(a), chunks_step(b), place, extra),
        images_alike(finish(a), finish(b), place, extra),
    decreases a.source.remaining(),
{
    if a.trailer is None {
        lemma_read_chunk_alike(a.source, b.source);
        match read_chunk(a.source) {
            Err(e) => {},
            Ok((chunk, next_a)) => {
                let next_b = read_chunk(b.source)->Ok_0.1;
                let taken_a = ParserView { source: next_a, ..a };
                let taken_b = ParserView { source: next_b, ..b };
                lemma_dispatch_alike(taken_a, taken_b, place, extra, chunk.chunk_type, chunk.data);
                lemma_chunk_step_source(a);
                match dispatch(taken_a, chunk.chunk_type, chunk.data) {
                    Err(e) => {},
                    Ok(after_a) => {
                        let after_b = dispatch(taken_b, chunk.chunk_type, chunk.data)->Ok_0;
                        lemma_chunks_alike(after_a, after_b, place, extra);
                    },
                }
            },
        }
    }
}

/// An unknown chunk that is put into a stream changes nothing but the
/// list of unknown chunks. Take a parse that waits for chunks, and a
/// second one that has gathered the same and whose source holds a whole
/// chunk of a type that is not recognized, with the bytes behind that
/// chunk the same as the bytes ahead of the first parse. Then the two end
/// in the same way: with the same failure, or with image descriptions that
/// are the same in every part but the unknown chunks, where the second has
/// that one chunk more, at the place at which it was gathered.
#[verifier::rlimit(40)]
pub proof fn law_unknown_chunk_inserted(
    without: ParserView,
    with: ParserView,
    chunk_type: ChunkId,
    data: Seq<u8>,
)
    requires
        without.trailer is None,
        without.source.wf(),
        with == (ParserView { source: with.source, ..without }),
        !recognized(chunk_type),
        chunk_at(with.source.bytes, with.source.pos as int, chunk_type, data),
        same_ahead(without.source, with.source.advance(12 + data.len())),
    ensures
        images_alike(
            finish(without),
            finish(with),
            without.unknown_chunks.len() as int,
            UnknownChunkView { chunk_type: be_bytes(chunk_type), data },
        ),
{
    let kept = UnknownChunkView { chunk_type: be_bytes(chunk_type), data };
    let place = without.unknown_chunks.len() as int;
    lemma_take_chunk(with, chunk_type, data);
    let taken = unknown_step(
        ParserView { source: with.source.advance(12 + data.len()), ..with },
        chunk_type,
        data,
    );
    assert(chunks_step(with) == chunks_step(taken));
    assert(without.unknown_chunks.push(kept) =~= without.unknown_chunks.insert(place, kept));
    lemma_chunks_alike(without, taken, place, kept);
}

/// The same for whole streams. Where the parses of two streams have both
/// taken the same number of chunks behind the header and gathered the
/// same, the first waits for chunks, and the second stream holds at that
/// place a whole chunk of a type that is not recognized and behind it what
/// the first stream holds from its place on, the two streams are parsed
/// to the same failure, or to image descriptions that differ in that one
/// unknown chunk and in nothing else.
pub proof fn lemma_unknown_chunk_in_stream(
    bytes: Seq<u8>,
    longer: Seq<u8>,
    count: nat,
    without: ParserView,
    with: ParserView,
    chunk_type: ChunkId,
    data: Seq<u8>,
)
    requires
        reached(bytes, count) == Ok::<ParserView, ParserError>(without),
        reached(longer, count) == Ok::<ParserView, ParserError>(with),
        without.trailer is None,
        without.source.wf(),
        with == (ParserView { source: with.source, ..without }),
        !recognized(chunk_type),
        chunk_at(longer, with.source.pos as int, chunk_type, data),
        same_ahead(without.source, with.source.advance(12 + data.len())),
    ensures
        images_alike(
            parsed(bytes),
            parsed(longer),
            without.unknown_chunks.len() as int,
            UnknownChunkView { chunk_type: be_bytes(chunk_type), data },
        ),
{
    lemma_reached(bytes, count);
    lemma_reached(longer, count);
    law_unknown_chunk_inserted(without, with, chunk_type, data);
}

/// Whether two parses have gathered the same and stand at the same place
/// of sources that hold the same bytes before `place`.
pub open spec fn same_so_far(a: ParserView, b: ParserView, place: int) -> bool {
    &&& b == (ParserView { source: b.source, ..a })
    &&& a.source.pos == b.source.pos
    &&& a.source.pos <= place <= a.source.bytes.len()
    &&& place <= b.source.bytes.len()
    &&& a.source.bytes.subrange(0, place) == b.source.bytes.subrange(0, place)
}

/// Whether a place of the parse lies at `place` or a chunk's length and
/// type before it.
pub open spec fn before_place(pos: int, place: int) -> bool {
    pos == place || pos + 8 <= place
}

/// Sources that hold the same bytes before a place read the same before
/// that place.
pub proof fn lemma_same_before(a: CursorView, b: CursorView, place: int, count: nat)
    requires
        a.pos == b.pos,
        a.pos + count <= place,
        place <= a.bytes.len(),
        place <= b.bytes.len(),
        a.bytes.subrange(0, place) == b.bytes.subrange(0, place),
    ensures
        a.can_read(count),
        b.can_read(count),
        a.peek(count) == b.peek(count),
{
    let before_a = a.bytes.subrange(0, place);
    let before_b = b.bytes.subrange(0, place);
    assert(a.peek(count) =~= before_a.subrange(a.pos as int, (a.pos + count) as int));
    assert(b.peek(count) =~= before_b.subrange(b.pos as int, (b.pos + count) as int));
}

/// A run of data chunks that ends at or before a place is the same run in
/// a source that holds the same bytes before that place and a chunk of
/// another type at it.
pub proof fn lemma_data_run_so_far(
    a: CursorView,
    b: CursorView,
    place: int,
    data: Seq<u8>,
    count: u32,
)
    requires
        a.pos == b.pos,
        a.pos <= place <= a.bytes.len(),
        place <= b.bytes.len(),
        a.bytes.subrange(0, place) == b.bytes.subrange(0, place),
        other_chunk_ahead(b.bytes, place),
        data_run(a, data, count) matches Ok((after, run)) && after.pos <= place && before_place(
            after.pos as int,
            place,
        ),
    ensures
        data_run(b, data, count) == Ok::<(CursorView, CompressedDataView), ParserError>(
            (
                CursorView { bytes: b.bytes, pos: data_run(a, data, count)->Ok_0.0.pos },
                data_run(a, data, count)->Ok_0.1,
            ),
        ),
    decreases a.remaining(),
{
    lemma_data_run_unfold(a, data, count);
    lemma_data_run_unfold(b, data, count);
    let length = be_u32(a.peek(4));
    let chunk_type = be_u32(a.advance(4).peek(4));
    if chunk_type != chunk_ids::IDAT {
        // The run ends here, so this place is the end of the run.
        if a.pos == place {
            assert(b.advance(4).peek(4) == b.bytes.subrange(place + 4, place + 8));
        } else {
            lemma_same_before(a, b, place, 8);
            lemma_same_before(a.advance(4), b.advance(4), place, 4);
        }
        assert(b == CursorView { bytes: b.bytes, pos: a.pos });
    } else {
        let next_a = a.advance(12 + length as nat);
        let next_b = b.advance(12 + length as nat);
        let more = data + a.advance(8).peek(length as nat);
        crate::model::lemma_data_run_source(next_a, more, (count + 1) as u32);
        lemma_same_before(a, b, place, 12 + length as nat);
        lemma_same_before(a, b, place, 4);
        lemma_same_before(a.advance(4), b.advance(4), place, 4);
        lemma_same_before(a.advance(8), b.advance(8), place, length as nat);
        lemma_data_run_so_far(next_a, next_b, place, more, (count + 1) as u32);
    }
}

/// A chunk that is taken before a place is taken in the same way from a
/// source that holds the same bytes before that place and a chunk of
/// another type at it.
#[verifier::rlimit(40)]
pub proof fn lemma_chunk_step_so_far(a: ParserView, b: ParserView, place: int)
    requires
        same_so_far(a, b, place),
        other_chunk_ahead(b.source.bytes, place),
        chunk_step(a) matches Ok(next) && next.source.pos <= place && before_place(
            next.source.pos as int,
            place,
        ),
    ensures
        chunk_step(b) matches Ok(next) && same_so_far(chunk_step(a)->Ok_0, next, place),
{
    let (chunk, after_a) = read_chunk(a.source)->Ok_0;
    let taken_a = ParserView { source: after_a, ..a };
    lemma_dispatch_source(taken_a, chunk.chunk_type, chunk.data);
    lemma_same_before(a.source, b.source, place, 4);
    lemma_same_before(a.source, b.source, place, 12 + chunk.length as nat);
    lemma_same_before(a.source.advance(4), b.source.advance(4), place, 4);
    lemma_same_before(a.source.advance(8), b.source.advance(8), place, chunk.length as nat);
    let after_b = b.source.advance(12 + chunk.length as nat);
    let taken_b = ParserView { source: after_b, ..b };
    if chunk.chunk_type == chunk_ids::IDAT {
        if a.compressed_data is None && chunk.data.len() != 0 {
            lemma_data_run_so_far(after_a, after_b, place, chunk.data, 1);
        }
    }
}

/// A chunk that is taken leaves at least its twelve bytes of frame behind.
pub proof fn lemma_chunk_step_frame(st: ParserView)
    requires
        st.source.wf(),
    ensures
        chunk_step(st) matches Ok(next) ==> st.source.pos + 12 <= next.source.pos,
{
    match read_chunk(st.source) {
        Err(e) => {},
        Ok((chunk, source)) => {
            lemma_dispatch_source(ParserView { source, ..st }, chunk.chunk_type, chunk.data);
        },
    }
}

/// The parse does not go back in its source.
pub proof fn lemma_after_chunks_place(st: ParserView, count: nat)
    requires
        st.source.wf(),
    ensures
        after_chunks(st, count) matches Ok(mid) ==> mid.source.wf() && st.source.pos
            <= mid.source.pos,
    decreases count,
{
    if count > 0 {
        lemma_after_chunks_place(st, (count - 1) as nat);
        match after_chunks(st, (count - 1) as nat) {
            Err(e) => {},
            Ok(mid) => {
                lemma_chunk_step_source(mid);
            },
        }
    }
}

/// The chunks that a parse takes up to a place are taken in the same way
/// from a stream that holds the same bytes before that place and a chunk
/// of another type at it.
#[verifier::rlimit(40)]
pub proof fn lemma_after_chunks_so_far(a: ParserView, b: ParserView, place: int, count: nat)
    requires
        a.source.wf(),
        same_so_far(a, b, place),
        other_chunk_ahead(b.source.bytes, place),
        after_chunks(a, count) matches Ok(mid) && mid.trailer is None && mid.source.pos <= place
            && before_place(mid.source.pos as int, place),
    ensures
        after_chunks(b, count) matches Ok(mid) && same_so_far(
            after_chunks(a, count)->Ok_0,
            mid,
            place,
        ),
    decreases count,
{
    if count > 0 {
        let fewer = (count - 1) as nat;
        let before = after_chunks(a, fewer)->Ok_0;
        assert(after_chunks(a, fewer) is Ok);
        assert(before.trailer is None);
        assert(after_chunks(a, count) == chunk_step(before));
        lemma_after_chunks_place(a, fewer);
        lemma_chunk_step_frame(before);
        assert(before.source.pos + 12 <= place);
        lemma_after_chunks_so_far(a, b, place, fewer);
        let other = after_chunks(b, fewer)->Ok_0;
        lemma_after_chunks(b, fewer);
        assert(other.source.bytes == b.source.bytes);
        assert(other.trailer is None);
        lemma_chunk_step_so_far(before, other, place);
        assert(after_chunks(b, count) == chunk_step(other));
    }
}

/// The signature and the header are read in the same way from a stream
/// that holds the same bytes before a place behind the header.
pub proof fn lemma_header_so_far(bytes: Seq<u8>, longer: Seq<u8>, place: int)
    requires
        place <= bytes.len(),
        place <= longer.len(),
        bytes.subrange(0, place) == longer.subrange(0, place),
        reached(bytes, 0) matches Ok(headed) && headed.source.pos <= place,
    ensures
        reached(longer, 0) matches Ok(headed) && same_so_far(
            reached(bytes, 0)->Ok_0,
            headed,
            place,
        ) && headed.source.bytes == longer,
{
    let start = initial(bytes);
    let other = initial(longer);
    let signed_a = signature_step(start)->Ok_0;
    let (chunk, after_a) = read_chunk(signed_a.source)->Ok_0;
    lemma_same_before(start.source, other.source, place, 8);
    let signed_b = signature_step(other)->Ok_0;
    lemma_same_before(signed_a.source, signed_b.source, place, 4);
    lemma_same_before(signed_a.source, signed_b.source, place, 12 + chunk.length as nat);
    lemma_same_before(signed_a.source.advance(4), signed_b.source.advance(4), place, 4);
    lemma_same_before(
        signed_a.source.advance(8),
        signed_b.source.advance(8),
        place,
        chunk.length as nat,
    );
}

/// An unknown chunk that is put into a stream changes the result in that
/// one chunk and in nothing else. Take a stream whose parse comes, behind
/// the header and some chunks, to a place at which it waits for a chunk
/// (so not to a place within a run of data chunks). Take a second stream
/// that holds the same bytes before that place, at it a whole chunk of a
/// type that is not recognized, and behind that chunk what the first
/// stream holds from the place on. Then the two streams are parsed to the
/// same failure, or to image descriptions that are the same in every part
/// but the unknown chunks, where the second has that one chunk more, at
/// the place at which it stands among them.
pub proof fn law_unknown_chunk_put_in(
    bytes: Seq<u8>,
    longer: Seq<u8>,
    count: nat,
    without: ParserView,
    chunk_type: ChunkId,
    data: Seq<u8>,
)
    requires
        reached(bytes, count) == Ok::<ParserView, ParserError>(without),
        without.trailer is None,
        !recognized(chunk_type),
        chunk_at(longer, without.source.pos as int, chunk_type, data),
        longer.subrange(0, without.source.pos as int) == bytes.subrange(
            0,
            without.source.pos as int,
        ),
        longer.subrange(behind(without.source.pos as int, data), longer.len() as int)
            == bytes.subrange(without.source.pos as int, bytes.len() as int),
    ensures
        images_alike(
            parsed(bytes),
            parsed(longer),
            without.unknown_chunks.len() as int,
            UnknownChunkView { chunk_type: be_bytes(chunk_type), data },
        ),
{
    let place = without.source.pos as int;
    lemma_reached(bytes, count);
    let headed = reached(bytes, 0)->Ok_0;
    assert(reached(bytes, 0) is Ok);
    lemma_reached(bytes, 0);
    lemma_chunk_step_source(without);
    lemma_after_chunks_place(headed, count);
    lemma_after_chunks(headed, count);
    assert(after_chunks(headed, count) == reached(bytes, count));
    assert(place <= bytes.len());
    lemma_header_so_far(bytes, longer, place);
    let other = reached(longer, 0)->Ok_0;
    lemma_other_chunk_ahead(longer, place, chunk_type, data);
    lemma_after_chunks_so_far(headed, other, place, count);
    assert(after_chunks(other, count) == reached(longer, count));
    let with = reached(longer, count)->Ok_0;
    lemma_after_chunks(other, count);
    assert(with.source == CursorView { bytes: longer, pos: place as nat });
    assert(without.source == CursorView { bytes, pos: place as nat });
    lemma_unknown_chunk_in_stream(bytes, longer, count, without, with, chunk_type, data);
}

// ---------------------------------------------------------------------------
// What every image description keeps to
// ---------------------------------------------------------------------------

/// Whether a transparency has the shape that the color type asks for.
pub open spec fn transparency_fits(color_type: ColorType, transparency: TransparencyView) -> bool {
    match color_type {
        ColorType::Grayscale => transparency is Grayscale,
        ColorType::TrueColor => transparency is TrueColor,
        ColorType::IndexedColor => transparency is IndexedColor,
        _ => false,
    }
}

/// Whether a background has the shape that the color type asks for.
pub open spec fn background_fits(color_type: ColorType, background: BackgroundInfo) -> bool {
    match color_type {
        ColorType::Grayscale => background.background is Grayscale,
        ColorType::TrueColor => background.background is TrueColor,
        ColorType::IndexedColor => background.background is IndexedColor,
        _ => false,
    }
}

/// Whether significant bits have the shape that the color type asks for.
pub open spec fn significant_bits_fit(color_type: ColorType, bits: SignificantBitsInfo) -> bool {
    match color_type {
        ColorType::Grayscale => bits.significant_bits is Grayscale,
        ColorType::TrueColor => bits.significant_bits is TrueColor,
        ColorType::IndexedColor => bits.significant_bits is IndexedColor,
        ColorType::GrayscaleAlpha => bits.significant_bits is GrayscaleAlpha,
        ColorType::TrueColorAlpha => bits.significant_bits is TrueColorAlpha,
    }
}

/// What holds of all that a parse has gathered, at every place behind the
/// header: the header is legal; image data are not empty; the parts whose
/// shape goes by the color type have that shape; what is counted against
/// the palette has as many entries as the palette.
pub open spec fn consistent(st: ParserView) -> bool {
    &&& st.header matches Some(header) && legal_header(header)
    &&& st.compressed_data matches Some(run) ==> run.data.len() > 0 && run.chunk_count >= 1
    &&& st.trailer matches Some(trailer) ==> trailer.found
    &&& st.transparency matches Some(transparency) ==> st.palette is Some && transparency_fits(
        st.header->0.color_type,
        transparency,
    )
    &&& st.transparency matches Some(TransparencyView::IndexedColor(alphas)) ==> alphas.len()
        == st.palette->0.len()
    &&& st.background matches Some(background) ==> st.palette is Some && background_fits(
        st.header->0.color_type,
        background,
    )
    &&& st.significant_bits matches Some(bits) ==> significant_bits_fit(
        st.header->0.color_type,
        bits,
    )
    &&& st.palette_histogram matches Some(counts) ==> st.palette is Some && counts.len()
        == st.palette->0.len()
}

/// What holds of every image description that a parse gives.
pub open spec fn sound_image(image: PngInfoView) -> bool {
    &&& legal_header(image.header)
    &&& image.trailer.found
    &&& image.compressed_data.data.len() > 0
    &&& image.compressed_data.chunk_count >= 1
    &&& image.header.color_type == ColorType::IndexedColor ==> image.palette is Some
    &&& image.transparency matches Some(transparency) ==> image.palette is Some
        && transparency_fits(image.header.color_type, transparency)
    &&& image.transparency matches Some(TransparencyView::IndexedColor(alphas)) ==> alphas.len()
        == image.palette->0.len()
    &&& image.background matches Some(background) ==> image.palette is Some && background_fits(
        image.header.color_type,
        background,
    )
    &&& image.significant_bits matches Some(bits) ==> significant_bits_fit(
        image.header.color_type,
        bits,
    )
    &&& image.palette_histogram matches Some(counts) ==> image.palette is Some && counts.len()
        == image.palette->0.len()
}

/// A header that is read is legal.
pub proof fn lemma_header_of_legal(data: Seq<u8>)
    ensures
        header_of(data) matches Some(header) ==> legal_header(header),
{
}

/// A run of data chunks loses nothing of what it began with.
pub proof fn lemma_data_run_grows(source: CursorView, data: Seq<u8>, count: u32)
    ensures
        data_run(source, data, count) matches Ok((after, run)) ==> run.data.len() >= data.len()
            && run.chunk_count >= count,
    decreases source.remaining(),
{
    lemma_data_run_unfold(source, data, count);
    if source.can_read(8) {
        let length = be_u32(source.peek(4));
        let chunk_type = be_u32(source.advance(4).peek(4));
        if chunk_type == chunk_ids::IDAT && length != 0 && source.can_read(12 + length as nat)
            && count != u32::MAX {
            lemma_data_run_grows(
                source.advance(12 + length as nat),
                data + source.advance(8).peek(length as nat),
                (count + 1) as u32,
            );
        }
    }
}

/// Every chunk that is taken keeps what has been gathered consistent.
#[verifier::rlimit(40)]
pub proof fn lemma_dispatch_consistent(st: ParserView, chunk_type: ChunkId, data: Seq<u8>)
    requires
        consistent(st),
    ensures
        dispatch(st, chunk_type, data) matches Ok(next) ==> consistent(next),
{
    lemma_order_violated(st);
    if chunk_type == chunk_ids::IDAT {
        lemma_data_run_grows(st.source, data, 1);
    }
}

/// The chunks up to the trailer keep what has been gathered consistent.
pub proof fn lemma_chunks_consistent(st: ParserView)
    requires
        consistent(st),
    ensures
        chunks_step(st) matches Ok(done) ==> consistent(done) && done.trailer is Some,
    decreases st.source.remaining(),
{
    if st.trailer is None {
        match read_chunk(st.source) {
            Err(e) => {},
            Ok((chunk, source)) => {
                let taken = ParserView { source, ..st };
                lemma_dispatch_consistent(taken, chunk.chunk_type, chunk.data);
                lemma_chunk_step_source(st);
                match dispatch(taken, chunk.chunk_type, chunk.data) {
                    Err(e) => {},
                    Ok(next) => {
                        lemma_chunks_consistent(next);
                    },
                }
            },
        }
    }
}

/// Every image description that a parse gives is sound: its header is
/// legal, its trailer was found, its image data are not empty, it has a
/// palette where the color type is indexed color, the parts whose shape
/// goes by the color type have that shape, and the transparency of indexed
/// color and the histogram have one entry for each entry of the palette.
pub proof fn law_sound_image(bytes: Seq<u8>)
    ensures
        parsed(bytes) matches Ok(image) ==> sound_image(image),
{
    match signature_step(initial(bytes)) {
        Err(e) => {},
        Ok(signed) => {
            match read_chunk(signed.source) {
                Err(e) => {},
                Ok((chunk, source)) => {
                    lemma_header_of_legal(chunk.data);
                },
            }
            match header_step(signed) {
                Err(e) => {},
                Ok(headed) => {
                    lemma_chunks_consistent(headed);
                },
            }
        },
    }
}

} // verus!
