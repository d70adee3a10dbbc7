use png_rs::crc32::compute;
use png_rs::error::IoFailure;
use png_rs::error::ParserError;
use png_rs::parser::Parser;
use png_rs::spec::chunk_ids;
use png_rs::spec::BackgroundVariant;
use png_rs::spec::ColorType;
use png_rs::spec::CompressionMethod;
use png_rs::spec::FilterMethod;
use png_rs::spec::InterlaceMethod;
use png_rs::spec::PhysicalUnitSpecifier;
use png_rs::spec::PngInfo;
use png_rs::spec::RenderingIntent;
use png_rs::spec::SignificantBitsVariant;
use png_rs::spec::TransparencyVariant;
use png_rs::spec::SIGNATURE;

fn chunk(chunk_type: &[u8; 4], data: &[u8]) -> Vec<u8> {
    let mut bytes = Vec::new();
    bytes.extend_from_slice(&(data.len() as u32).to_be_bytes());
    bytes.extend_from_slice(chunk_type);
    bytes.extend_from_slice(data);
    let mut checked = Vec::new();
    checked.extend_from_slice(chunk_type);
    checked.extend_from_slice(data);
    bytes.extend_from_slice(&compute(&checked).to_be_bytes());
    bytes
}

fn header_data(width: u32, height: u32, bit_depth: u8, color_type: u8, interlace: u8) -> Vec<u8> {
    let mut data = Vec::new();
    data.extend_from_slice(&width.to_be_bytes());
    data.extend_from_slice(&height.to_be_bytes());
    data.push(bit_depth);
    data.push(color_type);
    data.push(0);
    data.push(0);
    data.push(interlace);
    data
}

fn header(bit_depth: u8, color_type: u8) -> Vec<u8> {
    chunk(b"IHDR", &header_data(3, 2, bit_depth, color_type, 0))
}

fn stream(chunks: &[Vec<u8>]) -> Vec<u8> {
    let mut bytes = SIGNATURE.to_vec();
    for c in chunks {
        bytes.extend_from_slice(c);
    }
    bytes
}

fn parse(chunks: &[Vec<u8>]) -> Result<PngInfo, ParserError> {
    Parser::parse(&stream(chunks))
}

fn failure(chunks: &[Vec<u8>]) -> ParserError {
    parse(chunks).unwrap_err()
}

fn data_chunk() -> Vec<u8> {
    chunk(b"IDAT", &[1, 2, 3])
}

fn trailer() -> Vec<u8> {
    chunk(b"IEND", &[])
}

fn palette(entries: usize) -> Vec<u8> {
    let mut data = Vec::new();
    for i in 0..entries {
        data.push(i as u8);
        data.push(i as u8 + 100);
        data.push(i as u8 + 200);
    }
    chunk(b"PLTE", &data)
}

#[test]
fn minimal_document_keeps_the_header_fields() {
    let bytes = stream(&[
        chunk(b"IHDR", &header_data(640, 480, 8, 2, 1)),
        chunk(b"IDAT", &[9, 8, 7, 6]),
        trailer(),
    ]);
    let info = Parser::parse(&bytes).unwrap();
    assert_eq!(info.header.width, 640);
    assert_eq!(info.header.height, 480);
    assert_eq!(info.header.bit_depth, 8);
    assert_eq!(info.header.color_type, ColorType::TrueColor);
    assert_eq!(info.header.compression_method, CompressionMethod::Deflate);
    assert_eq!(info.header.filter_method, FilterMethod::Adaptive);
    assert_eq!(info.header.interlace_method, InterlaceMethod::Adam7);
    assert_eq!(info.compressed_data.chunk_count, 1);
    assert_eq!(info.compressed_data.data, vec![9, 8, 7, 6]);
    assert!(info.trailer.found);
    assert!(info.palette.is_none());
    assert!(info.transparency.is_none());
    assert!(info.gamma.is_none());
    assert!(info.chromaticity.is_none());
    assert!(info.standard_rgb.is_none());
    assert!(info.icc_profile.is_none());
    assert!(info.textual_data.is_empty());
    assert!(info.compressed_textual_data.is_empty());
    assert!(info.international_textual_data.is_empty());
    assert!(info.background.is_none());
    assert!(info.physical_pixel_dimension.is_none());
    assert!(info.significant_bits.is_none());
    assert!(info.suggested_palettes.is_empty());
    assert!(info.palette_histogram.is_none());
    assert!(info.last_modification.is_none());
    assert!(info.unknown_chunks.is_empty());
}

#[test]
fn header_width_is_read_highest_byte_first() {
    let info = parse(&[
        chunk(b"IHDR", &[0x01, 0x02, 0x03, 0x04, 0x0a, 0x0b, 0x0c, 0x0d, 16, 0, 0, 0, 0]),
        data_chunk(),
        trailer(),
    ])
    .unwrap();
    assert_eq!(info.header.width, 0x01020304);
    assert_eq!(info.header.height, 0x0a0b0c0d);
    assert_eq!(info.header.bit_depth, 16);
    assert_eq!(info.header.color_type, ColorType::Grayscale);
    assert_eq!(info.header.interlace_method, InterlaceMethod::NoInterlace);
}

#[test]
fn every_legal_pair_of_color_type_and_bit_depth_is_taken() {
    let legal: [(u8, &[u8]); 5] =
        [(0, &[1, 2, 4, 8, 16]), (2, &[8, 16]), (3, &[1, 2, 4, 8]), (4, &[8, 16]), (6, &[8, 16])];
    for (color_type, depths) in legal {
        for depth in 0..=255u8 {
            let mut chunks = vec![header(depth, color_type)];
            chunks.push(palette(2));
            chunks.push(data_chunk());
            chunks.push(trailer());
            let result = parse(&chunks);
            if depths.contains(&depth) {
                assert_eq!(result.unwrap().header.bit_depth, depth);
            } else {
                assert_eq!(result.unwrap_err(), ParserError::InvalidFieldValue);
            }
        }
    }
}

#[test]
fn color_types_are_told_apart() {
    let expected = [
        (0, ColorType::Grayscale),
        (2, ColorType::TrueColor),
        (3, ColorType::IndexedColor),
        (4, ColorType::GrayscaleAlpha),
        (6, ColorType::TrueColorAlpha),
    ];
    for (byte, color_type) in expected {
        let info = parse(&[header(8, byte), palette(1), data_chunk(), trailer()]).unwrap();
        assert_eq!(info.header.color_type, color_type);
    }
    for byte in [1u8, 5, 7, 255] {
        assert_eq!(
            failure(&[header(8, byte), data_chunk(), trailer()]),
            ParserError::InvalidFieldValue
        );
    }
}

#[test]
fn header_fields_out_of_range_are_refused() {
    let cases = [
        header_data(0, 2, 8, 2, 0),
        header_data(3, 0, 8, 2, 0),
        header_data(3, 2, 8, 2, 2),
        vec![0, 0, 0, 3, 0, 0, 0, 2, 8, 2, 1, 0, 0],
        vec![0, 0, 0, 3, 0, 0, 0, 2, 8, 2, 0, 1, 0],
    ];
    for data in cases {
        assert_eq!(
            failure(&[chunk(b"IHDR", &data), data_chunk(), trailer()]),
            ParserError::InvalidFieldValue
        );
    }
}

#[test]
fn a_flipped_signature_byte_is_an_invalid_signature() {
    let good = stream(&[header(8, 2), data_chunk(), trailer()]);
    assert!(Parser::parse(&good).is_ok());
    for place in 0..8 {
        for bit in 0..8 {
            let mut bytes = good.clone();
            bytes[place] ^= 1 << bit;
            assert_eq!(Parser::parse(&bytes).unwrap_err(), ParserError::InvalidSignature);
        }
    }
}

#[test]
fn a_stream_shorter_than_the_signature_is_an_invalid_signature() {
    for length in 0..8 {
        assert_eq!(
            Parser::parse(&SIGNATURE[..length]).unwrap_err(),
            ParserError::InvalidSignature
        );
    }
}

#[test]
fn a_stream_that_ends_behind_the_signature_fails_to_read() {
    assert_eq!(
        Parser::parse(&SIGNATURE).unwrap_err(),
        ParserError::IOError(IoFailure::UnexpectedEof)
    );
}

#[test]
fn a_header_of_another_length_is_refused_whatever_it_holds() {
    for length in [0usize, 1, 12, 14, 26, 300] {
        for fill in [0u8, 1, 8, 255] {
            let data = vec![fill; length];
            assert_eq!(
                failure(&[chunk(b"IHDR", &data), data_chunk(), trailer()]),
                ParserError::InvalidChunkLength(chunk_ids::IHDR)
            );
        }
    }
    let mut legal = header_data(3, 2, 8, 2, 0);
    legal.push(0);
    assert_eq!(
        failure(&[chunk(b"IHDR", &legal), data_chunk(), trailer()]),
        ParserError::InvalidChunkLength(chunk_ids::IHDR)
    );
}

#[test]
fn a_first_chunk_of_another_type_is_a_missing_header() {
    assert_eq!(
        failure(&[data_chunk(), trailer()]),
        ParserError::MissingRequiredChunk(chunk_ids::IHDR)
    );
    assert_eq!(
        failure(&[chunk(b"abcd", &header_data(3, 2, 8, 2, 0)), data_chunk(), trailer()]),
        ParserError::MissingRequiredChunk(chunk_ids::IHDR)
    );
}

#[test]
fn a_header_cut_short_fails_to_read() {
    let whole = stream(&[header(8, 2)]);
    for length in 8..whole.len() {
        assert_eq!(
            Parser::parse(&whole[..length]).unwrap_err(),
            ParserError::IOError(IoFailure::UnexpectedEof)
        );
    }
}

#[test]
fn a_stream_cut_short_anywhere_behind_the_signature_fails_to_read() {
    let whole = stream(&[header(8, 2), chunk(b"tEXt", b"Title\0x"), data_chunk(), trailer()]);
    assert!(Parser::parse(&whole).is_ok());
    for length in 8..whole.len() {
        assert_eq!(
            Parser::parse(&whole[..length]).unwrap_err(),
            ParserError::IOError(IoFailure::UnexpectedEof)
        );
    }
}

#[test]
fn a_declared_length_beyond_the_stream_fails_to_read() {
    let mut bytes = stream(&[header(8, 2)]);
    bytes.extend_from_slice(&[0xff, 0xff, 0xff, 0xff]);
    bytes.extend_from_slice(b"IDAT");
    bytes.extend_from_slice(&[1, 2, 3, 4, 5, 6, 7, 8]);
    assert_eq!(
        Parser::parse(&bytes).unwrap_err(),
        ParserError::IOError(IoFailure::UnexpectedEof)
    );
}

#[test]
fn the_checksum_is_not_held_against_the_chunk() {
    let mut bytes = stream(&[header(8, 2), data_chunk(), trailer()]);
    let good = Parser::parse(&bytes).unwrap();
    let end = bytes.len();
    bytes[end - 1] ^= 0xff;
    bytes[8 + 8 + 13] ^= 0xff;
    let info = Parser::parse(&bytes).unwrap();
    assert_eq!(info.header, good.header);
    assert_eq!(info.compressed_data.data, good.compressed_data.data);
}

#[test]
fn bytes_behind_the_trailer_are_not_looked_at() {
    let mut bytes = stream(&[header(8, 2), data_chunk(), trailer()]);
    bytes.extend_from_slice(&[0xde, 0xad, 0xbe, 0xef, 0x00]);
    let info = Parser::parse(&bytes).unwrap();
    assert_eq!(info.compressed_data.data, vec![1, 2, 3]);
}

#[test]
fn two_data_chunks_are_joined_in_stream_order() {
    let info = parse(&[
        header(8, 2),
        chunk(b"IDAT", &[1, 2, 3]),
        chunk(b"IDAT", &[4, 5]),
        trailer(),
    ])
    .unwrap();
    assert_eq!(info.compressed_data.chunk_count, 2);
    assert_eq!(info.compressed_data.data, vec![1, 2, 3, 4, 5]);
}

#[test]
fn many_data_chunks_are_joined_in_stream_order() {
    let mut chunks = vec![header(8, 2)];
    let mut expected = Vec::new();
    for i in 0..20u8 {
        let data: Vec<u8> = (0..=i).collect();
        expected.extend_from_slice(&data);
        chunks.push(chunk(b"IDAT", &data));
    }
    chunks.push(trailer());
    let info = parse(&chunks).unwrap();
    assert_eq!(info.compressed_data.chunk_count, 20);
    assert_eq!(info.compressed_data.data, expected);
}

#[test]
fn a_chunk_between_data_chunks_parts_them() {
    let between = [
        chunk(b"abCd", &[7, 7]),
        chunk(b"tEXt", b"Title\0text"),
        chunk(b"zTXt", b"Title\0\0zz"),
        chunk(b"iTXt", b"Title\0\0\0en\0Titel\0text"),
        chunk(b"tIME", &[7, 0xd0, 1, 2, 3, 4, 5]),
        chunk(b"IHDR", &header_data(3, 2, 8, 2, 0)),
    ];
    for other in between {
        assert_eq!(
            failure(&[header(8, 2), data_chunk(), other, data_chunk(), trailer()]),
            ParserError::NonConsecutiveData
        );
    }
}

#[test]
fn a_chunk_that_must_precede_the_data_is_refused_between_data_chunks() {
    let between: [(&[u8; 4], Vec<u8>, u32); 5] = [
        (b"gAMA", vec![0, 0, 0, 1], chunk_ids::gAMA),
        (b"pHYs", vec![0, 0, 0, 1, 0, 0, 0, 1, 1], chunk_ids::pHYs),
        (b"sPLT", b"name\0\x01".to_vec(), chunk_ids::sPLT),
        (b"sRGB", vec![0], chunk_ids::sRGB),
        (b"PLTE", vec![1, 2, 3], chunk_ids::PLTE),
    ];
    for (chunk_type, data, id) in between {
        assert_eq!(
            failure(&[header(8, 2), data_chunk(), chunk(chunk_type, &data), data_chunk(), trailer()]),
            ParserError::InvalidChunkOrder(id)
        );
    }
}

#[test]
fn a_data_chunk_without_data_is_refused() {
    assert_eq!(
        failure(&[header(8, 2), chunk(b"IDAT", &[]), trailer()]),
        ParserError::InvalidChunkLength(chunk_ids::IDAT)
    );
    assert_eq!(
        failure(&[header(8, 2), data_chunk(), chunk(b"IDAT", &[]), trailer()]),
        ParserError::InvalidChunkLength(chunk_ids::IDAT)
    );
    assert_eq!(
        failure(&[header(8, 2), data_chunk(), data_chunk(), chunk(b"IDAT", &[]), trailer()]),
        ParserError::InvalidChunkLength(chunk_ids::IDAT)
    );
}

#[test]
fn a_stream_that_ends_behind_the_data_fails_to_read() {
    assert_eq!(
        failure(&[header(8, 2), data_chunk()]),
        ParserError::IOError(IoFailure::UnexpectedEof)
    );
    let mut bytes = stream(&[header(8, 2), data_chunk()]);
    bytes.extend_from_slice(&[0, 0, 0, 0, b'I', b'E', b'N']);
    assert_eq!(
        Parser::parse(&bytes).unwrap_err(),
        ParserError::IOError(IoFailure::UnexpectedEof)
    );
}

#[test]
fn a_stream_without_data_is_missing_them() {
    assert_eq!(
        failure(&[header(8, 2), trailer()]),
        ParserError::MissingRequiredChunk(chunk_ids::IDAT)
    );
    assert_eq!(
        failure(&[header(8, 3), palette(2), trailer()]),
        ParserError::MissingRequiredChunk(chunk_ids::IDAT)
    );
}

#[test]
fn a_trailer_with_data_is_refused() {
    assert_eq!(
        failure(&[header(8, 2), data_chunk(), chunk(b"IEND", &[0])]),
        ParserError::InvalidChunkLength(chunk_ids::IEND)
    );
}

#[test]
fn a_palette_is_read_three_bytes_an_entry() {
    let info = parse(&[
        header(8, 3),
        chunk(b"PLTE", &[1, 2, 3, 4, 5, 6, 255, 254, 253]),
        data_chunk(),
        trailer(),
    ])
    .unwrap();
    assert_eq!(info.palette.unwrap().entries, vec![(1, 2, 3), (4, 5, 6), (255, 254, 253)]);
}

#[test]
fn an_empty_palette_is_a_palette() {
    let info = parse(&[header(8, 3), chunk(b"PLTE", &[]), data_chunk(), trailer()]).unwrap();
    assert!(info.palette.unwrap().entries.is_empty());
}

#[test]
fn a_palette_of_a_length_that_three_does_not_divide_is_refused() {
    for length in [1usize, 2, 4, 5, 7, 769] {
        assert_eq!(
            failure(&[header(8, 3), chunk(b"PLTE", &vec![0; length]), data_chunk(), trailer()]),
            ParserError::InvalidChunkLength(chunk_ids::PLTE)
        );
    }
}

#[test]
fn a_palette_behind_the_data_is_out_of_order() {
    for color_type in [2u8, 3] {
        assert_eq!(
            failure(&[header(8, color_type), data_chunk(), palette(2), trailer()]),
            ParserError::InvalidChunkOrder(chunk_ids::PLTE)
        );
    }
}

#[test]
fn a_second_palette_is_a_duplicate() {
    assert_eq!(
        failure(&[header(8, 3), palette(2), palette(2), data_chunk(), trailer()]),
        ParserError::DuplicateChunk(chunk_ids::PLTE)
    );
    assert_eq!(
        failure(&[header(8, 3), palette(2), chunk(b"tEXt", b"a\0b"), palette(3), data_chunk()]),
        ParserError::DuplicateChunk(chunk_ids::PLTE)
    );
    assert_eq!(
        failure(&[header(8, 3), palette(2), data_chunk(), palette(2), trailer()]),
        ParserError::DuplicateChunk(chunk_ids::PLTE)
    );
    assert_eq!(
        failure(&[header(8, 3), palette(2), chunk(b"PLTE", &[1]), data_chunk(), trailer()]),
        ParserError::DuplicateChunk(chunk_ids::PLTE)
    );
}

#[test]
fn indexed_color_without_palette_is_missing_it() {
    assert_eq!(
        failure(&[header(8, 3), data_chunk(), trailer()]),
        ParserError::MissingRequiredChunk(chunk_ids::PLTE)
    );
    assert_eq!(
        failure(&[header(8, 3), chunk(b"tEXt", b"a\0b"), data_chunk(), trailer()]),
        ParserError::MissingRequiredChunk(chunk_ids::PLTE)
    );
}

#[test]
fn a_palette_is_allowed_where_it_is_not_needed() {
    for color_type in [0u8, 2, 4, 6] {
        let info = parse(&[header(8, color_type), palette(3), data_chunk(), trailer()]).unwrap();
        assert_eq!(
            info.palette.unwrap().entries,
            vec![(0, 100, 200), (1, 101, 201), (2, 102, 202)]
        );
    }
}

#[test]
fn transparency_of_indexed_color_holds_a_byte_for_each_entry() {
    let info = parse(&[
        header(8, 3),
        palette(3),
        chunk(b"tRNS", &[10, 20, 30]),
        data_chunk(),
        trailer(),
    ])
    .unwrap();
    match info.transparency.unwrap().transparency {
        TransparencyVariant::IndexedColor(alphas) => assert_eq!(alphas, vec![10, 20, 30]),
        other => panic!("{:?}", other),
    }
}

#[test]
fn transparency_of_indexed_color_of_another_length_is_refused() {
    for length in [0usize, 1, 2, 4, 5, 6, 9] {
        assert_eq!(
            failure(&[
                header(8, 3),
                palette(3),
                chunk(b"tRNS", &vec![1; length]),
                data_chunk(),
                trailer()
            ]),
            ParserError::InvalidChunkLength(chunk_ids::tRNS)
        );
    }
}

#[test]
fn transparency_goes_by_the_color_type() {
    let gray = parse(&[
        header(8, 0),
        palette(1),
        chunk(b"tRNS", &[0x12, 0x34]),
        data_chunk(),
        trailer(),
    ])
    .unwrap();
    match gray.transparency.unwrap().transparency {
        TransparencyVariant::Grayscale(level) => assert_eq!(level, 0x1234),
        other => panic!("{:?}", other),
    }
    let color = parse(&[
        header(8, 2),
        palette(1),
        chunk(b"tRNS", &[0, 1, 0, 2, 0xff, 0xfe]),
        data_chunk(),
        trailer(),
    ])
    .unwrap();
    match color.transparency.unwrap().transparency {
        TransparencyVariant::TrueColor(red, green, blue) => {
            assert_eq!((red, green, blue), (1, 2, 0xfffe))
        }
        other => panic!("{:?}", other),
    }
    for (color_type, length) in [(0u8, 1usize), (0, 3), (2, 2), (2, 5), (2, 7)] {
        assert_eq!(
            failure(&[
                header(8, color_type),
                palette(1),
                chunk(b"tRNS", &vec![0; length]),
                data_chunk(),
                trailer()
            ]),
            ParserError::InvalidChunkLength(chunk_ids::tRNS)
        );
    }
    for color_type in [4u8, 6] {
        assert_eq!(
            failure(&[
                header(8, color_type),
                palette(1),
                chunk(b"tRNS", &[0, 0]),
                data_chunk(),
                trailer()
            ]),
            ParserError::InvalidFieldValue
        );
    }
}

#[test]
fn transparency_has_its_place_behind_the_palette_and_before_the_data() {
    assert_eq!(
        failure(&[header(8, 0), chunk(b"tRNS", &[0, 0]), data_chunk(), trailer()]),
        ParserError::InvalidChunkOrder(chunk_ids::tRNS)
    );
    assert_eq!(
        failure(&[header(8, 3), palette(1), data_chunk(), chunk(b"tRNS", &[0]), trailer()]),
        ParserError::InvalidChunkOrder(chunk_ids::tRNS)
    );
    assert_eq!(
        failure(&[
            header(8, 3),
            palette(1),
            chunk(b"tRNS", &[0]),
            chunk(b"tRNS", &[0]),
            data_chunk(),
            trailer()
        ]),
        ParserError::DuplicateChunk(chunk_ids::tRNS)
    );
}

#[test]
fn gamma_is_kept_in_hundred_thousandths() {
    let info = parse(&[
        header(8, 2),
        chunk(b"gAMA", &[0x00, 0x00, 0xb1, 0x8f]),
        data_chunk(),
        trailer(),
    ])
    .unwrap();
    assert_eq!(info.gamma.unwrap().gamma, 45455);
}

#[test]
fn gamma_has_its_length_its_place_and_its_number() {
    for length in [0usize, 3, 5, 8] {
        assert_eq!(
            failure(&[header(8, 2), chunk(b"gAMA", &vec![0; length]), data_chunk(), trailer()]),
            ParserError::InvalidChunkLength(chunk_ids::gAMA)
        );
    }
    let gamma = chunk(b"gAMA", &[0, 0, 0, 1]);
    assert_eq!(
        failure(&[header(8, 2), palette(1), gamma.clone(), data_chunk(), trailer()]),
        ParserError::InvalidChunkOrder(chunk_ids::gAMA)
    );
    assert_eq!(
        failure(&[header(8, 2), data_chunk(), gamma.clone(), trailer()]),
        ParserError::InvalidChunkOrder(chunk_ids::gAMA)
    );
    assert_eq!(
        failure(&[header(8, 2), gamma.clone(), gamma, data_chunk(), trailer()]),
        ParserError::DuplicateChunk(chunk_ids::gAMA)
    );
}

#[test]
fn chromaticities_are_four_pairs() {
    let mut data = Vec::new();
    for value in [31270u32, 32900, 64000, 33000, 30000, 60000, 15000, 6000] {
        data.extend_from_slice(&value.to_be_bytes());
    }
    let info = parse(&[header(8, 2), chunk(b"cHRM", &data), data_chunk(), trailer()]).unwrap();
    let chromaticity = info.chromaticity.unwrap();
    assert_eq!(chromaticity.white_point, (31270, 32900));
    assert_eq!(chromaticity.red, (64000, 33000));
    assert_eq!(chromaticity.green, (30000, 60000));
    assert_eq!(chromaticity.blue, (15000, 6000));
    assert_eq!(
        failure(&[header(8, 2), chunk(b"cHRM", &data[..31]), data_chunk(), trailer()]),
        ParserError::InvalidChunkLength(chunk_ids::cHRM)
    );
    assert_eq!(
        failure(&[header(8, 2), palette(1), chunk(b"cHRM", &data), data_chunk(), trailer()]),
        ParserError::InvalidChunkOrder(chunk_ids::cHRM)
    );
    assert_eq!(
        failure(&[
            header(8, 2),
            chunk(b"cHRM", &data),
            chunk(b"cHRM", &data),
            data_chunk(),
            trailer()
        ]),
        ParserError::DuplicateChunk(chunk_ids::cHRM)
    );
}

#[test]
fn rendering_intents_are_told_apart() {
    let expected = [
        (0u8, RenderingIntent::Perceptual),
        (1, RenderingIntent::RelativeColorimetric),
        (2, RenderingIntent::Saturation),
        (3, RenderingIntent::AbsoluteColorimetric),
    ];
    for (byte, intent) in expected {
        let info = parse(&[header(8, 2), chunk(b"sRGB", &[byte]), data_chunk(), trailer()]).unwrap();
        assert_eq!(info.standard_rgb.unwrap().rendering_intent, intent);
    }
    for byte in [4u8, 5, 255] {
        assert_eq!(
            failure(&[header(8, 2), chunk(b"sRGB", &[byte]), data_chunk(), trailer()]),
            ParserError::InvalidFieldValue
        );
    }
    assert_eq!(
        failure(&[header(8, 2), chunk(b"sRGB", &[0, 0]), data_chunk(), trailer()]),
        ParserError::InvalidChunkLength(chunk_ids::sRGB)
    );
    assert_eq!(
        failure(&[header(8, 2), chunk(b"sRGB", &[]), data_chunk(), trailer()]),
        ParserError::InvalidChunkLength(chunk_ids::sRGB)
    );
    assert_eq!(
        failure(&[header(8, 2), palette(1), chunk(b"sRGB", &[0]), data_chunk(), trailer()]),
        ParserError::InvalidChunkOrder(chunk_ids::sRGB)
    );
    assert_eq!(
        failure(&[
            header(8, 2),
            chunk(b"sRGB", &[0]),
            chunk(b"sRGB", &[0]),
            data_chunk(),
            trailer()
        ]),
        ParserError::DuplicateChunk(chunk_ids::sRGB)
    );
}

#[test]
fn an_embedded_profile_is_name_method_and_data() {
    let info = parse(&[
        header(8, 2),
        chunk(b"iCCP", b"sRGB profile\0\0\x78\x9c\x01"),
        data_chunk(),
        trailer(),
    ])
    .unwrap();
    let profile = info.icc_profile.unwrap();
    assert_eq!(profile.name, "sRGB profile");
    assert_eq!(profile.compression_method, CompressionMethod::Deflate);
    assert_eq!(profile.compressed_profile_data, vec![0x78, 0x9c, 0x01]);
}

#[test]
fn an_embedded_profile_may_hold_no_data_behind_the_method() {
    let info = parse(&[header(8, 2), chunk(b"iCCP", b"abc\0\0"), data_chunk(), trailer()]).unwrap();
    let profile = info.icc_profile.unwrap();
    assert_eq!(profile.name, "abc");
    assert!(profile.compressed_profile_data.is_empty());
}

#[test]
fn an_embedded_profile_is_held_to_its_shape() {
    let cases: [(&[u8], ParserError); 7] = [
        (b"ab\0", ParserError::InvalidChunkLength(chunk_ids::iCCP)),
        (b"abc\0", ParserError::InvalidChunkLength(chunk_ids::iCCP)),
        (b"abcd", ParserError::MissingNullTerminator),
        (b"\0\0\0\0", ParserError::InvalidStringLength),
        (b"abc\0\x01x", ParserError::InvalidFieldValue),
        (b"ab\xff\0\0x", ParserError::InvalidFieldValue),
        (b"abcdefgh", ParserError::MissingNullTerminator),
    ];
    for (data, expected) in cases {
        assert_eq!(
            failure(&[header(8, 2), chunk(b"iCCP", data), data_chunk(), trailer()]),
            expected
        );
    }
    let profile = chunk(b"iCCP", b"abc\0\0x");
    assert_eq!(
        failure(&[header(8, 2), palette(1), profile.clone(), data_chunk(), trailer()]),
        ParserError::InvalidChunkOrder(chunk_ids::iCCP)
    );
    assert_eq!(
        failure(&[header(8, 2), profile.clone(), profile, data_chunk(), trailer()]),
        ParserError::DuplicateChunk(chunk_ids::iCCP)
    );
}

fn keyword_of(length: usize) -> Vec<u8> {
    let mut data = vec![b'k'; length];
    data.push(0);
    data.extend_from_slice(&[0, 0, 0, 0, 0, 0]);
    data
}

#[test]
fn a_keyword_of_no_bytes_or_of_eighty_and_more_is_refused() {
    let kinds: [&[u8; 4]; 5] = [b"iCCP", b"tEXt", b"zTXt", b"iTXt", b"sPLT"];
    for kind in kinds {
        for length in [0usize, 80, 81, 200] {
            assert_eq!(
                failure(&[header(8, 2), chunk(kind, &keyword_of(length)), data_chunk(), trailer()]),
                ParserError::InvalidStringLength
            );
        }
    }
}

#[test]
fn a_keyword_is_held_to_its_length_in_a_chunk_of_any_length() {
    let kinds: [&[u8; 4]; 5] = [b"iCCP", b"tEXt", b"zTXt", b"iTXt", b"sPLT"];
    for kind in kinds {
        for data in [&b"\0"[..], b"\0\0", b"\0a", b"\0\0\0"] {
            assert_eq!(
                failure(&[header(8, 2), chunk(kind, data), data_chunk(), trailer()]),
                ParserError::InvalidStringLength
            );
        }
        let mut long = vec![b'k'; 80];
        long.push(0);
        assert_eq!(
            failure(&[header(8, 2), chunk(kind, &long), data_chunk(), trailer()]),
            ParserError::InvalidStringLength
        );
    }
}

#[test]
fn a_chunk_of_one_byte_that_is_not_zero_is_missing_the_end_of_its_keyword() {
    let kinds: [&[u8; 4]; 5] = [b"iCCP", b"tEXt", b"zTXt", b"iTXt", b"sPLT"];
    for kind in kinds {
        assert_eq!(
            failure(&[header(8, 2), chunk(kind, &[65]), data_chunk(), trailer()]),
            ParserError::MissingNullTerminator
        );
    }
}

#[test]
fn a_chunk_that_ends_behind_its_keyword_is_refused_for_its_length() {
    let kinds: [(&[u8; 4], u32); 4] = [
        (b"iCCP", chunk_ids::iCCP),
        (b"zTXt", chunk_ids::zTXt),
        (b"iTXt", chunk_ids::iTXt),
        (b"sPLT", chunk_ids::sPLT),
    ];
    for (kind, id) in kinds {
        for data in [&b"k\0"[..], b"key\0", b"keyword\0"] {
            assert_eq!(
                failure(&[header(8, 2), chunk(kind, data), data_chunk(), trailer()]),
                ParserError::InvalidChunkLength(id)
            );
        }
    }
    assert_eq!(
        failure(&[header(8, 2), chunk(b"iTXt", b"k\0\0"), data_chunk(), trailer()]),
        ParserError::InvalidChunkLength(chunk_ids::iTXt)
    );
}

#[test]
fn a_text_may_end_behind_its_keyword() {
    let info = parse(&[header(8, 2), chunk(b"tEXt", b"k\0"), data_chunk(), trailer()]).unwrap();
    assert_eq!(info.textual_data[0].keyword, "k");
    assert_eq!(info.textual_data[0].text, "");
}

#[test]
fn a_suggested_palette_may_have_no_entries() {
    for depth in [1u8, 2] {
        let info = parse(&[
            header(8, 2),
            chunk(b"sPLT", &[b'p', 0, depth]),
            data_chunk(),
            trailer(),
        ])
        .unwrap();
        assert_eq!(info.suggested_palettes.len(), 1);
        assert_eq!(info.suggested_palettes[0].name, "p");
        assert_eq!(info.suggested_palettes[0].sample_depth, depth);
        assert!(info.suggested_palettes[0].entries.is_empty());
    }
}

#[test]
fn a_keyword_of_one_to_seventy_nine_bytes_is_taken() {
    let kinds: [&[u8; 4]; 4] = [b"iCCP", b"tEXt", b"zTXt", b"iTXt"];
    for kind in kinds {
        for length in [1usize, 2, 40, 78, 79] {
            let info =
                parse(&[header(8, 2), chunk(kind, &keyword_of(length)), data_chunk(), trailer()])
                    .unwrap();
            let keyword = "k".repeat(length);
            let found = match kind {
                b"iCCP" => info.icc_profile.unwrap().name,
                b"tEXt" => info.textual_data[0].keyword.clone(),
                b"zTXt" => info.compressed_textual_data[0].keyword.clone(),
                _ => info.international_textual_data[0].keyword.clone(),
            };
            assert_eq!(found, keyword);
        }
    }
}

#[test]
fn a_keyword_without_zero_byte_is_missing_its_end() {
    let kinds: [&[u8; 4]; 5] = [b"iCCP", b"tEXt", b"zTXt", b"iTXt", b"sPLT"];
    for kind in kinds {
        for length in [0usize, 1, 2, 3, 4, 5, 6, 7, 79, 80, 300] {
            assert_eq!(
                failure(&[header(8, 2), chunk(kind, &vec![b'k'; length]), data_chunk(), trailer()]),
                ParserError::MissingNullTerminator
            );
        }
    }
}

#[test]
fn a_keyword_that_is_not_text_is_an_invalid_field() {
    let kinds: [&[u8; 4]; 5] = [b"iCCP", b"tEXt", b"zTXt", b"iTXt", b"sPLT"];
    for kind in kinds {
        assert_eq!(
            failure(&[
                header(8, 2),
                chunk(kind, b"k\xc3\x28\0\0\0\0\0\0\0"),
                data_chunk(),
                trailer()
            ]),
            ParserError::InvalidFieldValue
        );
    }
}

#[test]
fn text_is_keyword_and_text() {
    let info = parse(&[
        header(8, 2),
        chunk(b"tEXt", b"Title\0A picture"),
        data_chunk(),
        chunk(b"tEXt", "Author\0J\u{fc}rgen".as_bytes()),
        chunk(b"tEXt", b"Empty\0"),
        trailer(),
    ])
    .unwrap();
    assert_eq!(info.textual_data.len(), 3);
    assert_eq!(info.textual_data[0].keyword, "Title");
    assert_eq!(info.textual_data[0].text, "A picture");
    assert_eq!(info.textual_data[1].keyword, "Author");
    assert_eq!(info.textual_data[1].text, "J\u{fc}rgen");
    assert_eq!(info.textual_data[2].keyword, "Empty");
    assert_eq!(info.textual_data[2].text, "");
}

#[test]
fn text_is_held_to_its_shape() {
    let cases: [(&[u8], ParserError); 6] = [
        (b"", ParserError::MissingNullTerminator),
        (b"a", ParserError::MissingNullTerminator),
        (b"\0", ParserError::InvalidStringLength),
        (b"ab", ParserError::MissingNullTerminator),
        (b"\0a", ParserError::InvalidStringLength),
        (b"a\0\xff", ParserError::InvalidFieldValue),
    ];
    for (data, expected) in cases {
        assert_eq!(
            failure(&[header(8, 2), chunk(b"tEXt", data), data_chunk(), trailer()]),
            expected
        );
    }
}

#[test]
fn text_ends_at_the_first_zero_byte_of_the_keyword_only() {
    let info = parse(&[header(8, 2), chunk(b"tEXt", b"a\0b\0c"), data_chunk(), trailer()]).unwrap();
    assert_eq!(info.textual_data[0].keyword, "a");
    assert_eq!(info.textual_data[0].text, "b\0c");
}

#[test]
fn compressed_text_is_keyword_method_and_data() {
    let info = parse(&[
        header(8, 2),
        chunk(b"zTXt", b"Comment\0\0\x78\x9c"),
        chunk(b"zTXt", b"a\0\0"),
        data_chunk(),
        trailer(),
    ])
    .unwrap();
    assert_eq!(info.compressed_textual_data.len(), 2);
    assert_eq!(info.compressed_textual_data[0].keyword, "Comment");
    assert_eq!(info.compressed_textual_data[0].compression_method, CompressionMethod::Deflate);
    assert_eq!(info.compressed_textual_data[0].text, vec![0x78, 0x9c]);
    assert_eq!(info.compressed_textual_data[1].keyword, "a");
    assert!(info.compressed_textual_data[1].text.is_empty());
}

#[test]
fn compressed_text_is_held_to_its_shape() {
    let cases: [(&[u8], ParserError); 6] = [
        (b"a\0", ParserError::InvalidChunkLength(chunk_ids::zTXt)),
        (b"ab\0", ParserError::InvalidChunkLength(chunk_ids::zTXt)),
        (b"abc", ParserError::MissingNullTerminator),
        (b"\0\0\0", ParserError::InvalidStringLength),
        (b"a\0\x01", ParserError::InvalidFieldValue),
        (b"a\0\xff\0", ParserError::InvalidFieldValue),
    ];
    for (data, expected) in cases {
        assert_eq!(
            failure(&[header(8, 2), chunk(b"zTXt", data), data_chunk(), trailer()]),
            expected
        );
    }
}

#[test]
fn international_text_is_read_field_by_field() {
    let info = parse(&[
        header(8, 2),
        chunk(b"iTXt", b"Title\0\x01\0de\0Titel\0\x78\x9c"),
        chunk(b"iTXt", b"K\0\0\0\0\0"),
        data_chunk(),
        trailer(),
    ])
    .unwrap();
    assert_eq!(info.international_textual_data.len(), 2);
    let first = &info.international_textual_data[0];
    assert_eq!(first.keyword, "Title");
    assert!(first.is_compressed);
    assert_eq!(first.compression_method, CompressionMethod::Deflate);
    assert_eq!(first.language_tag, "de");
    assert_eq!(first.translated_keyword, "Titel");
    assert_eq!(first.text, vec![0x78, 0x9c]);
    let second = &info.international_textual_data[1];
    assert_eq!(second.keyword, "K");
    assert!(!second.is_compressed);
    assert_eq!(second.language_tag, "");
    assert_eq!(second.translated_keyword, "");
    assert!(second.text.is_empty());
}

#[test]
fn international_text_takes_any_flag_but_one_as_not_compressed() {
    for flag in [0u8, 2, 255] {
        let info = parse(&[
            header(8, 2),
            chunk(b"iTXt", &[b'K', 0, flag, 0, 0, 0]),
            data_chunk(),
            trailer(),
        ])
        .unwrap();
        assert!(!info.international_textual_data[0].is_compressed);
    }
}

#[test]
fn international_text_is_held_to_its_shape() {
    let cases: [(&[u8], ParserError); 9] = [
        (b"K\0\0\0\0", ParserError::MissingNullTerminator),
        (b"Keywo\0", ParserError::InvalidChunkLength(chunk_ids::iTXt)),
        (b"Keyw\0\0", ParserError::InvalidChunkLength(chunk_ids::iTXt)),
        (b"Keyword", ParserError::MissingNullTerminator),
        (b"\0\0\0\0\0\0", ParserError::InvalidStringLength),
        (b"K\0\0\x01\0\0", ParserError::InvalidFieldValue),
        (b"K\0\0\0en", ParserError::MissingNullTerminator),
        (b"K\0\0\0en\0Kk", ParserError::MissingNullTerminator),
        (b"K\0\0\0\xff\0\0", ParserError::InvalidFieldValue),
    ];
    for (data, expected) in cases {
        assert_eq!(
            failure(&[header(8, 2), chunk(b"iTXt", data), data_chunk(), trailer()]),
            expected
        );
    }
}

#[test]
fn international_text_needs_no_length_limit_on_its_other_strings() {
    let mut data = b"K\0\0\0".to_vec();
    data.extend_from_slice(&[b'l'; 100]);
    data.push(0);
    data.extend_from_slice(&[b't'; 100]);
    data.push(0);
    data.push(b'x');
    let info = parse(&[header(8, 2), chunk(b"iTXt", &data), data_chunk(), trailer()]).unwrap();
    assert_eq!(info.international_textual_data[0].language_tag, "l".repeat(100));
    assert_eq!(info.international_textual_data[0].translated_keyword, "t".repeat(100));
    assert_eq!(info.international_textual_data[0].text, vec![b'x']);
}

#[test]
fn the_background_goes_by_the_color_type() {
    let gray =
        parse(&[header(8, 0), palette(1), chunk(b"bKGD", &[1, 2]), data_chunk(), trailer()])
            .unwrap();
    assert_eq!(gray.background.unwrap().background, BackgroundVariant::Grayscale(0x0102));
    let color = parse(&[
        header(8, 2),
        palette(1),
        chunk(b"bKGD", &[0, 1, 0, 2, 1, 0]),
        data_chunk(),
        trailer(),
    ])
    .unwrap();
    assert_eq!(color.background.unwrap().background, BackgroundVariant::TrueColor(1, 2, 256));
    let indexed =
        parse(&[header(8, 3), palette(1), chunk(b"bKGD", &[7]), data_chunk(), trailer()]).unwrap();
    assert_eq!(indexed.background.unwrap().background, BackgroundVariant::IndexedColor(7));
}

#[test]
fn the_background_is_held_to_its_shape_and_place() {
    for (color_type, length) in [(0u8, 1usize), (0, 3), (2, 2), (2, 7), (3, 0), (3, 2)] {
        assert_eq!(
            failure(&[
                header(8, color_type),
                palette(1),
                chunk(b"bKGD", &vec![0; length]),
                data_chunk(),
                trailer()
            ]),
            ParserError::InvalidChunkLength(chunk_ids::bKGD)
        );
    }
    for color_type in [4u8, 6] {
        assert_eq!(
            failure(&[
                header(8, color_type),
                palette(1),
                chunk(b"bKGD", &[0, 0]),
                data_chunk(),
                trailer()
            ]),
            ParserError::InvalidFieldValue
        );
    }
    assert_eq!(
        failure(&[header(8, 0), chunk(b"bKGD", &[0, 0]), data_chunk(), trailer()]),
        ParserError::InvalidChunkOrder(chunk_ids::bKGD)
    );
    assert_eq!(
        failure(&[header(8, 0), palette(1), data_chunk(), chunk(b"bKGD", &[0, 0]), trailer()]),
        ParserError::InvalidChunkOrder(chunk_ids::bKGD)
    );
    assert_eq!(
        failure(&[
            header(8, 0),
            palette(1),
            chunk(b"bKGD", &[0, 0]),
            chunk(b"bKGD", &[0, 0]),
            data_chunk(),
            trailer()
        ]),
        ParserError::DuplicateChunk(chunk_ids::bKGD)
    );
}

#[test]
fn pixel_dimensions_are_two_rates_and_a_unit() {
    let info = parse(&[
        header(8, 2),
        chunk(b"pHYs", &[0, 0, 0x0b, 0x13, 0, 0, 0x0b, 0x14, 1]),
        data_chunk(),
        trailer(),
    ])
    .unwrap();
    let dimension = info.physical_pixel_dimension.unwrap();
    assert_eq!(dimension.pixels_per_unit, (2835, 2836));
    assert_eq!(dimension.unit_specifier, PhysicalUnitSpecifier::Meter);
    let unknown = parse(&[
        header(8, 2),
        palette(1),
        chunk(b"pHYs", &[0, 0, 0, 1, 0, 0, 0, 2, 0]),
        data_chunk(),
        trailer(),
    ])
    .unwrap();
    assert_eq!(
        unknown.physical_pixel_dimension.unwrap().unit_specifier,
        PhysicalUnitSpecifier::Unknown
    );
}

#[test]
fn pixel_dimensions_are_held_to_their_shape_and_place() {
    assert_eq!(
        failure(&[header(8, 2), chunk(b"pHYs", &[0; 8]), data_chunk(), trailer()]),
        ParserError::InvalidChunkLength(chunk_ids::pHYs)
    );
    assert_eq!(
        failure(&[header(8, 2), chunk(b"pHYs", &[0; 10]), data_chunk(), trailer()]),
        ParserError::InvalidChunkLength(chunk_ids::pHYs)
    );
    assert_eq!(
        failure(&[
            header(8, 2),
            chunk(b"pHYs", &[0, 0, 0, 1, 0, 0, 0, 1, 2]),
            data_chunk(),
            trailer()
        ]),
        ParserError::InvalidFieldValue
    );
    assert_eq!(
        failure(&[header(8, 2), data_chunk(), chunk(b"pHYs", &[0; 9]), trailer()]),
        ParserError::InvalidChunkOrder(chunk_ids::pHYs)
    );
    assert_eq!(
        failure(&[
            header(8, 2),
            chunk(b"pHYs", &[0; 9]),
            chunk(b"pHYs", &[0; 9]),
            data_chunk(),
            trailer()
        ]),
        ParserError::DuplicateChunk(chunk_ids::pHYs)
    );
}

#[test]
fn significant_bits_go_by_the_color_type() {
    let cases = [
        (0u8, vec![5u8], SignificantBitsVariant::Grayscale(5)),
        (2, vec![5, 6, 7], SignificantBitsVariant::TrueColor(5, 6, 7)),
        (3, vec![5, 6, 7], SignificantBitsVariant::IndexedColor(5, 6, 7)),
        (4, vec![5, 6], SignificantBitsVariant::GrayscaleAlpha(5, 6)),
        (6, vec![5, 6, 7, 8], SignificantBitsVariant::TrueColorAlpha(5, 6, 7, 8)),
    ];
    for (color_type, data, expected) in cases {
        let info = parse(&[
            header(8, color_type),
            chunk(b"sBIT", &data),
            palette(1),
            data_chunk(),
            trailer(),
        ])
        .unwrap();
        assert_eq!(info.significant_bits.unwrap().significant_bits, expected);
        for length in 0..6usize {
            if length != data.len() {
                assert_eq!(
                    failure(&[
                        header(8, color_type),
                        chunk(b"sBIT", &vec![1; length]),
                        palette(1),
                        data_chunk(),
                        trailer()
                    ]),
                    ParserError::InvalidChunkLength(chunk_ids::sBIT)
                );
            }
        }
    }
}

#[test]
fn significant_bits_have_their_place_before_the_palette() {
    assert_eq!(
        failure(&[header(8, 0), palette(1), chunk(b"sBIT", &[5]), data_chunk(), trailer()]),
        ParserError::InvalidChunkOrder(chunk_ids::sBIT)
    );
    assert_eq!(
        failure(&[header(8, 0), data_chunk(), chunk(b"sBIT", &[5]), trailer()]),
        ParserError::InvalidChunkOrder(chunk_ids::sBIT)
    );
    assert_eq!(
        failure(&[
            header(8, 0),
            chunk(b"sBIT", &[5]),
            chunk(b"sBIT", &[5]),
            data_chunk(),
            trailer()
        ]),
        ParserError::DuplicateChunk(chunk_ids::sBIT)
    );
}

#[test]
fn a_suggested_palette_of_narrow_samples_has_entries_of_six_bytes() {
    let mut data = b"pal\0\x01".to_vec();
    data.extend_from_slice(&[1, 2, 3, 4, 0x01, 0x00]);
    data.extend_from_slice(&[255, 254, 253, 252, 0xff, 0xfe]);
    let info = parse(&[header(8, 2), chunk(b"sPLT", &data), data_chunk(), trailer()]).unwrap();
    let suggested = &info.suggested_palettes[0];
    assert_eq!(suggested.name, "pal");
    assert_eq!(suggested.sample_depth, 1);
    assert_eq!(suggested.entries.len(), 2);
    assert_eq!(suggested.entries[0].red, 1);
    assert_eq!(suggested.entries[0].green, 2);
    assert_eq!(suggested.entries[0].blue, 3);
    assert_eq!(suggested.entries[0].alpha, 4);
    assert_eq!(suggested.entries[0].frequency, 256);
    assert_eq!(suggested.entries[1].red, 255);
    assert_eq!(suggested.entries[1].green, 254);
    assert_eq!(suggested.entries[1].blue, 253);
    assert_eq!(suggested.entries[1].alpha, 252);
    assert_eq!(suggested.entries[1].frequency, 0xfffe);
}

#[test]
fn a_suggested_palette_of_wide_samples_has_entries_of_ten_bytes() {
    let mut data = b"pal\0\x02".to_vec();
    data.extend_from_slice(&[0, 1, 0, 2, 0, 3, 0, 4, 0, 5]);
    data.extend_from_slice(&[0x10, 0, 0x20, 0, 0x30, 0, 0x40, 0, 0x50, 0]);
    let info = parse(&[
        header(8, 2),
        chunk(b"sPLT", &data),
        chunk(b"sPLT", b"none\0\x02"),
        palette(1),
        chunk(b"sPLT", b"more\0\x01"),
        data_chunk(),
        trailer(),
    ])
    .unwrap();
    assert_eq!(info.suggested_palettes.len(), 3);
    let suggested = &info.suggested_palettes[0];
    assert_eq!(suggested.sample_depth, 2);
    assert_eq!(suggested.entries.len(), 2);
    assert_eq!(suggested.entries[0].red, 1);
    assert_eq!(suggested.entries[0].green, 2);
    assert_eq!(suggested.entries[0].blue, 3);
    assert_eq!(suggested.entries[0].alpha, 4);
    assert_eq!(suggested.entries[0].frequency, 5);
    assert_eq!(suggested.entries[1].red, 0x1000);
    assert_eq!(suggested.entries[1].green, 0x2000);
    assert_eq!(suggested.entries[1].blue, 0x3000);
    assert_eq!(suggested.entries[1].alpha, 0x4000);
    assert_eq!(suggested.entries[1].frequency, 0x5000);
    assert_eq!(info.suggested_palettes[1].name, "none");
    assert!(info.suggested_palettes[1].entries.is_empty());
    assert_eq!(info.suggested_palettes[2].name, "more");
}

#[test]
fn a_suggested_palette_is_held_to_its_shape_and_place() {
    let cases: [(&[u8], ParserError); 9] = [
        (b"p\0", ParserError::InvalidChunkLength(chunk_ids::sPLT)),
        (b"pal\0", ParserError::InvalidChunkLength(chunk_ids::sPLT)),
        (b"pal\0\x01\x01", ParserError::InvalidChunkLength(chunk_ids::sPLT)),
        (b"pal\0\x01\x01\x02\x03\x04\x05", ParserError::InvalidChunkLength(chunk_ids::sPLT)),
        (b"pal\0\x02\x01\x02\x03\x04\x05\x06", ParserError::InvalidChunkLength(chunk_ids::sPLT)),
        (b"pal\0\x00", ParserError::InvalidFieldValue),
        (b"pal\0\x03", ParserError::InvalidFieldValue),
        (b"pal\0\x08\x01\x02\x03\x04\x05\x06", ParserError::InvalidFieldValue),
        (b"palette", ParserError::MissingNullTerminator),
    ];
    for (data, expected) in cases {
        assert_eq!(
            failure(&[header(8, 2), chunk(b"sPLT", data), data_chunk(), trailer()]),
            expected
        );
    }
    assert_eq!(
        failure(&[header(8, 2), data_chunk(), chunk(b"sPLT", b"pal\0\x01"), trailer()]),
        ParserError::InvalidChunkOrder(chunk_ids::sPLT)
    );
}

#[test]
fn a_histogram_holds_a_count_for_each_entry_of_the_palette() {
    let info = parse(&[
        header(8, 3),
        palette(3),
        chunk(b"hIST", &[0, 1, 1, 0, 0xff, 0xff]),
        data_chunk(),
        trailer(),
    ])
    .unwrap();
    assert_eq!(info.palette_histogram.unwrap().entries, vec![1, 256, 65535]);
}

#[test]
fn a_histogram_is_held_to_its_shape_and_place() {
    for length in [0usize, 2, 4, 5, 7, 8, 12] {
        assert_eq!(
            failure(&[
                header(8, 3),
                palette(3),
                chunk(b"hIST", &vec![0; length]),
                data_chunk(),
                trailer()
            ]),
            ParserError::InvalidChunkLength(chunk_ids::hIST)
        );
    }
    assert_eq!(
        failure(&[header(8, 3), chunk(b"hIST", &[0; 6]), palette(3), data_chunk(), trailer()]),
        ParserError::InvalidChunkOrder(chunk_ids::hIST)
    );
    assert_eq!(
        failure(&[header(8, 3), palette(3), data_chunk(), chunk(b"hIST", &[0; 6]), trailer()]),
        ParserError::InvalidChunkOrder(chunk_ids::hIST)
    );
    assert_eq!(
        failure(&[
            header(8, 3),
            palette(3),
            chunk(b"hIST", &[0; 6]),
            chunk(b"hIST", &[0; 6]),
            data_chunk(),
            trailer()
        ]),
        ParserError::DuplicateChunk(chunk_ids::hIST)
    );
}

#[test]
fn the_time_is_read_place_by_place_and_not_held_to_a_calendar() {
    let info = parse(&[
        header(8, 2),
        chunk(b"tIME", &[0x07, 0xe8, 2, 29, 23, 59, 60]),
        data_chunk(),
        trailer(),
    ])
    .unwrap();
    let time = info.last_modification.unwrap();
    assert_eq!(time.year, 2024);
    assert_eq!(time.month, 2);
    assert_eq!(time.day, 29);
    assert_eq!(time.hour, 23);
    assert_eq!(time.minute, 59);
    assert_eq!(time.second, 60);
    let odd = parse(&[
        header(8, 2),
        data_chunk(),
        chunk(b"tIME", &[0xff, 0xff, 13, 0, 99, 200, 255]),
        trailer(),
    ])
    .unwrap();
    let time = odd.last_modification.unwrap();
    assert_eq!(time.year, 65535);
    assert_eq!(time.month, 13);
    assert_eq!(time.day, 0);
    assert_eq!(time.hour, 99);
    assert_eq!(time.minute, 200);
    assert_eq!(time.second, 255);
}

#[test]
fn the_time_is_held_to_its_length_and_comes_once() {
    for length in [0usize, 6, 8] {
        assert_eq!(
            failure(&[header(8, 2), chunk(b"tIME", &vec![1; length]), data_chunk(), trailer()]),
            ParserError::InvalidChunkLength(chunk_ids::tIME)
        );
    }
    assert_eq!(
        failure(&[
            header(8, 2),
            chunk(b"tIME", &[1; 7]),
            data_chunk(),
            chunk(b"tIME", &[1; 7]),
            trailer()
        ]),
        ParserError::DuplicateChunk(chunk_ids::tIME)
    );
}

#[test]
fn unknown_chunks_are_kept_as_they_are() {
    let info = parse(&[
        header(8, 2),
        chunk(b"abCd", &[]),
        chunk(b"prIv", &[0, 1, 2, 255]),
        data_chunk(),
        chunk(b"\0\0\0\0", &[9]),
        chunk(b"IHDR", &[1, 2, 3]),
        chunk(b"\xff\xfe\xfd\xfc", b"IDAT"),
        trailer(),
    ])
    .unwrap();
    assert_eq!(info.unknown_chunks.len(), 5);
    assert_eq!(info.unknown_chunks[0].chunk_type, *b"abCd");
    assert!(info.unknown_chunks[0].data.is_empty());
    assert_eq!(info.unknown_chunks[1].chunk_type, *b"prIv");
    assert_eq!(info.unknown_chunks[1].data, vec![0, 1, 2, 255]);
    assert_eq!(info.unknown_chunks[2].chunk_type, [0, 0, 0, 0]);
    assert_eq!(info.unknown_chunks[2].data, vec![9]);
    assert_eq!(info.unknown_chunks[3].chunk_type, *b"IHDR");
    assert_eq!(info.unknown_chunks[3].data, vec![1, 2, 3]);
    assert_eq!(info.unknown_chunks[4].chunk_type, [0xff, 0xfe, 0xfd, 0xfc]);
    assert_eq!(info.unknown_chunks[4].data, b"IDAT".to_vec());
}

#[test]
fn unknown_chunks_never_end_the_parse_whatever_they_hold() {
    for length in [0usize, 1, 13, 100, 1000] {
        for fill in [0u8, 0x49, 0xff] {
            let data = vec![fill; length];
            let info = parse(&[
                header(8, 3),
                chunk(b"unKn", &data),
                palette(1),
                chunk(b"unKn", &data),
                data_chunk(),
                chunk(b"unKn", &data),
                trailer(),
            ])
            .unwrap();
            assert_eq!(info.unknown_chunks.len(), 3);
            for kept in &info.unknown_chunks {
                assert_eq!(kept.chunk_type, *b"unKn");
                assert_eq!(kept.data, data);
            }
        }
    }
}

#[test]
fn the_type_of_a_chunk_is_read_in_its_case() {
    let info = parse(&[
        header(8, 2),
        chunk(b"plte", &[1]),
        chunk(b"idat", &[]),
        chunk(b"iend", &[1]),
        chunk(b"TEXT", &[]),
        data_chunk(),
        trailer(),
    ])
    .unwrap();
    assert_eq!(info.unknown_chunks.len(), 4);
    assert!(info.palette.is_none());
}

#[test]
fn every_kind_of_chunk_in_one_stream() {
    let mut chromaticity = Vec::new();
    for value in 1..=8u32 {
        chromaticity.extend_from_slice(&value.to_be_bytes());
    }
    let info = parse(&[
        header(8, 3),
        chunk(b"gAMA", &[0, 1, 0x86, 0xa0]),
        chunk(b"cHRM", &chromaticity),
        chunk(b"sRGB", &[1]),
        chunk(b"iCCP", b"icc\0\0data"),
        chunk(b"sBIT", &[8, 8, 8]),
        palette(2),
        chunk(b"tRNS", &[0, 255]),
        chunk(b"bKGD", &[1]),
        chunk(b"hIST", &[0, 1, 0, 2]),
        chunk(b"pHYs", &[0, 0, 0, 1, 0, 0, 0, 1, 0]),
        chunk(b"sPLT", b"s\0\x01\x01\x02\x03\x04\x00\x05"),
        chunk(b"tIME", &[7, 0xd0, 1, 1, 0, 0, 0]),
        chunk(b"tEXt", b"k\0t"),
        chunk(b"zTXt", b"k\0\0z"),
        chunk(b"iTXt", b"k\0\0\0l\0t\0i"),
        chunk(b"xyZw", &[1]),
        chunk(b"IDAT", &[1]),
        chunk(b"IDAT", &[2]),
        chunk(b"IDAT", &[3]),
        chunk(b"tEXt", b"k2\0t2"),
        trailer(),
    ])
    .unwrap();
    assert_eq!(info.header.color_type, ColorType::IndexedColor);
    assert_eq!(info.gamma.unwrap().gamma, 100000);
    assert_eq!(info.chromaticity.unwrap().blue, (7, 8));
    assert_eq!(info.standard_rgb.unwrap().rendering_intent, RenderingIntent::RelativeColorimetric);
    assert_eq!(info.icc_profile.unwrap().compressed_profile_data, b"data".to_vec());
    assert_eq!(
        info.significant_bits.unwrap().significant_bits,
        SignificantBitsVariant::IndexedColor(8, 8, 8)
    );
    assert_eq!(info.palette.unwrap().entries.len(), 2);
    assert!(info.transparency.is_some());
    assert_eq!(info.background.unwrap().background, BackgroundVariant::IndexedColor(1));
    assert_eq!(info.palette_histogram.unwrap().entries, vec![1, 2]);
    assert_eq!(info.physical_pixel_dimension.unwrap().pixels_per_unit, (1, 1));
    assert_eq!(info.suggested_palettes[0].entries[0].frequency, 5);
    assert_eq!(info.last_modification.unwrap().year, 2000);
    assert_eq!(info.textual_data.len(), 2);
    assert_eq!(info.textual_data[1].text, "t2");
    assert_eq!(info.compressed_textual_data[0].text, vec![b'z']);
    assert_eq!(info.international_textual_data[0].text, vec![b'i']);
    assert_eq!(info.unknown_chunks[0].chunk_type, *b"xyZw");
    assert_eq!(info.compressed_data.chunk_count, 3);
    assert_eq!(info.compressed_data.data, vec![1, 2, 3]);
    assert!(info.trailer.found);
}

#[test]
fn the_first_failure_is_the_one_that_comes_out() {
    assert_eq!(
        failure(&[header(8, 2), chunk(b"gAMA", &[0]), chunk(b"sRGB", &[9]), trailer()]),
        ParserError::InvalidChunkLength(chunk_ids::gAMA)
    );
    assert_eq!(
        failure(&[header(8, 3), chunk(b"sRGB", &[9]), chunk(b"gAMA", &[0]), trailer()]),
        ParserError::InvalidFieldValue
    );
}

#[test]
fn chunk_ids_are_the_four_letters_of_the_type() {
    let ids: [(&[u8; 4], u32); 18] = [
        (b"IHDR", chunk_ids::IHDR),
        (b"PLTE", chunk_ids::PLTE),
        (b"IDAT", chunk_ids::IDAT),
        (b"IEND", chunk_ids::IEND),
        (b"tRNS", chunk_ids::tRNS),
        (b"gAMA", chunk_ids::gAMA),
        (b"cHRM", chunk_ids::cHRM),
        (b"sRGB", chunk_ids::sRGB),
        (b"iCCP", chunk_ids::iCCP),
        (b"tEXt", chunk_ids::tEXt),
        (b"zTXt", chunk_ids::zTXt),
        (b"iTXt", chunk_ids::iTXt),
        (b"bKGD", chunk_ids::bKGD),
        (b"pHYs", chunk_ids::pHYs),
        (b"sBIT", chunk_ids::sBIT),
        (b"sPLT", chunk_ids::sPLT),
        (b"hIST", chunk_ids::hIST),
        (b"tIME", chunk_ids::tIME),
    ];
    for (letters, id) in ids {
        assert_eq!(u32::from_be_bytes(*letters), id);
    }
}

#[test]
fn the_signature_is_the_one_of_the_format() {
    assert_eq!(SIGNATURE, *b"\x89PNG\r\n\x1a\n");
}

fn parts_but_unknown(info: &PngInfo) -> String {
    format!(
        "{:?} {:?} {:?} {:?} {:?} {:?} {:?} {:?} {:?} {:?} {:?} {:?} {:?} {:?} {:?} {:?} {:?} {:?}",
        info.header,
        info.palette,
        info.compressed_data,
        info.trailer,
        info.transparency,
        info.gamma,
        info.chromaticity,
        info.standard_rgb,
        info.icc_profile,
        info.textual_data,
        info.compressed_textual_data,
        info.international_textual_data,
        info.background,
        info.physical_pixel_dimension,
        info.significant_bits,
        info.suggested_palettes,
        info.palette_histogram,
        info.last_modification
    )
}

#[test]
fn an_unknown_chunk_put_into_a_stream_changes_nothing_else() {
    let chunks = vec![
        header(8, 3),
        chunk(b"gAMA", &[0, 1, 0x86, 0xa0]),
        chunk(b"onEe", &[1]),
        palette(2),
        chunk(b"tRNS", &[0, 255]),
        chunk(b"tEXt", b"k\0t"),
        chunk(b"IDAT", &[1]),
        chunk(b"IDAT", &[2]),
        chunk(b"twOo", &[2, 2]),
        chunk(b"tIME", &[7, 0xd0, 1, 1, 0, 0, 0]),
        trailer(),
    ];
    let plain = parse(&chunks).unwrap();
    let put_in = chunk(b"neWw", &[9, 9, 9]);
    // Every place between two chunks but the one within the run of data.
    for place in [1usize, 2, 3, 4, 5, 6, 8, 9, 10] {
        let mut longer = chunks.clone();
        longer.insert(place, put_in.clone());
        let info = parse(&longer).unwrap();
        assert_eq!(parts_but_unknown(&info), parts_but_unknown(&plain));
        assert_eq!(info.unknown_chunks.len(), 3);
        let at = if place <= 2 { 0 } else if place <= 8 { 1 } else { 2 };
        assert_eq!(info.unknown_chunks[at].chunk_type, *b"neWw");
        assert_eq!(info.unknown_chunks[at].data, vec![9, 9, 9]);
        let mut others: Vec<[u8; 4]> = Vec::new();
        for (i, kept) in info.unknown_chunks.iter().enumerate() {
            if i != at {
                others.push(kept.chunk_type);
            }
        }
        assert_eq!(others, vec![*b"onEe", *b"twOo"]);
    }
    let mut within = chunks.clone();
    within.insert(7, put_in);
    assert_eq!(parse(&within).unwrap_err(), ParserError::NonConsecutiveData);
}

#[test]
fn an_unknown_chunk_put_into_a_stream_that_fails_leaves_the_failure() {
    let chunks = vec![header(8, 3), chunk(b"gAMA", &[0, 1, 0x86, 0xa0]), data_chunk(), trailer()];
    assert_eq!(failure(&chunks), ParserError::MissingRequiredChunk(chunk_ids::PLTE));
    for place in [1usize, 2, 3] {
        let mut longer = chunks.clone();
        longer.insert(place, chunk(b"neWw", &[9]));
        assert_eq!(failure(&longer), ParserError::MissingRequiredChunk(chunk_ids::PLTE));
    }
}
