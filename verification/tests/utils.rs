use png_rs::error::IoFailure;
use png_rs::error::ParserError;
use png_rs::source::ByteCursor;
use png_rs::utils::decode_string;
use png_rs::utils::find_string_end;
use png_rs::utils::get_string;
use png_rs::utils::read_bytes;
use png_rs::utils::read_to;
use png_rs::utils::read_u32;
use png_rs::utils::seek;
use png_rs::utils::to_be_bytes;
use png_rs::utils::to_chunked;
use png_rs::utils::to_string;
use png_rs::utils::to_u16;
use png_rs::utils::to_u32;
use png_rs::utils::validate_string;

#[test]
fn to_u16_reads_the_high_byte_first() {
    assert_eq!(to_u16(&[0x12, 0x34]), 0x1234);
    assert_eq!(to_u16(&[0, 0]), 0);
    assert_eq!(to_u16(&[0, 1]), 1);
    assert_eq!(to_u16(&[1, 0]), 256);
    assert_eq!(to_u16(&[0xff, 0xff]), 65535);
}

#[test]
fn to_u32_reads_the_high_byte_first() {
    assert_eq!(to_u32(&[0x12, 0x34, 0x56, 0x78]), 0x12345678);
    assert_eq!(to_u32(&[0, 0, 0, 0]), 0);
    assert_eq!(to_u32(&[0, 0, 0, 13]), 13);
    assert_eq!(to_u32(&[1, 0, 0, 0]), 16777216);
    assert_eq!(to_u32(&[0xff, 0xff, 0xff, 0xff]), u32::MAX);
    assert_eq!(to_u32(b"IHDR"), 0x49484452);
}

#[test]
fn to_u32_agrees_with_the_standard_library() {
    for value in [0u32, 1, 255, 256, 65535, 65536, 0x00ff00ff, 0x80000000, u32::MAX] {
        assert_eq!(to_u32(&value.to_be_bytes()), value);
        assert_eq!(to_be_bytes(value), value.to_be_bytes());
    }
}

#[test]
fn to_be_bytes_spells_the_high_byte_first() {
    assert_eq!(to_be_bytes(0x12345678), [0x12, 0x34, 0x56, 0x78]);
    assert_eq!(to_be_bytes(0x49454e44), *b"IEND");
    assert_eq!(to_be_bytes(0), [0, 0, 0, 0]);
    assert_eq!(to_be_bytes(u32::MAX), [255, 255, 255, 255]);
}

#[test]
fn to_string_decodes_utf8() {
    assert_eq!(to_string(b"abc"), "abc");
    assert_eq!(to_string(b""), "");
    assert_eq!(to_string(&[0xc3, 0xa9]), "\u{e9}");
    assert_eq!(to_string("gr\u{fc}\u{df}e \u{1f600}".as_bytes()), "gr\u{fc}\u{df}e \u{1f600}");
    assert_eq!(to_string(b"a\0b"), "a\0b");
}

#[test]
fn decode_string_decodes_utf8_and_refuses_the_rest() {
    assert_eq!(decode_string(b"Title").unwrap(), "Title");
    assert_eq!(decode_string(b"").unwrap(), "");
    assert_eq!(decode_string(&[0xe2, 0x82, 0xac]).unwrap(), "\u{20ac}");
    for bytes in [&[0xffu8][..], &[0xc3], &[0xc3, 0x28], &[b'a', 0x80], &[0xed, 0xa0, 0x80]] {
        assert_eq!(decode_string(bytes).unwrap_err(), ParserError::InvalidFieldValue);
    }
}

#[test]
fn find_string_end_gives_the_first_zero_byte() {
    assert_eq!(find_string_end(b"abc\0def"), Some(3));
    assert_eq!(find_string_end(b"\0"), Some(0));
    assert_eq!(find_string_end(b"\0\0"), Some(0));
    assert_eq!(find_string_end(b"a\0b\0"), Some(1));
    assert_eq!(find_string_end(b"abc"), None);
    assert_eq!(find_string_end(b""), None);
}

#[test]
fn get_string_gives_the_text_before_the_first_zero_byte() {
    assert_eq!(get_string(b"Title\0rest").unwrap(), "Title");
    assert_eq!(get_string(b"\0rest").unwrap(), "");
    assert_eq!(get_string(b"a\0b\0c").unwrap(), "a");
    assert_eq!(get_string(&[0xc3, 0xa9, 0, 0xff]).unwrap(), "\u{e9}");
}

#[test]
fn get_string_without_zero_byte_is_missing_its_end() {
    assert_eq!(get_string(b"Title").unwrap_err(), ParserError::MissingNullTerminator);
    assert_eq!(get_string(b"").unwrap_err(), ParserError::MissingNullTerminator);
    assert_eq!(get_string(&[0xff, 0xff]).unwrap_err(), ParserError::MissingNullTerminator);
}

#[test]
fn get_string_of_bytes_that_are_not_text_is_an_invalid_field() {
    assert_eq!(get_string(&[0xff, 0]).unwrap_err(), ParserError::InvalidFieldValue);
    assert_eq!(get_string(&[b'a', 0xc3, 0, b'b']).unwrap_err(), ParserError::InvalidFieldValue);
}

#[test]
fn validate_string_takes_one_to_seventy_nine_bytes() {
    assert_eq!(validate_string("").unwrap_err(), ParserError::InvalidStringLength);
    assert!(validate_string("a").is_ok());
    assert!(validate_string(&"a".repeat(79)).is_ok());
    assert_eq!(validate_string(&"a".repeat(80)).unwrap_err(), ParserError::InvalidStringLength);
    assert_eq!(validate_string(&"a".repeat(1000)).unwrap_err(), ParserError::InvalidStringLength);
}

#[test]
fn validate_string_counts_bytes_and_not_characters() {
    assert!(validate_string(&"\u{e9}".repeat(39)).is_ok());
    assert_eq!(
        validate_string(&"\u{e9}".repeat(40)).unwrap_err(),
        ParserError::InvalidStringLength
    );
}

#[test]
fn to_chunked_cuts_whole_blocks_and_leaves_the_rest() {
    let sums = to_chunked::<2, _, _>(&[1, 2, 3, 4, 5], |c: &[u8; 2]| c[0] as u16 + c[1] as u16);
    assert_eq!(sums, vec![3, 7]);
    let triples = to_chunked::<3, _, _>(&[1, 2, 3, 4, 5, 6], |c: &[u8; 3]| (c[0], c[1], c[2]));
    assert_eq!(triples, vec![(1, 2, 3), (4, 5, 6)]);
    let blocks = to_chunked::<4, _, _>(&[1, 2, 3], |c: &[u8; 4]| *c);
    assert!(blocks.is_empty());
    let none = to_chunked::<1, _, _>(&[], |c: &[u8; 1]| c[0]);
    assert!(none.is_empty());
    let each = to_chunked::<1, _, _>(&[7, 8, 9], |c: &[u8; 1]| c[0]);
    assert_eq!(each, vec![7, 8, 9]);
}

#[test]
fn to_chunked_hands_each_block_in_order() {
    let data: Vec<u8> = (0..100).collect();
    let blocks = to_chunked::<10, _, _>(&data, |c: &[u8; 10]| c.to_vec());
    assert_eq!(blocks.len(), 10);
    for (i, block) in blocks.iter().enumerate() {
        let expected: Vec<u8> = (i as u8 * 10..i as u8 * 10 + 10).collect();
        assert_eq!(*block, expected);
    }
}

#[test]
fn read_u32_reads_four_bytes_and_passes_them() {
    let data = [0, 0, 0, 13, 0x49, 0x48, 0x44, 0x52, 9];
    let mut source = ByteCursor::new(&data);
    assert_eq!(read_u32(&mut source).unwrap(), 13);
    assert_eq!(source.position(), 4);
    assert_eq!(read_u32(&mut source).unwrap(), 0x49484452);
    assert_eq!(source.position(), 8);
    assert_eq!(
        read_u32(&mut source).unwrap_err(),
        ParserError::IOError(IoFailure::UnexpectedEof)
    );
    assert_eq!(source.position(), 8);
    assert_eq!(source.remaining(), 1);
}

#[test]
fn read_to_fills_the_buffer() {
    let data = [1, 2, 3, 4, 5];
    let mut source = ByteCursor::new(&data);
    let mut buffer = [0u8; 3];
    assert_eq!(read_to(&mut source, &mut buffer).unwrap(), &[1, 2, 3]);
    assert_eq!(buffer, [1, 2, 3]);
    assert_eq!(source.position(), 3);
    let mut buffer = [9u8; 3];
    assert_eq!(
        read_to(&mut source, &mut buffer).unwrap_err(),
        ParserError::IOError(IoFailure::UnexpectedEof)
    );
    assert_eq!(buffer, [9, 9, 9]);
    assert_eq!(source.position(), 3);
    let mut buffer = [0u8; 2];
    assert_eq!(read_to(&mut source, &mut buffer).unwrap(), &[4, 5]);
    let mut nothing = [0u8; 0];
    assert!(read_to(&mut source, &mut nothing).is_ok());
}

#[test]
fn read_bytes_gives_the_next_bytes() {
    let data = [1, 2, 3, 4, 5];
    let mut source = ByteCursor::new(&data);
    assert_eq!(read_bytes(&mut source, 2).unwrap(), vec![1, 2]);
    assert_eq!(read_bytes(&mut source, 0).unwrap(), Vec::<u8>::new());
    assert_eq!(
        read_bytes(&mut source, 4).unwrap_err(),
        ParserError::IOError(IoFailure::UnexpectedEof)
    );
    assert_eq!(source.position(), 2);
    assert_eq!(read_bytes(&mut source, 3).unwrap(), vec![3, 4, 5]);
    assert_eq!(source.remaining(), 0);
    assert_eq!(read_bytes(&mut source, 0).unwrap(), Vec::<u8>::new());
}

#[test]
fn read_bytes_of_a_size_beyond_the_source_allocates_nothing() {
    let data = [1, 2, 3];
    let mut source = ByteCursor::new(&data);
    assert_eq!(
        read_bytes(&mut source, usize::MAX).unwrap_err(),
        ParserError::IOError(IoFailure::UnexpectedEof)
    );
    assert_eq!(source.position(), 0);
}

#[test]
fn seek_moves_within_the_source() {
    let data = [1, 2, 3, 4, 5, 6, 7, 8];
    let mut source = ByteCursor::new(&data);
    assert!(seek(&mut source, 8).is_ok());
    assert_eq!(source.position(), 8);
    assert!(seek(&mut source, -8).is_ok());
    assert_eq!(source.position(), 0);
    assert!(seek(&mut source, 5).is_ok());
    assert!(seek(&mut source, -4).is_ok());
    assert_eq!(source.position(), 1);
    assert_eq!(read_bytes(&mut source, 2).unwrap(), vec![2, 3]);
    assert!(seek(&mut source, 0).is_ok());
    assert_eq!(source.position(), 3);
}

#[test]
fn seek_out_of_the_source_is_refused() {
    let data = [1, 2, 3];
    let mut source = ByteCursor::new(&data);
    assert_eq!(seek(&mut source, -1).unwrap_err(), ParserError::IOError(IoFailure::InvalidSeek));
    assert_eq!(seek(&mut source, 4).unwrap_err(), ParserError::IOError(IoFailure::InvalidSeek));
    assert_eq!(
        seek(&mut source, i64::MIN).unwrap_err(),
        ParserError::IOError(IoFailure::InvalidSeek)
    );
    assert_eq!(
        seek(&mut source, i64::MAX).unwrap_err(),
        ParserError::IOError(IoFailure::InvalidSeek)
    );
    assert_eq!(source.position(), 0);
    assert!(seek(&mut source, 2).is_ok());
    assert_eq!(seek(&mut source, -3).unwrap_err(), ParserError::IOError(IoFailure::InvalidSeek));
    assert_eq!(seek(&mut source, 2).unwrap_err(), ParserError::IOError(IoFailure::InvalidSeek));
    assert_eq!(source.position(), 2);
}
