use png_rs::crc32::compute;
use png_rs::crc32::make_table;
use png_rs::crc32::RESIDUE;

#[test]
fn test_crc32_known_value() {
    let data = b"123456789";
    assert_eq!(compute(data), 0xcbf43926);
}

#[test]
fn crc32_of_nothing_is_zero() {
    assert_eq!(compute(&[]), 0);
}

#[test]
fn crc32_of_the_trailer_type() {
    assert_eq!(compute(b"IEND"), 0xae426082);
}

#[test]
fn crc32_table_entries() {
    let table = make_table();
    assert_eq!(table[0], 0);
    assert_eq!(table[1], 0x77073096);
    assert_eq!(table[255], 0x2d02ef8d);
}

#[test]
fn crc32_of_four_zero_bytes_is_the_residue() {
    assert_eq!(RESIDUE, 0x2144df1c);
    assert_eq!(compute(&[0, 0, 0, 0]), RESIDUE);
}

#[test]
fn crc32_of_data_with_their_own_checksum_is_the_residue() {
    let samples: [&[u8]; 5] = [b"", b"a", b"123456789", b"IEND", &[0xff; 300]];
    for sample in samples {
        let mut data = sample.to_vec();
        data.extend_from_slice(&compute(sample).to_le_bytes());
        assert_eq!(compute(&data), RESIDUE);
    }
}

#[test]
fn crc32_goes_on_where_it_stood() {
    assert_eq!(compute(b"abc"), 0x352441c2);
    assert_eq!(compute(b"The quick brown fox jumps over the lazy dog"), 0x414fa339);
}
