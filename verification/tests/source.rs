use png_rs::error::IoFailure;
use png_rs::source::ByteCursor;

#[test]
fn a_new_source_stands_before_the_first_byte() {
    let data = [1, 2, 3];
    let source = ByteCursor::new(&data);
    assert_eq!(source.position(), 0);
    assert_eq!(source.remaining(), 3);
    let empty = ByteCursor::new(&[]);
    assert_eq!(empty.position(), 0);
    assert_eq!(empty.remaining(), 0);
}

#[test]
fn read_exact_fills_the_buffer_and_moves_on() {
    let data = [10, 20, 30, 40, 50];
    let mut source = ByteCursor::new(&data);
    let mut two = [0u8; 2];
    assert_eq!(source.read_exact(&mut two), Ok(()));
    assert_eq!(two, [10, 20]);
    assert_eq!(source.position(), 2);
    assert_eq!(source.remaining(), 3);
    let mut three = [0u8; 3];
    assert_eq!(source.read_exact(&mut three), Ok(()));
    assert_eq!(three, [30, 40, 50]);
    assert_eq!(source.remaining(), 0);
}

#[test]
fn read_exact_beyond_the_end_reads_nothing() {
    let data = [10, 20, 30];
    let mut source = ByteCursor::new(&data);
    let mut four = [7u8; 4];
    assert_eq!(source.read_exact(&mut four), Err(IoFailure::UnexpectedEof));
    assert_eq!(four, [7, 7, 7, 7]);
    assert_eq!(source.position(), 0);
    let mut three = [0u8; 3];
    assert_eq!(source.read_exact(&mut three), Ok(()));
    let mut one = [7u8; 1];
    assert_eq!(source.read_exact(&mut one), Err(IoFailure::UnexpectedEof));
    assert_eq!(source.position(), 3);
    let mut none = [0u8; 0];
    assert_eq!(source.read_exact(&mut none), Ok(()));
}

#[test]
fn seek_moves_both_ways_within_the_bytes() {
    let data = [0u8; 10];
    let mut source = ByteCursor::new(&data);
    assert_eq!(source.seek(10), Ok(()));
    assert_eq!(source.position(), 10);
    assert_eq!(source.seek(1), Err(IoFailure::InvalidSeek));
    assert_eq!(source.position(), 10);
    assert_eq!(source.seek(-3), Ok(()));
    assert_eq!(source.position(), 7);
    assert_eq!(source.seek(-8), Err(IoFailure::InvalidSeek));
    assert_eq!(source.position(), 7);
    assert_eq!(source.seek(-7), Ok(()));
    assert_eq!(source.position(), 0);
    assert_eq!(source.seek(-1), Err(IoFailure::InvalidSeek));
    assert_eq!(source.seek(0), Ok(()));
    assert_eq!(source.position(), 0);
}
