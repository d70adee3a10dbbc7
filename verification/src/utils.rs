use vstd::prelude::*;
use vstd::slice::slice_to_vec;
use vstd::utf8::decode_utf8;
use vstd::utf8::valid_utf8;
use crate::error::ParserError;
use crate::source::ByteCursor;

verus! {

/// The unsigned 16-bit integer that two bytes spell, highest byte first.
pub open spec fn be_u16(bytes: Seq<u8>) -> u16
    recommends
        bytes.len() == 2,
{
    (bytes[0] as int * 0x100 + bytes[1] as int) as u16
}

/// The unsigned 32-bit integer that four bytes spell, highest byte first.
pub open spec fn be_u32(bytes: Seq<u8>) -> u32
    recommends
        bytes.len() == 4,
{
    (bytes[0] as int * 0x100_0000 + bytes[1] as int * 0x1_0000 + bytes[2] as int * 0x100
        + bytes[3] as int) as u32
}

/// The four bytes that spell an unsigned 32-bit integer, highest byte first.
pub open spec fn be_bytes(value: u32) -> Seq<u8> {
    seq![
        (value / 0x100_0000) as u8,
        (value / 0x1_0000 % 0x100) as u8,
        (value / 0x100 % 0x100) as u8,
        (value % 0x100) as u8,
    ]
}

/// Four bytes read as an integer and spelled out again are the same bytes.
pub proof fn law_be_bytes_of_be_u32(bytes: Seq<u8>)
    requires
        bytes.len() == 4,
    ensures
        be_bytes(be_u32(bytes)) == bytes,
{
    let b0 = bytes[0] as int;
    let b1 = bytes[1] as int;
    let b2 = bytes[2] as int;
    let b3 = bytes[3] as int;
    let value = b0 * 0x100_0000 + b1 * 0x1_0000 + b2 * 0x100 + b3;
    assert(be_u32(bytes) == value);
    assert(value / 0x100_0000 == b0);
    assert(value / 0x1_0000 == b0 * 0x100 + b1);
    assert(value / 0x100 == b0 * 0x1_0000 + b1 * 0x100 + b2);
    assert((b0 * 0x100 + b1) % 0x100 == b1);
    assert((b0 * 0x1_0000 + b1 * 0x100 + b2) % 0x100 == b2);
    assert(value % 0x100 == b3);
    assert(be_bytes(be_u32(bytes)) =~= bytes);
}

/// An integer spelled out and read again is the same integer.
pub proof fn lemma_be_u32_of_be_bytes(value: u32)
    ensures
        be_u32(be_bytes(value)) == value,
{
}

/// The `index`-th block of `width` bytes of `bytes`.
pub open spec fn chunk_of(bytes: Seq<u8>, width: int, index: int) -> Seq<u8> {
    bytes.subrange(index * width, index * width + width)
}

/// Whether `index` is the place of the first zero byte of `bytes`.
pub open spec fn is_string_end(bytes: Seq<u8>, index: int) -> bool {
    &&& 0 <= index < bytes.len()
    &&& bytes[index] == 0
    &&& forall|j: int| 0 <= j < index ==> bytes[j] != 0
}

/// The place of the first zero byte of `bytes`, if there is one.
pub open spec fn string_end(bytes: Seq<u8>) -> Option<int> {
    if exists|index: int| is_string_end(bytes, index) {
        Some(choose|index: int| is_string_end(bytes, index))
    } else {
        None
    }
}

/// The text that a run of bytes stands for: its UTF-8 decoding, or an invalid
/// field where the bytes are not UTF-8.
pub open spec fn decoded_text(bytes: Seq<u8>) -> Result<Seq<char>, ParserError> {
    if valid_utf8(bytes) {
        Ok(decode_utf8(bytes))
    } else {
        Err(ParserError::InvalidFieldValue)
    }
}

/// The first zero-terminated string of `bytes`: the text before the first
/// zero byte.
pub open spec fn leading_string(bytes: Seq<u8>) -> Result<Seq<char>, ParserError> {
    match string_end(bytes) {
        Some(end) => decoded_text(bytes.subrange(0, end)),
        None => Err(ParserError::MissingNullTerminator),
    }
}

/// The first zero byte of a sequence is where `string_end` says it is.
pub proof fn lemma_string_end(bytes: Seq<u8>, index: int)
    requires
        is_string_end(bytes, index),
    ensures
        string_end(bytes) == Some(index),
{
    let chosen = choose|i: int| is_string_end(bytes, i);
    assert(is_string_end(bytes, chosen));
    if chosen < index {
        assert(bytes[chosen] != 0);
    }
    if index < chosen {
        assert(bytes[index] != 0);
    }
}

/// A sequence without a zero byte has no string end.
pub proof fn lemma_no_string_end(bytes: Seq<u8>)
    requires
        forall|j: int| 0 <= j < bytes.len() ==> bytes[j] != 0,
    ensures
        string_end(bytes) is None,
{
    assert forall|index: int| !is_string_end(bytes, index) by {
        if 0 <= index < bytes.len() {
            assert(bytes[index] != 0);
        }
    }
}

/// Whether `value` is something that `f` may give for a block that holds
/// `bytes`.
pub open spec fn projects<const N: usize, F, To>(f: F, bytes: Seq<u8>, value: To) -> bool where
    F: Fn(&[u8; N]) -> To,
 {
    exists|block: &[u8; N]| block@ == bytes && call_ensures(f, (block,), value)
}

/// Of a leading string that is there: its zero byte lies within the bytes,
/// its UTF-8 encoding is the bytes before the zero byte, and it is empty
/// exactly where the zero byte comes first.
pub proof fn lemma_leading_string(bytes: Seq<u8>)
    requires
        leading_string(bytes) is Ok,
    ensures
        string_end(bytes) matches Some(end) && 0 <= end < bytes.len() && bytes[end] == 0
            && valid_utf8(bytes.subrange(0, end)) && vstd::utf8::encode_utf8(
            leading_string(bytes)->Ok_0,
        ) == bytes.subrange(0, end) && (leading_string(bytes)->Ok_0.len() == 0 <==> end == 0),
{
    let end = string_end(bytes)->0;
    assert(is_string_end(bytes, end));
    let text = bytes.subrange(0, end);
    vstd::utf8::decode_utf8_encode_utf8(text);
    if decode_utf8(text).len() == 0 {
        assert(vstd::utf8::encode_utf8(decode_utf8(text)).len() == 0);
    }
}

/// Converts the provided slice of data to vector using the provided projection function.
///
/// The slice is cut into blocks of `N` bytes; bytes behind the last whole
/// block are left out. Each element of the result is what `f` gave for the
/// block at its place.
pub fn to_chunked<const N: usize, F, To>(slice: &[u8], f: F) -> (chunks: Vec<To>) where
    F: Fn(&[u8; N]) -> To,

    requires
        N > 0,
        forall|block: &[u8; N]| call_requires(f, (block,)),
    ensures
        chunks@.len() == slice@.len() / N as nat,
        forall|i: int|
            0 <= i < chunks@.len() ==> #[trigger] projects::<N, F, To>(
                f,
                chunk_of(slice@, N as int, i),
                chunks@[i],
            ),
{
    let len = slice.len();
    let count = len / N;
    let mut chunks: Vec<To> = Vec::new();
    let mut i: usize = 0;
    let mut start: usize = 0;
    assert(count * N <= len) by (nonlinear_arith)
        requires
            count == len / N,
            N > 0,
    ;
    while i < count
        invariant
            N > 0,
            i <= count,
            start == i * N,
            len == slice@.len(),
            count * N <= len,
            chunks@.len() == i,
            forall|block: &[u8; N]| call_requires(f, (block,)),
            forall|k: int|
                0 <= k < i ==> #[trigger] projects::<N, F, To>(
                    f,
                    chunk_of(slice@, N as int, k),
                    chunks@[k],
                ),
        decreases count - i,
    {
        assert(start + N <= count * N) by (nonlinear_arith)
            requires
                start == i * N,
                i < count,
                N > 0,
        ;
        assert((i + 1) * N == start + N) by (nonlinear_arith)
            requires
                start == i * N,
        ;
        let mut block = [0u8; N];
        let mut j: usize = 0;
        while j < N
            invariant
                j <= N,
                start + N <= len,
                len == slice@.len(),
                forall|k: int| 0 <= k < j ==> block@[k] == slice@[start + k],
            decreases N - j,
        {
            block[j] = slice[start + j];
            j += 1;
        }
        assert(block@ =~= chunk_of(slice@, N as int, i as int));
        let value = f(&block);
        let ghost before = chunks@;
        chunks.push(value);
        assert forall|k: int| 0 <= k < i + 1 implies #[trigger] projects::<N, F, To>(
            f,
            chunk_of(slice@, N as int, k),
            chunks@[k],
        ) by {
            if k < i {
                assert(chunks@[k] == before[k]);
                assert(projects::<N, F, To>(f, chunk_of(slice@, N as int, k), before[k]));
            } else {
                assert(call_ensures(f, (&block,), chunks@[k]));
            }
        }
        i += 1;
        start += N;
    }
    chunks
}

/// Converts the provided slice of data to unsigned 16-bit integer.
pub fn to_u16(slice: &[u8]) -> (value: u16)
    requires
        slice@.len() == 2,
    ensures
        value == be_u16(slice@),
{
    (slice[0] as u16) * 0x100 + slice[1] as u16
}

/// Converts the provided slice of data to unsigned 32-bit integer.
pub fn to_u32(slice: &[u8]) -> (value: u32)
    requires
        slice@.len() == 4,
    ensures
        value == be_u32(slice@),
{
    (slice[0] as u32) * 0x100_0000 + (slice[1] as u32) * 0x1_0000 + (slice[2] as u32) * 0x100
        + slice[3] as u32
}

/// Converts the provided unsigned 32-bit integer to its four bytes, highest
/// byte first.
pub fn to_be_bytes(value: u32) -> (bytes: [u8; 4])
    ensures
        bytes@ == be_bytes(value),
{
    let bytes = [
        (value / 0x100_0000) as u8,
        (value / 0x1_0000 % 0x100) as u8,
        (value / 0x100 % 0x100) as u8,
        (value % 0x100) as u8,
    ];
    assert(bytes@ =~= be_bytes(value));
    bytes
}

/// `String::from_utf8` of the standard library: it gives a string exactly for
/// the byte vectors that are UTF-8, and the string then holds the characters
/// that the bytes encode.
#[verifier::external_body]
fn string_from_utf8(bytes: Vec<u8>) -> (text: Option<String>)
    ensures
        text is Some <==> valid_utf8(bytes@),
        text matches Some(s) ==> s@ == decode_utf8(bytes@),
{
    match String::from_utf8(bytes) {
        Ok(s) => Some(s),
        Err(_) => None,
    }
}

/// Converts the provided slice of data to a owned string. The bytes have to
/// be UTF-8.
pub fn to_string(slice: &[u8]) -> (text: String)
    requires
        valid_utf8(slice@),
    ensures
        text@ == decode_utf8(slice@),
{
    string_from_utf8(slice_to_vec(slice)).unwrap()
}

/// Converts the provided slice of data to a owned string, or reports an
/// invalid field where the bytes are not UTF-8.
pub fn decode_string(slice: &[u8]) -> (r: Result<String, ParserError>)
    ensures
        match decoded_text(slice@) {
            Ok(chars) => r matches Ok(text) && text@ == chars,
            Err(e) => r matches Err(err) && err == e,
        },
{
    match string_from_utf8(slice_to_vec(slice)) {
        Some(text) => Ok(text),
        None => Err(ParserError::InvalidFieldValue),
    }
}

/// The place of the first zero byte of the slice.
pub fn find_string_end(slice: &[u8]) -> (end: Option<usize>)
    ensures
        match end {
            Some(index) => string_end(slice@) == Some(index as int) && index < slice@.len(),
            None => string_end(slice@) is None,
        },
{
    let mut i: usize = 0;
    while i < slice.len()
        invariant
            i <= slice@.len(),
            forall|j: int| 0 <= j < i ==> slice@[j] != 0,
        decreases slice@.len() - i,
    {
        if slice[i] == 0 {
            proof {
                lemma_string_end(slice@, i as int);
            }
            return Some(i);
        }
        i += 1;
    }
    proof {
        lemma_no_string_end(slice@);
    }
    None
}

/// Tries to get first null-terminated string out of the provided slice of data.
pub fn get_string(slice: &[u8]) -> (r: Result<String, ParserError>)
    ensures
        match leading_string(slice@) {
            Ok(chars) => r matches Ok(text) && text@ == chars,
            Err(e) => r matches Err(err) && err == e,
        },
{
    let terminator = match find_string_end(slice) {
        Some(index) => index,
        None => {
            return Err(ParserError::MissingNullTerminator);
        },
    };

    decode_string(&slice[0..terminator])
}

/// Checks whether the provided string has a length that the PNG format allows for a keyword or
/// name: 1 to 79 bytes.
pub fn validate_string(s: &str) -> (r: Result<(), ParserError>)
    ensures
        r is Ok <==> s@.len() != 0 && s.len() <= 79,
        r is Err ==> r == Err::<(), ParserError>(ParserError::InvalidStringLength),
{
    if s.is_empty() || s.len() > 79 {
        return Err(ParserError::InvalidStringLength);
    }
    Ok(())
}

/// Reads next 4 bytes from the provided source and converts it to an unsigned 32-bit integer.
pub fn read_u32(source: &mut ByteCursor) -> (r: Result<u32, ParserError>)
    ensures
        old(source)@.wf(),
        final(source)@.wf(),
        old(source)@.can_read(4) ==> r == Ok::<u32, ParserError>(be_u32(old(source)@.peek(4)))
            && final(source)@ == old(source)@.advance(4),
        !old(source)@.can_read(4) ==> r == Err::<u32, ParserError>(
            ParserError::IOError(crate::error::IoFailure::UnexpectedEof),
        ) && final(source)@ == old(source)@,
{
    let mut buffer = [0u8; 4];
    match source.read_exact(&mut buffer) {
        Ok(()) => Ok(to_u32(&buffer)),
        Err(e) => Err(ParserError::IOError(e)),
    }
}

/// Reads next n bytes from the provided source into the provided buffer.
pub fn read_to<'a>(source: &mut ByteCursor, buffer: &'a mut [u8]) -> (r: Result<
    &'a [u8],
    ParserError,
>)
    ensures
        old(source)@.wf(),
        final(source)@.wf(),
        old(source)@.can_read(old(buffer)@.len()) ==> final(buffer)@ == old(source)@.peek(
            old(buffer)@.len(),
        ) && (r matches Ok(filled) && filled@ == final(buffer)@) && final(source)@ == old(
            source,
        )@.advance(old(buffer)@.len()),
        !old(source)@.can_read(old(buffer)@.len()) ==> r == Err::<&[u8], ParserError>(
            ParserError::IOError(crate::error::IoFailure::UnexpectedEof),
        ) && final(buffer)@ == old(buffer)@ && final(source)@ == old(source)@,
{
    match source.read_exact(buffer) {
        Ok(()) => Ok(buffer),
        Err(e) => Err(ParserError::IOError(e)),
    }
}

/// Reads next n bytes from the provided source and returns a vector of bytes.
/// Nothing is allocated where the source holds fewer than `size` bytes.
pub fn read_bytes(source: &mut ByteCursor, size: usize) -> (r: Result<Vec<u8>, ParserError>)
    ensures
        old(source)@.wf(),
        final(source)@.wf(),
        old(source)@.can_read(size as nat) ==> (r matches Ok(bytes) && bytes@ == old(
            source,
        )@.peek(size as nat)) && final(source)@ == old(source)@.advance(size as nat),
        !old(source)@.can_read(size as nat) ==> (r matches Err(e) && e == ParserError::IOError(
            crate::error::IoFailure::UnexpectedEof,
        )) && final(source)@ == old(source)@,
{
    if source.remaining() < size {
        return Err(ParserError::IOError(crate::error::IoFailure::UnexpectedEof));
    }
    let mut bytes = vec![0u8; size];
    match source.read_exact(bytes.as_mut_slice()) {
        Ok(()) => Ok(bytes),
        Err(e) => Err(ParserError::IOError(e)),
    }
}

/// Seeks the position of the provided source.
pub fn seek(source: &mut ByteCursor, pos: i64) -> (r: Result<(), ParserError>)
    ensures
        old(source)@.wf(),
        final(source)@.wf(),
        0 <= old(source)@.pos + pos <= old(source)@.bytes.len() ==> r is Ok && final(source)@
            == old(source)@.moved(pos as int),
        !(0 <= old(source)@.pos + pos <= old(source)@.bytes.len()) ==> r == Err::<
            (),
            ParserError,
        >(ParserError::IOError(crate::error::IoFailure::InvalidSeek)) && final(source)@ == old(
            source,
        )@,
{
    match source.seek(pos) {
        Ok(()) => Ok(()),
        Err(e) => Err(ParserError::IOError(e)),
    }
}

} // verus!
