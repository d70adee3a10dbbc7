use vstd::prelude::*;
use crate::spec::ChunkId;

verus! {

/// The ways in which the byte source can fail a read or a seek.
#[derive(Debug, Clone, Copy, PartialEq, Eq, Structural)]
pub enum IoFailure {
    /// The source ended before the read was complete.
    UnexpectedEof,
    /// The seek would have moved to a position that cannot be represented.
    InvalidSeek,
}

/// Represents the errors related to the parser.
///
/// A variant that names a chunk carries its four type bytes as a big-endian
/// integer; turning them into text is left to whoever shows the error.
#[derive(Debug, Clone, Copy, PartialEq, Eq, Structural)]
pub enum ParserError {
    /// The byte source failed.
    IOError(IoFailure),
    /// The first eight bytes are not the PNG signature.
    InvalidSignature,
    /// The payload size of the chunk breaks the size rule of its type.
    InvalidChunkLength(ChunkId),
    /// The chunk stands on the wrong side of the palette or of the image data.
    InvalidChunkOrder(ChunkId),
    /// A chunk that may occur only once occurs again.
    DuplicateChunk(ChunkId),
    /// A chunk that has to be there is absent.
    MissingRequiredChunk(ChunkId),
    /// A field holds a value outside its legal set; a string field that is
    /// not UTF-8 counts as such a value.
    InvalidFieldValue,
    /// Image data occurs again after the run of data chunks has ended.
    NonConsecutiveData,
    /// A string field has no terminating zero byte.
    MissingNullTerminator,
    /// A keyword or name is empty or longer than 79 bytes.
    InvalidStringLength,
}

} // verus!
