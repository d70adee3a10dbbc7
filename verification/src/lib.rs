//! A reader for the chunks of PNG streams, with its behaviour stated and
//! proved.
//!
//! [`parser::Parser::parse`] takes the bytes of a stream and gives the image
//! description that they hold, or the first failure. It checks the
//! signature, reads the header, takes chunk after chunk up to the trailer,
//! and joins the image data; it neither decompresses the data nor holds the
//! checksums against the chunks.
//!
//! What the parser gives for each stream is defined in [`model`] by
//! functions on sequences of bytes, and the parser is proved to follow them.
//! [`laws`] holds what follows from the model for whole families of streams.
//! [`spec`] holds the image description and its parts, [`source`] the byte
//! source, [`utils`] the decoders of numbers and strings, and [`crc32`] the
//! checksum of the format.

pub mod crc32;
pub mod error;
pub mod laws;
pub mod model;
pub mod parser;
pub mod png;
pub mod source;
pub mod spec;
pub mod utils;
