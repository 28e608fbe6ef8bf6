//! Decoding of an encrypted, DCX-framed, deflate-compressed data container.
use vstd::prelude::*;

pub mod dcx;
pub mod regulation;

verus! {

/// The result of a decode, as a value: the payload, or the kind of failure.
pub enum Outcome {
    /// The decoded payload.
    Payload(Seq<u8>),
    /// The input is too short to hold an IV and one cipher block.
    MalformedInput,
    /// The ciphertext is not a positive multiple of the block size.
    DecryptInputTooShort,
    /// The input ended before a full container header.
    Io,
    /// One of the header's magic fields does not match.
    MalformedMetadata,
    /// The algorithm tag names no known codec; it carries the tag.
    UnsupportedCodec(Seq<u8>),
    /// The compressed body is corrupt or incomplete.
    Decompression,
}

} // verus!
