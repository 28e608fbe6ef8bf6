//! The DCX container: a fixed big-endian header followed by a compressed body.
use std::collections::VecDeque;

use flate2::read::ZlibDecoder;
use vstd::prelude::*;
use vstd::slice::{slice_subrange, slice_to_vec};

use crate::Outcome;

verus! {

/// Length in bytes of the fixed container header.
pub const HEADER_LEN: usize = 76;

/// Offset of the container magic `DCX\0`.
pub const DCX_MAGIC_AT: usize = 0;

/// Offset of the compressed-section magic `DCS\0`.
pub const DCS_MAGIC_AT: usize = 24;

/// Offset of the declared decompressed size (big-endian).
pub const SIZE_AT: usize = 32;

/// Offset of the descriptor magic `DCP\0`.
pub const DCP_MAGIC_AT: usize = 36;

/// Offset of the algorithm tag.
pub const ALGORITHM_AT: usize = 40;

/// Offset of the auxiliary-section magic `DCA\0`.
pub const DCA_MAGIC_AT: usize = 68;

/// The four bytes `a b c d` as a sequence.
pub open spec fn tag(a: u8, b: u8, c: u8, d: u8) -> Seq<u8> {
    seq![a, b, c, d]
}

/// The four bytes of `b` starting at `at`.
pub open spec fn field(b: Seq<u8>, at: int) -> Seq<u8> {
    b.subrange(at, at + 4)
}

/// The big-endian unsigned integer held in the four bytes of `b` at `at`.
pub open spec fn be_u32(b: Seq<u8>, at: int) -> int {
    b[at] * 0x100_0000 + b[at + 1] * 0x1_0000 + b[at + 2] * 0x100 + b[at + 3]
}

/// Whether the four magic fields of the header in `b` hold their expected values:
/// `DCX\0`, `DCP\0`, `DCS\0` and `DCA\0` in ASCII.
pub open spec fn magics_ok(b: Seq<u8>) -> bool {
    &&& field(b, DCX_MAGIC_AT as int) == tag(0x44, 0x43, 0x58, 0)
    &&& field(b, DCP_MAGIC_AT as int) == tag(0x44, 0x43, 0x50, 0)
    &&& field(b, DCS_MAGIC_AT as int) == tag(0x44, 0x43, 0x53, 0)
    &&& field(b, DCA_MAGIC_AT as int) == tag(0x44, 0x43, 0x41, 0)
}

/// The algorithm tag of the header in `b`.
pub open spec fn algorithm(b: Seq<u8>) -> Seq<u8> {
    field(b, ALGORITHM_AT as int)
}

/// The tag that selects the deflate (zlib) codec: `DFLT` in ASCII.
pub open spec fn deflate_tag() -> Seq<u8> {
    tag(0x44, 0x46, 0x4c, 0x54)
}

/// Reads the big-endian `u32` at `at`.
fn read_be_u32(b: &[u8], at: usize) -> (r: u32)
    requires
        at + 4 <= b@.len(),
    ensures
        r == be_u32(b@, at as int),
{
    (b[at] as u32) * 0x100_0000 + (b[at + 1] as u32) * 0x1_0000 + (b[at + 2] as u32) * 0x100
        + (b[at + 3] as u32)
}

/// Whether the four bytes of `b` at `at` are `t0 t1 t2 t3`.
fn has_tag(b: &[u8], at: usize, t0: u8, t1: u8, t2: u8, t3: u8) -> (r: bool)
    requires
        at + 4 <= b@.len(),
    ensures
        r == (field(b@, at as int) == tag(t0, t1, t2, t3)),
{
    let r = b[at] == t0 && b[at + 1] == t1 && b[at + 2] == t2 && b[at + 3] == t3;
    if r {
        assert(field(b@, at as int) =~= tag(t0, t1, t2, t3));
    } else {
        assert(field(b@, at as int) != tag(t0, t1, t2, t3)) by {
            if field(b@, at as int) == tag(t0, t1, t2, t3) {
                assert(field(b@, at as int)[0] == b@[at as int]);
                assert(field(b@, at as int)[1] == b@[at + 1]);
                assert(field(b@, at as int)[2] == b@[at + 2]);
                assert(field(b@, at as int)[3] == b@[at + 3]);
            }
        }
    }
    r
}

/// Errors of the container stage.
#[derive(Debug, Clone, Copy, PartialEq, Eq)]
pub enum DCXError {
    /// One of the header's magic fields does not match.
    MalformedMetadata,
    /// The algorithm tag names no known codec; it carries the tag.
    UnsupportedCodec([u8; 4]),
    /// The compressed body is corrupt or incomplete.
    Decompression,
    /// The input ended before a full header could be read.
    IO,
}

impl DCXError {
    /// The outcome that this error stands for.
    pub open spec fn outcome(self) -> Outcome {
        match self {
            DCXError::MalformedMetadata => Outcome::MalformedMetadata,
            DCXError::UnsupportedCodec(t) => Outcome::UnsupportedCodec(t@),
            DCXError::Decompression => Outcome::Decompression,
            DCXError::IO => Outcome::Io,
        }
    }
}

/// Why the header in `b` is refused, or `None` where it is accepted.
/// The magic fields are checked before the algorithm tag.
pub open spec fn header_fault(b: Seq<u8>) -> Option<Outcome> {
    if b.len() < HEADER_LEN {
        Some(Outcome::Io)
    } else if !magics_ok(b) {
        Some(Outcome::MalformedMetadata)
    } else if algorithm(b) != deflate_tag() {
        Some(Outcome::UnsupportedCodec(algorithm(b)))
    } else {
        None
    }
}

/// The compressed body of the container in `b`.
pub open spec fn body(b: Seq<u8>) -> Seq<u8> {
    b.subrange(HEADER_LEN as int, b.len() as int)
}

/// The outcome of decoding the (decrypted) container `b` to its end.
pub open spec fn container_outcome(b: Seq<u8>) -> Outcome {
    match header_fault(b) {
        Some(o) => o,
        None => match inflated(body(b)) {
            Some(p) => Outcome::Payload(p),
            None => Outcome::Decompression,
        },
    }
}

/// What a zlib decoder reading the bytes `b` yields up to the end of its stream,
/// or `None` where the stream is corrupt or incomplete.
pub uninterp spec fn inflated(b: Seq<u8>) -> Option<Seq<u8>>;

/// What the zlib decoder `d` has still to yield up to the end of its stream,
/// or `None` where reading on fails.
pub uninterp spec fn inflate_rest(d: ZlibDecoder<VecDeque<u8>>) -> Option<Seq<u8>>;

#[verifier::external_type_specification]
#[verifier::external_body]
#[verifier::reject_recursive_types(R)]
pub struct ExZlibDecoder<R>(ZlibDecoder<R>);

/// Relies on flate2's `ZlibDecoder::new`: a decoder over `body`, positioned at
/// its first byte.
#[verifier::external_body]
fn zlib_decoder(body: Vec<u8>) -> (d: ZlibDecoder<VecDeque<u8>>)
    ensures
        inflate_rest(d) == inflated(body@),
{
    ZlibDecoder::new(VecDeque::from(body))
}

/// Relies on `Read::read` of flate2's `ZlibDecoder`: it fills the front of
/// `buf` with the next decoded bytes and returns their count; a count of zero
/// into a non-empty buffer marks the end of the stream; an error comes only
/// from a corrupt or incomplete stream.
#[verifier::external_body]
fn zlib_read(d: &mut ZlibDecoder<VecDeque<u8>>, buf: &mut [u8]) -> (r: Option<usize>)
    ensures
        final(buf)@.len() == old(buf)@.len(),
        match r {
            Some(n) => {
                &&& n <= old(buf)@.len()
                &&& (n == 0 && old(buf)@.len() > 0) ==> {
                    &&& inflate_rest(*old(d)) == Some(Seq::<u8>::empty())
                    &&& inflate_rest(*final(d)) == Some(Seq::<u8>::empty())
                }
                &&& n > 0 ==> match inflate_rest(*old(d)) {
                    Some(p) => {
                        &&& n <= p.len()
                        &&& final(buf)@.take(n as int) == p.take(n as int)
                        &&& inflate_rest(*final(d)) == Some(p.skip(n as int))
                    },
                    None => inflate_rest(*final(d)) is None,
                }
                &&& n == 0 ==> inflate_rest(*final(d)) == inflate_rest(*old(d))
            },
            None => inflate_rest(*old(d)) is None,
        },
{
    std::io::Read::read(d, buf).ok()
}

/// Relies on `Read::read_to_end` of flate2's `ZlibDecoder`: it appends the
/// rest of the decoded stream to `out`, and fails only on a corrupt or
/// incomplete stream.
#[verifier::external_body]
fn zlib_read_to_end(d: &mut ZlibDecoder<VecDeque<u8>>, out: &mut Vec<u8>) -> (r: bool)
    ensures
        r == inflate_rest(*old(d)) is Some,
        r ==> final(out)@ == old(out)@ + inflate_rest(*old(d))->0,
        r ==> inflate_rest(*final(d)) == Some(Seq::<u8>::empty()),
{
    std::io::Read::read_to_end(d, out).is_ok()
}

/// The decompression codecs, one per known algorithm tag.
enum DcxCompressionCodec {
    /// A zlib stream (tag `DFLT`).
    Deflate(ZlibDecoder<VecDeque<u8>>),
}

/// A reader of the payload of a DCX container: the header is checked when the
/// reader is made, and the body is decompressed as it is read.
pub struct DcxReader {
    size_hint: u32,
    codec: DcxCompressionCodec,
}

impl DcxReader {
    /// The decompressed size that the header declares.
    pub closed spec fn declared_size(&self) -> u32 {
        self.size_hint
    }

    /// What the reader has still to yield, or `None` where the body is corrupt.
    pub closed spec fn rest(&self) -> Option<Seq<u8>> {
        match self.codec {
            DcxCompressionCodec::Deflate(d) => inflate_rest(d),
        }
    }

    /// Checks the header at the start of `input` and sets up the codec that
    /// its algorithm tag selects over the bytes after it.
    pub fn new(input: &[u8]) -> (r: Result<DcxReader, DCXError>)
        ensures
            match r {
                Ok(rd) => {
                    &&& header_fault(input@) is None
                    &&& rd.declared_size() == be_u32(input@, SIZE_AT as int)
                    &&& rd.rest() == inflated(body(input@))
                },
                Err(e) => header_fault(input@) == Some(e.outcome()),
            },
    {
        if input.len() < HEADER_LEN {
            return Err(DCXError::IO);
        }
        if !has_tag(input, DCX_MAGIC_AT, 0x44, 0x43, 0x58, 0) {
            return Err(DCXError::MalformedMetadata);
        }
        if !has_tag(input, DCP_MAGIC_AT, 0x44, 0x43, 0x50, 0) {
            return Err(DCXError::MalformedMetadata);
        }
        if !has_tag(input, DCS_MAGIC_AT, 0x44, 0x43, 0x53, 0) {
            return Err(DCXError::MalformedMetadata);
        }
        if !has_tag(input, DCA_MAGIC_AT, 0x44, 0x43, 0x41, 0) {
            return Err(DCXError::MalformedMetadata);
        }
        let size_hint = read_be_u32(input, SIZE_AT);
        if has_tag(input, ALGORITHM_AT, 0x44, 0x46, 0x4c, 0x54) {
            let rest = slice_to_vec(slice_subrange(input, HEADER_LEN, input.len()));
            let codec = DcxCompressionCodec::Deflate(zlib_decoder(rest));
            Ok(DcxReader { size_hint, codec })
        } else {
            let t = [input[ALGORITHM_AT], input[ALGORITHM_AT + 1], input[ALGORITHM_AT + 2], input[ALGORITHM_AT + 3]];
            assert(t@ =~= algorithm(input@));
            Err(DCXError::UnsupportedCodec(t))
        }
    }

    /// The decompressed size that the header declares; a hint for sizing
    /// buffers, not a bound on what is read.
    pub fn size_hint(&self) -> (r: u32)
        ensures
            r == self.declared_size(),
    {
        self.size_hint
    }

    /// Reads the next decoded bytes into the front of `buf` and returns their
    /// count; zero into a non-empty buffer means that the payload has ended.
    pub fn read(&mut self, buf: &mut [u8]) -> (r: Result<usize, DCXError>)
        ensures
            final(self).declared_size() == old(self).declared_size(),
            final(buf)@.len() == old(buf)@.len(),
            match r {
                Ok(n) => {
                    &&& n <= old(buf)@.len()
                    &&& (n == 0 && old(buf)@.len() > 0) ==> {
                        &&& old(self).rest() == Some(Seq::<u8>::empty())
                        &&& final(self).rest() == Some(Seq::<u8>::empty())
                    }
                    &&& n > 0 ==> match old(self).rest() {
                        Some(p) => {
                            &&& n <= p.len()
                            &&& final(buf)@.take(n as int) == p.take(n as int)
                            &&& final(self).rest() == Some(p.skip(n as int))
                        },
                        None => final(self).rest() is None,
                    }
                    &&& n == 0 ==> final(self).rest() == old(self).rest()
                },
                Err(e) => e == DCXError::Decompression && old(self).rest() is None,
            },
    {
        match &mut self.codec {
            DcxCompressionCodec::Deflate(d) => match zlib_read(d, buf) {
                Some(n) => Ok(n),
                None => Err(DCXError::Decompression),
            },
        }
    }

    /// Reads the rest of the payload onto the end of `out` and returns its
    /// length.
    pub fn read_to_end(&mut self, out: &mut Vec<u8>) -> (r: Result<usize, DCXError>)
        ensures
            final(self).declared_size() == old(self).declared_size(),
            match old(self).rest() {
                Some(p) => {
                    &&& r == Ok::<usize, DCXError>(p.len() as usize)
                    &&& final(out)@ == old(out)@ + p
                    &&& final(self).rest() == Some(Seq::<u8>::empty())
                },
                None => r == Err::<usize, DCXError>(DCXError::Decompression),
            },
    {
        let start = out.len();
        match &mut self.codec {
            DcxCompressionCodec::Deflate(d) => {
                if zlib_read_to_end(d, out) {
                    Ok(out.len() - start)
                } else {
                    Err(DCXError::Decompression)
                }
            },
        }
    }
}

} // verus!
