//! The decode entry point: decrypt the input, then decode the container in it.
use vstd::prelude::*;
use vstd::slice::slice_subrange;

use cbc::cipher::block_padding::NoPadding;
use cbc::cipher::{BlockDecryptMut, KeyIvInit};

use crate::dcx::{
    algorithm, body, container_outcome, deflate_tag, header_fault, inflated, magics_ok, DCXError,
    DcxReader, DCA_MAGIC_AT, DCP_MAGIC_AT, DCS_MAGIC_AT, DCX_MAGIC_AT, HEADER_LEN,
};
use crate::Outcome;

verus! {

/// Length in bytes of the IV at the start of the input.
pub const IV_LENGTH: usize = 16;

/// Length in bytes of one cipher block.
pub const BLOCK_LENGTH: usize = 16;

/// The fixed AES-256 key of the product's data files.
pub open spec fn er_key() -> Seq<u8> {
    seq![
        0x99, 0xBF, 0xFC, 0x36, 0x6A, 0x6B, 0xC8, 0xC6, 0xF5, 0x82, 0x7D, 0x09, 0x36, 0x02, 0xD6, 0x76,
        0xC4, 0x28, 0x92, 0xA0, 0x1C, 0x20, 0x7F, 0xB0, 0x24, 0xD3, 0xAF, 0x4E, 0x49, 0x3F, 0xEF, 0x99,
    ]
}

/// The fixed AES-256 key, as bytes.
fn er_key_bytes() -> (k: [u8; 32])
    ensures
        k@ == er_key(),
{
    let k = [
        0x99, 0xBF, 0xFC, 0x36, 0x6A, 0x6B, 0xC8, 0xC6, 0xF5, 0x82, 0x7D, 0x09, 0x36, 0x02, 0xD6, 0x76,
        0xC4, 0x28, 0x92, 0xA0, 0x1C, 0x20, 0x7F, 0xB0, 0x24, 0xD3, 0xAF, 0x4E, 0x49, 0x3F, 0xEF, 0x99,
    ];
    assert(k@ =~= er_key());
    k
}

/// The AES-256-CBC decryption of `ct` under `key` and `iv`, with no padding
/// removed.
pub uninterp spec fn aes256_cbc_decrypted(key: Seq<u8>, iv: Seq<u8>, ct: Seq<u8>) -> Seq<u8>;

/// Relies on cbc's `Decryptor<aes::Aes256>` and its `decrypt_padded_vec_mut`
/// with `NoPadding`: it decrypts whole blocks in CBC mode, keeps every byte,
/// and fails exactly when `ct` is not a whole number of blocks.
#[verifier::external_body]
fn aes256_cbc_decrypt(key: &[u8; 32], iv: &[u8; 16], ct: &[u8]) -> (r: Option<Vec<u8>>)
    ensures
        r is Some <==> ct@.len() % (BLOCK_LENGTH as nat) == 0,
        r matches Some(v) ==> v@ == aes256_cbc_decrypted(key@, iv@, ct@),
        r matches Some(v) ==> v@.len() == ct@.len(),
{
    cbc::Decryptor::<aes::Aes256>::new(key.into(), iv.into()).decrypt_padded_vec_mut::<NoPadding>(
        ct,
    ).ok()
}

/// A decoded data file: the payload of its container.
pub struct Regulation {
    pub parambnd: Vec<u8>,
}

/// Errors of a decode.
#[derive(Debug, Clone, Copy, PartialEq, Eq)]
pub enum RegulationError {
    /// The ciphertext is not a positive multiple of the block size.
    DecryptInputTooShort,
    /// The input is too short to hold an IV and one cipher block.
    MalformedInput,
    /// The decrypted container could not be decoded.
    DCXError(DCXError),
}

/// The outcome that a decode's result stands for.
pub open spec fn result_outcome(r: Result<Regulation, RegulationError>) -> Outcome {
    match r {
        Ok(reg) => Outcome::Payload(reg.parambnd@),
        Err(RegulationError::DecryptInputTooShort) => Outcome::DecryptInputTooShort,
        Err(RegulationError::MalformedInput) => Outcome::MalformedInput,
        Err(RegulationError::DCXError(e)) => e.outcome(),
    }
}

/// The IV at the front of `input`.
pub open spec fn iv_of(input: Seq<u8>) -> Seq<u8> {
    input.subrange(0, IV_LENGTH as int)
}

/// The ciphertext after the IV in `input`.
pub open spec fn ciphertext_of(input: Seq<u8>) -> Seq<u8> {
    input.subrange(IV_LENGTH as int, input.len() as int)
}

/// The container that `input` decrypts to under the fixed key.
pub open spec fn decrypted(input: Seq<u8>) -> Seq<u8> {
    aes256_cbc_decrypted(er_key(), iv_of(input), ciphertext_of(input))
}

/// The outcome of decoding the encrypted input `input`.
pub open spec fn decode_outcome(input: Seq<u8>) -> Outcome {
    if input.len() < IV_LENGTH + BLOCK_LENGTH {
        Outcome::MalformedInput
    } else if ciphertext_of(input).len() % (BLOCK_LENGTH as nat) != 0 {
        Outcome::DecryptInputTooShort
    } else {
        container_outcome(decrypted(input))
    }
}

impl Regulation {
    /// Decrypts `input` (an IV, then the ciphertext) with the fixed key and
    /// decodes the container that it holds.
    pub fn from_encrypted_compressed(input: &[u8]) -> (r: Result<Regulation, RegulationError>)
        ensures
            result_outcome(r) == decode_outcome(input@),
    {
        if input.len() < IV_LENGTH + BLOCK_LENGTH {
            return Err(RegulationError::MalformedInput);
        }
        let iv: [u8; 16] = [
            input[0], input[1], input[2], input[3], input[4], input[5], input[6], input[7],
            input[8], input[9], input[10], input[11], input[12], input[13], input[14], input[15],
        ];
        assert(iv@ =~= iv_of(input@));
        let enc_data = slice_subrange(input, IV_LENGTH, input.len());
        let key = er_key_bytes();
        match aes256_cbc_decrypt(&key, &iv, enc_data) {
            Some(v) => Self::from_decrypted_compressed(v.as_slice()),
            None => Err(RegulationError::DecryptInputTooShort),
        }
    }

    /// Decodes the decrypted container `input`.
    pub fn from_decrypted_compressed(input: &[u8]) -> (r: Result<Regulation, RegulationError>)
        ensures
            result_outcome(r) == container_outcome(input@),
    {
        let mut reader = match DcxReader::new(input) {
            Ok(reader) => reader,
            Err(e) => return Err(RegulationError::DCXError(e)),
        };
        let mut output = Vec::with_capacity(reader.size_hint() as usize);
        match reader.read_to_end(&mut output) {
            Ok(_) => {
                assert(output@ =~= Seq::<u8>::empty() + output@);
                Ok(Regulation { parambnd: output })
            },
            Err(_) => Err(RegulationError::DCXError(DCXError::Decompression)),
        }
    }
}

/// An input whose ciphertext is block-aligned and whose container has a valid
/// header and a complete zlib stream decodes, to exactly what that stream holds.
pub proof fn lemma_well_formed_decodes(input: Seq<u8>, r: Result<Regulation, RegulationError>)
    requires
        input.len() >= IV_LENGTH + BLOCK_LENGTH,
        ciphertext_of(input).len() % (BLOCK_LENGTH as nat) == 0,
        header_fault(decrypted(input)) is None,
        inflated(body(decrypted(input))) is Some,
        result_outcome(r) == decode_outcome(input),
    ensures
        r matches Ok(reg) && reg.parambnd@ == inflated(body(decrypted(input)))->0,
{
}

/// An input at least an IV and a block long whose ciphertext is not a whole
/// number of blocks fails with the block-alignment error.
pub proof fn lemma_misaligned_ciphertext_refused(
    input: Seq<u8>,
    r: Result<Regulation, RegulationError>,
)
    requires
        input.len() >= IV_LENGTH + BLOCK_LENGTH,
        ciphertext_of(input).len() % (BLOCK_LENGTH as nat) != 0,
        result_outcome(r) == decode_outcome(input),
    ensures
        r == Err::<Regulation, RegulationError>(RegulationError::DecryptInputTooShort),
{
}

/// An input shorter than an IV and one block fails as malformed input.
pub proof fn lemma_short_input_refused(input: Seq<u8>, r: Result<Regulation, RegulationError>)
    requires
        input.len() < IV_LENGTH + BLOCK_LENGTH,
        result_outcome(r) == decode_outcome(input),
    ensures
        r == Err::<Regulation, RegulationError>(RegulationError::MalformedInput),
{
}

/// Whether byte `i` of a header lies in one of its four magic fields.
pub open spec fn in_magic_field(i: int) -> bool {
    ||| DCX_MAGIC_AT <= i < DCX_MAGIC_AT + 4
    ||| DCS_MAGIC_AT <= i < DCS_MAGIC_AT + 4
    ||| DCP_MAGIC_AT <= i < DCP_MAGIC_AT + 4
    ||| DCA_MAGIC_AT <= i < DCA_MAGIC_AT + 4
}

/// Changing any one byte of a magic field of a valid container makes its
/// decoding fail with the malformed-header error.
pub proof fn lemma_corrupt_magic_refused(
    b: Seq<u8>,
    i: int,
    x: u8,
    r: Result<Regulation, RegulationError>,
)
    requires
        b.len() >= HEADER_LEN,
        magics_ok(b),
        in_magic_field(i),
        x != b[i],
        result_outcome(r) == container_outcome(b.update(i, x)),
    ensures
        r == Err::<Regulation, RegulationError>(
            RegulationError::DCXError(DCXError::MalformedMetadata),
        ),
{
    let c = b.update(i, x);
    let at: int = if i < DCS_MAGIC_AT {
        DCX_MAGIC_AT as int
    } else if i < DCP_MAGIC_AT {
        DCS_MAGIC_AT as int
    } else if i < DCA_MAGIC_AT {
        DCP_MAGIC_AT as int
    } else {
        DCA_MAGIC_AT as int
    };
    assert(c.subrange(at, at + 4)[i - at] == x);
    assert(b.subrange(at, at + 4)[i - at] == b[i]);
    assert(!magics_ok(c));
}

/// A container with valid magic fields and any algorithm tag but `DFLT` fails
/// with the unsupported-codec error, which carries the tag.
pub proof fn lemma_unknown_codec_refused(b: Seq<u8>, r: Result<Regulation, RegulationError>)
    requires
        b.len() >= HEADER_LEN,
        magics_ok(b),
        algorithm(b) != deflate_tag(),
        result_outcome(r) == container_outcome(b),
    ensures
        r matches Err(RegulationError::DCXError(DCXError::UnsupportedCodec(t))) && t@ == algorithm(
            b,
        ),
{
}

/// Decoding is deterministic: two decodes of the same input have the same
/// outcome, and where one yields a payload the other yields the same bytes.
pub proof fn lemma_decode_deterministic(
    input: Seq<u8>,
    r1: Result<Regulation, RegulationError>,
    r2: Result<Regulation, RegulationError>,
)
    requires
        result_outcome(r1) == decode_outcome(input),
        result_outcome(r2) == decode_outcome(input),
    ensures
        result_outcome(r1) == result_outcome(r2),
        r1 matches Ok(a) ==> r2 matches Ok(b) && a.parambnd@ == b.parambnd@,
{
}

} // verus!
