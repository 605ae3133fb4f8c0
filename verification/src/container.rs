//! The checks that frame encryption and decryption of a container: names,
//! key length, header creation and acceptance, and the exact file length.
use vstd::prelude::*;
use vstd::string::StringSliceAdditionalSpecFns;

use crate::algorithm::Algorithm;
use crate::error::X3xError;
use crate::filename::{probe_splits_character, spec_validate_filename, validate_filename};
use crate::format::{
    ExpectedKeying, Header, Keying, HEADER_LEN, expected_keying_of, header_encoding,
    lemma_parse_new_round_trip, spec_chunk_count, spec_parse_header,
};
use crate::password::kdf_within_bounds;
use crate::outside::fill_random;

verus! {

/// Plaintext bytes processed per independently authenticated AEAD record.
pub const CHUNK_SIZE: usize = 1024 * 1024;

/// The only valid length of a container: the header, the ciphertext (as long
/// as the plaintext), and one tag per record for an AEAD or one file tag
/// otherwise.
pub open spec fn spec_encrypted_len(algorithm: Algorithm, plaintext_len: u64) -> int {
    HEADER_LEN + plaintext_len + if algorithm.spec_is_aead() {
        spec_chunk_count(plaintext_len, CHUNK_SIZE) * algorithm.spec_tag_len()
    } else {
        algorithm.spec_tag_len() as int
    }
}

/// The outcome of the length check of a container.
pub open spec fn spec_length_check(algorithm: Algorithm, plaintext_len: u64, encrypted_len: u64) -> Result<
    (),
    X3xError,
> {
    if spec_encrypted_len(algorithm, plaintext_len) > u64::MAX {
        Err(X3xError::EncryptedLengthOverflow)
    } else if encrypted_len != spec_encrypted_len(algorithm, plaintext_len) {
        Err(
            X3xError::InvalidEncryptedLength {
                expected_len: spec_encrypted_len(algorithm, plaintext_len) as u64,
                found_len: encrypted_len,
            },
        )
    } else {
        Ok(())
    }
}

/// Refuse a container that is not exactly as long as its header implies,
/// so that truncated or extended files are refused before any output.
pub fn verify_encrypted_length(algorithm: Algorithm, header: &Header, encrypted_len: u64) -> (r:
    Result<(), X3xError>)
    ensures
        r == spec_length_check(algorithm, header.spec_plaintext_len(), encrypted_len),
{
    let plaintext_len = header.plaintext_len();
    let tag_len = algorithm.tag_len() as u64;
    let overhead = if algorithm.is_aead() {
        let count = crate::format::chunk_count(plaintext_len, CHUNK_SIZE);
        match count.checked_mul(tag_len) {
            Some(o) => o,
            None => return Err(X3xError::EncryptedLengthOverflow),
        }
    } else {
        tag_len
    };
    let expected = match 64u64.checked_add(plaintext_len) {
        Some(partial) => match partial.checked_add(overhead) {
            Some(total) => total,
            None => return Err(X3xError::EncryptedLengthOverflow),
        },
        None => return Err(X3xError::EncryptedLengthOverflow),
    };
    if encrypted_len != expected {
        return Err(X3xError::InvalidEncryptedLength { expected_len: expected, found_len: encrypted_len });
    }
    Ok(())
}

/// Refuse when a read past the expected end returned data.
pub fn ensure_eof(bytes_read: usize, refusal: X3xError) -> (r: Result<(), X3xError>)
    ensures
        r == if bytes_read == 0 {
            Ok::<(), X3xError>(())
        } else {
            Err::<(), X3xError>(refusal)
        },
{
    if bytes_read != 0 {
        return Err(refusal);
    }
    Ok(())
}

/// Refuse a key file whose length is not the algorithm's exact key length.
pub fn check_key_length(provided: u64, required: usize) -> (r: Result<(), X3xError>)
    ensures
        r == if provided == required {
            Ok::<(), X3xError>(())
        } else {
            Err::<(), X3xError>(X3xError::KeyLength { required, provided })
        },
{
    if provided != required as u64 {
        return Err(X3xError::KeyLength { required, provided });
    }
    Ok(())
}

#[verifier::loop_isolation(false)]
fn str_equal(a: &str, b: &str) -> (r: bool)
    ensures
        r == (a@ == b@),
{
    let x = a.as_bytes();
    let y = b.as_bytes();
    proof {
        vstd::utf8::encode_utf8_decode_utf8(a@);
        vstd::utf8::encode_utf8_decode_utf8(b@);
    }
    if x.len() != y.len() {
        return false;
    }
    let mut i: usize = 0;
    while i < x.len()
        invariant
            x@.len() == y@.len(),
            i <= x@.len(),
            forall|j: int| 0 <= j < i ==> x@[j] == y@[j],
        decreases x@.len() - i,
    {
        if x[i] != y[i] {
            return false;
        }
        i = i + 1;
    }
    assert(x@ =~= y@);
    true
}

/// The outcome of the name checks of a key-file cipher run.
pub open spec fn spec_check_cipher_names(algorithm: Algorithm, input: &str, output: &str) -> Result<
    (),
    X3xError,
> {
    if spec_validate_filename(input.spec_bytes()) is Err {
        spec_validate_filename(input.spec_bytes())
    } else if spec_validate_filename(output.spec_bytes()) is Err {
        spec_validate_filename(output.spec_bytes())
    } else if input@ == algorithm.spec_key_filename() {
        Err(X3xError::KeyFileAsInput)
    } else if output@ == algorithm.spec_key_filename() {
        Err(X3xError::KeyFileAsOutput)
    } else {
        Ok(())
    }
}

/// Check the input and output names of a key-file cipher run: both must be
/// portable local filenames, and neither may be the active key file.
pub fn check_cipher_names(algorithm: Algorithm, input: &str, output: &str) -> (r: Result<
    (),
    X3xError,
>)
    requires
        !probe_splits_character(input.spec_bytes()),
        spec_validate_filename(input.spec_bytes()) is Ok ==> !probe_splits_character(
            output.spec_bytes(),
        ),
    ensures
        r == spec_check_cipher_names(algorithm, input, output),
{
    validate_filename(input)?;
    validate_filename(output)?;
    let key_filename = algorithm.key_filename();
    if str_equal(input, key_filename) {
        return Err(X3xError::KeyFileAsInput);
    }
    if str_equal(output, key_filename) {
        return Err(X3xError::KeyFileAsOutput);
    }
    Ok(())
}

/// The header of a new container for `plaintext_len` bytes, with a fresh
/// operating-system random nonce seed. Fails only when the operating system
/// refuses randomness.
pub fn new_header(algorithm: Algorithm, plaintext_len: u64, keying: Keying) -> (r: Result<
    Header,
    X3xError,
>)
    ensures
        r matches Ok(h) ==> {
            &&& h.spec_nonce_seed().len() == 32
            &&& h.spec_bytes() == header_encoding(
                algorithm,
                plaintext_len,
                h.spec_nonce_seed(),
                CHUNK_SIZE as u32,
                keying,
            )
            &&& h.spec_plaintext_len() == plaintext_len
            &&& h.spec_keying() == keying
        },
        r is Err ==> r == Err::<Header, X3xError>(X3xError::RandomUnavailable),
{
    let mut nonce_seed: [u8; 32] = [0u8; 32];
    match fill_random(vstd::array::ref_mut_array_unsizing_coercion(&mut nonce_seed)) {
        Ok(()) => {},
        Err(_) => return Err(X3xError::RandomUnavailable),
    }
    Ok(Header::new(algorithm, plaintext_len, nonce_seed, CHUNK_SIZE, keying))
}

/// Accept the header of a container of `encrypted_len` bytes: the header
/// checks, then the exact length that the header implies.
pub fn open_header(
    header_bytes: [u8; 64],
    algorithm: Algorithm,
    expected_keying: ExpectedKeying,
    encrypted_len: u64,
) -> (r: Result<Header, X3xError>)
    ensures
        match spec_parse_header(header_bytes@, algorithm, CHUNK_SIZE, expected_keying) {
            Err(e) => r == Err::<Header, X3xError>(e),
            Ok((plaintext_len, nonce_seed, keying)) => match spec_length_check(
                algorithm,
                plaintext_len,
                encrypted_len,
            ) {
                Err(e) => r == Err::<Header, X3xError>(e),
                Ok(()) => r matches Ok(h) && h.spec_bytes() == header_bytes@
                    && h.spec_plaintext_len() == plaintext_len && h.spec_nonce_seed()
                    == nonce_seed && h.spec_keying() == keying,
            },
        },
{
    let header = Header::parse(header_bytes, algorithm, CHUNK_SIZE, expected_keying)?;
    verify_encrypted_length(algorithm, &header, encrypted_len)?;
    Ok(header)
}

/// A container as the encryption side lays it out (its header, then as many
/// bytes as `spec_encrypted_len` counts) passes every check of the decryption
/// side of the same algorithm and keying, which reads back the plaintext
/// length, nonce seed and keying that were written.
pub proof fn lemma_written_container_is_accepted(
    algorithm: Algorithm,
    plaintext_len: u64,
    nonce_seed: Seq<u8>,
    keying: Keying,
)
    requires
        nonce_seed.len() == 32,
        keying matches Keying::Password(p) ==> kdf_within_bounds(
            p.memory_kib,
            p.iterations,
            p.lanes,
        ),
        spec_encrypted_len(algorithm, plaintext_len) <= u64::MAX,
    ensures
        spec_parse_header(
            header_encoding(algorithm, plaintext_len, nonce_seed, CHUNK_SIZE as u32, keying),
            algorithm,
            CHUNK_SIZE,
            expected_keying_of(keying),
        ) == Ok::<(u64, Seq<u8>, Keying), X3xError>((plaintext_len, nonce_seed, keying)),
        spec_length_check(
            algorithm,
            plaintext_len,
            spec_encrypted_len(algorithm, plaintext_len) as u64,
        ) == Ok::<(), X3xError>(()),
{
    lemma_parse_new_round_trip(algorithm, plaintext_len, nonce_seed, CHUNK_SIZE, keying);
}

/// A container is the 64-byte header, as many ciphertext bytes as plaintext
/// bytes, and then: for an AEAD, one 16-byte tag per record, where the
/// records are the fewest 1,048,576-byte chunks that hold the plaintext (one
/// for an empty file, so `k` whole chunks give exactly `k` tags); otherwise a
/// single 64-byte HMAC tag.
pub proof fn lemma_encrypted_len_counts_one_tag_per_record(algorithm: Algorithm, plaintext_len: u64)
    ensures
        !algorithm.spec_is_aead() ==> spec_encrypted_len(algorithm, plaintext_len) == 64
            + plaintext_len + 64,
        algorithm.spec_is_aead() ==> {
            let tags = spec_encrypted_len(algorithm, plaintext_len) - 64 - plaintext_len;
            let records = tags / 16;
            &&& tags == records * 16
            &&& plaintext_len == 0 ==> records == 1
            &&& plaintext_len > 0 ==> (records - 1) * 1048576 < plaintext_len <= records
                * 1048576
        },
{
    crate::format::lemma_chunk_count_is_ceiling(plaintext_len, CHUNK_SIZE);
    let c = spec_chunk_count(plaintext_len, CHUNK_SIZE);
    assert((c * 16) / 16 == c) by (nonlinear_arith);
}

} // verus!
