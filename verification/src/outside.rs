//! The library's only contact with outside crates: each item below states
//! what the crate's source or documentation shows of one function, and is
//! believed without proof.
use vstd::prelude::*;

use sha2::Digest;
use sha3::digest::{ExtendableOutput, Update, XofReader};
use zeroize::Zeroize;

verus! {

#[verifier::external_type_specification]
#[verifier::external_body]
pub struct ExArgon2Error(argon2::Error);

#[verifier::external_type_specification]
#[verifier::external_body]
pub struct ExGetrandomError(getrandom::Error);

/// SHA-256 of a message (FIPS 180-4), as `sha2` computes it.
pub uninterp spec fn sha256_digest(message: Seq<u8>) -> Seq<u8>;

/// Argon2id version 1.3 output of `output_len` bytes for a password and salt
/// under the given memory (KiB), pass and lane counts, as `argon2` computes it.
pub uninterp spec fn argon2id_v13(
    password: Seq<u8>,
    salt: Seq<u8>,
    memory_kib: u32,
    iterations: u32,
    lanes: u32,
    output_len: nat,
) -> Seq<u8>;

/// The byte at `index` of the SHAKE256 output stream of `input`.
pub uninterp spec fn shake256_output_byte(input: Seq<u8>, index: nat) -> u8;

/// The input that a SHAKE256 reader was finalized on.
pub uninterp spec fn shake_reader_input(reader: ShakeReader) -> Seq<u8>;

/// How many output bytes a SHAKE256 reader has already handed out.
pub uninterp spec fn shake_reader_position(reader: ShakeReader) -> nat;

/// The parameter and input bounds under which `argon2` hashes without error:
/// `Params::new` accepts at least eight KiB and eight KiB per lane, one pass,
/// and 1 through 2^24 - 1 lanes; `hash_password_into` accepts passwords of at
/// most 2^32 - 1 bytes and salts of 8 through 2^32 - 1 bytes.
pub open spec fn argon2_accepts(
    password_len: nat,
    salt_len: nat,
    memory_kib: u32,
    iterations: u32,
    lanes: u32,
) -> bool {
    &&& memory_kib >= 8
    &&& memory_kib >= 8 * lanes
    &&& iterations >= 1
    &&& 1 <= lanes <= 0xFF_FFFF
    &&& password_len <= 0xFFFF_FFFF
    &&& 8 <= salt_len <= 0xFFFF_FFFF
}

/// A SHAKE256 output reader of `sha3`. Verus cannot declare the reader type
/// of `sha3` (its bounds are type-level numbers), so it is held here and
/// described by `shake_reader_input` and `shake_reader_position`.
#[verifier::external_body]
pub struct ShakeReader {
    reader: sha3::Shake256Reader,
}

/// Calls `Sha256::digest` of `sha2`: the SHA-256 digest of `message`.
#[verifier::external_body]
pub fn sha256(message: &[u8]) -> (r: [u8; 32])
    ensures
        r@ == sha256_digest(message@),
{
    sha2::Sha256::digest(message).into()
}

/// Calls `Params::new`, `Argon2::new` (Argon2id, version 0x13) and
/// `hash_password_into` of `argon2` with a 64-byte output. It succeeds exactly
/// within `argon2_accepts`, and then the output is the Argon2id hash.
/// `Params::new` computes `lanes * 8` in `u32`, hence the bound on `lanes`.
#[verifier::external_body]
pub fn argon2id_hash(
    password: &[u8],
    salt: &[u8],
    memory_kib: u32,
    iterations: u32,
    lanes: u32,
) -> (r: Result<[u8; 64], argon2::Error>)
    requires
        lanes <= 0x1FFF_FFFF,
    ensures
        r is Ok <==> argon2_accepts(
            password@.len(),
            salt@.len(),
            memory_kib,
            iterations,
            lanes,
        ),
        r matches Ok(k) ==> k@ == argon2id_v13(
            password@,
            salt@,
            memory_kib,
            iterations,
            lanes,
            64,
        ),
{
    let params = argon2::Params::new(memory_kib, iterations, lanes, Some(64))?;
    let hasher = argon2::Argon2::new(argon2::Algorithm::Argon2id, argon2::Version::V0x13, params);
    let mut output = [0u8; 64];
    hasher.hash_password_into(password, salt, &mut output)?;
    Ok(output)
}

/// Calls `Shake256::default`, `Update::update` and `finalize_xof` of `sha3`:
/// a reader positioned at the start of the SHAKE256 output of `input`.
#[verifier::external_body]
pub fn shake256_reader(input: &[u8]) -> (r: ShakeReader)
    ensures
        shake_reader_input(r) == input@,
        shake_reader_position(r) == 0,
{
    let mut hasher = sha3::Shake256::default();
    hasher.update(input);
    ShakeReader { reader: hasher.finalize_xof() }
}

/// Calls `XofReader::read` of `sha3`: fills `output` with the next bytes of
/// the output stream and advances the reader past them.
#[verifier::external_body]
pub fn shake256_read(reader: &mut ShakeReader, output: &mut [u8])
    ensures
        shake_reader_input(*final(reader)) == shake_reader_input(*old(reader)),
        shake_reader_position(*final(reader)) == shake_reader_position(*old(reader))
            + old(output)@.len(),
        final(output)@.len() == old(output)@.len(),
        forall|i: int|
            0 <= i < final(output)@.len() ==> #[trigger] final(output)@[i] == shake256_output_byte(
                shake_reader_input(*old(reader)),
                (shake_reader_position(*old(reader)) + i) as nat,
            ),
{
    reader.reader.read(output);
}

/// Calls `getrandom::fill`: on success `dest` holds operating-system random
/// bytes. Nothing is stated of the bytes, which depend on the machine, nor of
/// when the operating system refuses.
#[verifier::external_body]
pub fn fill_random(dest: &mut [u8]) -> (r: Result<(), getrandom::Error>)
    ensures
        final(dest)@.len() == old(dest)@.len(),
{
    getrandom::fill(dest)
}

/// Calls `Zeroize::zeroize` of `zeroize` on a byte slice: every byte becomes
/// zero. `zeroize` asserts that the length fits `isize`, which holds of every
/// byte slice in Rust.
#[verifier::external_body]
pub fn wipe(buffer: &mut [u8])
    ensures
        final(buffer)@ == Seq::new(old(buffer)@.len(), |i: int| 0u8),
{
    buffer.zeroize();
}

} // verus!
