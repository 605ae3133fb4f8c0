use vstd::bytes::*;
use vstd::prelude::*;

use crate::algorithm::Algorithm;
use crate::error::X3xError;
use crate::le::{
    from_le_u16, from_le_u32, le_u16, le_u16_bytes, le_u32, le_u32_bytes, lemma_le_round_trips,
    u16_of_le, u32_of_le,
};
use crate::password::{KDF_ID_ARGON2ID, PasswordKdf, kdf_within_bounds};

verus! {

/// Length of the fixed container header.
pub const HEADER_LEN: usize = 64;

/// Format version of containers encrypted under a key file.
pub const KEY_FILE_FORMAT_VERSION: u8 = 1;

/// Format version of containers encrypted under a password.
pub const PASSWORD_FORMAT_VERSION: u8 = 2;

/// How the key of a container was obtained.
#[derive(Clone, Copy, Debug, PartialEq, Eq, Structural)]
pub enum Keying {
    KeyFile,
    Password(PasswordKdf),
}

/// Which kind of container a binary accepts.
#[derive(Clone, Copy, Debug, PartialEq, Eq, Structural)]
pub enum ExpectedKeying {
    KeyFile,
    Password,
}

/// ASCII `X3XCRYPT`.
pub open spec fn magic() -> Seq<u8> {
    seq![0x58u8, 0x33u8, 0x58u8, 0x43u8, 0x52u8, 0x59u8, 0x50u8, 0x54u8]
}

pub open spec fn format_version(keying: Keying) -> u8 {
    match keying {
        Keying::KeyFile => KEY_FILE_FORMAT_VERSION,
        Keying::Password(_) => PASSWORD_FORMAT_VERSION,
    }
}

pub open spec fn expected_keying_of(keying: Keying) -> ExpectedKeying {
    match keying {
        Keying::KeyFile => ExpectedKeying::KeyFile,
        Keying::Password(_) => ExpectedKeying::Password,
    }
}

/// The last eight header bytes: zero for a key file, the KDF parameters and
/// identifier for a password.
pub open spec fn keying_trailer(keying: Keying) -> Seq<u8> {
    match keying {
        Keying::KeyFile => seq![0u8, 0u8, 0u8, 0u8, 0u8, 0u8, 0u8, 0u8],
        Keying::Password(p) => le_u32(p.memory_kib) + le_u16(
            p.iterations,
        ) + seq![p.lanes, KDF_ID_ARGON2ID],
    }
}

/// The 64 header bytes that describe a file, all integers little-endian:
/// the ASCII magic `X3XCRYPT` (8 bytes), the format version (1 for a key
/// file, 2 for a password), the algorithm identifier, the tag length, the
/// nonce length, the chunk size (4 bytes), the plaintext length (8 bytes),
/// the 32-byte nonce seed, and 8 bytes that are zero for a key file and hold
/// the KDF memory cost (4), passes (2), lanes (1) and KDF identifier (1) for
/// a password.
pub open spec fn header_encoding(
    algorithm: Algorithm,
    plaintext_len: u64,
    nonce_seed: Seq<u8>,
    chunk_size: u32,
    keying: Keying,
) -> Seq<u8> {
    magic() + seq![
        format_version(keying),
        algorithm.spec_id(),
        algorithm.spec_tag_len() as u8,
        algorithm.spec_nonce_len() as u8,
    ] + le_u32(chunk_size) + spec_u64_to_le_bytes(plaintext_len) + nonce_seed
        + keying_trailer(keying)
}

/// The keying that header bytes record, checked against what the binary
/// accepts.
pub open spec fn spec_parse_keying(bytes: Seq<u8>, algorithm: Algorithm, expected: ExpectedKeying) -> Result<
    Keying,
    X3xError,
> {
    if bytes[8] == KEY_FILE_FORMAT_VERSION {
        if expected == ExpectedKeying::Password {
            Err(X3xError::UsesKeyFile(algorithm))
        } else if exists|i: int| 56 <= i < 64 && bytes[i] != 0 {
            Err(X3xError::NonzeroReserved)
        } else {
            Ok(Keying::KeyFile)
        }
    } else if bytes[8] == PASSWORD_FORMAT_VERSION {
        if expected == ExpectedKeying::KeyFile {
            Err(X3xError::PasswordProtected(algorithm))
        } else if bytes[63] != KDF_ID_ARGON2ID {
            Err(X3xError::UnsupportedKdf(bytes[63]))
        } else {
            match PasswordKdf::spec_from_header(
                from_le_u32(bytes.subrange(56, 60)),
                from_le_u16(bytes.subrange(60, 62)),
                bytes[62],
            ) {
                Ok(p) => Ok(Keying::Password(p)),
                Err(e) => Err(e),
            }
        }
    } else {
        Err(X3xError::UnsupportedVersion(bytes[8]))
    }
}

/// What header bytes describe (plaintext length, nonce seed, keying), or the
/// first check that they fail, in the order in which they are checked.
pub open spec fn spec_parse_header(
    bytes: Seq<u8>,
    expected_algorithm: Algorithm,
    expected_chunk_size: usize,
    expected_keying: ExpectedKeying,
) -> Result<(u64, Seq<u8>, Keying), X3xError> {
    if bytes.subrange(0, 8) != magic() {
        Err(X3xError::NotX3xFile)
    } else {
        match Algorithm::spec_from_id(bytes[9]) {
            None => Err(X3xError::UnknownAlgorithm(bytes[9])),
            Some(actual) => if actual != expected_algorithm {
                Err(X3xError::WrongAlgorithm { actual, expected: expected_algorithm })
            } else {
                match spec_parse_keying(bytes, expected_algorithm, expected_keying) {
                    Err(e) => Err(e),
                    Ok(keying) => if bytes[10] as int != expected_algorithm.spec_tag_len()
                        || bytes[11] as int != expected_algorithm.spec_nonce_len() {
                        Err(X3xError::InvalidAlgorithmParameters)
                    } else if from_le_u32(bytes.subrange(12, 16)) as int
                        != expected_chunk_size as int {
                        Err(X3xError::UnsupportedChunkSize(from_le_u32(bytes.subrange(12, 16))))
                    } else {
                        Ok(
                            (
                                spec_u64_from_le_bytes(bytes.subrange(16, 24)),
                                bytes.subrange(24, 56),
                                keying,
                            ),
                        )
                    },
                }
            },
        }
    }
}

/// A container header: its exact bytes and what they describe.
pub struct Header {
    bytes: [u8; 64],
    plaintext_len: u64,
    nonce_seed: [u8; 32],
    keying: Keying,
}

pub(crate) fn append_bytes(target: &mut Vec<u8>, source: &[u8])
    ensures
        final(target)@ == old(target)@ + source@,
{
    let mut i: usize = 0;
    while i < source.len()
        invariant
            i <= source@.len(),
            target@ == old(target)@ + source@.subrange(0, i as int),
        decreases source@.len() - i,
    {
        target.push(source[i]);
        i = i + 1;
        assert(source@.subrange(0, i as int) =~= source@.subrange(0, i - 1) + seq![source@[i - 1]]);
    }
    assert(source@.subrange(0, i as int) =~= source@);
}

fn to_header_array(bytes: &Vec<u8>) -> (r: [u8; 64])
    requires
        bytes@.len() == HEADER_LEN,
    ensures
        r@ == bytes@,
{
    let mut array: [u8; 64] = [0u8; 64];
    let mut i: usize = 0;
    while i < 64
        invariant
            i <= 64,
            bytes@.len() == 64,
            forall|j: int| 0 <= j < i ==> array@[j] == bytes@[j],
        decreases 64 - i,
    {
        array[i] = bytes[i];
        i = i + 1;
    }
    assert(array@ =~= bytes@);
    array
}

impl Header {
    pub closed spec fn spec_bytes(&self) -> Seq<u8> {
        self.bytes@
    }

    pub closed spec fn spec_plaintext_len(&self) -> u64 {
        self.plaintext_len
    }

    pub closed spec fn spec_nonce_seed(&self) -> Seq<u8> {
        self.nonce_seed@
    }

    pub closed spec fn spec_keying(&self) -> Keying {
        self.keying
    }

    /// The header bytes describe exactly the header's plaintext length,
    /// nonce seed and keying, for some algorithm and chunk size.
    pub open spec fn is_consistent(&self) -> bool {
        &&& self.spec_nonce_seed().len() == 32
        &&& exists|algorithm: Algorithm, chunk_size: u32|
            self.spec_bytes() == header_encoding(
                algorithm,
                self.spec_plaintext_len(),
                self.spec_nonce_seed(),
                chunk_size,
                self.spec_keying(),
            )
    }

    /// Build the header of a new container.
    pub fn new(
        algorithm: Algorithm,
        plaintext_len: u64,
        nonce_seed: [u8; 32],
        chunk_size: usize,
        keying: Keying,
    ) -> (r: Header)
        requires
            chunk_size <= u32::MAX,
        ensures
            r.spec_bytes() == header_encoding(
                algorithm,
                plaintext_len,
                nonce_seed@,
                chunk_size as u32,
                keying,
            ),
            r.spec_plaintext_len() == plaintext_len,
            r.spec_nonce_seed() == nonce_seed@,
            r.spec_keying() == keying,
            r.is_consistent(),
    {
        let magic_bytes: [u8; 8] = [0x58u8, 0x33u8, 0x58u8, 0x43u8, 0x52u8, 0x59u8, 0x50u8, 0x54u8];
        let mut bytes: Vec<u8> = Vec::new();
        append_bytes(&mut bytes, magic_bytes.as_slice());
        let version = match keying {
            Keying::KeyFile => KEY_FILE_FORMAT_VERSION,
            Keying::Password(_) => PASSWORD_FORMAT_VERSION,
        };
        bytes.push(version);
        bytes.push(algorithm.id());
        bytes.push(algorithm.tag_len() as u8);
        bytes.push(algorithm.nonce_len() as u8);
        let chunk = le_u32_bytes(chunk_size as u32);
        append_bytes(&mut bytes, chunk.as_slice());
        let length = u64_to_le_bytes(plaintext_len);
        append_bytes(&mut bytes, length.as_slice());
        append_bytes(&mut bytes, nonce_seed.as_slice());
        match keying {
            Keying::KeyFile => {
                let reserved: [u8; 8] = [0u8, 0u8, 0u8, 0u8, 0u8, 0u8, 0u8, 0u8];
                append_bytes(&mut bytes, reserved.as_slice());
            },
            Keying::Password(parameters) => {
                let memory = le_u32_bytes(parameters.memory_kib);
                append_bytes(&mut bytes, memory.as_slice());
                let iterations = le_u16_bytes(parameters.iterations);
                append_bytes(&mut bytes, iterations.as_slice());
                bytes.push(parameters.lanes);
                bytes.push(KDF_ID_ARGON2ID);
            },
        }
        proof {
            assert(magic_bytes@ =~= magic());
            assert(bytes@ =~= header_encoding(
                algorithm,
                plaintext_len,
                nonce_seed@,
                chunk_size as u32,
                keying,
            ));
        }
        let header = Header { bytes: to_header_array(&bytes), plaintext_len, nonce_seed, keying };
        assert(header.spec_bytes() == header_encoding(
            algorithm,
            header.spec_plaintext_len(),
            header.spec_nonce_seed(),
            chunk_size as u32,
            header.spec_keying(),
        ));
        header
    }

    /// Check header bytes against the binary that reads them and extract
    /// what they describe.
    #[verifier::loop_isolation(false)]
    pub fn parse(
        bytes: [u8; 64],
        expected_algorithm: Algorithm,
        expected_chunk_size: usize,
        expected_keying: ExpectedKeying,
    ) -> (r: Result<Header, X3xError>)
        ensures
            match spec_parse_header(
                bytes@,
                expected_algorithm,
                expected_chunk_size,
                expected_keying,
            ) {
                Ok((plaintext_len, nonce_seed, keying)) => r matches Ok(h) && h.spec_bytes()
                    == bytes@ && h.spec_plaintext_len() == plaintext_len && h.spec_nonce_seed()
                    == nonce_seed && h.spec_keying() == keying && h.is_consistent(),
                Err(e) => r == Err::<Header, X3xError>(e),
            },
    {
        let magic_bytes: [u8; 8] = [0x58u8, 0x33u8, 0x58u8, 0x43u8, 0x52u8, 0x59u8, 0x50u8, 0x54u8];
        let mut i: usize = 0;
        while i < 8
            invariant
                i <= 8,
                magic_bytes@ == magic(),
                forall|j: int| 0 <= j < i ==> bytes@[j] == magic()[j],
            decreases 8 - i,
        {
            if bytes[i] != magic_bytes[i] {
                assert(bytes@.subrange(0, 8)[i as int] != magic()[i as int]);
                return Err(X3xError::NotX3xFile);
            }
            i = i + 1;
        }
        assert(bytes@.subrange(0, 8) =~= magic());
        let actual = match Algorithm::from_id(bytes[9]) {
            Ok(a) => a,
            Err(e) => return Err(e),
        };
        if actual != expected_algorithm {
            return Err(X3xError::WrongAlgorithm { actual, expected: expected_algorithm });
        }
        let all = bytes.as_slice();
        let keying = if bytes[8] == KEY_FILE_FORMAT_VERSION {
            if expected_keying == ExpectedKeying::Password {
                return Err(X3xError::UsesKeyFile(expected_algorithm));
            }
            let mut k: usize = 56;
            while k < 64
                invariant
                    56 <= k <= 64,
                    forall|j: int| 56 <= j < k ==> bytes@[j] == 0,
                decreases 64 - k,
            {
                if bytes[k] != 0 {
                    assert(56 <= k < 64 && bytes@[k as int] != 0);
                    return Err(X3xError::NonzeroReserved);
                }
                k = k + 1;
            }
            Keying::KeyFile
        } else if bytes[8] == PASSWORD_FORMAT_VERSION {
            if expected_keying == ExpectedKeying::KeyFile {
                return Err(X3xError::PasswordProtected(expected_algorithm));
            }
            if bytes[63] != KDF_ID_ARGON2ID {
                return Err(X3xError::UnsupportedKdf(bytes[63]));
            }
            let memory_kib = u32_of_le(vstd::slice::slice_subrange(all, 56, 60));
            let iterations = u16_of_le(vstd::slice::slice_subrange(all, 60, 62));
            match PasswordKdf::from_header(memory_kib, iterations, bytes[62]) {
                Ok(parameters) => Keying::Password(parameters),
                Err(e) => return Err(e),
            }
        } else {
            return Err(X3xError::UnsupportedVersion(bytes[8]));
        };
        if bytes[10] as usize != expected_algorithm.tag_len() || bytes[11] as usize
            != expected_algorithm.nonce_len() {
            return Err(X3xError::InvalidAlgorithmParameters);
        }
        let chunk_size = u32_of_le(vstd::slice::slice_subrange(all, 12, 16));
        if chunk_size as usize != expected_chunk_size {
            return Err(X3xError::UnsupportedChunkSize(chunk_size));
        }
        let plaintext_len = u64_from_le_bytes(vstd::slice::slice_subrange(all, 16, 24));
        let mut nonce_seed: [u8; 32] = [0u8; 32];
        let mut n: usize = 0;
        while n < 32
            invariant
                n <= 32,
                forall|j: int| 0 <= j < n ==> nonce_seed@[j] == bytes@[24 + j],
            decreases 32 - n,
        {
            nonce_seed[n] = bytes[24 + n];
            n = n + 1;
        }
        assert(nonce_seed@ =~= bytes@.subrange(24, 56));
        let header = Header { bytes, plaintext_len, nonce_seed, keying };
        proof {
            lemma_accepted_header_is_canonical(bytes@, expected_algorithm, expected_chunk_size, expected_keying);
            assert(header.spec_bytes() == header_encoding(
                expected_algorithm,
                header.spec_plaintext_len(),
                header.spec_nonce_seed(),
                expected_chunk_size as u32,
                header.spec_keying(),
            ));
        }
        Ok(header)
    }

    /// The exact header bytes, which every record's associated data repeats.
    pub fn bytes(&self) -> (r: &[u8; 64])
        ensures
            r@ == self.spec_bytes(),
    {
        &self.bytes
    }

    /// The exact plaintext length that the header declares.
    pub fn plaintext_len(&self) -> (r: u64)
        ensures
            r == self.spec_plaintext_len(),
    {
        self.plaintext_len
    }

    /// The random nonce seed, which is also the key-derivation salt.
    pub fn nonce_seed(&self) -> (r: &[u8; 32])
        ensures
            r@ == self.spec_nonce_seed(),
    {
        &self.nonce_seed
    }

    /// How the container's key is obtained.
    pub fn keying(&self) -> (r: Keying)
        ensures
            r == self.spec_keying(),
    {
        self.keying
    }
}

/// Number of records of a file: one per started chunk, and one empty record
/// for an empty file so that its header is still authenticated.
pub open spec fn spec_chunk_count(plaintext_len: u64, chunk_size: usize) -> int {
    if plaintext_len == 0 {
        1
    } else {
        (plaintext_len + chunk_size - 1) / chunk_size as int
    }
}

/// Plaintext length of the record at `chunk_index`.
pub open spec fn spec_chunk_plaintext_len(plaintext_len: u64, chunk_size: usize, chunk_index: int) -> int {
    if plaintext_len == 0 {
        0
    } else if plaintext_len - chunk_index * chunk_size <= chunk_size {
        plaintext_len - chunk_index * chunk_size
    } else {
        chunk_size as int
    }
}

/// Associated data of a record: the header, the record index, the record's
/// plaintext length, a final-record flag and three zero bytes.
pub open spec fn spec_chunk_aad(
    header_bytes: Seq<u8>,
    chunk_index: u64,
    plaintext_len: u32,
    is_final: bool,
) -> Seq<u8> {
    header_bytes + spec_u64_to_le_bytes(chunk_index) + le_u32(plaintext_len) + seq![
        if is_final {
            1u8
        } else {
            0u8
        },
        0u8,
        0u8,
        0u8,
    ]
}

/// Big-endian bytes of a record index.
pub open spec fn be_u64(x: u64) -> Seq<u8> {
    spec_u64_to_le_bytes(x).reverse()
}

/// A record nonce: the algorithm-sized prefix of the seed, with the
/// big-endian record index XORed into its last eight bytes.
pub open spec fn spec_chunk_nonce(seed: Seq<u8>, nonce_len: usize, chunk_index: u64) -> Seq<u8> {
    Seq::new(
        nonce_len as nat,
        |i: int|
            if i < nonce_len - 8 {
                seed[i]
            } else {
                seed[i] ^ be_u64(chunk_index)[i - (nonce_len - 8)]
            },
    )
}

/// Number of records of a file.
pub fn chunk_count(plaintext_len: u64, chunk_size: usize) -> (r: u64)
    requires
        chunk_size > 0,
    ensures
        r == spec_chunk_count(plaintext_len, chunk_size),
{
    if plaintext_len == 0 {
        1
    } else {
        let chunk = chunk_size as u64;
        let whole = plaintext_len / chunk;
        let rest = plaintext_len % chunk;
        proof {
            lemma_ceil_div(plaintext_len as int, chunk as int);
        }
        if rest == 0 {
            whole
        } else {
            proof {
                vstd::arithmetic::div_mod::lemma_div_is_ordered_by_denominator(
                    plaintext_len as int,
                    1,
                    chunk as int,
                );
                vstd::arithmetic::div_mod::lemma_fundamental_div_mod(plaintext_len as int, chunk as int);
            }
            assert(whole < plaintext_len) by (nonlinear_arith)
                requires
                    plaintext_len == chunk * whole + rest,
                    rest > 0,
                    chunk >= 1,
            ;
            whole + 1
        }
    }
}

proof fn lemma_ceil_div(n: int, d: int)
    requires
        n > 0,
        d > 0,
    ensures
        (n + d - 1) / d == n / d + if n % d == 0 {
            0int
        } else {
            1int
        },
        n / d <= n,
{
    vstd::arithmetic::div_mod::lemma_fundamental_div_mod(n, d);
    vstd::arithmetic::div_mod::lemma_fundamental_div_mod(n + d - 1, d);
    vstd::arithmetic::div_mod::lemma_div_is_ordered_by_denominator(n, 1, d);
    let q = n / d;
    let r = n % d;
    assert(n == q * d + r) by (nonlinear_arith)
        requires
            n == d * (n / d) + n % d,
            q == n / d,
            r == n % d,
    ;
    assert((q + 1) * d == q * d + d) by (nonlinear_arith);
    if r == 0 {
        vstd::arithmetic::div_mod::lemma_fundamental_div_mod_converse(n + d - 1, d, q, d - 1);
    } else {
        vstd::arithmetic::div_mod::lemma_fundamental_div_mod_converse(n + d - 1, d, q + 1, r - 1);
    }
}

/// Plaintext length of the record at `chunk_index`. Offsets past the end of
/// the plaintext are left out: there the subtraction underflows, which panics
/// in a debug build and wraps in a release build; no record has such an
/// offset (`lemma_records_cover_plaintext`).
pub fn chunk_plaintext_len(plaintext_len: u64, chunk_size: usize, chunk_index: u64) -> (r: usize)
    requires
        chunk_index * chunk_size <= u64::MAX,
        plaintext_len == 0 || chunk_index * chunk_size <= plaintext_len,
    ensures
        r == spec_chunk_plaintext_len(plaintext_len, chunk_size, chunk_index as int),
{
    if plaintext_len == 0 {
        return 0;
    }
    let offset = chunk_index * (chunk_size as u64);
    let rest = plaintext_len - offset;
    if rest <= chunk_size as u64 {
        rest as usize
    } else {
        chunk_size
    }
}

/// Associated data of one record.
pub fn chunk_aad(header: &Header, chunk_index: u64, plaintext_len: usize, is_final: bool) -> (r: [u8; 80])
    requires
        plaintext_len <= u32::MAX,
    ensures
        r@ == spec_chunk_aad(header.spec_bytes(), chunk_index, plaintext_len as u32, is_final),
{
    let mut pieces: Vec<u8> = Vec::new();
    append_bytes(&mut pieces, header.bytes().as_slice());
    let index = u64_to_le_bytes(chunk_index);
    append_bytes(&mut pieces, index.as_slice());
    let length = le_u32_bytes(plaintext_len as u32);
    append_bytes(&mut pieces, length.as_slice());
    pieces.push(if is_final { 1u8 } else { 0u8 });
    pieces.push(0u8);
    pieces.push(0u8);
    pieces.push(0u8);
    assert(pieces@ =~= spec_chunk_aad(header.spec_bytes(), chunk_index, plaintext_len as u32, is_final));
    let mut aad: [u8; 80] = [0u8; 80];
    let mut i: usize = 0;
    while i < 80
        invariant
            i <= 80,
            pieces@.len() == 80,
            forall|j: int| 0 <= j < i ==> aad@[j] == pieces@[j],
        decreases 80 - i,
    {
        aad[i] = pieces[i];
        i = i + 1;
    }
    assert(aad@ =~= pieces@);
    aad
}

/// Nonce of one record.
pub fn chunk_nonce(seed: &[u8; 32], nonce_len: usize, chunk_index: u64) -> (r: Vec<u8>)
    requires
        8 <= nonce_len <= 32,
    ensures
        r@ == spec_chunk_nonce(seed@, nonce_len, chunk_index),
{
    let mut nonce: Vec<u8> = Vec::new();
    append_bytes(&mut nonce, vstd::slice::slice_subrange(seed.as_slice(), 0, nonce_len));
    let index = u64_to_le_bytes(chunk_index);
    let tail = nonce_len - 8;
    let mut k: usize = 0;
    while k < 8
        invariant
            k <= 8,
            tail == nonce_len - 8,
            8 <= nonce_len <= 32,
            index@ == spec_u64_to_le_bytes(chunk_index),
            index@.len() == 8,
            nonce@.len() == nonce_len,
            forall|j: int| 0 <= j < tail + k ==> nonce@[j] == spec_chunk_nonce(seed@, nonce_len, chunk_index)[j],
            forall|j: int| tail + k <= j < nonce_len ==> nonce@[j] == seed@[j],
        decreases 8 - k,
    {
        let value = nonce[tail + k] ^ index[7 - k];
        nonce.set(tail + k, value);
        k = k + 1;
    }
    assert(nonce@ =~= spec_chunk_nonce(seed@, nonce_len, chunk_index));
    nonce
}

/// A header written for a file is read back as the same file description by
/// the binary of the same algorithm and keying.
pub proof fn lemma_parse_new_round_trip(
    algorithm: Algorithm,
    plaintext_len: u64,
    nonce_seed: Seq<u8>,
    chunk_size: usize,
    keying: Keying,
)
    requires
        nonce_seed.len() == 32,
        chunk_size <= u32::MAX,
        keying matches Keying::Password(p) ==> kdf_within_bounds(
            p.memory_kib,
            p.iterations,
            p.lanes,
        ),
    ensures
        spec_parse_header(
            header_encoding(algorithm, plaintext_len, nonce_seed, chunk_size as u32, keying),
            algorithm,
            chunk_size,
            expected_keying_of(keying),
        ) == Ok::<(u64, Seq<u8>, Keying), X3xError>((plaintext_len, nonce_seed, keying)),
{
    lemma_le_round_trips();
    lemma_auto_spec_u64_to_from_le_bytes();
    let b = header_encoding(algorithm, plaintext_len, nonce_seed, chunk_size as u32, keying);
    let c = le_u32(chunk_size as u32);
    let l = spec_u64_to_le_bytes(plaintext_len);
    assert(b.len() == 64);
    assert(b.subrange(0, 8) =~= magic());
    assert(b.subrange(12, 16) =~= c);
    assert(b.subrange(16, 24) =~= l);
    assert(b.subrange(24, 56) =~= nonce_seed);
    match keying {
        Keying::KeyFile => {
            assert(forall|i: int| 56 <= i < 64 ==> b[i] == 0);
        },
        Keying::Password(p) => {
            assert(b.subrange(56, 60) =~= le_u32(p.memory_kib));
            assert(b.subrange(60, 62) =~= le_u16(p.iterations));
        },
    }
}

/// Header bytes that a binary accepts are exactly the bytes that describe
/// what it read from them, and their keying is the one that the binary
/// expects: nothing in an accepted header is left unchecked.
pub proof fn lemma_accepted_header_is_canonical(
    bytes: Seq<u8>,
    algorithm: Algorithm,
    chunk_size: usize,
    expected: ExpectedKeying,
)
    requires
        bytes.len() == 64,
        spec_parse_header(bytes, algorithm, chunk_size, expected) is Ok,
    ensures
        ({
            let (plaintext_len, nonce_seed, keying) = spec_parse_header(
                bytes,
                algorithm,
                chunk_size,
                expected,
            )->Ok_0;
            &&& chunk_size <= u32::MAX
            &&& bytes == header_encoding(
                algorithm,
                plaintext_len,
                nonce_seed,
                chunk_size as u32,
                keying,
            )
            &&& expected_keying_of(keying) == expected
        }),
{
    lemma_le_round_trips();
    lemma_auto_spec_u64_to_from_le_bytes();
    let (plaintext_len, nonce_seed, keying) = spec_parse_header(
        bytes,
        algorithm,
        chunk_size,
        expected,
    )->Ok_0;
    let c = from_le_u32(bytes.subrange(12, 16));
    assert(le_u32(c) == bytes.subrange(12, 16));
    assert(spec_u64_to_le_bytes(plaintext_len) == bytes.subrange(16, 24));
    lemma_id_of_accepted(bytes[9], algorithm);
    match keying {
        Keying::KeyFile => {
            assert(keying_trailer(keying) =~= bytes.subrange(56, 64));
        },
        Keying::Password(p) => {
            assert(le_u32(p.memory_kib) == bytes.subrange(56, 60));
            assert(le_u16(p.iterations) == bytes.subrange(60, 62));
            assert(keying_trailer(keying) =~= bytes.subrange(56, 64));
        },
    }
    assert(bytes =~= header_encoding(algorithm, plaintext_len, nonce_seed, c, keying));
}

proof fn lemma_id_of_accepted(id: u8, algorithm: Algorithm)
    requires
        Algorithm::spec_from_id(id) == Some(algorithm),
    ensures
        algorithm.spec_id() == id,
{
    crate::algorithm::lemma_id_round_trip(algorithm, id);
}

/// Distinct records of a file get distinct nonces.
pub proof fn lemma_chunk_nonces_distinct(seed: Seq<u8>, nonce_len: usize, first: u64, second: u64)
    requires
        seed.len() == 32,
        8 <= nonce_len <= 32,
        first != second,
    ensures
        spec_chunk_nonce(seed, nonce_len, first) != spec_chunk_nonce(seed, nonce_len, second),
{
    lemma_auto_spec_u64_to_from_le_bytes();
    let a = spec_chunk_nonce(seed, nonce_len, first);
    let b = spec_chunk_nonce(seed, nonce_len, second);
    let la = spec_u64_to_le_bytes(first);
    let lb = spec_u64_to_le_bytes(second);
    if a == b {
        assert forall|k: int| 0 <= k < 8 implies la[k] == lb[k] by {
            let position = nonce_len - 1 - k;
            assert(a[position] == b[position]);
            let s = seed[position];
            let x = la[k];
            let y = lb[k];
            assert(a[position] == s ^ x);
            assert(b[position] == s ^ y);
            assert(s ^ x == s ^ y ==> x == y) by (bit_vector);
        }
        assert(la =~= lb);
    }
}

/// Records that a file of `plaintext_len` bytes is split into.
pub open spec fn records_len_sum(plaintext_len: u64, chunk_size: usize, records: nat) -> int
    decreases records,
{
    if records == 0 {
        0
    } else {
        records_len_sum(plaintext_len, chunk_size, (records - 1) as nat) + spec_chunk_plaintext_len(
            plaintext_len,
            chunk_size,
            records - 1,
        )
    }
}

pub(crate) proof fn lemma_count_bounds(plaintext_len: u64, chunk_size: usize)
    requires
        plaintext_len > 0,
        chunk_size > 0,
    ensures
        spec_chunk_count(plaintext_len, chunk_size) >= 1,
        (spec_chunk_count(plaintext_len, chunk_size) - 1) * chunk_size < plaintext_len,
        plaintext_len <= spec_chunk_count(plaintext_len, chunk_size) * chunk_size,
{
    let n = plaintext_len as int;
    let d = chunk_size as int;
    let q = (n + d - 1) / d;
    let r = (n + d - 1) % d;
    vstd::arithmetic::div_mod::lemma_fundamental_div_mod(n + d - 1, d);
    assert(n + d - 1 == q * d + r) by (nonlinear_arith)
        requires
            n + d - 1 == d * ((n + d - 1) / d) + (n + d - 1) % d,
            q == (n + d - 1) / d,
            r == (n + d - 1) % d,
    ;
    assert(0 <= r < d);
    assert((q - 1) * d == q * d - d) by (nonlinear_arith);
    assert(q >= 1) by (nonlinear_arith)
        requires
            n + d - 1 == q * d + r,
            0 <= r < d,
            n >= 1,
            d >= 1,
    ;
}

proof fn lemma_prefix_sum(plaintext_len: u64, chunk_size: usize, records: nat)
    requires
        plaintext_len > 0,
        chunk_size > 0,
        records <= spec_chunk_count(plaintext_len, chunk_size),
    ensures
        records_len_sum(plaintext_len, chunk_size, records) == if records * chunk_size
            <= plaintext_len {
            records * chunk_size
        } else {
            plaintext_len as int
        },
    decreases records,
{
    if records > 0 {
        lemma_prefix_sum(plaintext_len, chunk_size, (records - 1) as nat);
        lemma_count_bounds(plaintext_len, chunk_size);
        let c = spec_chunk_count(plaintext_len, chunk_size);
        let i = records - 1;
        assert(i * chunk_size <= (c - 1) * chunk_size) by (nonlinear_arith)
            requires
                i <= c - 1,
                chunk_size > 0,
        ;
        assert(records * chunk_size == i * chunk_size + chunk_size) by (nonlinear_arith)
            requires
                i == records - 1,
        ;
        assert(i * chunk_size < plaintext_len);
        assert(records_len_sum(plaintext_len, chunk_size, (records - 1) as nat) == i * chunk_size);
        assert(records_len_sum(plaintext_len, chunk_size, records) == i * chunk_size
            + spec_chunk_plaintext_len(plaintext_len, chunk_size, i));
    } else {
        assert(records * chunk_size == 0) by (nonlinear_arith)
            requires
                records == 0,
        ;
    }
}

/// The records of a file partition its plaintext in order: every record but
/// the last holds a full chunk, the last holds the rest (and is nonempty for
/// a nonempty file, empty for an empty one), their lengths add up to the
/// file's length, and every record's offset lies within the file.
pub proof fn lemma_records_cover_plaintext(plaintext_len: u64, chunk_size: usize)
    requires
        chunk_size > 0,
    ensures
        records_len_sum(
            plaintext_len,
            chunk_size,
            spec_chunk_count(plaintext_len, chunk_size) as nat,
        ) == plaintext_len,
        forall|i: int|
            0 <= i < spec_chunk_count(plaintext_len, chunk_size) - 1 ==> spec_chunk_plaintext_len(
                plaintext_len,
                chunk_size,
                i,
            ) == chunk_size,
        plaintext_len > 0 ==> 0 < spec_chunk_plaintext_len(
            plaintext_len,
            chunk_size,
            spec_chunk_count(plaintext_len, chunk_size) - 1,
        ) <= chunk_size,
        forall|i: int|
            0 <= i < spec_chunk_count(plaintext_len, chunk_size) ==> #[trigger] (i * chunk_size)
                <= plaintext_len,
{
    if plaintext_len == 0 {
        assert(records_len_sum(plaintext_len, chunk_size, 0) == 0);
        assert(records_len_sum(plaintext_len, chunk_size, 1) == 0);
    } else {
        let c = spec_chunk_count(plaintext_len, chunk_size);
        lemma_count_bounds(plaintext_len, chunk_size);
        lemma_prefix_sum(plaintext_len, chunk_size, c as nat);
        assert forall|i: int| 0 <= i < c implies #[trigger] (i * chunk_size) <= plaintext_len by {
            assert(i * chunk_size <= (c - 1) * chunk_size) by (nonlinear_arith)
                requires
                    i <= c - 1,
                    chunk_size > 0,
            ;
        }
        assert forall|i: int| 0 <= i < c - 1 implies spec_chunk_plaintext_len(
            plaintext_len,
            chunk_size,
            i,
        ) == chunk_size by {
            assert((i + 1) * chunk_size <= (c - 1) * chunk_size) by (nonlinear_arith)
                requires
                    i + 1 <= c - 1,
                    chunk_size > 0,
            ;
            assert((i + 1) * chunk_size == i * chunk_size + chunk_size) by (nonlinear_arith);
        }
        assert(plaintext_len - (c - 1) * chunk_size > 0);
    }
}

/// The associated data of a record determines the record's index, length
/// and final flag: records cannot be reordered, resized or have their final
/// flag changed without the associated data changing.
pub proof fn lemma_chunk_aad_binds_record(
    header_bytes: Seq<u8>,
    first_index: u64,
    first_len: u32,
    first_final: bool,
    second_index: u64,
    second_len: u32,
    second_final: bool,
)
    requires
        header_bytes.len() == HEADER_LEN,
        spec_chunk_aad(header_bytes, first_index, first_len, first_final) == spec_chunk_aad(
            header_bytes,
            second_index,
            second_len,
            second_final,
        ),
    ensures
        first_index == second_index,
        first_len == second_len,
        first_final == second_final,
{
    lemma_le_round_trips();
    lemma_auto_spec_u64_to_from_le_bytes();
    let a = spec_chunk_aad(header_bytes, first_index, first_len, first_final);
    let b = spec_chunk_aad(header_bytes, second_index, second_len, second_final);
    assert(a.subrange(64, 72) =~= spec_u64_to_le_bytes(first_index));
    assert(b.subrange(64, 72) =~= spec_u64_to_le_bytes(second_index));
    assert(a.subrange(72, 76) =~= le_u32(first_len));
    assert(b.subrange(72, 76) =~= le_u32(second_len));
    assert(from_le_u32(le_u32(first_len)) == first_len);
    assert(from_le_u32(le_u32(second_len)) == second_len);
    assert(a[76] == b[76]);
}

/// A header written by one algorithm's binary is refused by every other
/// algorithm's binary, which names the algorithm that made it.
pub proof fn lemma_other_algorithm_refused(
    algorithm: Algorithm,
    reader: Algorithm,
    plaintext_len: u64,
    nonce_seed: Seq<u8>,
    chunk_size: usize,
    keying: Keying,
    expected: ExpectedKeying,
)
    requires
        nonce_seed.len() == 32,
        algorithm != reader,
    ensures
        spec_parse_header(
            header_encoding(algorithm, plaintext_len, nonce_seed, chunk_size as u32, keying),
            reader,
            chunk_size,
            expected,
        ) == Err::<(u64, Seq<u8>, Keying), X3xError>(
            X3xError::WrongAlgorithm { actual: algorithm, expected: reader },
        ),
{
    let b = header_encoding(algorithm, plaintext_len, nonce_seed, chunk_size as u32, keying);
    assert(b.subrange(0, 8) =~= magic());
    crate::algorithm::lemma_id_round_trip(algorithm, b[9]);
}

/// Key-file and password containers cannot be mixed: a key-file binary
/// refuses a password container and a password binary refuses a key-file
/// container, each naming the binary to use.
pub proof fn lemma_keying_mismatch_refused(
    algorithm: Algorithm,
    plaintext_len: u64,
    nonce_seed: Seq<u8>,
    chunk_size: usize,
    keying: Keying,
    expected: ExpectedKeying,
)
    requires
        nonce_seed.len() == 32,
        expected != expected_keying_of(keying),
    ensures
        spec_parse_header(
            header_encoding(algorithm, plaintext_len, nonce_seed, chunk_size as u32, keying),
            algorithm,
            chunk_size,
            expected,
        ) == Err::<(u64, Seq<u8>, Keying), X3xError>(
            match keying {
                Keying::KeyFile => X3xError::UsesKeyFile(algorithm),
                Keying::Password(_) => X3xError::PasswordProtected(algorithm),
            },
        ),
{
    let b = header_encoding(algorithm, plaintext_len, nonce_seed, chunk_size as u32, keying);
    assert(b.subrange(0, 8) =~= magic());
    crate::algorithm::lemma_id_round_trip(algorithm, b[9]);
}

/// A record nonce is the first `nonce_len` seed bytes, with the record index
/// XORed big-endian into the last eight: the last nonce byte takes the index's
/// lowest byte, the one before it the next byte, and so on; every earlier byte
/// is the seed byte itself.
pub proof fn lemma_chunk_nonce_bytes(seed: Seq<u8>, nonce_len: usize, index: u64)
    requires
        seed.len() == 32,
        8 <= nonce_len <= 32,
    ensures
        spec_chunk_nonce(seed, nonce_len, index).len() == nonce_len,
        forall|i: int|
            0 <= i < nonce_len - 8 ==> #[trigger] spec_chunk_nonce(seed, nonce_len, index)[i]
                == seed[i],
        ({
            let nonce = spec_chunk_nonce(seed, nonce_len, index);
            let n = nonce_len as int;
            &&& nonce[n - 1] == seed[n - 1] ^ (index as u8)
            &&& nonce[n - 2] == seed[n - 2] ^ ((index >> 8u64) as u8)
            &&& nonce[n - 3] == seed[n - 3] ^ ((index >> 16u64) as u8)
            &&& nonce[n - 4] == seed[n - 4] ^ ((index >> 24u64) as u8)
            &&& nonce[n - 5] == seed[n - 5] ^ ((index >> 32u64) as u8)
            &&& nonce[n - 6] == seed[n - 6] ^ ((index >> 40u64) as u8)
            &&& nonce[n - 7] == seed[n - 7] ^ ((index >> 48u64) as u8)
            &&& nonce[n - 8] == seed[n - 8] ^ ((index >> 56u64) as u8)
        }),
        spec_chunk_nonce(seed, nonce_len, index)[nonce_len - 1] == seed[nonce_len - 1] ^ ((index
            % 256) as u8),
{
    spec_u64_to_le_bytes_to_open(index);
    let x = index;
    assert(((x & 0xff) as u8 == x as u8) && (((x >> 8) & 0xff) as u8 == (x >> 8) as u8) && (((x
        >> 16) & 0xff) as u8 == (x >> 16) as u8) && (((x >> 24) & 0xff) as u8 == (x >> 24) as u8)
        && (((x >> 32) & 0xff) as u8 == (x >> 32) as u8) && (((x >> 40) & 0xff) as u8 == (x
        >> 40) as u8) && (((x >> 48) & 0xff) as u8 == (x >> 48) as u8) && (((x >> 56) & 0xff) as u8
        == (x >> 56) as u8) && ((x % 256) as u8 == x as u8)) by (bit_vector);
}

/// The number of records is the least count of chunks that holds the
/// plaintext: one for an empty file, otherwise `c` with
/// `(c - 1) * chunk_size < plaintext_len <= c * chunk_size`.
pub proof fn lemma_chunk_count_is_ceiling(plaintext_len: u64, chunk_size: usize)
    requires
        chunk_size > 0,
    ensures
        plaintext_len == 0 ==> spec_chunk_count(plaintext_len, chunk_size) == 1,
        plaintext_len > 0 ==> {
            let c = spec_chunk_count(plaintext_len, chunk_size);
            &&& c >= 1
            &&& (c - 1) * chunk_size < plaintext_len
            &&& plaintext_len <= c * chunk_size
        },
{
    if plaintext_len > 0 {
        lemma_count_bounds(plaintext_len, chunk_size);
    }
}

/// The header bytes, one field at a time: the ASCII magic `X3XCRYPT`, the
/// version (1 for a key file, 2 for a password), the algorithm identifier, the
/// tag length (16 for an AEAD, 64 otherwise), the nonce length, the chunk
/// size and the plaintext length little-endian, the nonce seed, and the
/// trailer (zeros for a key file; memory cost and passes little-endian, lanes
/// and KDF identifier 1 for a password).
pub proof fn lemma_header_layout(
    algorithm: Algorithm,
    plaintext_len: u64,
    nonce_seed: Seq<u8>,
    chunk_size: u32,
    keying: Keying,
)
    requires
        nonce_seed.len() == 32,
    ensures
        ({
            let b = header_encoding(algorithm, plaintext_len, nonce_seed, chunk_size, keying);
            &&& b.len() == 64
            &&& b[0] == 0x58 && b[1] == 0x33 && b[2] == 0x58 && b[3] == 0x43
            &&& b[4] == 0x52 && b[5] == 0x59 && b[6] == 0x50 && b[7] == 0x54
            &&& b[8] == (if keying is KeyFile { 1u8 } else { 2u8 })
            &&& b[9] == algorithm.spec_id()
            &&& b[10] == (if algorithm.spec_is_aead() { 16u8 } else { 64u8 })
            &&& b[11] == algorithm.spec_nonce_len()
            &&& b[12] == chunk_size as u8 && b[13] == (chunk_size >> 8u32) as u8
            &&& b[14] == (chunk_size >> 16u32) as u8 && b[15] == (chunk_size >> 24u32) as u8
            &&& b[16] == plaintext_len as u8 && b[17] == (plaintext_len >> 8u64) as u8
            &&& b[18] == (plaintext_len >> 16u64) as u8 && b[19] == (plaintext_len >> 24u64) as u8
            &&& b[20] == (plaintext_len >> 32u64) as u8 && b[21] == (plaintext_len >> 40u64) as u8
            &&& b[22] == (plaintext_len >> 48u64) as u8 && b[23] == (plaintext_len >> 56u64) as u8
            &&& forall|i: int| 0 <= i < 32 ==> #[trigger] b[24 + i] == nonce_seed[i]
            &&& keying is KeyFile ==> forall|i: int| 56 <= i < 64 ==> #[trigger] b[i] == 0
            &&& keying matches Keying::Password(p) ==> {
                &&& b[56] == p.memory_kib as u8 && b[57] == (p.memory_kib >> 8u32) as u8
                &&& b[58] == (p.memory_kib >> 16u32) as u8 && b[59] == (p.memory_kib >> 24u32) as u8
                &&& b[60] == p.iterations as u8 && b[61] == (p.iterations >> 8u16) as u8
                &&& b[62] == p.lanes
                &&& b[63] == 1
            }
        }),
{
    lemma_le_bytes_open(chunk_size, plaintext_len, keying);
}

proof fn lemma_le_bytes_open(chunk_size: u32, plaintext_len: u64, keying: Keying)
    ensures
        ({
            let c = le_u32(chunk_size);
            &&& c.len() == 4
            &&& c[0] == chunk_size as u8 && c[1] == (chunk_size >> 8u32) as u8
            &&& c[2] == (chunk_size >> 16u32) as u8 && c[3] == (chunk_size >> 24u32) as u8
        }),
        ({
            let l = spec_u64_to_le_bytes(plaintext_len);
            &&& l.len() == 8
            &&& l[0] == plaintext_len as u8 && l[1] == (plaintext_len >> 8u64) as u8
            &&& l[2] == (plaintext_len >> 16u64) as u8 && l[3] == (plaintext_len >> 24u64) as u8
            &&& l[4] == (plaintext_len >> 32u64) as u8 && l[5] == (plaintext_len >> 40u64) as u8
            &&& l[6] == (plaintext_len >> 48u64) as u8 && l[7] == (plaintext_len >> 56u64) as u8
        }),
        keying matches Keying::Password(p) ==> ({
            let m = le_u32(p.memory_kib);
            let t = le_u16(p.iterations);
            &&& m.len() == 4 && t.len() == 2
            &&& m[0] == p.memory_kib as u8 && m[1] == (p.memory_kib >> 8u32) as u8
            &&& m[2] == (p.memory_kib >> 16u32) as u8 && m[3] == (p.memory_kib >> 24u32) as u8
            &&& t[0] == p.iterations as u8 && t[1] == (p.iterations >> 8u16) as u8
        }),
{
    lemma_u32_le_bytes(chunk_size);
    lemma_u64_le_bytes(plaintext_len);
    if let Keying::Password(p) = keying {
        lemma_u32_le_bytes(p.memory_kib);
        lemma_u16_le_bytes(p.iterations);
    }
}

/// The little-endian bytes of a `u64`, lowest first.
pub proof fn lemma_u64_le_bytes(x: u64)
    ensures
        ({
            let l = spec_u64_to_le_bytes(x);
            &&& l.len() == 8
            &&& l[0] == x as u8 && l[1] == (x >> 8u64) as u8
            &&& l[2] == (x >> 16u64) as u8 && l[3] == (x >> 24u64) as u8
            &&& l[4] == (x >> 32u64) as u8 && l[5] == (x >> 40u64) as u8
            &&& l[6] == (x >> 48u64) as u8 && l[7] == (x >> 56u64) as u8
        }),
{
    spec_u64_to_le_bytes_to_open(x);
    assert(((x & 0xff) as u8 == x as u8) && (((x >> 8) & 0xff) as u8 == (x >> 8) as u8) && (((x
        >> 16) & 0xff) as u8 == (x >> 16) as u8) && (((x >> 24) & 0xff) as u8 == (x >> 24) as u8)
        && (((x >> 32) & 0xff) as u8 == (x >> 32) as u8) && (((x >> 40) & 0xff) as u8 == (x
        >> 40) as u8) && (((x >> 48) & 0xff) as u8 == (x >> 48) as u8) && (((x >> 56) & 0xff) as u8
        == (x >> 56) as u8)) by (bit_vector);
}

/// The little-endian bytes of a `u32`, lowest first.
pub proof fn lemma_u32_le_bytes(x: u32)
    ensures
        ({
            let c = le_u32(x);
            &&& c.len() == 4
            &&& c[0] == x as u8 && c[1] == (x >> 8u32) as u8
            &&& c[2] == (x >> 16u32) as u8 && c[3] == (x >> 24u32) as u8
        }),
{
}

/// The little-endian bytes of a `u16`, lowest first.
pub proof fn lemma_u16_le_bytes(x: u16)
    ensures
        ({
            let t = le_u16(x);
            &&& t.len() == 2
            &&& t[0] == x as u8 && t[1] == (x >> 8u16) as u8
        }),
{
}

/// The associated data of a record, one field at a time: the 64 header
/// bytes, the record index little-endian, the record length little-endian,
/// 1 for the final record and 0 otherwise, then three zero bytes.
pub proof fn lemma_chunk_aad_layout(
    header_bytes: Seq<u8>,
    chunk_index: u64,
    plaintext_len: u32,
    is_final: bool,
)
    requires
        header_bytes.len() == HEADER_LEN,
    ensures
        ({
            let a = spec_chunk_aad(header_bytes, chunk_index, plaintext_len, is_final);
            &&& a.len() == 80
            &&& forall|i: int| 0 <= i < 64 ==> #[trigger] a[i] == header_bytes[i]
            &&& a[64] == chunk_index as u8 && a[65] == (chunk_index >> 8u64) as u8
            &&& a[66] == (chunk_index >> 16u64) as u8 && a[67] == (chunk_index >> 24u64) as u8
            &&& a[68] == (chunk_index >> 32u64) as u8 && a[69] == (chunk_index >> 40u64) as u8
            &&& a[70] == (chunk_index >> 48u64) as u8 && a[71] == (chunk_index >> 56u64) as u8
            &&& a[72] == plaintext_len as u8 && a[73] == (plaintext_len >> 8u32) as u8
            &&& a[74] == (plaintext_len >> 16u32) as u8 && a[75] == (plaintext_len >> 24u32) as u8
            &&& a[76] == (if is_final { 1u8 } else { 0u8 })
            &&& a[77] == 0 && a[78] == 0 && a[79] == 0
        }),
{
    lemma_u64_le_bytes(chunk_index);
    lemma_u32_le_bytes(plaintext_len);
}

} // verus!
