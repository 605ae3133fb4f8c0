use vstd::prelude::*;

use crate::algorithm::Algorithm;

verus! {

/// Every way in which the verified library refuses an input.
#[derive(Clone, Copy, Debug, PartialEq, Eq)]
pub enum X3xError {
    /// The algorithm identifier byte names no supported algorithm.
    UnknownAlgorithm(u8),
    /// The operation argument is neither `E` nor `D`.
    InvalidMode,
    /// A recorded password KDF asks for an unsupported number of lanes.
    KdfLanes(u8),
    /// A recorded password KDF asks for an unsupported number of passes.
    KdfIterations(u16),
    /// A recorded password KDF asks for an unsupported memory cost.
    KdfMemoryCost(u32),
    /// The input does not start with the container magic.
    NotX3xFile,
    /// The container was made by another algorithm's binary.
    WrongAlgorithm { actual: Algorithm, expected: Algorithm },
    /// A key-file container was given to a password binary.
    UsesKeyFile(Algorithm),
    /// A password container was given to a key-file binary.
    PasswordProtected(Algorithm),
    /// A key-file header has nonzero reserved bytes.
    NonzeroReserved,
    /// A password header names an unknown key-derivation function.
    UnsupportedKdf(u8),
    /// The header's format version is unknown.
    UnsupportedVersion(u8),
    /// The header's tag or nonce length does not match the algorithm.
    InvalidAlgorithmParameters,
    /// The header records a chunk size other than the expected one.
    UnsupportedChunkSize(u32),
    /// A key size outside 1 through `MAX_KEY_SIZE` bytes.
    InvalidKeySize(u64),
    /// An empty password.
    EmptyPassword,
    /// Argon2id refused its inputs.
    KeyDerivationFailed,
    /// The operating-system random generator failed.
    RandomUnavailable,
    /// The container length that a header implies does not fit 64 bits.
    EncryptedLengthOverflow,
    /// The container is not exactly as long as its header implies.
    InvalidEncryptedLength { expected_len: u64, found_len: u64 },
    /// The input changed while it was encrypted.
    InputChanged,
    /// The container holds bytes after its last record or tag.
    TrailingData,
    /// A key file of the wrong length.
    KeyLength { required: usize, provided: u64 },
    /// The active key file was named as the input.
    KeyFileAsInput,
    /// The active key file was named as the output.
    KeyFileAsOutput,
    /// A filename with a path separator, a colon, or a trailing dot or space.
    NonPortableFilename,
    /// A filename that Windows reserves for a device.
    ReservedDeviceName,
    /// A name that is not a single filename in the working directory.
    NotLocalFilename,
    /// An OTP key shorter than the input.
    OtpKeyTooShort { input_len: u64, key_len: u64 },
}

} // verus!
