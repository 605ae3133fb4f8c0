use vstd::prelude::*;

use crate::error::X3xError;
use crate::outside::{argon2_accepts, argon2id_hash, argon2id_v13};

verus! {

/// Identifier byte of Argon2id v1.3 in the password container.
pub const KDF_ID_ARGON2ID: u8 = 1;

/// Argon2id cost parameters recorded in a password container.
#[derive(Clone, Copy, Debug, PartialEq, Eq, Structural)]
pub struct PasswordKdf {
    /// Memory cost in KiB.
    pub memory_kib: u32,
    /// Number of passes.
    pub iterations: u16,
    /// Degree of parallelism.
    pub lanes: u8,
}

/// The production cost: 512 MiB of memory, four passes, four lanes.
pub open spec fn production_kdf() -> PasswordKdf {
    PasswordKdf { memory_kib: 524288, iterations: 4, lanes: 4 }
}

/// The parameters that a password container may ask for: at least one lane
/// and one pass, at least eight KiB of memory per lane, and never more of any
/// of them than the production cost.
pub open spec fn kdf_within_bounds(memory_kib: u32, iterations: u16, lanes: u8) -> bool {
    &&& 1 <= lanes <= production_kdf().lanes
    &&& 1 <= iterations <= production_kdf().iterations
    &&& 8 * lanes <= memory_kib <= production_kdf().memory_kib
}

impl PasswordKdf {
    /// What a header's parameter fields are taken to mean, or the first
    /// bound that they break: lanes, then passes, then memory.
    pub open spec fn spec_from_header(memory_kib: u32, iterations: u16, lanes: u8) -> Result<
        PasswordKdf,
        X3xError,
    > {
        if !(1 <= lanes <= production_kdf().lanes) {
            Err(X3xError::KdfLanes(lanes))
        } else if !(1 <= iterations <= production_kdf().iterations) {
            Err(X3xError::KdfIterations(iterations))
        } else if !(8 * lanes <= memory_kib <= production_kdf().memory_kib) {
            Err(X3xError::KdfMemoryCost(memory_kib))
        } else {
            Ok(PasswordKdf { memory_kib, iterations, lanes })
        }
    }

    /// The production Argon2id cost.
    pub fn production() -> (r: PasswordKdf)
        ensures
            r == production_kdf(),
    {
        PasswordKdf { memory_kib: 524288, iterations: 4, lanes: 4 }
    }

    /// A cheap cost for tests; it lies within the accepted bounds.
    pub fn testing() -> (r: PasswordKdf)
        ensures
            r == (PasswordKdf { memory_kib: 64, iterations: 1, lanes: 1 }),
            kdf_within_bounds(r.memory_kib, r.iterations, r.lanes),
    {
        PasswordKdf { memory_kib: 64, iterations: 1, lanes: 1 }
    }

    /// Accept the parameters read from a header only within the bounds.
    pub fn from_header(memory_kib: u32, iterations: u16, lanes: u8) -> (r: Result<
        PasswordKdf,
        X3xError,
    >)
        ensures
            r == PasswordKdf::spec_from_header(memory_kib, iterations, lanes),
            r is Ok <==> kdf_within_bounds(memory_kib, iterations, lanes),
    {
        if lanes < 1 || lanes > 4 {
            Err(X3xError::KdfLanes(lanes))
        } else if iterations < 1 || iterations > 4 {
            Err(X3xError::KdfIterations(iterations))
        } else if (memory_kib as u64) < 8 * (lanes as u64) || memory_kib > 524288 {
            Err(X3xError::KdfMemoryCost(memory_kib))
        } else {
            Ok(PasswordKdf { memory_kib, iterations, lanes })
        }
    }
}

/// The 64-byte Argon2id v1.3 root key of a password container: the password
/// and the container's salt under the recorded cost.
pub open spec fn spec_password_root_key(password: Seq<u8>, salt: Seq<u8>, kdf: PasswordKdf) -> Seq<u8> {
    argon2id_v13(password, salt, kdf.memory_kib, kdf.iterations as u32, kdf.lanes as u32, 64)
}

/// Derive the 64-byte root key of a password container with Argon2id v1.3
/// under the recorded cost. Argon2id refuses exactly what `argon2_accepts`
/// leaves out; for a cost within the container bounds and a 32-byte salt
/// that is only a password longer than 2^32 - 1 bytes.
pub fn password_root_key(password: &[u8], salt: &[u8], kdf: PasswordKdf) -> (r: Result<
    [u8; 64],
    X3xError,
>)
    ensures
        r is Ok <==> argon2_accepts(
            password@.len(),
            salt@.len(),
            kdf.memory_kib,
            kdf.iterations as u32,
            kdf.lanes as u32,
        ),
        r matches Ok(root) ==> root@ == spec_password_root_key(password@, salt@, kdf),
        r is Err ==> r == Err::<[u8; 64], X3xError>(X3xError::KeyDerivationFailed),
{
    match argon2id_hash(password, salt, kdf.memory_kib, kdf.iterations as u32, kdf.lanes as u32) {
        Ok(root) => Ok(root),
        Err(_) => Err(X3xError::KeyDerivationFailed),
    }
}

} // verus!
