//! Verified core of the x3x file tools: algorithm parameters, the encrypted
//! container header and record layout, filename rules, key-size rules, the
//! one-time-pad transform, and the key-derivation steps of the key maker.

pub mod algorithm;
pub mod container;
pub mod error;
pub mod filename;
pub mod format;
pub mod password;
pub mod key_tools;
pub mod le;
pub mod otp;
pub mod outside;

pub use algorithm::{Algorithm, Mode};
pub use container::CHUNK_SIZE;
pub use error::X3xError;
