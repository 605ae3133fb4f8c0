use vstd::prelude::*;

use crate::error::X3xError;

verus! {

/// Encryption algorithms supported by the standalone cipher binaries.
#[derive(Clone, Copy, Debug, PartialEq, Eq, Structural)]
pub enum Algorithm {
    Aes256GcmSiv,
    XChaCha20Poly1305,
    Serpent256,
    Threefish1024,
    AsconAead128,
    Rabbit,
    Aegis256,
    Aegis128L,
}

/// Every algorithm, in identifier order.
pub open spec fn all_algorithms() -> Seq<Algorithm> {
    seq![
        Algorithm::Aes256GcmSiv,
        Algorithm::XChaCha20Poly1305,
        Algorithm::Serpent256,
        Algorithm::Threefish1024,
        Algorithm::AsconAead128,
        Algorithm::Rabbit,
        Algorithm::Aegis256,
        Algorithm::Aegis128L,
    ]
}

impl Algorithm {
    /// The container identifier byte of the algorithm.
    pub open spec fn spec_id(self) -> u8 {
        match self {
            Algorithm::Aes256GcmSiv => 1,
            Algorithm::XChaCha20Poly1305 => 2,
            Algorithm::Serpent256 => 3,
            Algorithm::Threefish1024 => 4,
            Algorithm::AsconAead128 => 5,
            Algorithm::Rabbit => 6,
            Algorithm::Aegis256 => 7,
            Algorithm::Aegis128L => 8,
        }
    }

    /// The algorithm whose identifier is `id`, if any.
    pub open spec fn spec_from_id(id: u8) -> Option<Algorithm> {
        if 1 <= id <= 8 {
            Some(all_algorithms()[id - 1])
        } else {
            None
        }
    }

    pub open spec fn spec_key_len(self) -> usize {
        match self {
            Algorithm::Aes256GcmSiv | Algorithm::XChaCha20Poly1305 | Algorithm::Serpent256
            | Algorithm::Aegis256 => 32,
            Algorithm::Threefish1024 => 128,
            Algorithm::AsconAead128 | Algorithm::Rabbit | Algorithm::Aegis128L => 16,
        }
    }

    pub open spec fn spec_is_aead(self) -> bool {
        match self {
            Algorithm::Aes256GcmSiv | Algorithm::XChaCha20Poly1305 | Algorithm::AsconAead128
            | Algorithm::Aegis256 | Algorithm::Aegis128L => true,
            _ => false,
        }
    }

    pub open spec fn spec_tag_len(self) -> usize {
        if self.spec_is_aead() {
            16
        } else {
            64
        }
    }

    pub open spec fn spec_nonce_len(self) -> usize {
        match self {
            Algorithm::Aes256GcmSiv => 12,
            Algorithm::XChaCha20Poly1305 => 24,
            Algorithm::AsconAead128 | Algorithm::Aegis128L => 16,
            Algorithm::Aegis256 | Algorithm::Serpent256 | Algorithm::Threefish1024
            | Algorithm::Rabbit => 32,
        }
    }

    pub open spec fn spec_key_filename(self) -> Seq<char> {
        match self {
            Algorithm::Aes256GcmSiv => "aes.key"@,
            Algorithm::XChaCha20Poly1305 => "cha.key"@,
            Algorithm::Serpent256 => "ser.key"@,
            Algorithm::Threefish1024 => "thf.key"@,
            Algorithm::AsconAead128 => "asc.key"@,
            Algorithm::Rabbit => "rab.key"@,
            Algorithm::Aegis256 => "aegis256.key"@,
            Algorithm::Aegis128L => "aegis128l.key"@,
        }
    }

    pub open spec fn spec_command(self) -> Seq<char> {
        match self {
            Algorithm::Aes256GcmSiv => "aes"@,
            Algorithm::XChaCha20Poly1305 => "cha"@,
            Algorithm::Serpent256 => "ser"@,
            Algorithm::Threefish1024 => "thf"@,
            Algorithm::AsconAead128 => "asc"@,
            Algorithm::Rabbit => "rabbit"@,
            Algorithm::Aegis256 => "aegis256"@,
            Algorithm::Aegis128L => "aegis128l"@,
        }
    }

    pub open spec fn spec_password_command(self) -> Seq<char> {
        match self {
            Algorithm::Aes256GcmSiv => "aesp"@,
            Algorithm::XChaCha20Poly1305 => "chap"@,
            Algorithm::Serpent256 => "serp"@,
            Algorithm::Threefish1024 => "thfp"@,
            Algorithm::AsconAead128 => "ascp"@,
            Algorithm::Rabbit => "rabbitp"@,
            Algorithm::Aegis256 => "aegis256p"@,
            Algorithm::Aegis128L => "aegis128lp"@,
        }
    }

    pub open spec fn spec_display_name(self) -> Seq<char> {
        match self {
            Algorithm::Aes256GcmSiv => "AES-256-GCM-SIV"@,
            Algorithm::XChaCha20Poly1305 => "XChaCha20-Poly1305"@,
            Algorithm::Serpent256 => "Serpent-256-CTR + HMAC-SHA-512"@,
            Algorithm::Threefish1024 => "Threefish-1024-CTR + HMAC-SHA-512"@,
            Algorithm::AsconAead128 => "Ascon-AEAD128"@,
            Algorithm::Rabbit => "Rabbit + HMAC-SHA-512"@,
            Algorithm::Aegis256 => "AEGIS-256"@,
            Algorithm::Aegis128L => "AEGIS-128L"@,
        }
    }

    /// The container identifier byte of the algorithm.
    pub fn id(self) -> (r: u8)
        ensures
            r == self.spec_id(),
    {
        match self {
            Algorithm::Aes256GcmSiv => 1,
            Algorithm::XChaCha20Poly1305 => 2,
            Algorithm::Serpent256 => 3,
            Algorithm::Threefish1024 => 4,
            Algorithm::AsconAead128 => 5,
            Algorithm::Rabbit => 6,
            Algorithm::Aegis256 => 7,
            Algorithm::Aegis128L => 8,
        }
    }

    /// The algorithm with identifier `id`; any other byte is refused.
    pub fn from_id(id: u8) -> (r: Result<Algorithm, X3xError>)
        ensures
            match Algorithm::spec_from_id(id) {
                Some(a) => r == Ok::<Algorithm, X3xError>(a),
                None => r == Err::<Algorithm, X3xError>(X3xError::UnknownAlgorithm(id)),
            },
    {
        match id {
            1 => Ok(Algorithm::Aes256GcmSiv),
            2 => Ok(Algorithm::XChaCha20Poly1305),
            3 => Ok(Algorithm::Serpent256),
            4 => Ok(Algorithm::Threefish1024),
            5 => Ok(Algorithm::AsconAead128),
            6 => Ok(Algorithm::Rabbit),
            7 => Ok(Algorithm::Aegis256),
            8 => Ok(Algorithm::Aegis128L),
            _ => Err(X3xError::UnknownAlgorithm(id)),
        }
    }

    /// Fixed key filename expected in the working directory.
    pub fn key_filename(self) -> (r: &'static str)
        ensures
            r@ == self.spec_key_filename(),
    {
        match self {
            Algorithm::Aes256GcmSiv => "aes.key",
            Algorithm::XChaCha20Poly1305 => "cha.key",
            Algorithm::Serpent256 => "ser.key",
            Algorithm::Threefish1024 => "thf.key",
            Algorithm::AsconAead128 => "asc.key",
            Algorithm::Rabbit => "rab.key",
            Algorithm::Aegis256 => "aegis256.key",
            Algorithm::Aegis128L => "aegis128l.key",
        }
    }

    /// Exact raw key length accepted by the algorithm.
    pub fn key_len(self) -> (r: usize)
        ensures
            r == self.spec_key_len(),
    {
        match self {
            Algorithm::Aes256GcmSiv | Algorithm::XChaCha20Poly1305 | Algorithm::Serpent256
            | Algorithm::Aegis256 => 32,
            Algorithm::Threefish1024 => 128,
            Algorithm::AsconAead128 | Algorithm::Rabbit | Algorithm::Aegis128L => 16,
        }
    }

    /// Whether the algorithm authenticates each record itself (an AEAD), as
    /// opposed to a stream cipher authenticated by one HMAC over the file.
    pub fn is_aead(self) -> (r: bool)
        ensures
            r == self.spec_is_aead(),
    {
        match self {
            Algorithm::Aes256GcmSiv | Algorithm::XChaCha20Poly1305 | Algorithm::AsconAead128
            | Algorithm::Aegis256 | Algorithm::Aegis128L => true,
            _ => false,
        }
    }

    /// Authentication tag length: per record for an AEAD, per file otherwise.
    pub fn tag_len(self) -> (r: usize)
        ensures
            r == self.spec_tag_len(),
    {
        if self.is_aead() {
            16
        } else {
            64
        }
    }

    /// Length of the prefix of the nonce seed that the algorithm uses.
    pub fn nonce_len(self) -> (r: usize)
        ensures
            r == self.spec_nonce_len(),
    {
        match self {
            Algorithm::Aes256GcmSiv => 12,
            Algorithm::XChaCha20Poly1305 => 24,
            Algorithm::AsconAead128 | Algorithm::Aegis128L => 16,
            Algorithm::Aegis256 | Algorithm::Serpent256 | Algorithm::Threefish1024
            | Algorithm::Rabbit => 32,
        }
    }

    /// Command name of the standalone key-file binary for this algorithm.
    pub fn command(self) -> (r: &'static str)
        ensures
            r@ == self.spec_command(),
    {
        match self {
            Algorithm::Aes256GcmSiv => "aes",
            Algorithm::XChaCha20Poly1305 => "cha",
            Algorithm::Serpent256 => "ser",
            Algorithm::Threefish1024 => "thf",
            Algorithm::AsconAead128 => "asc",
            Algorithm::Rabbit => "rabbit",
            Algorithm::Aegis256 => "aegis256",
            Algorithm::Aegis128L => "aegis128l",
        }
    }

    /// Command name of the standalone password binary for this algorithm.
    pub fn password_command(self) -> (r: &'static str)
        ensures
            r@ == self.spec_password_command(),
    {
        match self {
            Algorithm::Aes256GcmSiv => "aesp",
            Algorithm::XChaCha20Poly1305 => "chap",
            Algorithm::Serpent256 => "serp",
            Algorithm::Threefish1024 => "thfp",
            Algorithm::AsconAead128 => "ascp",
            Algorithm::Rabbit => "rabbitp",
            Algorithm::Aegis256 => "aegis256p",
            Algorithm::Aegis128L => "aegis128lp",
        }
    }

    /// Human-readable name of the construction.
    pub fn display_name(self) -> (r: &'static str)
        ensures
            r@ == self.spec_display_name(),
    {
        match self {
            Algorithm::Aes256GcmSiv => "AES-256-GCM-SIV",
            Algorithm::XChaCha20Poly1305 => "XChaCha20-Poly1305",
            Algorithm::Serpent256 => "Serpent-256-CTR + HMAC-SHA-512",
            Algorithm::Threefish1024 => "Threefish-1024-CTR + HMAC-SHA-512",
            Algorithm::AsconAead128 => "Ascon-AEAD128",
            Algorithm::Rabbit => "Rabbit + HMAC-SHA-512",
            Algorithm::Aegis256 => "AEGIS-256",
            Algorithm::Aegis128L => "AEGIS-128L",
        }
    }
}

/// Identifiers and algorithms correspond one to one.
pub proof fn lemma_id_round_trip(algorithm: Algorithm, id: u8)
    ensures
        Algorithm::spec_from_id(algorithm.spec_id()) == Some(algorithm),
        Algorithm::spec_from_id(id) == Some(algorithm) ==> algorithm.spec_id() == id,
{
}

/// Operation selected by the required uppercase command argument.
#[derive(Clone, Copy, Debug, PartialEq, Eq, Structural)]
pub enum Mode {
    Encrypt,
    Decrypt,
}

impl Mode {
    /// Parse the mandatory uppercase operation: exactly `E` or `D`.
    pub fn parse(value: &str) -> (r: Result<Mode, X3xError>)
        ensures
            value@ == "E"@ ==> r == Ok::<Mode, X3xError>(Mode::Encrypt),
            value@ == "D"@ ==> r == Ok::<Mode, X3xError>(Mode::Decrypt),
            value@ != "E"@ && value@ != "D"@ ==> r == Err::<Mode, X3xError>(X3xError::InvalidMode),
    {
        proof {
            reveal_strlit("E");
            reveal_strlit("D");
            assert("E"@ =~= seq!['E']);
            assert("D"@ =~= seq!['D']);
        }
        broadcast use vstd::string::axiom_spec_iter, vstd::string::next_postcondition;
        let mut chars = value.chars();
        let first = chars.next();
        let second = chars.next();
        match (first, second) {
            (Some('E'), None) => {
                assert(value@ =~= seq!['E']);
                Ok(Mode::Encrypt)
            },
            (Some('D'), None) => {
                assert(value@ =~= seq!['D']);
                Ok(Mode::Decrypt)
            },
            _ => {
                assert(value@ != seq!['E'] && value@ != seq!['D']) by {
                    if value@.len() == 1 {
                        assert(value@.drop_first().len() == 0);
                    }
                }
                Err(X3xError::InvalidMode)
            },
        }
    }
}

} // verus!
