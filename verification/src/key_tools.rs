//! Key sizes and the key-derivation steps of the random and deterministic
//! key makers.
use vstd::bytes::*;
use vstd::prelude::*;
use vstd::utf8::encode_utf8;

use crate::error::X3xError;
use crate::filename::ascii;
use crate::format::append_bytes;
use crate::outside::{
    argon2id_hash, argon2id_v13, fill_random, sha256, sha256_digest,
    shake256_output_byte, shake256_read, shake256_reader, shake_reader_input,
    shake_reader_position, wipe, ShakeReader,
};

verus! {

/// Largest key, in bytes, that the key makers produce.
pub const MAX_KEY_SIZE: u64 = 20_000_000_000;

/// Size of the bounded buffers through which files are streamed.
pub const IO_BUFFER_SIZE: usize = 1024 * 1024;

/// Argon2id memory cost of the deterministic key maker: 256 MiB.
pub const KEYMAKE_MEMORY_KIB: u32 = 256 * 1024;

/// Argon2id passes of the deterministic key maker.
pub const KEYMAKE_ITERATIONS: u32 = 4;

/// Argon2id lanes of the deterministic key maker.
pub const KEYMAKE_LANES: u32 = 4;

/// Accept exactly the sizes from 1 through `MAX_KEY_SIZE` bytes.
pub fn validate_size(size: u64) -> (r: Result<(), X3xError>)
    ensures
        r == if 1 <= size <= MAX_KEY_SIZE {
            Ok::<(), X3xError>(())
        } else {
            Err::<(), X3xError>(X3xError::InvalidKeySize(size))
        },
        r is Ok <==> 1 <= size <= 20_000_000_000,
{
    if size < 1 || size > MAX_KEY_SIZE {
        return Err(X3xError::InvalidKeySize(size));
    }
    Ok(())
}

/// Refuse an empty password.
pub fn check_password(password: &[u8]) -> (r: Result<(), X3xError>)
    ensures
        r == if password@.len() == 0 {
            Err::<(), X3xError>(X3xError::EmptyPassword)
        } else {
            Ok::<(), X3xError>(())
        },
{
    if password.len() == 0 {
        Err(X3xError::EmptyPassword)
    } else {
        Ok(())
    }
}

/// Length of the next streamed block when `remaining` bytes are left.
pub fn io_chunk_len(remaining: u64) -> (r: usize)
    ensures
        r == if remaining <= IO_BUFFER_SIZE {
            remaining as int
        } else {
            IO_BUFFER_SIZE as int
        },
        r == if remaining <= 1048576 {
            remaining as int
        } else {
            1048576
        },
{
    if remaining <= IO_BUFFER_SIZE as u64 {
        remaining as usize
    } else {
        IO_BUFFER_SIZE
    }
}

/// The message whose SHA-256 is the key maker's salt: a domain label and
/// the little-endian requested size.
pub open spec fn salt_message(size: u64) -> Seq<u8> {
    encode_utf8("x3x/keymake/v1/argon2id-salt"@) + spec_u64_to_le_bytes(size)
}

/// The size-separated salt of the deterministic key maker.
pub open spec fn spec_deterministic_salt(size: u64) -> Seq<u8> {
    sha256_digest(salt_message(size))
}

/// The 64-byte Argon2id root key of the deterministic key maker.
pub open spec fn keymake_root(password: Seq<u8>, size: u64) -> Seq<u8> {
    argon2id_v13(
        password,
        spec_deterministic_salt(size),
        KEYMAKE_MEMORY_KIB,
        KEYMAKE_ITERATIONS,
        KEYMAKE_LANES,
        64,
    )
}

/// What SHAKE256 absorbs: a domain label, the little-endian size and the
/// root key.
pub open spec fn keymake_xof_input(size: u64, root: Seq<u8>) -> Seq<u8> {
    encode_utf8("x3x/keymake/v1/shake256"@) + spec_u64_to_le_bytes(size) + root
}

/// The key that the deterministic key maker writes for a password and size:
/// the first `size` bytes of the SHAKE256 output stream.
pub open spec fn deterministic_key(password: Seq<u8>, size: u64) -> Seq<u8> {
    Seq::new(
        size as nat,
        |i: int| shake256_output_byte(keymake_xof_input(size, keymake_root(password, size)), i as nat),
    )
}

fn concat(first: &[u8], second: &[u8]) -> (r: Vec<u8>)
    ensures
        r@ == first@ + second@,
{
    let mut out: Vec<u8> = Vec::new();
    append_bytes(&mut out, first);
    append_bytes(&mut out, second);
    out
}

/// SHA-256 of the domain label and the little-endian size, so that every
/// size has its own Argon2id salt.
pub fn deterministic_salt(size: u64) -> (r: [u8; 32])
    ensures
        r@ == spec_deterministic_salt(size),
{
    let label = "x3x/keymake/v1/argon2id-salt".as_bytes();
    let size_bytes = u64_to_le_bytes(size);
    let message = concat(label, size_bytes.as_slice());
    sha256(message.as_slice())
}

/// Argon2id v1.3 (256 MiB, four passes, four lanes) of the password and the
/// size's salt. Argon2id refuses only passwords longer than 2^32 - 1 bytes.
pub fn derive_keymake_root(password: &[u8], size: u64) -> (r: Result<[u8; 64], X3xError>)
    ensures
        r is Ok <==> password@.len() <= 0xFFFF_FFFF,
        r matches Ok(root) ==> root@ == keymake_root(password@, size),
        r is Err ==> r == Err::<[u8; 64], X3xError>(X3xError::KeyDerivationFailed),
{
    let salt = deterministic_salt(size);
    match argon2id_hash(
        password,
        salt.as_slice(),
        KEYMAKE_MEMORY_KIB,
        KEYMAKE_ITERATIONS,
        KEYMAKE_LANES,
    ) {
        Ok(root) => Ok(root),
        Err(_) => Err(X3xError::KeyDerivationFailed),
    }
}

/// The SHAKE256 output stream from which the deterministic key is read.
pub struct DeterministicKeyStream {
    reader: ShakeReader,
}

impl DeterministicKeyStream {
    /// What the stream absorbed.
    pub closed spec fn spec_input(&self) -> Seq<u8> {
        shake_reader_input(self.reader)
    }

    /// How many key bytes the stream has produced.
    pub closed spec fn spec_produced(&self) -> nat {
        shake_reader_position(self.reader)
    }

    /// Absorb the label, the size and the root key; the root key and the
    /// copy of it in the absorbed message are wiped afterwards.
    pub fn new(size: u64, root_key: [u8; 64]) -> (r: DeterministicKeyStream)
        ensures
            r.spec_input() == keymake_xof_input(size, root_key@),
            r.spec_produced() == 0,
    {
        let label = "x3x/keymake/v1/shake256".as_bytes();
        let size_bytes = u64_to_le_bytes(size);
        let prefix = concat(label, size_bytes.as_slice());
        let mut root = root_key;
        let mut message = concat(prefix.as_slice(), root.as_slice());
        let reader = shake256_reader(message.as_slice());
        wipe(message.as_mut_slice());
        wipe(vstd::array::ref_mut_array_unsizing_coercion(&mut root));
        DeterministicKeyStream { reader }
    }

    /// The next `min(remaining, IO_BUFFER_SIZE)` bytes of the key.
    pub fn next_block(&mut self, remaining: u64) -> (r: Vec<u8>)
        ensures
            r@.len() == if remaining <= IO_BUFFER_SIZE {
                remaining as int
            } else {
                IO_BUFFER_SIZE as int
            },
            final(self).spec_input() == old(self).spec_input(),
            final(self).spec_produced() == old(self).spec_produced() + r@.len(),
            forall|i: int|
                0 <= i < r@.len() ==> #[trigger] r@[i] == shake256_output_byte(
                    old(self).spec_input(),
                    (old(self).spec_produced() + i) as nat,
                ),
    {
        let length = io_chunk_len(remaining);
        let mut block: Vec<u8> = vec![0u8; length];
        shake256_read(&mut self.reader, block.as_mut_slice());
        block
    }
}

/// The next `min(remaining, IO_BUFFER_SIZE)` operating-system random bytes
/// of a random key, or an error when the operating system refuses.
pub fn random_block(remaining: u64) -> (r: Result<Vec<u8>, X3xError>)
    ensures
        r matches Ok(block) ==> block@.len() == if remaining <= IO_BUFFER_SIZE {
            remaining as int
        } else {
            IO_BUFFER_SIZE as int
        },
        r is Err ==> r == Err::<Vec<u8>, X3xError>(X3xError::RandomUnavailable),
{
    let length = io_chunk_len(remaining);
    let mut block: Vec<u8> = vec![0u8; length];
    match fill_random(block.as_mut_slice()) {
        Ok(()) => Ok(block),
        Err(_) => Err(X3xError::RandomUnavailable),
    }
}

/// Different key sizes hash different salt messages, so every size has its
/// own Argon2id salt input: equal passwords of different sizes are separated.
pub proof fn lemma_salt_messages_separate_sizes(first: u64, second: u64)
    requires
        first != second,
    ensures
        salt_message(first) != salt_message(second),
{
    lemma_auto_spec_u64_to_from_le_bytes();
    let label = encode_utf8("x3x/keymake/v1/argon2id-salt"@);
    if salt_message(first) == salt_message(second) {
        assert(salt_message(first).skip(label.len() as int) =~= spec_u64_to_le_bytes(first));
        assert(salt_message(second).skip(label.len() as int) =~= spec_u64_to_le_bytes(second));
    }
}

/// A stream made from the root key of a password and size yields, block by
/// block and from its first byte on, exactly the deterministic key of that
/// password and size: the same password and size always give the same bytes.
pub proof fn lemma_stream_yields_deterministic_key(
    password: Seq<u8>,
    size: u64,
    stream: DeterministicKeyStream,
    block: Seq<u8>,
)
    requires
        stream.spec_input() == keymake_xof_input(size, keymake_root(password, size)),
        stream.spec_produced() + block.len() <= size,
        forall|i: int|
            0 <= i < block.len() ==> #[trigger] block[i] == shake256_output_byte(
                stream.spec_input(),
                (stream.spec_produced() + i) as nat,
            ),
    ensures
        block == deterministic_key(password, size).subrange(
            stream.spec_produced() as int,
            (stream.spec_produced() + block.len()) as int,
        ),
{
    assert(block =~= deterministic_key(password, size).subrange(
        stream.spec_produced() as int,
        (stream.spec_produced() + block.len()) as int,
    ));
}

/// The deterministic key of one password and size, handed out block by block
/// in order; `spec_written` is every byte handed out so far.
pub struct DeterministicKeyBlocks {
    stream: DeterministicKeyStream,
    size: u64,
    remaining: u64,
    password: Ghost<Seq<u8>>,
    written: Ghost<Seq<u8>>,
}

impl DeterministicKeyBlocks {
    pub closed spec fn spec_password(&self) -> Seq<u8> {
        self.password@
    }

    pub closed spec fn spec_size(&self) -> u64 {
        self.size
    }

    pub closed spec fn spec_remaining(&self) -> u64 {
        self.remaining
    }

    pub closed spec fn spec_written(&self) -> Seq<u8> {
        self.written@
    }

    /// The bytes handed out so far are the first `size - remaining` bytes of
    /// the deterministic key, and the stream stands right after them.
    pub closed spec fn wf(&self) -> bool {
        &&& self.remaining <= self.size
        &&& self.stream.spec_input() == keymake_xof_input(
            self.size,
            keymake_root(self.password@, self.size),
        )
        &&& self.stream.spec_produced() == self.size - self.remaining
        &&& self.written@ == deterministic_key(self.password@, self.size).take(
            self.size - self.remaining,
        )
    }

    /// Derive the root key of the password and size and start the key.
    /// Argon2id refuses only passwords longer than 2^32 - 1 bytes.
    pub fn new(password: &[u8], size: u64) -> (r: Result<DeterministicKeyBlocks, X3xError>)
        ensures
            r is Ok <==> password@.len() <= 0xFFFF_FFFF,
            r matches Ok(blocks) ==> {
                &&& blocks.wf()
                &&& blocks.spec_password() == password@
                &&& blocks.spec_size() == size
                &&& blocks.spec_remaining() == size
                &&& blocks.spec_written() == Seq::<u8>::empty()
            },
            r is Err ==> r == Err::<DeterministicKeyBlocks, X3xError>(
                X3xError::KeyDerivationFailed,
            ),
    {
        let root = derive_keymake_root(password, size)?;
        let stream = DeterministicKeyStream::new(size, root);
        let blocks = DeterministicKeyBlocks {
            stream,
            size,
            remaining: size,
            password: Ghost(password@),
            written: Ghost(Seq::empty()),
        };
        assert(deterministic_key(password@, size).take(0) =~= Seq::<u8>::empty());
        Ok(blocks)
    }

    /// The next `min(remaining, IO_BUFFER_SIZE)` key bytes, or `None` once
    /// all `size` bytes have been handed out.
    pub fn next_block(&mut self) -> (r: Option<Vec<u8>>)
        requires
            old(self).wf(),
        ensures
            final(self).wf(),
            final(self).spec_password() == old(self).spec_password(),
            final(self).spec_size() == old(self).spec_size(),
            old(self).spec_remaining() == 0 ==> r is None && final(self).spec_remaining() == 0
                && final(self).spec_written() == old(self).spec_written(),
            old(self).spec_remaining() > 0 ==> (r matches Some(block) && {
                &&& block@.len() == if old(self).spec_remaining() <= IO_BUFFER_SIZE {
                    old(self).spec_remaining() as int
                } else {
                    IO_BUFFER_SIZE as int
                }
                &&& final(self).spec_remaining() == old(self).spec_remaining() - block@.len()
                &&& final(self).spec_written() == old(self).spec_written() + block@
            }),
    {
        if self.remaining == 0 {
            return None;
        }
        let block = self.stream.next_block(self.remaining);
        proof {
            let key = deterministic_key(self.password@, self.size);
            let done = self.size - old(self).remaining;
            assert(self.written@ + block@ =~= key.take(done + block@.len()));
        }
        self.remaining = self.remaining - block.len() as u64;
        self.written = Ghost(self.written@ + block@);
        Some(block)
    }
}

/// Once every block has been handed out, the bytes are the whole
/// deterministic key of the password and size: two runs with the same
/// password and size give the same key.
pub proof fn lemma_complete_key_is_deterministic(
    first: DeterministicKeyBlocks,
    second: DeterministicKeyBlocks,
)
    requires
        first.wf(),
        second.wf(),
        first.spec_remaining() == 0,
        second.spec_remaining() == 0,
        first.spec_password() == second.spec_password(),
        first.spec_size() == second.spec_size(),
    ensures
        first.spec_written() == deterministic_key(first.spec_password(), first.spec_size()),
        first.spec_written() == second.spec_written(),
        first.spec_written().len() == first.spec_size(),
{
    let key = deterministic_key(first.spec_password(), first.spec_size());
    assert(key.take(first.spec_size() as int) =~= key);
}

/// A random key of `size` bytes, handed out block by block; `spec_produced`
/// counts the bytes handed out so far.
pub struct RandomKeyBlocks {
    size: u64,
    remaining: u64,
}

impl RandomKeyBlocks {
    pub closed spec fn spec_size(&self) -> u64 {
        self.size
    }

    pub closed spec fn spec_remaining(&self) -> u64 {
        self.remaining
    }

    /// Bytes handed out so far.
    pub open spec fn spec_produced(&self) -> int {
        self.spec_size() - self.spec_remaining()
    }

    pub closed spec fn wf(&self) -> bool {
        self.remaining <= self.size
    }

    /// Start a random key of `size` bytes.
    pub fn new(size: u64) -> (r: RandomKeyBlocks)
        ensures
            r.wf(),
            r.spec_size() == size,
            r.spec_remaining() == size,
    {
        RandomKeyBlocks { size, remaining: size }
    }

    /// The next `min(remaining, IO_BUFFER_SIZE)` operating-system random
    /// bytes, `None` once `size` bytes have been handed out, or an error when
    /// the operating system refuses (and then nothing is counted).
    pub fn next_block(&mut self) -> (r: Result<Option<Vec<u8>>, X3xError>)
        requires
            old(self).wf(),
        ensures
            final(self).wf(),
            final(self).spec_size() == old(self).spec_size(),
            old(self).spec_remaining() == 0 ==> r == Ok::<Option<Vec<u8>>, X3xError>(None)
                && final(self).spec_remaining() == 0,
            r is Err ==> r == Err::<Option<Vec<u8>>, X3xError>(X3xError::RandomUnavailable)
                && final(self).spec_remaining() == old(self).spec_remaining(),
            old(self).spec_remaining() > 0 && r is Ok ==> (r matches Ok(Some(block)) && {
                &&& block@.len() == if old(self).spec_remaining() <= IO_BUFFER_SIZE {
                    old(self).spec_remaining() as int
                } else {
                    IO_BUFFER_SIZE as int
                }
                &&& final(self).spec_remaining() == old(self).spec_remaining() - block@.len()
            }),
    {
        if self.remaining == 0 {
            return Ok(None);
        }
        let block = random_block(self.remaining)?;
        self.remaining = self.remaining - block.len() as u64;
        Ok(Some(block))
    }
}

/// Once every block has been handed out, exactly `size` random bytes were.
pub proof fn lemma_complete_random_key_has_its_size(blocks: RandomKeyBlocks)
    requires
        blocks.wf(),
        blocks.spec_remaining() == 0,
    ensures
        blocks.spec_produced() == blocks.spec_size(),
{
}

/// ASCII `x3x/keymake/v1/argon2id-salt`, the domain label of the salt.
pub open spec fn salt_label() -> Seq<u8> {
    ascii(seq!['x', '3', 'x', '/', 'k', 'e', 'y', 'm', 'a', 'k', 'e', '/', 'v', '1', '/', 'a', 'r', 'g', 'o', 'n', '2', 'i', 'd', '-', 's', 'a', 'l', 't'])
}

/// ASCII `x3x/keymake/v1/shake256`, the domain label of the key stream.
pub open spec fn stream_label() -> Seq<u8> {
    ascii(seq!['x', '3', 'x', '/', 'k', 'e', 'y', 'm', 'a', 'k', 'e', '/', 'v', '1', '/', 's', 'h', 'a', 'k', 'e', '2', '5', '6'])
}

proof fn lemma_labels_encode()
    ensures
        encode_utf8("x3x/keymake/v1/argon2id-salt"@) == salt_label(),
        encode_utf8("x3x/keymake/v1/shake256"@) == stream_label(),
{
    reveal_strlit("x3x/keymake/v1/argon2id-salt");
    reveal_strlit("x3x/keymake/v1/shake256");
    let a = "x3x/keymake/v1/argon2id-salt"@;
    let b = "x3x/keymake/v1/shake256"@;
    assert(a =~= seq!['x', '3', 'x', '/', 'k', 'e', 'y', 'm', 'a', 'k', 'e', '/', 'v', '1', '/', 'a', 'r', 'g', 'o', 'n', '2', 'i', 'd', '-', 's', 'a', 'l', 't']);
    assert(b =~= seq!['x', '3', 'x', '/', 'k', 'e', 'y', 'm', 'a', 'k', 'e', '/', 'v', '1', '/', 's', 'h', 'a', 'k', 'e', '2', '5', '6']);
    vstd::utf8::is_ascii_chars_encode_utf8(a);
    vstd::utf8::is_ascii_chars_encode_utf8(b);
    assert(encode_utf8(a) =~= salt_label());
    assert(encode_utf8(b) =~= stream_label());
}

/// The salt message of a key size is the 28 label bytes
/// `x3x/keymake/v1/argon2id-salt` followed by the size's eight bytes, lowest
/// first.
pub proof fn lemma_salt_message_bytes(size: u64)
    ensures
        salt_message(size).len() == 36,
        salt_message(size).take(28) == salt_label(),
        ({
            let m = salt_message(size);
            &&& m[28] == size as u8 && m[29] == (size >> 8u64) as u8
            &&& m[30] == (size >> 16u64) as u8 && m[31] == (size >> 24u64) as u8
            &&& m[32] == (size >> 32u64) as u8 && m[33] == (size >> 40u64) as u8
            &&& m[34] == (size >> 48u64) as u8 && m[35] == (size >> 56u64) as u8
        }),
{
    lemma_labels_encode();
    crate::format::lemma_u64_le_bytes(size);
    assert(salt_message(size).take(28) =~= salt_label());
}

/// What SHAKE256 absorbs for a key is the 23 label bytes
/// `x3x/keymake/v1/shake256`, the size's eight bytes lowest first, and then
/// the root key.
pub proof fn lemma_stream_input_bytes(size: u64, root: Seq<u8>)
    ensures
        keymake_xof_input(size, root).len() == 31 + root.len(),
        keymake_xof_input(size, root).take(23) == stream_label(),
        keymake_xof_input(size, root).skip(31) == root,
        ({
            let m = keymake_xof_input(size, root);
            &&& m[23] == size as u8 && m[24] == (size >> 8u64) as u8
            &&& m[25] == (size >> 16u64) as u8 && m[26] == (size >> 24u64) as u8
            &&& m[27] == (size >> 32u64) as u8 && m[28] == (size >> 40u64) as u8
            &&& m[29] == (size >> 48u64) as u8 && m[30] == (size >> 56u64) as u8
        }),
{
    lemma_labels_encode();
    crate::format::lemma_u64_le_bytes(size);
    assert(keymake_xof_input(size, root).take(23) =~= stream_label());
    assert(keymake_xof_input(size, root).skip(31) =~= root);
}

/// The root key of the key maker is Argon2id v1.3 with 256 MiB (262,144
/// KiB), four passes and four lanes, giving 64 bytes, over the password and
/// the SHA-256 of the size's salt message.
pub proof fn lemma_keymake_root_parameters(password: Seq<u8>, size: u64)
    ensures
        keymake_root(password, size) == argon2id_v13(
            password,
            sha256_digest(salt_message(size)),
            262144,
            4,
            4,
            64,
        ),
{
}

} // verus!
