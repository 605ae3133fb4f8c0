//! The one-time-pad transform: each input byte XORed with the key byte at
//! the same offset.
use vstd::prelude::*;

use crate::error::X3xError;
use crate::key_tools::{IO_BUFFER_SIZE, io_chunk_len};

verus! {

/// Each byte of `data` XORed with the key byte at the same offset.
pub open spec fn spec_xor(data: Seq<u8>, key: Seq<u8>) -> Seq<u8> {
    Seq::new(data.len(), |i: int| data[i] ^ key[i])
}

/// Refuse a key shorter than the input, before anything is changed.
pub fn check_otp_key_len(input_len: u64, key_len: u64) -> (r: Result<(), X3xError>)
    ensures
        r == if key_len < input_len {
            Err::<(), X3xError>(X3xError::OtpKeyTooShort { input_len, key_len })
        } else {
            Ok::<(), X3xError>(())
        },
{
    if key_len < input_len {
        return Err(X3xError::OtpKeyTooShort { input_len, key_len });
    }
    Ok(())
}

/// XOR `data` in place with the beginning of `key`.
pub fn xor_with_key(data: &mut [u8], key: &[u8])
    requires
        key@.len() >= old(data)@.len(),
    ensures
        final(data)@ == spec_xor(old(data)@, key@),
        final(data)@.len() == old(data)@.len(),
        forall|i: int|
            0 <= i < old(data)@.len() ==> #[trigger] final(data)@[i] ^ old(data)@[i] == key@[i],
{
    let n = data.len();
    let mut i: usize = 0;
    while i < n
        invariant
            n == data@.len(),
            n == old(data)@.len(),
            key@.len() >= n,
            i <= n,
            forall|j: int| 0 <= j < i ==> data@[j] == old(data)@[j] ^ key@[j],
            forall|j: int| i <= j < n ==> data@[j] == old(data)@[j],
        decreases n - i,
    {
        let value = data[i] ^ key[i];
        data[i] = value;
        i = i + 1;
    }
    assert(data@ =~= spec_xor(old(data)@, key@));
    proof {
        lemma_pad_reveals_key(old(data)@, key@);
    }
}

/// Applying the pad twice with the same key restores the original bytes.
pub proof fn lemma_xor_twice_restores(data: Seq<u8>, key: Seq<u8>)
    requires
        key.len() >= data.len(),
    ensures
        spec_xor(spec_xor(data, key), key) == data,
{
    assert forall|i: int| 0 <= i < data.len() implies #[trigger] spec_xor(
        spec_xor(data, key),
        key,
    )[i] == data[i] by {
        let d = data[i];
        let k = key[i];
        assert((d ^ k) ^ k == d) by (bit_vector);
    }
    assert(spec_xor(spec_xor(data, key), key) =~= data);
}

/// Padding a file block by block, each block with the key bytes at the same
/// offsets, gives the same bytes as padding it whole.
pub proof fn lemma_xor_blocks(first: Seq<u8>, second: Seq<u8>, key: Seq<u8>)
    requires
        key.len() >= first.len() + second.len(),
    ensures
        spec_xor(first, key) + spec_xor(second, key.skip(first.len() as int)) == spec_xor(
            first + second,
            key,
        ),
{
    assert(spec_xor(first, key) + spec_xor(second, key.skip(first.len() as int)) =~= spec_xor(
        first + second,
        key,
    ));
}

/// One pass of the pad over a file, block by block in order: `spec_input`,
/// `spec_key` and `spec_output` are the input bytes, key bytes and padded
/// bytes seen so far.
pub struct OtpPass {
    input_len: u64,
    remaining: u64,
    input: Ghost<Seq<u8>>,
    key: Ghost<Seq<u8>>,
    output: Ghost<Seq<u8>>,
}

impl OtpPass {
    pub closed spec fn spec_input_len(&self) -> u64 {
        self.input_len
    }

    pub closed spec fn spec_remaining(&self) -> u64 {
        self.remaining
    }

    pub closed spec fn spec_input(&self) -> Seq<u8> {
        self.input@
    }

    pub closed spec fn spec_key(&self) -> Seq<u8> {
        self.key@
    }

    pub closed spec fn spec_output(&self) -> Seq<u8> {
        self.output@
    }

    /// The padded bytes so far are the input so far XOR the key so far, and
    /// they cover the first `input_len - remaining` bytes.
    pub closed spec fn wf(&self) -> bool {
        &&& self.remaining <= self.input_len
        &&& self.input@.len() == self.input_len - self.remaining
        &&& self.key@.len() == self.input@.len()
        &&& self.output@ == spec_xor(self.input@, self.key@)
    }

    /// Start a pass over an input of `input_len` bytes with a key of
    /// `key_len` bytes; a key shorter than the input is refused.
    pub fn new(input_len: u64, key_len: u64) -> (r: Result<OtpPass, X3xError>)
        ensures
            key_len < input_len ==> r == Err::<OtpPass, X3xError>(
                X3xError::OtpKeyTooShort { input_len, key_len },
            ),
            key_len >= input_len ==> (r matches Ok(pass) && {
                &&& pass.wf()
                &&& pass.spec_input_len() == input_len
                &&& pass.spec_remaining() == input_len
                &&& pass.spec_input() == Seq::<u8>::empty()
                &&& pass.spec_key() == Seq::<u8>::empty()
            }),
    {
        check_otp_key_len(input_len, key_len)?;
        let pass = OtpPass {
            input_len,
            remaining: input_len,
            input: Ghost(Seq::empty()),
            key: Ghost(Seq::empty()),
            output: Ghost(Seq::empty()),
        };
        assert(spec_xor(Seq::<u8>::empty(), Seq::<u8>::empty()) =~= Seq::<u8>::empty());
        Ok(pass)
    }

    /// Bytes still to pad.
    pub fn remaining(&self) -> (r: u64)
        ensures
            r == self.spec_remaining(),
    {
        self.remaining
    }

    /// Length of the next block: `min(remaining, IO_BUFFER_SIZE)`.
    pub fn block_len(&self) -> (r: usize)
        ensures
            r == if self.spec_remaining() <= IO_BUFFER_SIZE {
                self.spec_remaining() as int
            } else {
                IO_BUFFER_SIZE as int
            },
    {
        io_chunk_len(self.remaining)
    }

    /// Pad the next input block in place with the next key block.
    pub fn pad_block(&mut self, data: &mut [u8], key: &[u8])
        requires
            old(self).wf(),
            old(data)@.len() == if old(self).spec_remaining() <= IO_BUFFER_SIZE {
                old(self).spec_remaining() as int
            } else {
                IO_BUFFER_SIZE as int
            },
            key@.len() == old(data)@.len(),
        ensures
            final(self).wf(),
            final(data)@ == spec_xor(old(data)@, key@),
            final(self).spec_input_len() == old(self).spec_input_len(),
            final(self).spec_remaining() == old(self).spec_remaining() - old(data)@.len(),
            final(self).spec_input() == old(self).spec_input() + old(data)@,
            final(self).spec_key() == old(self).spec_key() + key@,
            final(self).spec_output() == old(self).spec_output() + final(data)@,
    {
        let ghost before = data@;
        xor_with_key(data, key);
        proof {
            assert(spec_xor(self.input@ + before, self.key@ + key@) =~= spec_xor(
                self.input@,
                self.key@,
            ) + data@);
        }
        self.remaining = self.remaining - data.len() as u64;
        self.input = Ghost(self.input@ + before);
        self.key = Ghost(self.key@ + key@);
        self.output = Ghost(self.output@ + data@);
    }
}

/// Once every block has been padded, the output is the whole input XOR the
/// key bytes at the same offsets.
pub proof fn lemma_complete_pass_pads_the_whole_input(pass: OtpPass)
    requires
        pass.wf(),
        pass.spec_remaining() == 0,
    ensures
        pass.spec_input().len() == pass.spec_input_len(),
        pass.spec_key().len() == pass.spec_input_len(),
        pass.spec_output() == spec_xor(pass.spec_input(), pass.spec_key()),
{
}

/// Padding keeps the length, and each padded byte XOR its input byte is the
/// whole key byte at the same offset, whatever its value: a key byte of 0xFF
/// complements the input byte and a key byte of 0 leaves it unchanged.
pub proof fn lemma_pad_reveals_key(data: Seq<u8>, key: Seq<u8>)
    requires
        key.len() >= data.len(),
    ensures
        spec_xor(data, key).len() == data.len(),
        forall|i: int|
            0 <= i < data.len() ==> #[trigger] spec_xor(data, key)[i] ^ data[i] == key[i],
        forall|i: int|
            0 <= i < data.len() && key[i] == 0xFF ==> #[trigger] spec_xor(data, key)[i] == !data[i],
        forall|i: int|
            0 <= i < data.len() && key[i] == 0 ==> #[trigger] spec_xor(data, key)[i] == data[i],
{
    assert forall|i: int| 0 <= i < data.len() implies #[trigger] spec_xor(data, key)[i] ^ data[i]
        == key[i] && (key[i] == 0xFF ==> spec_xor(data, key)[i] == !data[i]) && (key[i] == 0
        ==> spec_xor(data, key)[i] == data[i]) by {
        let d = data[i];
        let k = key[i];
        assert((d ^ k) ^ d == k && (k == 0xFF ==> d ^ k == !d) && (k == 0 ==> d ^ k == d))
            by (bit_vector);
    }
}

/// Padding with one key and then another is padding with their XOR.
pub proof fn lemma_pads_compose(data: Seq<u8>, first: Seq<u8>, second: Seq<u8>)
    requires
        first.len() >= data.len(),
        second.len() >= data.len(),
    ensures
        spec_xor(spec_xor(data, first), second) == spec_xor(
            data,
            Seq::new(data.len(), |i: int| first[i] ^ second[i]),
        ),
{
    assert forall|i: int| 0 <= i < data.len() implies #[trigger] spec_xor(
        spec_xor(data, first),
        second,
    )[i] == data[i] ^ (first[i] ^ second[i]) by {
        let (d, a, b) = (data[i], first[i], second[i]);
        assert((d ^ a) ^ b == d ^ (a ^ b)) by (bit_vector);
    }
    assert(spec_xor(spec_xor(data, first), second) =~= spec_xor(
        data,
        Seq::new(data.len(), |i: int| first[i] ^ second[i]),
    ));
}

} // verus!
