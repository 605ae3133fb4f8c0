use x3x::key_tools::{
    RandomKeyBlocks,
    check_password, deterministic_salt, io_chunk_len, random_block, validate_size,
    DeterministicKeyStream, IO_BUFFER_SIZE, MAX_KEY_SIZE,
};
use x3x::password::{password_root_key, PasswordKdf};
use x3x::X3xError;

#[test]
fn salt_is_deterministic_and_size_separated() {
    assert_eq!(deterministic_salt(32), deterministic_salt(32));
    assert_ne!(deterministic_salt(32), deterministic_salt(33));
}

#[test]
fn validates_full_size_range() {
    assert!(validate_size(1).is_ok());
    assert!(validate_size(MAX_KEY_SIZE).is_ok());
    assert!(validate_size(0).is_err());
    assert!(validate_size(MAX_KEY_SIZE + 1).is_err());
}

#[test]
fn size_errors_carry_the_refused_size() {
    assert_eq!(validate_size(0), Err(X3xError::InvalidKeySize(0)));
    assert_eq!(
        validate_size(u64::MAX),
        Err(X3xError::InvalidKeySize(u64::MAX))
    );
    assert_eq!(MAX_KEY_SIZE, 20_000_000_000);
}

#[test]
fn empty_password_is_refused() {
    assert_eq!(check_password(b""), Err(X3xError::EmptyPassword));
    assert_eq!(check_password(b"x"), Ok(()));
}

#[test]
fn salt_is_the_sha256_of_the_label_and_size() {
    // SHA-256("x3x/keymake/v1/argon2id-salt" || 32u64 little-endian) differs
    // from the message itself and has 32 bytes.
    let salt = deterministic_salt(32);
    assert_eq!(salt.len(), 32);
    let mut message = b"x3x/keymake/v1/argon2id-salt".to_vec();
    message.extend_from_slice(&32u64.to_le_bytes());
    assert_ne!(&salt[..], &message[..32]);
    assert_ne!(salt, [0u8; 32]);
}

#[test]
fn streamed_blocks_are_bounded_by_the_buffer() {
    assert_eq!(io_chunk_len(0), 0);
    assert_eq!(io_chunk_len(97), 97);
    assert_eq!(io_chunk_len(IO_BUFFER_SIZE as u64), IO_BUFFER_SIZE);
    assert_eq!(io_chunk_len(IO_BUFFER_SIZE as u64 + 1), IO_BUFFER_SIZE);
    assert_eq!(IO_BUFFER_SIZE, 1024 * 1024);
}

#[test]
fn random_blocks_have_the_requested_length_and_vary() {
    let first = random_block(64).unwrap();
    let second = random_block(64).unwrap();
    assert_eq!(first.len(), 64);
    assert_ne!(first, second);
    assert_eq!(random_block(u64::MAX).unwrap().len(), IO_BUFFER_SIZE);
}

#[test]
fn key_stream_is_deterministic_and_continues_across_blocks() {
    let root = [7u8; 64];
    let mut whole = DeterministicKeyStream::new(40, root);
    let all = whole.next_block(40);
    assert_eq!(all.len(), 40);

    let mut split = DeterministicKeyStream::new(40, root);
    let mut joined = split.next_block(13);
    joined.extend(split.next_block(27));
    assert_eq!(all, joined);

    let mut other_size = DeterministicKeyStream::new(41, root);
    assert_ne!(other_size.next_block(40), all);
    let mut other_root = DeterministicKeyStream::new(40, [8u8; 64]);
    assert_ne!(other_root.next_block(40), all);
    assert_ne!(&all[..], &root[..40]);
}

#[test]
fn password_root_key_depends_on_password_and_salt() {
    let kdf = PasswordKdf::testing();
    let salt = [3u8; 32];
    let first = password_root_key(b"correct horse", &salt, kdf).unwrap();
    let again = password_root_key(b"correct horse", &salt, kdf).unwrap();
    let other = password_root_key(b"battery staple", &salt, kdf).unwrap();
    let resalted = password_root_key(b"correct horse", &[4u8; 32], kdf).unwrap();
    assert_eq!(first, again);
    assert_ne!(first, other);
    assert_ne!(first, resalted);
    assert_ne!(&first[..13], b"correct horse");
}

#[test]
fn password_root_key_refuses_short_salts() {
    let kdf = PasswordKdf::testing();
    assert_eq!(
        password_root_key(b"pw", &[0u8; 7], kdf),
        Err(X3xError::KeyDerivationFailed)
    );
    assert!(password_root_key(b"pw", &[0u8; 8], kdf).is_ok());
}

#[test]
fn random_key_blocks_hand_out_exactly_the_size() {
    let size = IO_BUFFER_SIZE as u64 + 31;
    let mut blocks = RandomKeyBlocks::new(size);
    let mut lengths = Vec::new();
    while let Some(block) = blocks.next_block().unwrap() {
        lengths.push(block.len());
    }
    assert_eq!(lengths, vec![IO_BUFFER_SIZE, 31]);
    assert_eq!(blocks.next_block(), Ok(None));
}
