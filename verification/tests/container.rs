use x3x::container::{
    check_cipher_names, check_key_length, ensure_eof, new_header, open_header,
    verify_encrypted_length,
};
use x3x::format::{ExpectedKeying, Header, Keying};
use x3x::password::PasswordKdf;
use x3x::{Algorithm, X3xError, CHUNK_SIZE};

fn bytes_of(header: &Header) -> [u8; 64] {
    *header.bytes()
}

#[test]
fn aead_containers_have_one_tag_per_record() {
    let aes = Algorithm::Aes256GcmSiv;
    let empty = Header::new(aes, 0, [0u8; 32], CHUNK_SIZE, Keying::KeyFile);
    assert_eq!(verify_encrypted_length(aes, &empty, 64 + 16), Ok(()));
    let two = Header::new(aes, CHUNK_SIZE as u64 + 73, [0u8; 32], CHUNK_SIZE, Keying::KeyFile);
    let exact = 64 + CHUNK_SIZE as u64 + 73 + 32;
    assert_eq!(verify_encrypted_length(aes, &two, exact), Ok(()));
    assert_eq!(
        verify_encrypted_length(aes, &two, exact - 1),
        Err(X3xError::InvalidEncryptedLength { expected_len: exact, found_len: exact - 1 })
    );
    assert_eq!(
        verify_encrypted_length(aes, &two, exact + 1),
        Err(X3xError::InvalidEncryptedLength { expected_len: exact, found_len: exact + 1 })
    );
}

#[test]
fn hmac_containers_have_one_file_tag() {
    let serpent = Algorithm::Serpent256;
    let header = Header::new(serpent, 3 * CHUNK_SIZE as u64, [0u8; 32], CHUNK_SIZE, Keying::KeyFile);
    assert_eq!(verify_encrypted_length(serpent, &header, 64 + 3 * CHUNK_SIZE as u64 + 64), Ok(()));
}

#[test]
fn impossible_lengths_overflow() {
    let aes = Algorithm::Aes256GcmSiv;
    let header = Header::new(aes, u64::MAX - 10, [0u8; 32], CHUNK_SIZE, Keying::KeyFile);
    assert_eq!(verify_encrypted_length(aes, &header, u64::MAX), Err(X3xError::EncryptedLengthOverflow));
    let rabbit = Algorithm::Rabbit;
    let header = Header::new(rabbit, u64::MAX - 127, [0u8; 32], CHUNK_SIZE, Keying::KeyFile);
    assert_eq!(verify_encrypted_length(rabbit, &header, u64::MAX), Err(X3xError::EncryptedLengthOverflow));
}

#[test]
fn new_headers_use_fresh_nonce_seeds() {
    let kdf = PasswordKdf::testing();
    let first = new_header(Algorithm::Aes256GcmSiv, 14, Keying::Password(kdf)).unwrap();
    let second = new_header(Algorithm::Aes256GcmSiv, 14, Keying::Password(kdf)).unwrap();
    assert_eq!(first.bytes()[8], 2);
    assert_eq!(u32::from_le_bytes(first.bytes()[56..60].try_into().unwrap()), kdf.memory_kib);
    assert_ne!(first.nonce_seed(), second.nonce_seed());
    assert_eq!(&first.bytes()[24..56], first.nonce_seed());
    assert_ne!(first.bytes(), second.bytes());
}

#[test]
fn written_containers_are_accepted_and_damage_is_refused() {
    let aes = Algorithm::Aes256GcmSiv;
    let header = new_header(aes, 14, Keying::KeyFile).unwrap();
    let total = 64 + 14 + 16;
    let opened = open_header(bytes_of(&header), aes, ExpectedKeying::KeyFile, total).unwrap();
    assert_eq!(opened.plaintext_len(), 14);
    assert_eq!(opened.nonce_seed(), header.nonce_seed());
    assert_eq!(
        open_header(bytes_of(&header), aes, ExpectedKeying::KeyFile, total + 1).err(),
        Some(X3xError::InvalidEncryptedLength { expected_len: total, found_len: total + 1 })
    );
    assert_eq!(
        open_header(bytes_of(&header), aes, ExpectedKeying::Password, total).err(),
        Some(X3xError::UsesKeyFile(aes))
    );
}

#[test]
fn trailing_or_changed_data_is_refused() {
    assert_eq!(ensure_eof(0, X3xError::TrailingData), Ok(()));
    assert_eq!(ensure_eof(1, X3xError::TrailingData), Err(X3xError::TrailingData));
    assert_eq!(ensure_eof(1, X3xError::InputChanged), Err(X3xError::InputChanged));
}

#[test]
fn keys_must_have_the_exact_length() {
    assert_eq!(check_key_length(32, 32), Ok(()));
    assert_eq!(check_key_length(31, 32), Err(X3xError::KeyLength { required: 32, provided: 31 }));
    assert_eq!(check_key_length(129, 128), Err(X3xError::KeyLength { required: 128, provided: 129 }));
}

#[test]
fn the_active_key_file_cannot_be_input_or_output() {
    let aes = Algorithm::Aes256GcmSiv;
    assert_eq!(check_cipher_names(aes, "plain.bin", "cipher.bin"), Ok(()));
    assert_eq!(check_cipher_names(aes, "aes.key", "cipher.bin"), Err(X3xError::KeyFileAsInput));
    assert_eq!(check_cipher_names(aes, "plain.bin", "aes.key"), Err(X3xError::KeyFileAsOutput));
    assert_eq!(check_cipher_names(Algorithm::Rabbit, "aes.key", "rab.key.out"), Ok(()));
    assert_eq!(check_cipher_names(aes, "folder/plain", "aes.key"), Err(X3xError::NonPortableFilename));
    assert_eq!(check_cipher_names(aes, "plain", "NUL"), Err(X3xError::ReservedDeviceName));
}
