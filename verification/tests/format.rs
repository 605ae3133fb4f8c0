use x3x::format::{
    chunk_aad, chunk_count, chunk_nonce, chunk_plaintext_len, ExpectedKeying, Header, Keying,
};
use x3x::password::PasswordKdf;
use x3x::{Algorithm, X3xError, CHUNK_SIZE};

fn seed() -> [u8; 32] {
    let mut seed = [0u8; 32];
    for (index, byte) in seed.iter_mut().enumerate() {
        *byte = u8::try_from(index * 7 + 1).unwrap();
    }
    seed
}

fn header_bytes(header: &Header) -> [u8; 64] {
    *header.bytes()
}

#[test]
fn key_file_header_has_the_documented_layout() {
    let header = Header::new(Algorithm::XChaCha20Poly1305, 0x0102_0304_0506_0708, seed(), CHUNK_SIZE, Keying::KeyFile);
    let bytes = header.bytes();
    assert_eq!(bytes.len(), 64);
    assert_eq!(&bytes[..8], b"X3XCRYPT");
    assert_eq!(bytes[8], 1);
    assert_eq!(bytes[9], 2);
    assert_eq!(bytes[10], 16);
    assert_eq!(bytes[11], 24);
    assert_eq!(&bytes[12..16], &1_048_576u32.to_le_bytes());
    assert_eq!(&bytes[16..24], &0x0102_0304_0506_0708u64.to_le_bytes());
    assert_eq!(&bytes[24..56], &seed());
    assert_eq!(&bytes[56..], &[0u8; 8]);
    assert_eq!(header.plaintext_len(), 0x0102_0304_0506_0708);
    assert_eq!(header.nonce_seed(), &seed());
    assert_eq!(header.keying(), Keying::KeyFile);
}

#[test]
fn password_header_records_its_kdf_parameters() {
    let kdf = PasswordKdf::testing();
    let header = Header::new(Algorithm::Aes256GcmSiv, 14, seed(), CHUNK_SIZE, Keying::Password(kdf));
    let bytes = header.bytes();
    assert_eq!(bytes[8], 2);
    assert_eq!(u32::from_le_bytes(bytes[56..60].try_into().unwrap()), kdf.memory_kib);
    assert_eq!(u16::from_le_bytes(bytes[60..62].try_into().unwrap()), kdf.iterations);
    assert_eq!(bytes[62], kdf.lanes);
    assert_eq!(bytes[63], x3x::password::KDF_ID_ARGON2ID);
}

#[test]
fn headers_parse_back_to_what_was_written() {
    for keying in [Keying::KeyFile, Keying::Password(PasswordKdf::testing()), Keying::Password(PasswordKdf::production())] {
        let expected = match keying {
            Keying::KeyFile => ExpectedKeying::KeyFile,
            Keying::Password(_) => ExpectedKeying::Password,
        };
        let written = Header::new(Algorithm::Threefish1024, 12345, seed(), CHUNK_SIZE, keying);
        let read = Header::parse(header_bytes(&written), Algorithm::Threefish1024, CHUNK_SIZE, expected).unwrap();
        assert_eq!(read.bytes(), written.bytes());
        assert_eq!(read.plaintext_len(), 12345);
        assert_eq!(read.nonce_seed(), &seed());
        assert_eq!(read.keying(), keying);
    }
}

fn key_file_bytes() -> [u8; 64] {
    header_bytes(&Header::new(Algorithm::Aes256GcmSiv, 17, seed(), CHUNK_SIZE, Keying::KeyFile))
}

fn password_bytes() -> [u8; 64] {
    header_bytes(&Header::new(Algorithm::Aes256GcmSiv, 17, seed(), CHUNK_SIZE, Keying::Password(PasswordKdf::testing())))
}

fn parse_error(bytes: [u8; 64], algorithm: Algorithm, expected: ExpectedKeying) -> X3xError {
    match Header::parse(bytes, algorithm, CHUNK_SIZE, expected) {
        Ok(_) => panic!("header was accepted"),
        Err(error) => error,
    }
}

#[test]
fn damaged_headers_are_refused_with_the_first_failing_check() {
    let aes = Algorithm::Aes256GcmSiv;
    let mut bytes = key_file_bytes();
    bytes[0] = b'Y';
    assert_eq!(parse_error(bytes, aes, ExpectedKeying::KeyFile), X3xError::NotX3xFile);

    let mut bytes = key_file_bytes();
    bytes[9] = 9;
    assert_eq!(parse_error(bytes, aes, ExpectedKeying::KeyFile), X3xError::UnknownAlgorithm(9));

    assert_eq!(
        parse_error(key_file_bytes(), Algorithm::Rabbit, ExpectedKeying::KeyFile),
        X3xError::WrongAlgorithm { actual: aes, expected: Algorithm::Rabbit }
    );

    let mut bytes = key_file_bytes();
    bytes[60] = 1;
    assert_eq!(parse_error(bytes, aes, ExpectedKeying::KeyFile), X3xError::NonzeroReserved);

    let mut bytes = key_file_bytes();
    bytes[8] = 3;
    assert_eq!(parse_error(bytes, aes, ExpectedKeying::KeyFile), X3xError::UnsupportedVersion(3));

    let mut bytes = key_file_bytes();
    bytes[10] = 64;
    assert_eq!(parse_error(bytes, aes, ExpectedKeying::KeyFile), X3xError::InvalidAlgorithmParameters);

    let mut bytes = key_file_bytes();
    bytes[11] = 24;
    assert_eq!(parse_error(bytes, aes, ExpectedKeying::KeyFile), X3xError::InvalidAlgorithmParameters);

    let mut bytes = key_file_bytes();
    bytes[12..16].copy_from_slice(&65_536u32.to_le_bytes());
    assert_eq!(parse_error(bytes, aes, ExpectedKeying::KeyFile), X3xError::UnsupportedChunkSize(65_536));
}

#[test]
fn key_file_and_password_containers_cannot_be_mixed() {
    let aes = Algorithm::Aes256GcmSiv;
    assert_eq!(parse_error(key_file_bytes(), aes, ExpectedKeying::Password), X3xError::UsesKeyFile(aes));
    assert_eq!(parse_error(password_bytes(), aes, ExpectedKeying::KeyFile), X3xError::PasswordProtected(aes));
}

#[test]
fn password_parameters_are_bounded() {
    let aes = Algorithm::Aes256GcmSiv;
    let production = PasswordKdf::production();
    assert_eq!(production, PasswordKdf { memory_kib: 512 * 1024, iterations: 4, lanes: 4 });

    let mut bytes = password_bytes();
    bytes[56..60].copy_from_slice(&(production.memory_kib + 1).to_le_bytes());
    assert_eq!(
        parse_error(bytes, aes, ExpectedKeying::Password),
        X3xError::KdfMemoryCost(production.memory_kib + 1)
    );

    let mut bytes = password_bytes();
    bytes[60] = 5;
    assert_eq!(parse_error(bytes, aes, ExpectedKeying::Password), X3xError::KdfIterations(5));

    let mut bytes = password_bytes();
    bytes[62] = 0;
    assert_eq!(parse_error(bytes, aes, ExpectedKeying::Password), X3xError::KdfLanes(0));

    let mut bytes = password_bytes();
    bytes[63] = 2;
    assert_eq!(parse_error(bytes, aes, ExpectedKeying::Password), X3xError::UnsupportedKdf(2));

    assert_eq!(PasswordKdf::from_header(8, 1, 1), Ok(PasswordKdf { memory_kib: 8, iterations: 1, lanes: 1 }));
    assert_eq!(PasswordKdf::from_header(31, 1, 4), Err(X3xError::KdfMemoryCost(31)));
}

#[test]
fn records_split_the_plaintext_into_chunks() {
    assert_eq!(chunk_count(0, CHUNK_SIZE), 1);
    assert_eq!(chunk_count(1, CHUNK_SIZE), 1);
    assert_eq!(chunk_count(CHUNK_SIZE as u64, CHUNK_SIZE), 1);
    assert_eq!(chunk_count(CHUNK_SIZE as u64 + 73, CHUNK_SIZE), 2);
    assert_eq!(chunk_count(3 * CHUNK_SIZE as u64, CHUNK_SIZE), 3);

    assert_eq!(chunk_plaintext_len(0, CHUNK_SIZE, 0), 0);
    let length = CHUNK_SIZE as u64 + 73;
    assert_eq!(chunk_plaintext_len(length, CHUNK_SIZE, 0), CHUNK_SIZE);
    assert_eq!(chunk_plaintext_len(length, CHUNK_SIZE, 1), 73);
    assert_eq!(chunk_plaintext_len(2 * CHUNK_SIZE as u64, CHUNK_SIZE, 1), CHUNK_SIZE);
}

#[test]
fn record_associated_data_binds_header_index_length_and_finality() {
    let header = Header::new(Algorithm::Aegis256, 100, seed(), CHUNK_SIZE, Keying::KeyFile);
    let aad = chunk_aad(&header, 0x0A0B, 100, true);
    assert_eq!(&aad[..64], header.bytes());
    assert_eq!(&aad[64..72], &0x0A0Bu64.to_le_bytes());
    assert_eq!(&aad[72..76], &100u32.to_le_bytes());
    assert_eq!(&aad[76..], &[1u8, 0, 0, 0]);
    assert_eq!(chunk_aad(&header, 0x0A0B, 100, false)[76], 0);
    assert_ne!(chunk_aad(&header, 1, 100, true), chunk_aad(&header, 2, 100, true));
}

#[test]
fn record_nonces_xor_the_big_endian_index_into_the_seed_prefix() {
    let seed = seed();
    assert_eq!(chunk_nonce(&seed, 12, 0), seed[..12].to_vec());
    let mut expected = seed[..12].to_vec();
    expected[11] ^= 0x02;
    expected[10] ^= 0x01;
    assert_eq!(chunk_nonce(&seed, 12, 0x0102), expected);
    let nonces: Vec<Vec<u8>> = (0..64u64).map(|index| chunk_nonce(&seed, 24, index)).collect();
    for (i, a) in nonces.iter().enumerate() {
        assert_eq!(a.len(), 24);
        assert_eq!(&a[..16], &seed[..16]);
        for b in &nonces[i + 1..] {
            assert_ne!(a, b);
        }
    }
    assert_eq!(chunk_nonce(&seed, 32, u64::MAX)[24..], seed[24..].iter().map(|b| b ^ 0xFF).collect::<Vec<u8>>()[..]);
}

#[test]
fn record_lengths_add_up_to_the_plaintext_length() {
    let chunk = CHUNK_SIZE as u64;
    for length in [0, 1, chunk - 1, chunk, chunk + 1, 3 * chunk + 5] {
        let count = chunk_count(length, CHUNK_SIZE);
        let mut total = 0u64;
        for index in 0..count {
            let record = chunk_plaintext_len(length, CHUNK_SIZE, index) as u64;
            if index + 1 < count {
                assert_eq!(record, chunk);
            } else if length > 0 {
                assert!(record > 0 && record <= chunk);
            }
            total += record;
        }
        assert_eq!(total, length);
    }
}
