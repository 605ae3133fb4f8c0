use x3x::{Algorithm, Mode, X3xError};

const ALGORITHMS: [Algorithm; 8] = [
    Algorithm::Aes256GcmSiv,
    Algorithm::XChaCha20Poly1305,
    Algorithm::Serpent256,
    Algorithm::Threefish1024,
    Algorithm::AsconAead128,
    Algorithm::Rabbit,
    Algorithm::Aegis256,
    Algorithm::Aegis128L,
];

#[test]
fn identifiers_round_trip_and_unknown_ones_are_refused() {
    for (index, algorithm) in ALGORITHMS.iter().enumerate() {
        let id = u8::try_from(index + 1).unwrap();
        assert_eq!(algorithm.id(), id);
        assert_eq!(Algorithm::from_id(id), Ok(*algorithm));
    }
    assert_eq!(Algorithm::from_id(0), Err(X3xError::UnknownAlgorithm(0)));
    assert_eq!(Algorithm::from_id(9), Err(X3xError::UnknownAlgorithm(9)));
}

#[test]
fn key_files_commands_and_key_lengths() {
    let expected = [
        ("aes", "aesp", "aes.key", 32),
        ("cha", "chap", "cha.key", 32),
        ("ser", "serp", "ser.key", 32),
        ("thf", "thfp", "thf.key", 128),
        ("asc", "ascp", "asc.key", 16),
        ("rabbit", "rabbitp", "rab.key", 16),
        ("aegis256", "aegis256p", "aegis256.key", 32),
        ("aegis128l", "aegis128lp", "aegis128l.key", 16),
    ];
    for (algorithm, (command, password_command, key_filename, key_len)) in
        ALGORITHMS.iter().zip(expected)
    {
        assert_eq!(algorithm.command(), command);
        assert_eq!(algorithm.password_command(), password_command);
        assert_eq!(algorithm.key_filename(), key_filename);
        assert_eq!(algorithm.key_len(), key_len);
    }
}

#[test]
fn tags_and_nonces_follow_the_construction() {
    let aead = [true, true, false, false, true, false, true, true];
    let nonces = [12, 24, 32, 32, 16, 32, 32, 16];
    for ((algorithm, is_aead), nonce_len) in ALGORITHMS.iter().zip(aead).zip(nonces) {
        assert_eq!(algorithm.is_aead(), is_aead);
        assert_eq!(algorithm.tag_len(), if is_aead { 16 } else { 64 });
        assert_eq!(algorithm.nonce_len(), nonce_len);
    }
}

#[test]
fn display_names_describe_the_construction() {
    assert_eq!(Algorithm::Aes256GcmSiv.display_name(), "AES-256-GCM-SIV");
    assert_eq!(
        Algorithm::Threefish1024.display_name(),
        "Threefish-1024-CTR + HMAC-SHA-512"
    );
    assert_eq!(Algorithm::Aegis128L.display_name(), "AEGIS-128L");
}

#[test]
fn mode_accepts_exactly_uppercase_e_and_d() {
    assert_eq!(Mode::parse("E"), Ok(Mode::Encrypt));
    assert_eq!(Mode::parse("D"), Ok(Mode::Decrypt));
    for operation in [
        "e", "d", "encrypt", "DECRYPT", "ED", "-", "", "E ", " D", "ENCRYPT", "decrypt",
    ] {
        assert_eq!(Mode::parse(operation), Err(X3xError::InvalidMode));
    }
}
