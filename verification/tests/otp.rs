use x3x::otp::{check_otp_key_len, xor_with_key, OtpPass};
use x3x::X3xError;

#[test]
fn xors_every_input_byte_with_the_key_prefix() {
    let mut data = [1_u8, 2, 3];
    xor_with_key(&mut data, &[4_u8, 5, 6, 7, 8]);
    assert_eq!(data, [5_u8, 7, 5]);
}

#[test]
fn padding_twice_restores_the_input() {
    let original = b"round trip contents".to_vec();
    let key = b"long enough key data!";
    let mut data = original.clone();
    xor_with_key(&mut data, key);
    assert_ne!(data, original);
    xor_with_key(&mut data, key);
    assert_eq!(data, original);
}

#[test]
fn padding_by_blocks_equals_padding_whole() {
    let input: Vec<u8> = (0..1000_u32).map(|i| (i % 251) as u8).collect();
    let key: Vec<u8> = (0..1000_u32).map(|i| ((i % 256) as u8).wrapping_mul(73).wrapping_add(19)).collect();
    let mut whole = input.clone();
    xor_with_key(&mut whole, &key);
    let mut blocks = input.clone();
    let (first, second) = blocks.split_at_mut(333);
    xor_with_key(first, &key[..333]);
    xor_with_key(second, &key[333..]);
    assert_eq!(whole, blocks);
}

#[test]
fn empty_input_is_unchanged() {
    let mut data: [u8; 0] = [];
    xor_with_key(&mut data, &[]);
    assert_eq!(data, []);
}

#[test]
fn short_keys_are_refused_before_anything_changes() {
    assert_eq!(
        check_otp_key_len(13, 5),
        Err(X3xError::OtpKeyTooShort { input_len: 13, key_len: 5 })
    );
    assert_eq!(check_otp_key_len(3, 3), Ok(()));
    assert_eq!(check_otp_key_len(3, 5), Ok(()));
    assert_eq!(check_otp_key_len(0, 0), Ok(()));
}

#[test]
fn a_pass_pads_block_by_block_and_refuses_short_keys() {
    assert_eq!(
        OtpPass::new(10, 9).err(),
        Some(X3xError::OtpKeyTooShort { input_len: 10, key_len: 9 })
    );
    let input = b"the plaintext".to_vec();
    let key = b"a secret mask".to_vec();
    let mut pass = OtpPass::new(input.len() as u64, key.len() as u64).unwrap();
    assert_eq!(pass.block_len(), input.len());
    let mut data = input.clone();
    pass.pad_block(&mut data, &key);
    assert_eq!(pass.remaining(), 0);
    assert_eq!(pass.block_len(), 0);
    let expected: Vec<u8> = input.iter().zip(&key).map(|(byte, mask)| byte ^ mask).collect();
    assert_eq!(data, expected);
}
