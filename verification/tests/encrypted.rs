use bthome::encryption::CryptoEngine;
use bthome::BTHomeData;
use bthome::BTHomeError;

fn test_data() -> BTHomeData {
    BTHomeData::new()
        .temperature(1860)
        .humidity(2050)
        .co2(428)
        .pm2_5(49)
}

const TEST_BYTES: [u8; 21] = [
    65, 75, 42, 32, 212, 185, 208, 237, 26, 140, 64, 158, 112, 100, 0, 0, 0, 168, 3, 96, 60,
];

#[test]
fn encryption_serialize() {
    let mut crypto_engine = CryptoEngine::new([1u8; 16], [2u8; 6], 100);
    let mut buffer = vec![0u8; 256];
    let size = test_data()
        .to_encrypted_slice(&mut crypto_engine, &mut buffer)
        .unwrap();
    assert_eq!(buffer[0..size], TEST_BYTES);
}

#[test]
fn encryption_serialize_std() {
    let mut crypto_engine = CryptoEngine::new([1u8; 16], [2u8; 6], 100);
    let bytes = test_data().to_encrypted_vec(&mut crypto_engine).unwrap();
    assert_eq!(bytes, TEST_BYTES);
}

#[test]
fn encryption_overhead_buffer_overflow() {
    let mut crypto_engine = CryptoEngine::new([1u8; 16], [2u8; 6], 100);
    let mut buffer = vec![0u8; 14];
    let res = test_data().to_encrypted_slice(&mut crypto_engine, &mut buffer);
    assert_eq!(res, Err(BTHomeError::BufferOverflow));
}

#[test]
fn counter_advances_by_one_on_success() {
    let mut crypto_engine = CryptoEngine::new([1u8; 16], [2u8; 6], 100);
    let first = test_data().to_encrypted_vec(&mut crypto_engine).unwrap();
    assert_eq!(&first[13..17], &[100, 0, 0, 0]);
    let second = test_data().to_encrypted_vec(&mut crypto_engine).unwrap();
    assert_eq!(&second[13..17], &[101, 0, 0, 0]);
}

#[test]
fn counter_wraps_to_zero_at_limit() {
    let mut crypto_engine = CryptoEngine::new([1u8; 16], [2u8; 6], u32::MAX);
    let first = test_data().to_encrypted_vec(&mut crypto_engine).unwrap();
    assert_eq!(&first[13..17], &[255, 255, 255, 255]);
    let second = test_data().to_encrypted_vec(&mut crypto_engine).unwrap();
    assert_eq!(&second[13..17], &[0, 0, 0, 0]);
}

#[test]
fn counter_unchanged_on_failure() {
    let mut crypto_engine = CryptoEngine::new([1u8; 16], [2u8; 6], 100);
    let mut small = vec![0u8; 14];
    let res = test_data().to_encrypted_slice(&mut crypto_engine, &mut small);
    assert_eq!(res, Err(BTHomeError::BufferOverflow));
    // a failed encode skips no counter value: the next success still uses 100
    let bytes = test_data().to_encrypted_vec(&mut crypto_engine).unwrap();
    assert_eq!(bytes, TEST_BYTES);
}

#[test]
fn encrypted_undersized_buffer_always_overflows() {
    for cap in 0..21usize {
        let mut crypto_engine = CryptoEngine::new([1u8; 16], [2u8; 6], 100);
        let mut buffer = vec![0u8; cap];
        let res = test_data().to_encrypted_slice(&mut crypto_engine, &mut buffer);
        assert_eq!(res, Err(BTHomeError::BufferOverflow));
    }
    let mut crypto_engine = CryptoEngine::new([1u8; 16], [2u8; 6], 100);
    let mut exact = vec![0u8; 21];
    let res = test_data().to_encrypted_slice(&mut crypto_engine, &mut exact);
    assert_eq!(res, Ok(21));
    assert_eq!(exact[..], TEST_BYTES);
}

#[test]
fn encrypted_value_errors_before_encryption() {
    let mut crypto_engine = CryptoEngine::new([1u8; 16], [2u8; 6], 100);
    let mut buffer = vec![0u8; 256];
    assert_eq!(
        BTHomeData::new()
            .humidity(100000)
            .to_encrypted_slice(&mut crypto_engine, &mut buffer),
        Err(BTHomeError::ValueOverflow)
    );
    assert_eq!(
        BTHomeData::new()
            .temperature(-100000)
            .to_encrypted_slice(&mut crypto_engine, &mut buffer),
        Err(BTHomeError::ValueUnderflow)
    );
}

#[test]
fn ciphertext_differs_from_plaintext() {
    let mut crypto_engine = CryptoEngine::new([1u8; 16], [2u8; 6], 100);
    let encrypted = test_data().to_encrypted_vec(&mut crypto_engine).unwrap();
    // marker, 12 ciphertext bytes, 4 counter bytes, 4 tag bytes
    assert_eq!(encrypted.len(), 21);
    assert_eq!(encrypted[0], 0x41);
    let plaintext_payload = [2u8, 68, 7, 3, 2, 8, 13, 49, 0, 18, 172, 1];
    assert_ne!(&encrypted[1..13], &plaintext_payload[..]);
}

#[test]
fn encryption_deterministic_for_fixed_identity_and_counter() {
    let mut first_engine = CryptoEngine::new([1u8; 16], [2u8; 6], 100);
    let mut second_engine = CryptoEngine::new([1u8; 16], [2u8; 6], 100);
    let first = test_data().to_encrypted_vec(&mut first_engine).unwrap();
    let second = test_data().to_encrypted_vec(&mut second_engine).unwrap();
    assert_eq!(first, second);
}

#[test]
fn fresh_counter_changes_ciphertext() {
    let mut crypto_engine = CryptoEngine::new([1u8; 16], [2u8; 6], 100);
    let first = test_data().to_encrypted_vec(&mut crypto_engine).unwrap();
    let second = test_data().to_encrypted_vec(&mut crypto_engine).unwrap();
    // same record, fresh nonce: the sealed bytes must not repeat
    assert_ne!(&first[1..13], &second[1..13]);
    assert_ne!(&first[17..21], &second[17..21]);
}
