use velo_hub::crypto::{decode_master_key, generate_master_key, CryptoService};
use velo_hub::error::{AppError, CryptoError};

fn create_test_crypto() -> CryptoService {
    CryptoService::from_key(vec![42u8; 32])
}

#[test]
fn test_encrypt_decrypt() {
    let crypto = create_test_crypto();
    let plaintext = "test-api-key-12345";
    let encrypted = crypto.encrypt(plaintext).expect("Encryption failed");
    assert!(encrypted.len() > plaintext.len());
    let decrypted = crypto.decrypt(&encrypted).expect("Decryption failed");
    assert_eq!(decrypted, plaintext);
}

#[test]
fn test_encrypt_decrypt_base64() {
    let crypto = create_test_crypto();
    let plaintext = "sk-1234567890abcdef";
    let encrypted_base64 = crypto.encrypt_to_base64(plaintext).expect("Encryption failed");
    assert!(!encrypted_base64.is_empty());
    let decrypted = crypto.decrypt_from_base64(&encrypted_base64).expect("Decryption failed");
    assert_eq!(decrypted, plaintext);
}

#[test]
fn test_decrypt_invalid_data() {
    let crypto = create_test_crypto();
    let invalid_data = vec![0u8; 10];
    let result = crypto.decrypt(&invalid_data);
    assert!(result.is_err());
}

#[test]
fn test_multiple_encryptions_different_ciphertext() {
    let crypto = create_test_crypto();
    let plaintext = "test-data";
    let encrypted1 = crypto.encrypt(plaintext).expect("Encryption 1 failed");
    let encrypted2 = crypto.encrypt(plaintext).expect("Encryption 2 failed");
    assert_ne!(encrypted1, encrypted2);
    let decrypted1 = crypto.decrypt(&encrypted1).expect("Decryption 1 failed");
    let decrypted2 = crypto.decrypt(&encrypted2).expect("Decryption 2 failed");
    assert_eq!(decrypted1, plaintext);
    assert_eq!(decrypted2, plaintext);
}

fn decryption_message(r: Result<String, AppError>) -> String {
    match r {
        Err(AppError::Crypto(CryptoError::DecryptionFailed(m))) => m,
        other => panic!("unexpected {:?}", other),
    }
}

#[test]
fn decrypt_refusals_are_named() {
    let crypto = create_test_crypto();
    assert_eq!(decryption_message(crypto.decrypt(&[0u8; 27])), "Ciphertext too short");
    assert_eq!(decryption_message(crypto.decrypt(&[0u8; 40])), "Decryption failed");
    let other = CryptoService::from_key(vec![7u8; 32]);
    let sealed = crypto.encrypt("secret").unwrap();
    assert_eq!(decryption_message(other.decrypt(&sealed)), "Decryption failed");
    assert!(decryption_message(crypto.decrypt_from_base64("***")).starts_with("Failed to decode base64: "));
}

#[test]
fn sealed_layout_is_nonce_ciphertext_tag() {
    let crypto = create_test_crypto();
    let nonce = vec![1u8; 12];
    let sealed = crypto.encrypt_with_nonce("abc", nonce.clone()).unwrap();
    assert_eq!(sealed.len(), 12 + 3 + 16);
    assert_eq!(&sealed[..12], &nonce[..]);
    assert_eq!(crypto.decrypt(&sealed).unwrap(), "abc");
}

#[test]
fn master_key_round_trip() {
    let (key, text) = generate_master_key().unwrap();
    assert_eq!(key.len(), 32);
    assert_eq!(decode_master_key(&text).unwrap(), key);
    match decode_master_key("AAAA") {
        Err(CryptoError::InvalidKeyFormat(m)) => assert_eq!(m, "Invalid master key length in keychain"),
        other => panic!("unexpected {:?}", other),
    }
}
