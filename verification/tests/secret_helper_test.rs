use bios_basic::error::BasicError;
use bios_basic::rbum::helper::secret_helper::{
    decrypt, decrypt_or_original, decrypt_with_key, encrypt, encrypt_with_key, encrypt_with_key_and_iv, is_encrypt_enabled, is_encrypted,
    is_key_configured, SECRET_ENCRYPTED_PREFIX,
};
use bios_basic::rbum::rbum_config::{RbumConfig, RbumConfigManager};

const KEY: &str = "0123456789abcdef";
const OTHER_KEY: &str = "fedcba9876543210";

#[test]
fn test_encrypt_and_decrypt() {
    let plaintext = "p@ssw0rd-中文-1234567890";
    let ciphertext = encrypt_with_key(plaintext, KEY).expect("encrypt failed");
    assert!(is_encrypted(&ciphertext));
    assert_ne!(ciphertext, plaintext);
    assert_eq!(decrypt_with_key(&ciphertext, KEY).expect("decrypt failed"), plaintext);
    // The ciphertext is not encrypted again
    assert_eq!(encrypt_with_key(&ciphertext, KEY).expect("encrypt failed"), ciphertext);
    // The plaintext is returned as is
    assert_eq!(decrypt_with_key(plaintext, KEY).expect("decrypt failed"), plaintext);
}

#[test]
fn test_decrypt_with_other_key() {
    let ciphertext = encrypt_with_key("p@ssw0rd", KEY).expect("encrypt failed");
    assert!(decrypt_with_key(&ciphertext, OTHER_KEY).map(|plaintext| plaintext != "p@ssw0rd").unwrap_or(true));
}

#[test]
fn test_invalid_key() {
    assert!(encrypt_with_key("p@ssw0rd", "too-short").is_err());
    assert!(encrypt_with_key("p@ssw0rd", "0123456789abcdef").is_ok());
}

#[test]
fn test_ciphertext_layout() {
    let iv = "00112233aabbccdd";
    let ciphertext = encrypt_with_key_and_iv("abc", KEY, iv).expect("encrypt failed");
    // prefix, iv, one block of ciphertext as hexadecimal, then ``)``
    assert!(ciphertext.starts_with(&format!("{SECRET_ENCRYPTED_PREFIX}{iv}")));
    assert!(ciphertext.ends_with(')'));
    assert_eq!(ciphertext.len(), SECRET_ENCRYPTED_PREFIX.len() + 16 + 32 + 1);
    assert_eq!(decrypt_with_key(&ciphertext, KEY).unwrap(), "abc");
    // a 16-byte iv is required
    assert_eq!(encrypt_with_key_and_iv("abc", KEY, "short"), Err(BasicError::CryptoFailed));
    assert_eq!(encrypt_with_key_and_iv("abc", "short", iv), Err(BasicError::SecretKeyInvalid));
}

#[test]
fn test_decrypt_errors() {
    assert_eq!(decrypt_with_key("ENC(sm4v1:abc)", KEY), Err(BasicError::SecretCiphertextInvalid));
    assert_eq!(decrypt_with_key("ENC(sm4v1:00112233aabbccddzz)", "short"), Err(BasicError::SecretKeyInvalid));
    assert_eq!(decrypt_with_key("ENC(sm4v1:00112233aabbccddzz)", KEY), Err(BasicError::CryptoFailed));
    // without the closing bracket the value is plaintext
    assert_eq!(decrypt_with_key("ENC(sm4v1:00112233aabbccdd", KEY).unwrap(), "ENC(sm4v1:00112233aabbccdd");
}

fn manager(key: &str, encrypt: bool) -> RbumConfigManager {
    let mut m = RbumConfigManager::new();
    let mut conf = RbumConfig::default();
    conf.secret_attr_key = key.to_string();
    conf.secret_attr_encrypt = encrypt;
    m.add("rbum", conf);
    m
}

#[test]
fn test_encrypt_by_configuration() {
    let on = manager(" 0123456789abcdef ", true);
    assert!(is_key_configured(&on, "rbum"));
    assert!(is_encrypt_enabled(&on, "rbum"));
    let stored = encrypt("secret", &on, "rbum").unwrap();
    assert!(is_encrypted(&stored));
    assert_eq!(decrypt(&stored, &on, "rbum").unwrap(), "secret");
    assert_eq!(decrypt_or_original(&stored, &on, "rbum"), "secret");
    // switched off, or without a key, or for an unknown module: stored as is
    let off = manager(KEY, false);
    assert!(!is_encrypt_enabled(&off, "rbum"));
    assert_eq!(encrypt("secret", &off, "rbum").unwrap(), "secret");
    let no_key = manager("", true);
    assert!(!is_key_configured(&no_key, "rbum"));
    assert_eq!(encrypt("secret", &no_key, "rbum").unwrap(), "secret");
    assert_eq!(encrypt("secret", &on, "other").unwrap(), "secret");
    // a key of the wrong length is not configured: stored as is
    let bad_key = manager("too-short", true);
    assert!(!is_key_configured(&bad_key, "rbum"));
    assert_eq!(encrypt("secret", &bad_key, "rbum").unwrap(), "secret");
    // decrypting with another key gives the stored value back
    let other = manager(OTHER_KEY, true);
    let read = decrypt_or_original(&stored, &other, "rbum");
    assert!(read == stored || read != "secret");
}
