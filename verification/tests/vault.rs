use stark_core::vault::{Vault, VaultError};

#[test]
fn round_trip_recovers_the_plaintext() {
    let vault = Vault::new("correct horse battery staple").unwrap();
    let sealed = vault.encrypt("meet at lot 42").unwrap();
    assert_eq!(vault.decrypt(&sealed), Ok("meet at lot 42".to_string()));
}

#[test]
fn ciphertext_is_hex_of_nonce_then_sealed_body() {
    let vault = Vault::new("pw").unwrap();
    let plaintext = "hello";
    let sealed = vault.encrypt(plaintext).unwrap();
    // 12 nonce bytes, the plaintext bytes, and the 16-byte tag, two hex
    // digits each.
    assert_eq!(sealed.len(), 2 * (12 + plaintext.len() + 16));
    assert!(sealed.chars().all(|c| c.is_ascii_hexdigit()));
    assert_eq!(sealed, sealed.to_lowercase());
}

#[test]
fn two_encryptions_of_one_message_differ_but_both_open() {
    let vault = Vault::new("pw").unwrap();
    let first = vault.encrypt("same message").unwrap();
    let second = vault.encrypt("same message").unwrap();
    // Fresh random nonces make the frames differ.
    assert_ne!(first, second);
    assert_eq!(vault.decrypt(&first), Ok("same message".to_string()));
    assert_eq!(vault.decrypt(&second), Ok("same message".to_string()));
}

#[test]
fn the_wrong_password_is_refused() {
    let vault = Vault::new("right password").unwrap();
    let sealed = vault.encrypt("payload").unwrap();
    let other = Vault::new("wrong password").unwrap();
    assert_eq!(other.decrypt(&sealed), Err(VaultError::DecryptionFailure));
}

#[test]
fn a_tampered_frame_is_refused() {
    let vault = Vault::new("pw").unwrap();
    let sealed = vault.encrypt("payload").unwrap();
    let mut chars: Vec<char> = sealed.chars().collect();
    let last = chars.len() - 1;
    chars[last] = if chars[last] == '0' { '1' } else { '0' };
    let tampered: String = chars.into_iter().collect();
    assert_eq!(vault.decrypt(&tampered), Err(VaultError::DecryptionFailure));
}

#[test]
fn malformed_hex_is_refused() {
    let vault = Vault::new("pw").unwrap();
    assert_eq!(vault.decrypt("zz"), Err(VaultError::InvalidHex));
    assert_eq!(vault.decrypt("0f0"), Err(VaultError::InvalidHex));
}

#[test]
fn a_frame_shorter_than_the_nonce_is_refused() {
    let vault = Vault::new("pw").unwrap();
    assert_eq!(vault.decrypt(""), Err(VaultError::CiphertextTooShort));
    assert_eq!(
        vault.decrypt("0011223344556677889900"),
        Err(VaultError::CiphertextTooShort)
    );
}
