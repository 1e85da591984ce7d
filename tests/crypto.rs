use transcodeck::crypto::{identity_of, open, seal, CryptoError};

fn round_trip(data: &[u8]) {
    let sealed = seal(data).unwrap();
    assert_ne!(sealed.ciphertext, data);
    assert!(sealed.key_text.starts_with("AGE-SECRET-KEY-1"));
    assert_eq!(open(&sealed.key_text, &sealed.ciphertext).unwrap(), data);
}

#[test]
fn round_trip_empty() {
    round_trip(&[]);
}

#[test]
fn round_trip_one_byte() {
    round_trip(&[7]);
}

#[test]
fn round_trip_several_megabytes() {
    let data: Vec<u8> = (0..4 * 1024 * 1024 + 17).map(|i: u32| (i * 31 % 251) as u8).collect();
    round_trip(&data);
}

#[test]
fn stored_key_text_gives_back_the_identity() {
    let sealed = seal(b"x").unwrap();
    assert!(identity_of(&sealed.key_text).is_ok());
    assert_eq!(identity_of("AGE-SECRET-KEY-1").err(), Some(CryptoError::MalformedKey));
}

#[test]
fn malformed_key_is_told_apart() {
    let sealed = seal(b"payload").unwrap();
    assert_eq!(open("not a key", &sealed.ciphertext), Err(CryptoError::MalformedKey));
}

#[test]
fn wrong_key_or_corrupt_ciphertext_fails_decryption() {
    let a = seal(b"payload").unwrap();
    let b = seal(b"other").unwrap();
    assert_eq!(open(&b.key_text, &a.ciphertext), Err(CryptoError::Decrypt));
    let mut corrupt = a.ciphertext.clone();
    let last = corrupt.len() - 1;
    corrupt[last] ^= 1;
    assert_eq!(open(&a.key_text, &corrupt), Err(CryptoError::Decrypt));
    assert_eq!(open(&a.key_text, b"garbage"), Err(CryptoError::Decrypt));
}

#[test]
fn truncated_ciphertext_fails_decryption() {
    let data: Vec<u8> = (0..200_000u32).map(|i| (i % 256) as u8).collect();
    let sealed = seal(&data).unwrap();
    let cut = &sealed.ciphertext[..sealed.ciphertext.len() - 100];
    assert_eq!(open(&sealed.key_text, cut), Err(CryptoError::Decrypt));
}
