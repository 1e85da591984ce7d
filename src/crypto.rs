//! Per-fragment asymmetric encryption with age X25519 keys. The private key
//! travels as text on the fragment's row.
use vstd::prelude::*;
use std::io::{Read, Write};
use age::secrecy::ExposeSecret;

verus! {

/// age's X25519 secret key, carried opaque.
#[verifier::external_type_specification]
#[verifier::external_body]
pub struct ExIdentity(age::x25519::Identity);

#[derive(Debug, Clone, Copy, PartialEq, Eq, Structural)]
pub enum CryptoError {
    /// The stored key text is not an X25519 identity.
    MalformedKey,
    /// Writing the encrypted stream failed.
    Encrypt,
    /// The ciphertext is corrupt or was not encrypted to this key.
    Decrypt,
}

/// Whether age reads an X25519 identity from the text.
pub uninterp spec fn is_identity_text(s: Seq<char>) -> bool;

/// The plaintext that age reads from the age file `ciphertext` with the
/// X25519 identity written as `key_text`; `None` when it cannot.
pub uninterp spec fn age_plaintext(key_text: Seq<char>, ciphertext: Seq<u8>) -> Option<Seq<u8>>;

/// Relies on `<age::x25519::Identity as FromStr>::from_str`: it accepts the
/// text or not depending on the text alone.
#[verifier::external_body]
fn parse_identity(text: &str) -> (r: Result<age::x25519::Identity, CryptoError>)
    ensures
        match r {
            Ok(_) => is_identity_text(text@),
            Err(e) => !is_identity_text(text@) && e == CryptoError::MalformedKey,
        },
{
    match <age::x25519::Identity as std::str::FromStr>::from_str(text) {
        Ok(id) => Ok(id),
        Err(_) => Err(CryptoError::MalformedKey),
    }
}

/// The identity that a fragment's stored key text holds.
pub fn identity_of(key_text: &str) -> (r: Result<age::x25519::Identity, CryptoError>)
    ensures
        match r {
            Ok(_) => is_identity_text(key_text@),
            Err(e) => !is_identity_text(key_text@) && e == CryptoError::MalformedKey,
        },
{
    parse_identity(key_text)
}

/// An encrypted payload and the private key text that opens it.
pub struct Sealed {
    pub ciphertext: Vec<u8>,
    pub key_text: String,
}

/// Relies on `age::x25519::Identity::generate`, `to_public` and `to_string`,
/// and on `age::Encryptor::with_recipients`, `wrap_output` and
/// `StreamWriter::finish`: `data` encrypted, into memory, to a fresh key pair
/// whose secret key text `from_str` reads back. With one recipient and a
/// `Vec` to write to, none of these fails.
#[verifier::external_body]
fn encrypt_to_fresh_key(data: &[u8]) -> (r: Result<Sealed, CryptoError>)
    ensures
        match r {
            Ok(s) => is_identity_text(s.key_text@) && age_plaintext(s.key_text@, s.ciphertext@)
                == Some(data@),
            Err(_) => false,
        },
{
    let identity = age::x25519::Identity::generate();
    let recipient: Box<dyn age::Recipient + Send> = Box::new(identity.to_public());
    let encryptor = age::Encryptor::with_recipients(vec![recipient]).ok_or(CryptoError::Encrypt)?;
    let mut writer = encryptor.wrap_output(Vec::new()).map_err(|_| CryptoError::Encrypt)?;
    writer.write_all(data).map_err(|_| CryptoError::Encrypt)?;
    let ciphertext = writer.finish().map_err(|_| CryptoError::Encrypt)?;
    Ok(Sealed { ciphertext, key_text: identity.to_string().expose_secret().to_owned() })
}

/// Relies on `<age::x25519::Identity as FromStr>::from_str`,
/// `age::Decryptor::new`, `RecipientsDecryptor::decrypt` and the reader it
/// returns: the plaintext of `data` under the identity in `key_text`, or
/// an error when age cannot read one.
#[verifier::external_body]
fn decrypt_with_key_text(key_text: &str, data: &[u8]) -> (r: Result<Vec<u8>, CryptoError>)
    requires
        is_identity_text(key_text@),
    ensures
        match age_plaintext(key_text@, data@) {
            Some(p) => r is Ok && r->Ok_0@ == p,
            None => r == Err::<Vec<u8>, CryptoError>(CryptoError::Decrypt),
        },
{
    let id = <age::x25519::Identity as std::str::FromStr>::from_str(key_text).map_err(|_| CryptoError::MalformedKey)?;
    let decryptor = match age::Decryptor::new(data) {
        Ok(age::Decryptor::Recipients(d)) => d,
        _ => return Err(CryptoError::Decrypt),
    };
    let identity: &dyn age::Identity = &id;
    let mut reader = decryptor.decrypt(std::iter::once(identity)).map_err(|_| CryptoError::Decrypt)?;
    let mut out = Vec::new();
    reader.read_to_end(&mut out).map_err(|_| CryptoError::Decrypt)?;
    Ok(out)
}

/// Encrypts `data` to a fresh key pair; the plaintext is not kept. The key
/// text returned is an identity, and it opens the ciphertext to `data`.
pub fn seal(data: &[u8]) -> (r: Result<Sealed, CryptoError>)
    ensures
        r is Ok,
        r is Ok ==> is_identity_text(r->Ok_0.key_text@) && age_plaintext(
            r->Ok_0.key_text@,
            r->Ok_0.ciphertext@,
        ) == Some(data@),
{
    encrypt_to_fresh_key(data)
}

/// What opening `ciphertext` with `key_text` gives: the plaintext, or the
/// error that tells a malformed key from a failed decryption.
pub open spec fn opened(key_text: Seq<char>, ciphertext: Seq<u8>) -> Result<Seq<u8>, CryptoError> {
    if !is_identity_text(key_text) {
        Err(CryptoError::MalformedKey)
    } else {
        match age_plaintext(key_text, ciphertext) {
            Some(p) => Ok(p),
            None => Err(CryptoError::Decrypt),
        }
    }
}

/// Decrypts a payload with the private key text stored on its fragment. A
/// malformed key is told apart from a failed decryption.
pub fn open(key_text: &str, ciphertext: &[u8]) -> (r: Result<Vec<u8>, CryptoError>)
    ensures
        match r {
            Ok(p) => opened(key_text@, ciphertext@) == Ok::<Seq<u8>, CryptoError>(p@),
            Err(e) => opened(key_text@, ciphertext@) == Err::<Seq<u8>, CryptoError>(e),
        },
{
    identity_of(key_text)?;
    decrypt_with_key_text(key_text, ciphertext)
}

/// Whatever `seal` hands back opens, with its key text, to exactly the bytes
/// that were sealed.
pub proof fn lemma_sealed_payload_opens(data: Seq<u8>, key_text: Seq<char>, ciphertext: Seq<u8>)
    requires
        is_identity_text(key_text),
        age_plaintext(key_text, ciphertext) == Some(data),
    ensures
        opened(key_text, ciphertext) == Ok::<Seq<u8>, CryptoError>(data),
{
}

} // verus!
