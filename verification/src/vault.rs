//! Symmetric-encryption vault: AES-256-GCM under a key derived from a
//! password with BLAKE3, framing each message as nonce-then-ciphertext in
//! one lowercase hex string.

use vstd::prelude::*;

use aes_gcm::aead::{Aead, Generate};
use aes_gcm::{Aes256Gcm, KeyInit};

verus! {

use vstd::utf8::{encode_utf8, valid_utf8};

/// Everything that can go wrong in the vault: sealing refused the message,
/// or the ciphertext handed to `decrypt` was malformed at one of its four
/// layers — hex framing, length, authentication, or plaintext encoding.
#[derive(Debug, Clone, Copy, PartialEq, Eq, Structural)]
pub enum VaultError {
    EncryptionFailure,
    InvalidHex,
    CiphertextTooShort,
    DecryptionFailure,
    InvalidUtf8,
}

/// The 32-byte BLAKE3 digest of a byte sequence; a function of the input
/// alone.
pub uninterp spec fn digest_of(bytes: Seq<u8>) -> Seq<u8>;

/// Relies on `blake3::hash`: returns the 32-byte BLAKE3 digest of the
/// input.
#[verifier::external_body]
fn blake3_digest(bytes: &[u8]) -> (r: Vec<u8>)
    ensures
        r@ == digest_of(bytes@),
        r@.len() == 32,
{
    blake3::hash(bytes).as_bytes().to_vec()
}

/// The AES-256-GCM sealing of a plaintext under a key and nonce; a
/// function of the three alone.
pub uninterp spec fn sealed_of(key: Seq<u8>, nonce: Seq<u8>, plaintext: Seq<u8>) -> Seq<u8>;

/// What AES-256-GCM opens a ciphertext to under a key and nonce, or
/// nothing when authentication fails; a function of the three alone.
pub uninterp spec fn opened_of(key: Seq<u8>, nonce: Seq<u8>, ciphertext: Seq<u8>) -> Option<
    Seq<u8>,
>;

/// The lowercase hex encoding of a byte sequence, two digits per byte; a
/// function of the bytes alone.
pub uninterp spec fn hex_of(bytes: Seq<u8>) -> Seq<char>;

/// The byte sequence a well-formed hex string decodes to.
pub uninterp spec fn unhex_of(s: Seq<char>) -> Option<Seq<u8>>;

/// Relies on the `Generate` impl for byte arrays in the `aead` stack:
/// draws 12 bytes from the system RNG. Nothing is promised of their
/// values — only the length.
#[verifier::external_body]
fn generate_nonce_bytes() -> (r: Vec<u8>)
    ensures
        r@.len() == 12,
{
    let nonce = <aes_gcm::aead::Nonce<Aes256Gcm> as Generate>::generate();
    nonce.to_vec()
}

/// Relies on `aes_gcm::Aes256Gcm` via `aead::Aead::encrypt`: seals the
/// plaintext under the key and nonce; by the same crate's documentation,
/// `decrypt` under the same key and nonce recovers exactly the plaintext.
#[verifier::external_body]
fn aead_seal(key: &Vec<u8>, nonce: &Vec<u8>, plaintext: &[u8]) -> (r: Option<Vec<u8>>)
    requires
        key@.len() == 32,
        nonce@.len() == 12,
    ensures
        r matches Some(c) ==> c@ == sealed_of(key@, nonce@, plaintext@) && opened_of(
            key@,
            nonce@,
            c@,
        ) == Some(plaintext@),
{
    let key_arr = aes_gcm::Key::<Aes256Gcm>::try_from(key.as_slice()).ok()?;
    let nonce_arr = aes_gcm::aead::Nonce::<Aes256Gcm>::try_from(nonce.as_slice()).ok()?;
    let cipher = Aes256Gcm::new(&key_arr);
    cipher.encrypt(&nonce_arr, plaintext).ok()
}

/// Relies on `aes_gcm::Aes256Gcm` via `aead::Aead::decrypt`: opens the
/// ciphertext under the key and nonce, refusing it exactly when
/// authentication fails.
#[verifier::external_body]
fn aead_open(key: &Vec<u8>, nonce: &Vec<u8>, ciphertext: &Vec<u8>) -> (r: Option<Vec<u8>>)
    requires
        key@.len() == 32,
        nonce@.len() == 12,
    ensures
        r matches Some(p) ==> opened_of(key@, nonce@, ciphertext@) == Some(p@),
        r is None <==> opened_of(key@, nonce@, ciphertext@) is None,
{
    let key_arr = aes_gcm::Key::<Aes256Gcm>::try_from(key.as_slice()).ok()?;
    let nonce_arr = aes_gcm::aead::Nonce::<Aes256Gcm>::try_from(nonce.as_slice()).ok()?;
    let cipher = Aes256Gcm::new(&key_arr);
    cipher.decrypt(&nonce_arr, ciphertext.as_slice()).ok()
}

/// Relies on `hex::encode`: two lowercase hex digits per byte, and by the
/// same crate's documentation `hex::decode` recovers exactly the input.
#[verifier::external_body]
fn hex_encode(bytes: &Vec<u8>) -> (r: String)
    ensures
        r@ == hex_of(bytes@),
        r@.len() == 2 * bytes@.len(),
        unhex_of(r@) == Some(bytes@),
{
    hex::encode(bytes)
}

/// Relies on `hex::decode`: recovers the byte sequence a well-formed hex
/// string denotes, refusing an odd length or a non-digit.
#[verifier::external_body]
fn hex_decode(s: &str) -> (r: Option<Vec<u8>>)
    ensures
        r matches Some(b) ==> unhex_of(s@) == Some(b@),
        r is None <==> unhex_of(s@) is None,
{
    hex::decode(s).ok()
}

/// Relies on `String::from_utf8`: succeeds exactly on valid UTF-8 and
/// returns the string those bytes encode.
#[verifier::external_body]
fn bytes_to_string(bytes: Vec<u8>) -> (r: Option<String>)
    ensures
        r matches Some(p) ==> encode_utf8(p@) == bytes@,
        r is Some <==> valid_utf8(bytes@),
{
    String::from_utf8(bytes).ok()
}

/// What `decrypt` owes for a key and an input string, down to the
/// plaintext bytes: each layer of malformation has its own error, and a
/// sound frame yields the bytes the ciphertext opens to.
pub open spec fn spec_decrypt(key: Seq<u8>, s: Seq<char>) -> Result<Seq<u8>, VaultError> {
    match unhex_of(s) {
        None => Err(VaultError::InvalidHex),
        Some(bytes) => if bytes.len() < 12 {
            Err(VaultError::CiphertextTooShort)
        } else {
            match opened_of(key, bytes.subrange(0, 12), bytes.skip(12)) {
                None => Err(VaultError::DecryptionFailure),
                Some(pt) => if valid_utf8(pt) {
                    Ok(pt)
                } else {
                    Err(VaultError::InvalidUtf8)
                },
            }
        },
    }
}

/// The vault: one AES-256-GCM key, derived from a password.
pub struct Vault {
    key: Vec<u8>,
}

impl Vault {
    /// The derived key bytes.
    pub closed spec fn key(&self) -> Seq<u8> {
        self.key@
    }

    /// A usable vault holds a full-length key.
    pub open spec fn wf(&self) -> bool {
        self.key().len() == 32
    }

    /// Derive the vault key from a password: the password's bytes hashed
    /// to 32 bytes with BLAKE3.
    pub fn new(password: &str) -> (r: Result<Vault, VaultError>)
        ensures
            r matches Ok(v) && v.wf() && v.key() == digest_of(encode_utf8(password@)),
    {
        let key = blake3_digest(password.as_bytes());
        Ok(Vault { key })
    }

    /// Encrypt a plaintext: seal it under a fresh random 12-byte nonce and
    /// return nonce-then-ciphertext as one hex string — a string that
    /// `decrypt` under the same key maps back to the plaintext.
    pub fn encrypt(&self, plaintext: &str) -> (r: Result<String, VaultError>)
        requires
            self.wf(),
        ensures
            r matches Ok(s) ==> exists|nonce: Seq<u8>|
                {
                    &&& nonce.len() == 12
                    &&& #[trigger] unhex_of(s@) == Some(
                        nonce + sealed_of(self.key(), nonce, encode_utf8(plaintext@)),
                    )
                    &&& s@ == hex_of(nonce + sealed_of(self.key(), nonce, encode_utf8(plaintext@)))
                    &&& opened_of(
                        self.key(),
                        nonce,
                        sealed_of(self.key(), nonce, encode_utf8(plaintext@)),
                    ) == Some(encode_utf8(plaintext@))
                },
            r matches Err(e) ==> e == VaultError::EncryptionFailure,
    {
        let nonce = generate_nonce_bytes();
        let mut sealed = match aead_seal(&self.key, &nonce, plaintext.as_bytes()) {
            Some(c) => c,
            None => {
                return Err(VaultError::EncryptionFailure);
            },
        };
        let ghost nonce_bytes = nonce@;
        let mut combined = nonce;
        combined.append(&mut sealed);
        let encoded = hex_encode(&combined);
        proof {
            assert(combined@ == nonce_bytes + sealed_of(
                self.key(),
                nonce_bytes,
                encode_utf8(plaintext@),
            ));
        }
        Ok(encoded)
    }

    /// Decrypt a hex string produced by `encrypt`: decode the hex frame,
    /// split off the 12-byte nonce, open the ciphertext, and read the
    /// plaintext bytes as UTF-8, with a distinct error for each layer of
    /// malformation.
    pub fn decrypt(&self, encrypted_hex: &str) -> (r: Result<String, VaultError>)
        requires
            self.wf(),
        ensures
            r matches Ok(out) ==> spec_decrypt(self.key(), encrypted_hex@) == Ok::<
                Seq<u8>,
                VaultError,
            >(encode_utf8(out@)),
            r matches Err(e) ==> spec_decrypt(self.key(), encrypted_hex@) == Err::<
                Seq<u8>,
                VaultError,
            >(e),
    {
        let mut nonce = match hex_decode(encrypted_hex) {
            Some(b) => b,
            None => {
                return Err(VaultError::InvalidHex);
            },
        };
        if nonce.len() < 12 {
            return Err(VaultError::CiphertextTooShort);
        }
        let ciphertext = nonce.split_off(12);
        let plaintext_bytes = match aead_open(&self.key, &nonce, &ciphertext) {
            Some(p) => p,
            None => {
                return Err(VaultError::DecryptionFailure);
            },
        };
        match bytes_to_string(plaintext_bytes) {
            Some(s) => Ok(s),
            None => Err(VaultError::InvalidUtf8),
        }
    }
}

} // verus!
