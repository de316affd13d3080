//! Authenticated encryption of cached fields: AES-256-GCM under a 32-byte
//! master key, a fresh 12-byte nonce per record, the nonce and the sealed
//! bytes stored together as base64.

use crate::storage::{StorageError, StorageErrorView};
use vstd::prelude::*;
use vstd::slice::*;
use vstd::string::*;
use vstd::utf8::{decode_utf8, encode_utf8_decode_utf8, encode_utf8_valid_utf8, valid_utf8};

verus! {

/// The length of the master key in bytes.
pub const KEY_LEN: usize = 32;

/// The length of a nonce in bytes.
pub const NONCE_LEN: usize = 12;

/// What `Aes256Gcm::encrypt` returns for a key of 32 bytes, a nonce of 12
/// bytes and a plaintext without associated data: the ciphertext with its
/// tag, or `None` where it reports an error.
pub uninterp spec fn sealed(key: Seq<u8>, nonce: Seq<u8>, plaintext: Seq<u8>) -> Option<Seq<u8>>;

/// What `Aes256Gcm::decrypt` returns for a key of 32 bytes, a nonce of 12
/// bytes and a ciphertext with its tag: the plaintext, or `None` where the
/// tag does not fit.
pub uninterp spec fn opened(key: Seq<u8>, nonce: Seq<u8>, ciphertext: Seq<u8>) -> Option<Seq<u8>>;

/// What the standard base64 engine makes of a byte string.
pub uninterp spec fn base64_text(bytes: Seq<u8>) -> Seq<char>;

/// What the standard base64 engine reads out of a text: the bytes, or
/// `None` where the text is no base64.
pub uninterp spec fn base64_bytes(text: Seq<char>) -> Option<Seq<u8>>;

/// The view of an optional byte string.
pub open spec fn some_bytes(o: Option<Vec<u8>>) -> Option<Seq<u8>> {
    match o {
        Some(b) => Some(b@),
        None => None,
    }
}

/// Fills 12 bytes from the operating system's random source with
/// `OsRng::try_fill_bytes`. Nothing is known of the bytes but their number;
/// `None` stands for a failure of the source.
#[verifier::external_body]
pub(crate) fn fresh_nonce() -> (r: Option<Vec<u8>>)
    ensures
        r is Some ==> r->0@.len() == NONCE_LEN,
{
    let mut nonce = vec![0u8; 12];
    match aes_gcm::aead::rand_core::RngCore::try_fill_bytes(&mut aes_gcm::aead::OsRng, &mut nonce) {
        Ok(()) => Some(nonce),
        Err(_) => None,
    }
}

/// Calls `Aes256Gcm::encrypt` with the cipher that `new_from_slice` makes of
/// the key. Decryption undoes encryption: what was sealed under a key and a
/// nonce is opened again by the same key and nonce.
#[verifier::external_body]
fn aes_gcm_encrypt(key: &[u8], nonce: &[u8], plaintext: &[u8]) -> (r: Option<Vec<u8>>)
    requires
        key@.len() == KEY_LEN,
        nonce@.len() == NONCE_LEN,
    ensures
        some_bytes(r) == sealed(key@, nonce@, plaintext@),
        r is Some ==> opened(key@, nonce@, r->0@) == Some(plaintext@),
{
    let cipher = <aes_gcm::Aes256Gcm as aes_gcm::KeyInit>::new_from_slice(key).ok()?;
    aes_gcm::aead::Aead::encrypt(&cipher, aes_gcm::Nonce::from_slice(nonce), plaintext).ok()
}

/// Calls `Aes256Gcm::decrypt` with the cipher that `new_from_slice` makes of
/// the key.
#[verifier::external_body]
fn aes_gcm_decrypt(key: &[u8], nonce: &[u8], ciphertext: &[u8]) -> (r: Option<Vec<u8>>)
    requires
        key@.len() == KEY_LEN,
        nonce@.len() == NONCE_LEN,
    ensures
        some_bytes(r) == opened(key@, nonce@, ciphertext@),
{
    let cipher = <aes_gcm::Aes256Gcm as aes_gcm::KeyInit>::new_from_slice(key).ok()?;
    aes_gcm::aead::Aead::decrypt(&cipher, aes_gcm::Nonce::from_slice(nonce), ciphertext).ok()
}

/// Calls `encode` of the standard base64 engine. Decoding undoes encoding.
#[verifier::external_body]
fn base64_encode(bytes: &[u8]) -> (r: String)
    ensures
        r@ == base64_text(bytes@),
        base64_bytes(r@) == Some(bytes@),
{
    base64::Engine::encode(&base64::engine::general_purpose::STANDARD, bytes)
}

/// Calls `decode` of the standard base64 engine.
#[verifier::external_body]
fn base64_decode(text: &str) -> (r: Option<Vec<u8>>)
    ensures
        some_bytes(r) == base64_bytes(text@),
{
    base64::Engine::decode(&base64::engine::general_purpose::STANDARD, text).ok()
}

/// Calls `String::from_utf8`, which accepts exactly the valid UTF-8.
#[verifier::external_body]
fn utf8_string(bytes: Vec<u8>) -> (r: Option<String>)
    ensures
        match r {
            Some(s) => valid_utf8(bytes@) && s@ == decode_utf8(bytes@),
            None => !valid_utf8(bytes@),
        },
{
    String::from_utf8(bytes).ok()
}

/// What decryption makes of a stored text under a key: the text is read as
/// base64, its first 12 bytes are the nonce, the rest is opened.
pub open spec fn decrypted(key: Seq<u8>, text: Seq<char>) -> Result<Seq<u8>, StorageErrorView> {
    match base64_bytes(text) {
        Some(combined) => if combined.len() < NONCE_LEN {
            Err(StorageErrorView::Decryption)
        } else {
            match opened(
                key,
                combined.take(NONCE_LEN as int),
                combined.skip(NONCE_LEN as int),
            ) {
                Some(plaintext) => Ok(plaintext),
                None => Err(StorageErrorView::Decryption),
            }
        },
        None => Err(StorageErrorView::Decryption),
    }
}

/// What decryption makes of a stored text that holds a string.
pub open spec fn decrypted_text(key: Seq<u8>, text: Seq<char>) -> Result<
    Seq<char>,
    StorageErrorView,
> {
    match decrypted(key, text) {
        Ok(bytes) => if valid_utf8(bytes) {
            Ok(decode_utf8(bytes))
        } else {
            Err(StorageErrorView::Decryption)
        },
        Err(e) => Err(e),
    }
}

/// What sealing under a given nonce stores.
pub open spec fn encrypted_with(key: Seq<u8>, nonce: Seq<u8>, data: Seq<u8>) -> Result<
    Seq<char>,
    StorageErrorView,
> {
    match sealed(key, nonce, data) {
        Some(ciphertext) => Ok(base64_text(nonce + ciphertext)),
        None => Err(StorageErrorView::Encryption),
    }
}

/// The views of the two kinds of results that the cipher hands out.
pub open spec fn bytes_result(r: Result<Vec<u8>, StorageError>) -> Result<
    Seq<u8>,
    StorageErrorView,
> {
    match r {
        Ok(b) => Ok(b@),
        Err(e) => Err(e@),
    }
}

pub open spec fn text_result(r: Result<String, StorageError>) -> Result<
    Seq<char>,
    StorageErrorView,
> {
    match r {
        Ok(s) => Ok(s@),
        Err(e) => Err(e@),
    }
}

/// The master key and the operations under it.
pub struct Cipher {
    key: Vec<u8>,
}

impl Cipher {
    #[verifier::type_invariant]
    spec fn key_has_its_length(self) -> bool {
        self.key@.len() == KEY_LEN
    }

    /// The bytes of the key.
    pub closed spec fn key(&self) -> Seq<u8> {
        self.key@
    }

    /// Takes a key of exactly 32 bytes; any other length is a key error.
    pub fn from_bytes(bytes: Vec<u8>) -> (r: Result<Cipher, StorageError>)
        ensures
            match r {
                Ok(cipher) => bytes@.len() == KEY_LEN && cipher.key() == bytes@,
                Err(e) => bytes@.len() != KEY_LEN && e@ == StorageErrorView::Key(
                    "expected 32 byte key"@,
                ),
            },
    {
        if bytes.len() != KEY_LEN {
            return Err(StorageError::Key("expected 32 byte key".to_owned()));
        }
        Ok(Cipher { key: bytes })
    }

    /// Seals `data` under `nonce` and stores nonce and sealed bytes as base64.
    pub fn encrypt_with_nonce(&self, nonce: &[u8], data: &[u8]) -> (r: Result<String, StorageError>)
        requires
            nonce@.len() == NONCE_LEN,
        ensures
            text_result(r) == encrypted_with(self.key(), nonce@, data@),
            r is Ok ==> decrypted(self.key(), r->Ok_0@) == Ok::<Seq<u8>, StorageErrorView>(data@),
    {
        proof {
            use_type_invariant(self);
        }
        match aes_gcm_encrypt(self.key.as_slice(), nonce, data) {
            Some(mut sealed_bytes) => {
                let mut combined = slice_to_vec(nonce);
                let ghost ciphertext = sealed_bytes@;
                combined.append(&mut sealed_bytes);
                proof {
                    assert(combined@ =~= nonce@ + ciphertext);
                    assert(combined@.take(NONCE_LEN as int) =~= nonce@);
                    assert(combined@.skip(NONCE_LEN as int) =~= ciphertext);
                }
                Ok(base64_encode(combined.as_slice()))
            },
            None => Err(StorageError::Encryption),
        }
    }

    /// Encrypts under a fresh nonce. Whether it succeeds lies with the random
    /// source and the cipher; what it returns is decrypted to `data` again.
    pub fn encrypt_bytes(&self, data: &[u8]) -> (r: Result<String, StorageError>)
        ensures
            match r {
                Ok(text) => decrypted(self.key(), text@) == Ok::<Seq<u8>, StorageErrorView>(data@)
                    && exists|nonce: Seq<u8>|
                    nonce.len() == NONCE_LEN && #[trigger] encrypted_with(self.key(), nonce, data@)
                        == Ok::<Seq<char>, StorageErrorView>(text@),
                Err(e) => e@ == StorageErrorView::Encryption,
            },
    {
        match fresh_nonce() {
            Some(nonce) => {
                let r = self.encrypt_with_nonce(nonce.as_slice(), data);
                match r {
                    Ok(text) => {
                        assert(encrypted_with(self.key(), nonce@, data@) == Ok::<
                            Seq<char>,
                            StorageErrorView,
                        >(text@));
                        Ok(text)
                    },
                    Err(e) => Err(e),
                }
            },
            None => Err(StorageError::Encryption),
        }
    }

    /// Encrypts a string; what it returns is decrypted to the string again.
    pub fn encrypt_string(&self, value: &str) -> (r: Result<String, StorageError>)
        ensures
            match r {
                Ok(text) => decrypted_text(self.key(), text@) == Ok::<Seq<char>, StorageErrorView>(
                    value@,
                ),
                Err(e) => e@ == StorageErrorView::Encryption,
            },
    {
        proof {
            encode_utf8_valid_utf8(value@);
            encode_utf8_decode_utf8(value@);
        }
        self.encrypt_bytes(value.as_bytes())
    }

    /// Decrypts a stored text. Any text that is not base64, is shorter than
    /// a nonce, or does not open under the key is a decryption error.
    pub fn decrypt_bytes(&self, data: &str) -> (r: Result<Vec<u8>, StorageError>)
        ensures
            bytes_result(r) == decrypted(self.key(), data@),
    {
        proof {
            use_type_invariant(self);
        }
        match base64_decode(data) {
            Some(combined) => {
                if combined.len() < NONCE_LEN {
                    return Err(StorageError::Decryption);
                }
                let nonce = slice_subrange(combined.as_slice(), 0, NONCE_LEN);
                let payload = slice_subrange(combined.as_slice(), NONCE_LEN, combined.len());
                match aes_gcm_decrypt(self.key.as_slice(), nonce, payload) {
                    Some(plaintext) => Ok(plaintext),
                    None => Err(StorageError::Decryption),
                }
            },
            None => Err(StorageError::Decryption),
        }
    }

    /// Decrypts a stored text that holds a string; bytes that are no UTF-8 are
    /// a decryption error.
    pub fn decrypt_string(&self, data: &str) -> (r: Result<String, StorageError>)
        ensures
            text_result(r) == decrypted_text(self.key(), data@),
    {
        match self.decrypt_bytes(data) {
            Ok(bytes) => match utf8_string(bytes) {
                Some(text) => Ok(text),
                None => Err(StorageError::Decryption),
            },
            Err(e) => Err(e),
        }
    }
}

} // verus!
