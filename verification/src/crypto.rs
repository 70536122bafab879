//! The symmetric key lifecycle and the authenticated-encryption codec.
//!
//! A [`Cipher`] wraps one key for the lifetime of a process run; its view
//! is the key text itself, and every contract here is stated over that
//! view. What a token decrypts to under a key is a fixed function of the
//! two, named by [`fernet_plaintext`]; encryption embeds fresh randomness,
//! so no contract names the token that `encrypt` returns — only what that
//! token decrypts back to.

use vstd::prelude::*;

use crate::exceptions::{KeyError, VaultError};
use crate::text::{is_unicode_space, lemma_trim_of_unpadded, spec_trim, trim_spaces};
use vstd::string::StringSliceAdditionalSpecFns;
use vstd::utf8::{decode_utf8, encode_utf8, encode_utf8_decode_utf8, encode_utf8_valid_utf8,
    valid_utf8};

verus! {

#[verifier::external_type_specification]
#[verifier::external_body]
pub struct ExFernet(fernet::Fernet);

#[verifier::external_type_specification]
#[verifier::external_body]
pub struct ExDecryptionError(fernet::DecryptionError);

/// Whether `fernet::Fernet::new` accepts a key text: true exactly for
/// 32 bytes of url-safe base64.
pub uninterp spec fn fernet_valid_key(key: Seq<char>) -> bool;

/// The plaintext that a token carries under a key, `None` if the token
/// does not parse and authenticate under that key. This is what
/// `fernet::Fernet::decrypt` computes from the key and the token text;
/// the clock enters only to reject tokens stamped in the future, never to
/// change a successful result.
pub uninterp spec fn fernet_plaintext(key: Seq<char>, token: Seq<char>) -> Option<Seq<u8>>;

/// A view of a value as the byte string that gets encrypted.
pub trait AsBytes {
    /// The bytes the value stands for.
    spec fn plain_bytes(&self) -> Seq<u8>;

    /// Those bytes, as a slice.
    fn _as_bytes(&self) -> (r: &[u8])
        ensures
            r@ == self.plain_bytes(),
    ;
}

impl AsBytes for String {
    open spec fn plain_bytes(&self) -> Seq<u8> {
        encode_utf8(self@)
    }

    fn _as_bytes(&self) -> (r: &[u8]) {
        self.as_str().as_bytes()
    }
}

impl AsBytes for &String {
    open spec fn plain_bytes(&self) -> Seq<u8> {
        encode_utf8((*self)@)
    }

    fn _as_bytes(&self) -> (r: &[u8]) {
        self.as_str().as_bytes()
    }
}

/// The stateless encrypt/decrypt capability built from one key.
pub struct Cipher {
    key: String,
    fernet: fernet::Fernet,
}

impl View for Cipher {
    type V = Seq<char>;

    closed spec fn view(&self) -> Seq<char> {
        self.key@
    }
}

/// Relies on `fernet::Fernet::new`: returns `Some` exactly when the key
/// is 32 bytes, url-safe base64-encoded; the cipher built here pairs that
/// key with its fernet instance, and every other trusted item below
/// speaks of a `Cipher` built this way.
#[verifier::external_body]
fn fernet_new_cipher(key: String) -> (r: Option<Cipher>)
    ensures
        (r is Some) <==> fernet_valid_key(key@),
        (r matches Some(c) ==> c@ == key@),
{
    match fernet::Fernet::new(&key) {
        Some(f) => Some(Cipher { key, fernet: f }),
        None => None,
    }
}

/// Relies on `fernet::Fernet::generate_key`: a fresh random key that
/// `Fernet::new` accepts; its text is url-safe base64, so it holds no
/// whitespace character.
#[verifier::external_body]
fn fernet_generate_key() -> (r: String)
    ensures
        fernet_valid_key(r@),
        forall|i: int| 0 <= i < r@.len() ==> !is_unicode_space(r@[i]),
{
    fernet::Fernet::generate_key()
}

/// Relies on `fernet::Fernet::encrypt`: the returned token carries
/// exactly the given bytes under this cipher's key, whatever nonce and
/// timestamp the call embeds.
#[verifier::external_body]
fn fernet_encrypt_bytes(cipher: &Cipher, data: &[u8]) -> (r: String)
    ensures
        fernet_plaintext(cipher@, r@) == Some(data@),
{
    cipher.fernet.encrypt(data)
}

/// Relies on `fernet::Fernet::decrypt`: success returns exactly the
/// plaintext the token carries under this key; a token that does not
/// authenticate under the key always fails. (An authentic token stamped
/// in the future is also rejected, so success is not promised.)
#[verifier::external_body]
fn fernet_decrypt_token(cipher: &Cipher, token: &str) -> (r: Result<
    Vec<u8>,
    fernet::DecryptionError,
>)
    ensures
        (r matches Ok(v) ==> fernet_plaintext(cipher@, token@) == Some(v@)),
        fernet_plaintext(cipher@, token@) is None ==> r is Err,
{
    cipher.fernet.decrypt(token)
}

/// Relies on `String::from_utf8`: `Some` exactly when the bytes are valid
/// UTF-8, and then the decoded text.
#[verifier::external_body]
fn utf8_to_string(bytes: Vec<u8>) -> (r: Option<String>)
    ensures
        (r is Some) <==> valid_utf8(bytes@),
        (r matches Some(s) ==> s@ == decode_utf8(bytes@)),
{
    String::from_utf8(bytes).ok()
}

/// The text that a token decrypts to under a key: the carried plaintext,
/// decoded as UTF-8; `None` if the token is not authentic under the key
/// or its plaintext is not valid UTF-8.
pub open spec fn decrypt_text(key: Seq<char>, token: Seq<char>) -> Option<Seq<char>> {
    match fernet_plaintext(key, token) {
        Some(b) => if valid_utf8(b) {
            Some(decode_utf8(b))
        } else {
            None
        },
        None => None,
    }
}

impl Cipher {
    /// Builds the cipher over a key text; rejects anything that is not a
    /// validly-formed key.
    pub fn from_key(key: String) -> (r: Option<Cipher>)
        ensures
            (r is Some) <==> fernet_valid_key(key@),
            (r matches Some(c) ==> c@ == key@),
    {
        fernet_new_cipher(key)
    }

    /// Encrypts the value's bytes into a self-describing token. Each call
    /// may embed fresh randomness, so the token itself is not a function
    /// of the input; what it decrypts back to is.
    pub fn encrypt<B: AsBytes>(&self, data: B) -> (r: String)
        ensures
            fernet_plaintext(self@, r@) == Some(data.plain_bytes()),
    {
        fernet_encrypt_bytes(self, data._as_bytes())
    }

    /// Decrypts a token to the bytes it carries. A token that does not
    /// authenticate under this cipher's key always yields a typed
    /// failure, never garbage bytes.
    pub fn decrypt(&self, encrypted_data: &String) -> (r: Result<Vec<u8>, VaultError>)
        ensures
            (r matches Ok(v) ==> fernet_plaintext(self@, encrypted_data@) == Some(v@)),
            fernet_plaintext(self@, encrypted_data@) is None ==> r is Err,
            (r matches Err(e) ==> e == VaultError::DecryptionFailed),
    {
        match fernet_decrypt_token(self, encrypted_data.as_str()) {
            Ok(v) => Ok(v),
            Err(_) => Err(VaultError::DecryptionFailed),
        }
    }

    /// Decrypts a token to the text it carries.
    pub fn decrypt_string(&self, encrypted_data: &String) -> (r: Result<String, VaultError>)
        ensures
            (r matches Ok(s) ==> decrypt_text(self@, encrypted_data@) == Some(s@)),
            decrypt_text(self@, encrypted_data@) is None ==> r is Err,
            (r matches Err(e) ==> e == VaultError::DecryptionFailed),
    {
        match self.decrypt(encrypted_data) {
            Ok(bytes) => match utf8_to_string(bytes) {
                Some(s) => Ok(s),
                None => Err(VaultError::DecryptionFailed),
            },
            Err(e) => Err(e),
        }
    }
}

/// Round trip: a token that carries the encoding of a text `s` under a
/// key — any token that `encrypt` could return for `s` — decrypts back to
/// exactly `s` under that key.
pub proof fn lemma_round_trip(key: Seq<char>, token: Seq<char>, s: Seq<char>)
    requires
        fernet_plaintext(key, token) == Some(encode_utf8(s)),
    ensures
        decrypt_text(key, token) == Some(s),
{
    encode_utf8_valid_utf8(s);
    encode_utf8_decode_utf8(s);
}

/// Owns the key's lifecycle: load the key file's contents if the caller
/// found one, otherwise generate a fresh key and hand it back for
/// persisting.
pub struct KeyManager {}

impl KeyManager {
    /// Builds the process's one cipher. With the key file's contents in
    /// hand, the key is their trimmed text and must be validly formed;
    /// with no key file, a fresh valid key is generated and returned
    /// beside the cipher so the caller can persist it.
    pub fn load_or_create(existing: Option<&String>) -> (r: Result<
        (Cipher, Option<String>),
        KeyError,
    >)
        ensures
            (existing matches Some(t) ==> {
                &&& (r is Ok <==> fernet_valid_key(spec_trim(t@)))
                &&& (r matches Ok(p) ==> p.0@ == spec_trim(t@) && p.1 is None)
                &&& (r matches Err(e) ==> e == KeyError::InvalidKey)
            }),
            existing is None ==> (r matches Ok(p) && p.1 matches Some(k) && k@ == p.0@
                && fernet_valid_key(p.0@) && (forall|i: int|
                0 <= i < p.0@.len() ==> !is_unicode_space(p.0@[i]))),
    {
        match existing {
            Some(text) => {
                let trimmed = trim_spaces(text.as_str()).to_owned();
                match Cipher::from_key(trimmed) {
                    Some(c) => Ok((c, None)),
                    None => Err(KeyError::InvalidKey),
                }
            },
            None => {
                let key = fernet_generate_key();
                let copy = key.clone();
                match Cipher::from_key(copy) {
                    Some(c) => Ok((c, Some(key))),
                    None => unreached(),
                }
            },
        }
    }

    /// The fixed name of the key file under the user's home directory.
    pub fn key_file_name() -> (r: &'static str)
        ensures
            r@ == ".psswrdmngr_key"@,
    {
        ".psswrdmngr_key"
    }
}

/// Idempotent key creation: a freshly generated key holds no whitespace,
/// so the key file written on first run reads back — after the trim that
/// loading applies — to the very same key, and the cipher built from it
/// has the same view as the first; equal views decrypt alike, since
/// [`decrypt_text`] is a function of the view.
pub proof fn lemma_key_reload(key: Seq<char>)
    requires
        fernet_valid_key(key),
        forall|i: int| 0 <= i < key.len() ==> !is_unicode_space(key[i]),
    ensures
        spec_trim(key) == key,
        fernet_valid_key(spec_trim(key)),
{
    lemma_trim_of_unpadded(key);
}

} // verus!
