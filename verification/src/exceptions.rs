//! The error taxonomy of the vault.

use vstd::prelude::*;

verus! {

/// More than one operation flag (add, remove, get) was selected at once.
/// This is a validation error, reported before any prompting or I/O.
#[derive(Clone, Copy, Debug, PartialEq, Eq, Structural)]
pub struct MultipleArgError();

impl MultipleArgError {
    /// A human-readable description of the error.
    pub fn message(&self) -> (r: &'static str)
        ensures
            r@ == "too many arguments entered."@,
    {
        "too many arguments entered."
    }
}

/// Failures of the vault subsystem proper: schema problems of the stored
/// JSON, lookups of absent names, and cryptographic failures.
#[derive(Clone, Copy, Debug, PartialEq, Eq, Structural)]
pub enum VaultError {
    /// The vault file's contents do not parse as a JSON object.
    InvalidSchema,
    /// No entry is stored under the requested name.
    NotFound,
    /// An entry exists under the name but lacks the `username` and
    /// `password` text fields.
    MalformedEntry,
    /// A stored ciphertext failed to authenticate or to decode as text
    /// under the current key.
    DecryptionFailed,
}

impl VaultError {
    /// The message that `message` returns for each variant.
    pub open spec fn spec_message(self) -> Seq<char> {
        match self {
            VaultError::InvalidSchema => "file does not contain proper JSON schema."@,
            VaultError::NotFound => "entry not found."@,
            VaultError::MalformedEntry => "entry is missing its username/password fields."@,
            VaultError::DecryptionFailed => "decryption failed: wrong key or corrupted data."@,
        }
    }

    /// A human-readable description of the error.
    pub fn message(&self) -> (r: &'static str)
        ensures
            r@ == self.spec_message(),
    {
        match self {
            VaultError::InvalidSchema => "file does not contain proper JSON schema.",
            VaultError::NotFound => "entry not found.",
            VaultError::MalformedEntry => "entry is missing its username/password fields.",
            VaultError::DecryptionFailed => "decryption failed: wrong key or corrupted data.",
        }
    }
}

/// Failures of the key lifecycle: these are fatal, the process cannot
/// proceed without a usable key.
#[derive(Clone, Copy, Debug, PartialEq, Eq, Structural)]
pub enum KeyError {
    /// An existing key file's contents are not a validly-formed key.
    InvalidKey,
}

impl KeyError {
    /// A human-readable description of the error.
    pub fn message(&self) -> (r: &'static str)
        ensures
            r@ == "key is not 32 bit base64 encoded"@,
    {
        "key is not 32 bit base64 encoded"
    }
}

} // verus!
