//! The dispatch layer: resolves a completed request into store and
//! cipher operations.
//!
//! Names are normalized to lowercase on both the write and the read
//! path, so an entry added under any casing is found again under any
//! other casing of the same name.

use vstd::prelude::*;

use crate::crypto::{decrypt_text, fernet_plaintext, lemma_round_trip, Cipher};
use crate::exceptions::VaultError;
use crate::store::{
    credentials_entry, record_field, EntryModel, FieldModel, Vault,
};
use crate::text::{lower_of, to_lower};
use vstd::utf8::encode_utf8;

verus! {

/// Whether every element of the vector is present.
pub fn all_some<T>(vector: &Vec<Option<T>>) -> (r: bool)
    ensures
        r == (forall|i: int| 0 <= i < vector@.len() ==> vector@[i] is Some),
{
    let n = vector.len();
    let mut i: usize = 0;
    while i < n
        invariant
            n == vector@.len(),
            0 <= i <= n,
            forall|k: int| 0 <= k < i ==> vector@[k] is Some,
        decreases n - i,
    {
        if vector[i].is_none() {
            return false;
        }
        i += 1;
    }
    true
}

/// The two ciphertexts a stored entry holds for a name, if the entry
/// exists, is a record, and stores text under both field names.
pub open spec fn creds_of(
    m: Map<Seq<char>, EntryModel>,
    name: Seq<char>,
    k0: Seq<char>,
    k1: Seq<char>,
) -> Option<(Seq<char>, Seq<char>)> {
    if m.contains_key(name) {
        match (record_field(m[name], k0), record_field(m[name], k1)) {
            (Some(FieldModel::Text(a)), Some(FieldModel::Text(b))) => Some((a, b)),
            _ => None,
        }
    } else {
        None
    }
}

/// Reads the texts stored under the given field names of the entry at
/// `name`: present exactly when the entry exists and stores text under
/// both names, and then in the order the field names were given.
pub fn index_credentials(vault: &Vault, name: &String, keys: &[&str; 2]) -> (r: Option<
    Vec<String>,
>)
    requires
        vault.wf(),
    ensures
        (r is Some) <==> creds_of(vault.as_map(), name@, keys@[0]@, keys@[1]@) is Some,
        (r matches Some(c) ==> c@.len() == 2 && creds_of(
            vault.as_map(),
            name@,
            keys@[0]@,
            keys@[1]@,
        ) == Some((c@[0]@, c@[1]@))),
{
    match vault.get(name) {
        None => None,
        Some(entry) => {
            let first = entry.field_text(keys[0]);
            let second = entry.field_text(keys[1]);
            match (first, second) {
                (Some(a), Some(b)) => Some(vec![a.clone(), b.clone()]),
                _ => None,
            }
        },
    }
}

/// Looks the name up (lowercased), reads the two ciphertext fields and
/// decrypts them: the result is the decrypted `[username, password]`
/// pair; an absent name, a malformed entry and a failed decryption are
/// reported as distinct errors.
pub fn fetch_credentials(cipher: &Cipher, name: &String, vault: &Vault) -> (r: Result<
    Vec<String>,
    VaultError,
>)
    requires
        vault.wf(),
    ensures
        !vault.as_map().contains_key(lower_of(name@)) ==> r == Err::<Vec<String>, VaultError>(
            VaultError::NotFound,
        ),
        vault.as_map().contains_key(lower_of(name@)) && creds_of(
            vault.as_map(),
            lower_of(name@),
            "username"@,
            "password"@,
        ) is None ==> r == Err::<Vec<String>, VaultError>(VaultError::MalformedEntry),
        (creds_of(vault.as_map(), lower_of(name@), "username"@, "password"@) matches Some(p)
            ==> match r {
            Ok(c) => c@.len() == 2 && decrypt_text(cipher@, p.0) == Some(c@[0]@)
                && decrypt_text(cipher@, p.1) == Some(c@[1]@),
            Err(e) => e == VaultError::DecryptionFailed,
        }),
{
    let lowered = to_lower(name.as_str());
    match index_credentials(vault, &lowered, &["username", "password"]) {
        Some(cts) => {
            let username = match cipher.decrypt_string(&cts[0]) {
                Ok(u) => u,
                Err(e) => {
                    return Err(e);
                },
            };
            let password = match cipher.decrypt_string(&cts[1]) {
                Ok(p) => p,
                Err(e) => {
                    return Err(e);
                },
            };
            Ok(vec![username, password])
        },
        None => match vault.get(&lowered) {
            Some(_) => Err(VaultError::MalformedEntry),
            None => Err(VaultError::NotFound),
        },
    }
}

/// Encrypts the username and the password and stores them under the
/// lowercased name, overwriting any entry already there: the vault's
/// mapping afterwards is the old one with exactly that association
/// replaced by a record whose two fields decrypt back to the given
/// texts.
pub fn add_credentials(
    cipher: &Cipher,
    name: &String,
    username: &String,
    password: &String,
    vault: &mut Vault,
)
    requires
        old(vault).wf(),
    ensures
        final(vault).wf(),
        exists|cu: Seq<char>, cp: Seq<char>|
            {
                &&& #[trigger] fernet_plaintext(cipher@, cu) == Some(encode_utf8(username@))
                &&& #[trigger] fernet_plaintext(cipher@, cp) == Some(encode_utf8(password@))
                &&& final(vault).as_map() == old(vault).as_map().insert(
                    lower_of(name@),
                    EntryModel::Record(
                        map!["username"@ => FieldModel::Text(cu), "password"@ => FieldModel::Text(
                            cp,
                        )],
                    ),
                )
            },
{
    let username_ct = cipher.encrypt(username);
    let password_ct = cipher.encrypt(password);
    let ghost cu = username_ct@;
    let ghost cp = password_ct@;
    let entry = credentials_entry(username_ct, password_ct);
    let lowered = to_lower(name.as_str());
    vault.upsert(lowered, entry);
    proof {
        assert(fernet_plaintext(cipher@, cu) == Some(encode_utf8(username@)));
        assert(fernet_plaintext(cipher@, cp) == Some(encode_utf8(password@)));
    }
}

/// Deletes the entry stored under the lowercased name, reporting whether
/// one was present (`false` is the informational "not found" outcome,
/// not an error); the mapping loses exactly that key either way.
pub fn remove_credentials(name: &String, vault: &mut Vault) -> (r: bool)
    requires
        old(vault).wf(),
    ensures
        final(vault).wf(),
        r == old(vault).as_map().contains_key(lower_of(name@)),
        final(vault).as_map() == old(vault).as_map().remove(lower_of(name@)),
{
    let lowered = to_lower(name.as_str());
    vault.delete(&lowered)
}

/// The default name of the vault file under the user's home directory.
pub fn default_storage_name() -> (r: &'static str)
    ensures
        r@ == ".psswrdmngr.json"@,
{
    ".psswrdmngr.json"
}

/// Store persistence round trip: after storing ciphertexts of `u` and
/// `p` at a name, the entry read back from the updated mapping — also
/// after any dump/reload cycle, which preserves the mapping — is a
/// record whose two fields decrypt back to exactly `u` and `p`.
pub proof fn lemma_store_round_trip(
    m: Map<Seq<char>, EntryModel>,
    key: Seq<char>,
    cipher_key: Seq<char>,
    cu: Seq<char>,
    cp: Seq<char>,
    u: Seq<char>,
    p: Seq<char>,
)
    requires
        fernet_plaintext(cipher_key, cu) == Some(encode_utf8(u)),
        fernet_plaintext(cipher_key, cp) == Some(encode_utf8(p)),
    ensures
        ({
            let m2 = m.insert(
                key,
                EntryModel::Record(
                    map!["username"@ => FieldModel::Text(cu), "password"@ => FieldModel::Text(cp)],
                ),
            );
            creds_of(m2, key, "username"@, "password"@) == Some((cu, cp)) && decrypt_text(
                cipher_key,
                cu,
            ) == Some(u) && decrypt_text(cipher_key, cp) == Some(p)
        }),
{
    reveal_strlit("username");
    reveal_strlit("password");
    assert("username"@[0] == 'u');
    assert("password"@[0] == 'p');
    assert("username"@ != "password"@);
    lemma_round_trip(cipher_key, cu, u);
    lemma_round_trip(cipher_key, cp, p);
}

/// Case normalization: credentials added under one spelling of a name
/// are found under any spelling with the same lowercase form, because
/// both the write path ([`add_credentials`]) and the read path
/// ([`fetch_credentials`]) key the store by the lowercased name.
pub proof fn lemma_case_normalized_lookup(
    m: Map<Seq<char>, EntryModel>,
    written_name: Seq<char>,
    read_name: Seq<char>,
    cipher_key: Seq<char>,
    cu: Seq<char>,
    cp: Seq<char>,
    u: Seq<char>,
    p: Seq<char>,
)
    requires
        lower_of(written_name) == lower_of(read_name),
        fernet_plaintext(cipher_key, cu) == Some(encode_utf8(u)),
        fernet_plaintext(cipher_key, cp) == Some(encode_utf8(p)),
    ensures
        ({
            let m2 = m.insert(
                lower_of(written_name),
                EntryModel::Record(
                    map!["username"@ => FieldModel::Text(cu), "password"@ => FieldModel::Text(cp)],
                ),
            );
            creds_of(m2, lower_of(read_name), "username"@, "password"@) == Some((cu, cp))
                && decrypt_text(cipher_key, cu) == Some(u) && decrypt_text(cipher_key, cp) == Some(
                p,
            )
        }),
{
    lemma_store_round_trip(m, lower_of(written_name), cipher_key, cu, cp, u, p);
}

} // verus!
