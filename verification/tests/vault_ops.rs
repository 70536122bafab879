use psswrdmngr::crypto::{Cipher, KeyManager};
use psswrdmngr::exceptions::{KeyError, VaultError};
use psswrdmngr::service::{
    add_credentials, all_some, fetch_credentials, index_credentials, remove_credentials,
};
use psswrdmngr::store::{credentials_entry, load_json_map, Vault};

fn fresh_cipher() -> (Cipher, String) {
    let (cipher, created) = KeyManager::load_or_create(None).unwrap();
    (cipher, created.unwrap())
}

#[test]
fn encrypt_decrypt_round_trip() {
    let (cipher, _) = fresh_cipher();
    for s in ["hello world", "", "p\u{e4}ssw\u{f6}rd \u{2713}", "line\nbreak\tand spaces"] {
        let token = cipher.encrypt(&s.to_string());
        assert_eq!(cipher.decrypt_string(&token), Ok(s.to_string()));
        assert_eq!(cipher.decrypt(&token), Ok(s.as_bytes().to_vec()));
    }
}

#[test]
fn ciphertext_is_not_the_plaintext() {
    let (cipher, _) = fresh_cipher();
    let token = cipher.encrypt(&"secret".to_string());
    assert_ne!(token, "secret".to_string());
}

#[test]
fn cross_key_decryption_always_fails() {
    let (cipher1, _) = fresh_cipher();
    let (cipher2, _) = fresh_cipher();
    let token = cipher1.encrypt(&"secret".to_string());
    assert_eq!(cipher2.decrypt_string(&token), Err(VaultError::DecryptionFailed));
    assert!(cipher2.decrypt(&token).is_err());
}

#[test]
fn malformed_token_yields_typed_failure() {
    let (cipher, _) = fresh_cipher();
    assert_eq!(
        cipher.decrypt_string(&"not a fernet token".to_string()),
        Err(VaultError::DecryptionFailed)
    );
}

#[test]
fn key_creation_is_idempotent() {
    let (cipher1, key) = fresh_cipher();
    let token = cipher1.encrypt(&"interop".to_string());

    // A second run reads the key file written by the first.
    let (cipher2, created) = KeyManager::load_or_create(Some(&key)).unwrap();
    assert!(created.is_none());
    assert_eq!(cipher2.decrypt_string(&token), Ok("interop".to_string()));

    // Reading tolerates surrounding whitespace in the key file.
    let padded = format!("  {}\n", key);
    let (cipher3, _) = KeyManager::load_or_create(Some(&padded)).unwrap();
    assert_eq!(cipher3.decrypt_string(&token), Ok("interop".to_string()));
}

#[test]
fn invalid_key_file_contents_are_fatal() {
    assert!(matches!(
        KeyManager::load_or_create(Some(&"definitely not a key".to_string())),
        Err(KeyError::InvalidKey)
    ));
    assert_eq!(KeyError::InvalidKey.message(), "key is not 32 bit base64 encoded");
    assert!(Cipher::from_key("short".to_string()).is_none());
    // A key file holding only whitespace trims to an empty key, which is
    // not validly formed either.
    assert!(matches!(
        KeyManager::load_or_create(Some(&"   \n\t".to_string())),
        Err(KeyError::InvalidKey)
    ));
}

#[test]
fn store_lookup_is_case_sensitive_after_the_caller_lowercases() {
    let vault = load_json_map("{\"MiXeD\": {\"username\": \"u\", \"password\": \"p\"}}").unwrap();
    assert!(vault.get(&"MiXeD".to_string()).is_some());
    assert!(vault.get(&"mixed".to_string()).is_none());
}

#[test]
fn empty_object_loads_as_empty_vault() {
    let vault = load_json_map("{}").unwrap();
    assert!(vault.get(&"anything".to_string()).is_none());
}

#[test]
fn non_object_contents_are_an_invalid_schema() {
    assert!(matches!(load_json_map("[1, 2]"), Err(VaultError::InvalidSchema)));
    assert!(matches!(load_json_map("42"), Err(VaultError::InvalidSchema)));
    assert!(matches!(load_json_map("not json at all"), Err(VaultError::InvalidSchema)));
    assert_eq!(
        VaultError::InvalidSchema.message(),
        "file does not contain proper JSON schema."
    );
}

#[test]
fn store_round_trip_preserves_the_entry() {
    let (cipher, _) = fresh_cipher();
    let mut vault = Vault::new();
    add_credentials(&cipher, &"github".to_string(), &"u".to_string(), &"p".to_string(), &mut vault);

    let text = vault.to_json_text();
    let reloaded = load_json_map(&text).unwrap();
    assert_eq!(
        fetch_credentials(&cipher, &"github".to_string(), &reloaded),
        Ok(vec!["u".to_string(), "p".to_string()])
    );
}

#[test]
fn upsert_overwrites_an_existing_entry_in_place() {
    let (cipher, _) = fresh_cipher();
    let mut vault = Vault::new();
    add_credentials(&cipher, &"svc".to_string(), &"old".to_string(), &"old".to_string(), &mut vault);
    add_credentials(&cipher, &"svc".to_string(), &"new".to_string(), &"pw".to_string(), &mut vault);
    assert_eq!(
        fetch_credentials(&cipher, &"svc".to_string(), &vault),
        Ok(vec!["new".to_string(), "pw".to_string()])
    );
}

#[test]
fn names_are_lowercased_on_both_write_and_read() {
    let (cipher, _) = fresh_cipher();
    let mut vault = Vault::new();
    add_credentials(
        &cipher,
        &"GitHub".to_string(),
        &"alice".to_string(),
        &"pw".to_string(),
        &mut vault,
    );
    assert!(vault.get(&"github".to_string()).is_some());
    assert_eq!(
        fetch_credentials(&cipher, &"github".to_string(), &vault),
        Ok(vec!["alice".to_string(), "pw".to_string()])
    );
    assert_eq!(
        fetch_credentials(&cipher, &"GITHUB".to_string(), &vault),
        Ok(vec!["alice".to_string(), "pw".to_string()])
    );
}

#[test]
fn removal_reports_presence_and_deletes_exactly_the_entry() {
    let (cipher, _) = fresh_cipher();
    let mut vault = Vault::new();
    assert!(!remove_credentials(&"missing".to_string(), &mut vault));

    add_credentials(&cipher, &"github".to_string(), &"u".to_string(), &"p".to_string(), &mut vault);
    assert!(remove_credentials(&"github".to_string(), &mut vault));
    assert_eq!(
        fetch_credentials(&cipher, &"github".to_string(), &vault),
        Err(VaultError::NotFound)
    );
    assert_eq!(VaultError::NotFound.message(), "entry not found.");
}

#[test]
fn fetching_an_absent_name_is_not_found() {
    let (cipher, _) = fresh_cipher();
    let vault = load_json_map("{}").unwrap();
    assert_eq!(
        fetch_credentials(&cipher, &"nothing".to_string(), &vault),
        Err(VaultError::NotFound)
    );
}

#[test]
fn entries_missing_their_fields_are_malformed_not_crashes() {
    let (cipher, _) = fresh_cipher();
    let vault = load_json_map("{\"svc\": {\"username\": \"only\"}}").unwrap();
    assert_eq!(
        fetch_credentials(&cipher, &"svc".to_string(), &vault),
        Err(VaultError::MalformedEntry)
    );

    let vault2 = load_json_map("{\"svc\": 7}").unwrap();
    assert_eq!(
        fetch_credentials(&cipher, &"svc".to_string(), &vault2),
        Err(VaultError::MalformedEntry)
    );
    assert_eq!(
        VaultError::MalformedEntry.message(),
        "entry is missing its username/password fields."
    );
}

#[test]
fn stored_garbage_ciphertext_fails_decryption_visibly() {
    let (cipher, _) = fresh_cipher();
    let vault =
        load_json_map("{\"svc\": {\"username\": \"junk\", \"password\": \"junk\"}}").unwrap();
    assert_eq!(
        fetch_credentials(&cipher, &"svc".to_string(), &vault),
        Err(VaultError::DecryptionFailed)
    );
    assert_eq!(
        VaultError::DecryptionFailed.message(),
        "decryption failed: wrong key or corrupted data."
    );
}

#[test]
fn index_credentials_returns_fields_in_the_requested_order() {
    let mut vault = Vault::new();
    vault.upsert(
        "svc".to_string(),
        credentials_entry("user-ct".to_string(), "pass-ct".to_string()),
    );
    assert_eq!(
        index_credentials(&vault, &"svc".to_string(), &["username", "password"]),
        Some(vec!["user-ct".to_string(), "pass-ct".to_string()])
    );
    assert_eq!(
        index_credentials(&vault, &"svc".to_string(), &["password", "username"]),
        Some(vec!["pass-ct".to_string(), "user-ct".to_string()])
    );
    assert_eq!(index_credentials(&vault, &"svc".to_string(), &["username", "nope"]), None);
    assert_eq!(index_credentials(&vault, &"other".to_string(), &["username", "password"]), None);
}

#[test]
fn unknown_json_values_survive_a_dump_and_reload() {
    let text = "{\"extra\": [1, 2, {\"deep\": null}], \"svc\": {\"username\": \"u\", \"password\": \"p\", \"note\": true}}";
    let mut vault = load_json_map(text).unwrap();
    assert!(!remove_credentials(&"absent".to_string(), &mut vault));

    let dumped = vault.to_json_text();
    assert!(dumped.contains("extra"));
    assert!(dumped.contains("deep"));
    assert!(dumped.contains("note"));
    let reloaded = load_json_map(&dumped).unwrap();
    assert!(reloaded.get(&"extra".to_string()).is_some());
    assert!(reloaded.get(&"svc".to_string()).is_some());
}

#[test]
fn all_some_checks_every_element() {
    assert!(all_some::<i32>(&vec![]));
    assert!(all_some(&vec![Some(1), Some(2)]));
    assert!(!all_some(&vec![Some(1), None, Some(3)]));
}

#[test]
fn end_to_end_add_get_remove() {
    // Fresh environment: no key, no vault file.
    let (cipher, created_key) = KeyManager::load_or_create(None).unwrap();
    let key = created_key.expect("a fresh run must create a key to persist");
    assert!(!key.is_empty());

    // Add name="mail", username="alice", password="s3cret".
    let mut vault = Vault::new();
    add_credentials(
        &cipher,
        &"mail".to_string(),
        &"alice".to_string(),
        &"s3cret".to_string(),
        &mut vault,
    );
    let text = vault.to_json_text();
    assert!(text.contains("mail"));
    assert!(text.contains("username"));
    assert!(text.contains("password"));
    assert!(!text.contains("alice"));
    assert!(!text.contains("s3cret"));

    // Get name="mail": username then password, in that order.
    let mut reloaded = load_json_map(&text).unwrap();
    assert_eq!(
        fetch_credentials(&cipher, &"mail".to_string(), &reloaded),
        Ok(vec!["alice".to_string(), "s3cret".to_string()])
    );

    // Remove name="mail": the vault is empty afterwards.
    assert!(remove_credentials(&"mail".to_string(), &mut reloaded));
    assert_eq!(reloaded.to_json_text(), "{}");

    // Removing again reports "not present" without an error.
    assert!(!remove_credentials(&"mail".to_string(), &mut reloaded));
}
