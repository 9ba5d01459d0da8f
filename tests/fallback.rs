use keystore_native::error::KeystoreError;
use keystore_native::store::{get_or_create_key, FallbackKeystore, KeystoreData};
use keystore_native::KeystoreEntry;

fn create_test_fallback() -> (FallbackKeystore, KeystoreData) {
    let (key, _) = get_or_create_key(None);
    let store = FallbackKeystore::new("keystore-test.fallback".to_string(), key);
    (store, KeystoreData::new())
}

fn create_test_entry(service: &str, account: &str, value: &str) -> KeystoreEntry {
    KeystoreEntry {
        service: service.to_string(),
        account: account.to_string(),
        value: value.to_string(),
    }
}

#[test]
fn fallback_test_set_and_get_password() {
    let (keystore, mut data) = create_test_fallback();
    let entry = create_test_entry("test-service", "test-account", "my-secret-password");
    keystore.set_password(&mut data, &entry).unwrap();
    let result = keystore.get_password(&data, "test-service", "test-account").unwrap();
    assert_eq!(result, "my-secret-password");
}

#[test]
fn fallback_test_get_nonexistent_password() {
    let (keystore, data) = create_test_fallback();
    let result = keystore.get_password(&data, "nonexistent-service", "nonexistent-account");
    assert!(result.is_err());
    match result.unwrap_err() {
        KeystoreError::KeyNotFound(_) => (),
        _ => panic!("Expected KeyNotFound error"),
    }
}

#[test]
fn fallback_test_delete_nonexistent_password() {
    let (keystore, mut data) = create_test_fallback();
    let result = keystore.delete_password(&mut data, "nonexistent-service", "nonexistent-account");
    assert!(result.is_err());
    match result.unwrap_err() {
        KeystoreError::KeyNotFound(_) => (),
        _ => panic!("Expected KeyNotFound error"),
    }
}

#[test]
fn fallback_test_update_existing_password() {
    let (keystore, mut data) = create_test_fallback();
    let entry1 = create_test_entry("update-service", "update-account", "old-password");
    let entry2 = create_test_entry("update-service", "update-account", "new-password");
    keystore.set_password(&mut data, &entry1).unwrap();
    keystore.set_password(&mut data, &entry2).unwrap();
    let result = keystore.get_password(&data, "update-service", "update-account").unwrap();
    assert_eq!(result, "new-password");
    assert!(keystore.get_password(&data, "update-service", "update-account").unwrap() == "new-password");
}

#[test]
fn fallback_test_empty_value() {
    let (keystore, mut data) = create_test_fallback();
    let entry = create_test_entry("empty-service", "empty-account", "");
    keystore.set_password(&mut data, &entry).unwrap();
    let result = keystore.get_password(&data, "empty-service", "empty-account").unwrap();
    assert_eq!(result, "");
}

#[test]
fn fallback_test_special_characters() {
    let (keystore, mut data) = create_test_fallback();
    let special_value = "!@#$%^&*()_+-=[]{}|;':\",./<>?`~\n\t\r";
    let entry = create_test_entry("special-service", "special-account", special_value);
    keystore.set_password(&mut data, &entry).unwrap();
    let result = keystore.get_password(&data, "special-service", "special-account").unwrap();
    assert_eq!(result, special_value);
}

#[test]
fn fallback_test_long_value() {
    let (keystore, mut data) = create_test_fallback();
    let long_value = "a".repeat(1000);
    let entry = create_test_entry("long-service", "long-account", &long_value);
    keystore.set_password(&mut data, &entry).unwrap();
    let result = keystore.get_password(&data, "long-service", "long-account").unwrap();
    assert_eq!(result, long_value);
}

#[test]
fn fallback_test_multiple_services() {
    let (keystore, mut data) = create_test_fallback();
    let entries = vec![
        create_test_entry("service1", "account1", "password1"),
        create_test_entry("service1", "account2", "password2"),
        create_test_entry("service2", "account1", "password3"),
    ];
    for entry in &entries {
        keystore.set_password(&mut data, entry).unwrap();
    }
    assert_eq!(keystore.get_password(&data, "service1", "account1").unwrap(), "password1");
    assert_eq!(keystore.get_password(&data, "service1", "account2").unwrap(), "password2");
    assert_eq!(keystore.get_password(&data, "service2", "account1").unwrap(), "password3");
}

#[test]
fn fallback_test_utf8_values() {
    let (keystore, mut data) = create_test_fallback();
    let utf8_value = "Hello 世界 🌍 Привет";
    let entry = create_test_entry("utf8-service", "utf8-account", utf8_value);
    keystore.set_password(&mut data, &entry).unwrap();
    let result = keystore.get_password(&data, "utf8-service", "utf8-account").unwrap();
    assert_eq!(result, utf8_value);
}

#[test]
fn test_delete_password() {
    let (keystore, mut data) = create_test_fallback();
    let entry = create_test_entry("delete-service", "delete-account", "to-delete");
    keystore.set_password(&mut data, &entry).unwrap();
    assert!(keystore.get_password(&data, "delete-service", "delete-account").is_ok());
    keystore.delete_password(&mut data, "delete-service", "delete-account").unwrap();
    let result = keystore.get_password(&data, "delete-service", "delete-account");
    assert!(result.is_err());
    match result.unwrap_err() {
        KeystoreError::KeyNotFound(_) => (),
        _ => panic!("Expected KeyNotFound error after delete"),
    }
}

#[test]
fn test_persistence() {
    let file_path = "keystore-persist-test.fallback".to_string();
    let (key, _) = get_or_create_key(None);
    let entry = create_test_entry("persist-service", "persist-account", "persist-value");
    let saved = {
        let keystore1 = FallbackKeystore::new(file_path.clone(), key.clone());
        let mut data = KeystoreData::new();
        keystore1.set_password(&mut data, &entry).unwrap();
        data
    };
    {
        let keystore2 = FallbackKeystore::new(file_path.clone(), key);
        let loaded = saved.clone();
        let result = keystore2.get_password(&loaded, "persist-service", "persist-account").unwrap();
        assert_eq!(result, "persist-value");
    }
}

#[test]
fn test_colon_in_value() {
    let (keystore, mut data) = create_test_fallback();
    let value_with_colons = "value:with:multiple:colons::";
    let entry = create_test_entry("colon-service", "colon-account", value_with_colons);
    keystore.set_password(&mut data, &entry).unwrap();
    let result = keystore.get_password(&data, "colon-service", "colon-account").unwrap();
    assert_eq!(result, value_with_colons);
}

fn document_text(data: &KeystoreData) -> String {
    let mut records = Vec::new();
    for e in &data.entries {
        let mut obj = serde_json::Map::new();
        obj.insert("nonce".to_string(), serde_json::Value::from(e.nonce.to_vec()));
        obj.insert("ciphertext".to_string(), serde_json::Value::from(e.ciphertext.clone()));
        records.push(serde_json::Value::Object(obj));
    }
    let mut doc = serde_json::Map::new();
    doc.insert("entries".to_string(), serde_json::Value::Array(records));
    serde_json::to_string_pretty(&serde_json::Value::Object(doc)).unwrap()
}

fn contains_bytes(hay: &[u8], needle: &[u8]) -> bool {
    hay.windows(needle.len()).any(|w| w == needle)
}

#[test]
fn test_encryption_output_is_not_plaintext() {
    let (keystore, mut data) = create_test_fallback();
    let entry = create_test_entry("encrypt-service", "encrypt-account", "plaintext-password");
    keystore.set_password(&mut data, &entry).unwrap();
    let file_content = document_text(&data);
    assert!(!file_content.contains("plaintext-password"));
    assert!(!file_content.contains("encrypt-service"));
    assert!(!file_content.contains("encrypt-account"));
}

#[test]
fn ciphertext_bytes_hold_no_plaintext() {
    let (keystore, mut data) = create_test_fallback();
    let entry = create_test_entry("opaque-service", "opaque-account", "opaque-value");
    keystore.set_password(&mut data, &entry).unwrap();
    let c = &data.entries[0].ciphertext;
    assert_eq!(c.len(), "opaque-service:opaque-account:opaque-value".len() + 16);
    for needle in ["opaque-service", "opaque-account", "opaque-value"] {
        assert!(!contains_bytes(c, needle.as_bytes()));
    }
}

#[test]
fn update_keeps_record_count() {
    let (keystore, mut data) = create_test_fallback();
    keystore.set_password(&mut data, &create_test_entry("s", "a", "v1")).unwrap();
    keystore.set_password(&mut data, &create_test_entry("other", "a", "w")).unwrap();
    assert_eq!(data.entries.len(), 2);
    keystore.set_password(&mut data, &create_test_entry("s", "a", "v2")).unwrap();
    assert_eq!(data.entries.len(), 2);
    assert_eq!(keystore.get_password(&data, "s", "a").unwrap(), "v2");
    assert_eq!(keystore.derive_index(&data, "s", "a"), Some(0));
    assert_eq!(keystore.derive_index(&data, "other", "a"), Some(1));
}

#[test]
fn two_seals_use_different_nonces() {
    let (keystore, mut data) = create_test_fallback();
    let entry = create_test_entry("nonce-service", "nonce-account", "same");
    keystore.set_password(&mut data, &entry).unwrap();
    let first = data.entries[0].clone();
    keystore.set_password(&mut data, &entry).unwrap();
    let second = data.entries[0].clone();
    assert_eq!(data.entries.len(), 1);
    assert_ne!(first.nonce, second.nonce);
    assert_ne!(first.ciphertext, second.ciphertext);
}

#[test]
fn sealing_is_fixed_by_key_and_nonce() {
    let (keystore, _) = create_test_fallback();
    let entry = create_test_entry("s", "a", "v");
    let a = keystore.seal_entry(&entry, [7u8; 12]).unwrap();
    let b = keystore.seal_entry(&entry, [7u8; 12]).unwrap();
    assert_eq!(a.nonce, [7u8; 12]);
    assert_eq!(a.ciphertext, b.ciphertext);
    let opened = keystore.open_entry(&a).unwrap();
    assert_eq!((opened.service.as_str(), opened.account.as_str(), opened.value.as_str()), ("s", "a", "v"));
}

#[test]
fn isolation_between_identities() {
    let (keystore, mut data) = create_test_fallback();
    keystore.set_password(&mut data, &create_test_entry("s1", "a1", "v1")).unwrap();
    keystore.set_password(&mut data, &create_test_entry("s1", "a2", "v2")).unwrap();
    keystore.set_password(&mut data, &create_test_entry("s2", "a1", "v3")).unwrap();
    keystore.delete_password(&mut data, "s1", "a2").unwrap();
    assert_eq!(keystore.get_password(&data, "s1", "a1").unwrap(), "v1");
    assert_eq!(keystore.get_password(&data, "s2", "a1").unwrap(), "v3");
    assert!(keystore.get_password(&data, "s1", "a2").is_err());
    assert_eq!(data.entries.len(), 2);
}

#[test]
fn not_found_names_the_identity() {
    let (keystore, mut data) = create_test_fallback();
    assert_eq!(
        keystore.get_password(&data, "svc", "acct"),
        Err(KeystoreError::KeyNotFound("svc:acct".to_string()))
    );
    assert_eq!(
        keystore.delete_password(&mut data, "svc", "acct"),
        Err(KeystoreError::KeyNotFound("svc:acct".to_string()))
    );
}

#[test]
fn delete_twice_fails_the_second_time() {
    let (keystore, mut data) = create_test_fallback();
    keystore.set_password(&mut data, &create_test_entry("s", "a", "v")).unwrap();
    assert!(keystore.delete_password(&mut data, "s", "a").is_ok());
    assert!(keystore.delete_password(&mut data, "s", "a").is_err());
    assert!(data.entries.is_empty());
}

#[test]
fn colon_in_service_splits_at_first_colon() {
    let (keystore, mut data) = create_test_fallback();
    keystore.set_password(&mut data, &create_test_entry("a:b", "c", "v")).unwrap();
    assert!(keystore.get_password(&data, "a:b", "c").is_err());
    assert_eq!(keystore.get_password(&data, "a", "b").unwrap(), "c:v");
}

#[test]
fn foreign_records_are_skipped() {
    let (keystore, mut data) = create_test_fallback();
    let (other_key, _) = get_or_create_key(None);
    let other = FallbackKeystore::new("other".to_string(), other_key);
    other.set_password(&mut data, &create_test_entry("s", "a", "foreign")).unwrap();
    data.entries[0].ciphertext[0] ^= 1;
    keystore.set_password(&mut data, &create_test_entry("s", "a", "mine")).unwrap();
    assert_eq!(data.entries.len(), 2);
    assert_eq!(keystore.get_password(&data, "s", "a").unwrap(), "mine");
    assert!(other.get_password(&data, "s", "a").is_err());
}

#[test]
fn multi_kilobyte_identity_and_value() {
    let (keystore, mut data) = create_test_fallback();
    let s = "é".repeat(3000);
    let a = "账户".repeat(2000);
    let v = "x:y".repeat(4000);
    keystore.set_password(&mut data, &create_test_entry(&s, &a, &v)).unwrap();
    assert_eq!(keystore.get_password(&data, &s, &a).unwrap(), v);
}

#[test]
fn fallback_is_always_available() {
    let (keystore, _) = create_test_fallback();
    assert!(keystore.is_available());
}

#[test]
fn stored_key_of_right_length_is_kept() {
    let stored: Vec<u8> = (0u8..32).collect();
    let (key, write) = get_or_create_key(Some(stored.clone()));
    assert_eq!(key, stored);
    assert!(!write);
}

#[test]
fn stored_key_of_wrong_length_is_replaced() {
    let (key, write) = get_or_create_key(Some(vec![1u8; 31]));
    assert_eq!(key.len(), 32);
    assert!(write);
    let (key, write) = get_or_create_key(None);
    assert_eq!(key.len(), 32);
    assert!(write);
}

#[test]
fn fresh_keys_differ() {
    let (k1, _) = get_or_create_key(None);
    let (k2, _) = get_or_create_key(None);
    assert_ne!(k1, k2);
}
