use keystore_native::record::{format_record, parse_record};
use keystore_native::text::identity_label;
use keystore_native::KeystoreEntry;

fn fields(e: Option<KeystoreEntry>) -> Option<(String, String, String)> {
    e.map(|e| (e.service, e.account, e.value))
}

fn triple(s: &str, a: &str, v: &str) -> Option<(String, String, String)> {
    Some((s.to_string(), a.to_string(), v.to_string()))
}

#[test]
fn format_joins_with_colons() {
    let e = KeystoreEntry { service: "svc".to_string(), account: "acct".to_string(), value: "v:w".to_string() };
    assert_eq!(format_record(&e), "svc:acct:v:w");
}

#[test]
fn parse_keeps_colons_in_value() {
    assert_eq!(fields(parse_record("a:b:c:d::")), triple("a", "b", "c:d::"));
}

#[test]
fn parse_empty_fields() {
    assert_eq!(fields(parse_record("::")), triple("", "", ""));
}

#[test]
fn parse_needs_two_colons() {
    assert!(parse_record("").is_none());
    assert!(parse_record("no-colon").is_none());
    assert!(parse_record("one:colon").is_none());
}

#[test]
fn parse_non_ascii() {
    assert_eq!(fields(parse_record("世界:Привет:🌍")), triple("世界", "Привет", "🌍"));
}

#[test]
fn identity_label_joins() {
    assert_eq!(identity_label("s", "a"), "s:a");
}
