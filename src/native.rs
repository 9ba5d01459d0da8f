//! The native credential adapters and the decisions they share.
//!
//! The calls into each operating system's credential facility are made by
//! the binding layer; what they report is turned into a result here.
use vstd::prelude::*;
use vstd::utf8::{decode_utf8, valid_utf8};
use crate::KeystoreEntry;
use crate::error::KeystoreError;
use crate::text::{identity_label, identity_text, utf8_string};

verus! {

/// The four operations that every storage backend offers.
pub trait KeystoreOperations {
    fn set_password(&self, entry: &KeystoreEntry) -> Result<(), KeystoreError>;

    fn get_password(&self, service: &str, account: &str) -> Result<String, KeystoreError>;

    fn delete_password(&self, service: &str, account: &str) -> Result<(), KeystoreError>;

    fn is_available(&self) -> bool;
}

/// The Linux native credential backend.
pub struct LinuxKeystore;

impl LinuxKeystore {
    pub fn new() -> (r: Result<Self, KeystoreError>)
        ensures
            r is Ok,
    {
        Ok(Self)
    }
}

/// The macOS keychain backend.
pub struct MacOsKeystore;

impl MacOsKeystore {
    pub fn new() -> (r: Result<Self, KeystoreError>)
        ensures
            r is Ok,
    {
        Ok(Self)
    }
}

/// The Windows credential-manager backend.
pub struct WindowsKeystore;

impl WindowsKeystore {
    pub fn new() -> (r: Result<Self, KeystoreError>)
        ensures
            r is Ok,
    {
        Ok(Self)
    }
}

/// The text of a failed native call: `Failed to <action>: <detail>`.
pub open spec fn failure_text(action: Seq<char>, detail: Seq<char>) -> Seq<char> {
    "Failed to "@ + action + ": "@ + detail
}

/// The failure to report when a native call on an identity fails: the
/// identity is missing where the facility says it has no such item, and
/// otherwise the platform failed while doing `action`, for the reason `detail`.
pub fn native_failure(
    action: &str,
    not_found: bool,
    detail: &str,
    service: &str,
    account: &str,
) -> (r: KeystoreError)
    ensures
        not_found ==> (r matches KeystoreError::KeyNotFound(m) && m@ == identity_text(
            service@,
            account@,
        )),
        !not_found ==> (r matches KeystoreError::Platform(m) && m@ == failure_text(
            action@,
            detail@,
        )),
{
    if not_found {
        KeystoreError::KeyNotFound(identity_label(service, account))
    } else {
        let mut m = "Failed to ".to_owned();
        m.append(action);
        m.append(": ");
        m.append(detail);
        KeystoreError::Platform(m)
    }
}

/// The password held as bytes by a native facility, which must be UTF-8.
pub fn password_from_bytes(bytes: Vec<u8>) -> (r: Result<String, KeystoreError>)
    ensures
        r is Ok <==> valid_utf8(bytes@),
        r matches Ok(s) ==> s@ == decode_utf8(bytes@),
        r matches Err(e) ==> e is Serialization,
{
    match utf8_string(bytes) {
        Ok(s) => Ok(s),
        Err(e) => Err(KeystoreError::Serialization(e.to_string())),
    }
}

} // verus!
