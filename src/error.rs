//! The failures that keystore operations report.
use vstd::prelude::*;

verus! {

/// A keystore failure: a stable category plus the text that explains it.
#[derive(Debug, Clone, PartialEq, Eq)]
pub enum KeystoreError {
    PlatformNotSupported,
    KeyNotFound(String),
    AccessDenied(String),
    Io(String),
    Serialization(String),
    Platform(String),
}

/// The machine-readable category of a failure.
pub open spec fn code_of(e: KeystoreError) -> Seq<char> {
    match e {
        KeystoreError::PlatformNotSupported => "ERR_PLATFORM_NOT_SUPPORTED"@,
        KeystoreError::KeyNotFound(_) => "ERR_KEY_NOT_FOUND"@,
        KeystoreError::AccessDenied(_) => "ERR_ACCESS_DENIED"@,
        KeystoreError::Io(_) => "ERR_IO"@,
        KeystoreError::Serialization(_) => "ERR_SERIALIZATION"@,
        KeystoreError::Platform(_) => "ERR_PLATFORM"@,
    }
}

/// The human-readable text of a failure.
pub open spec fn message_of(e: KeystoreError) -> Seq<char> {
    match e {
        KeystoreError::PlatformNotSupported => "Platform not supported"@,
        KeystoreError::KeyNotFound(d) => "Key not found: "@ + d@,
        KeystoreError::AccessDenied(d) => "Access denied: "@ + d@,
        KeystoreError::Io(d) => "IO error: "@ + d@,
        KeystoreError::Serialization(d) => "Serialization error: "@ + d@,
        KeystoreError::Platform(d) => "Platform error: "@ + d@,
    }
}

fn prefixed(prefix: &str, detail: &String) -> (r: String)
    ensures
        r@ == prefix@ + detail@,
{
    let mut r = prefix.to_owned();
    r.append(detail.as_str());
    r
}

impl KeystoreError {
    /// The human-readable text of this failure.
    pub fn message(&self) -> (r: String)
        ensures
            r@ == message_of(*self),
    {
        match self {
            KeystoreError::PlatformNotSupported => "Platform not supported".to_owned(),
            KeystoreError::KeyNotFound(d) => prefixed("Key not found: ", d),
            KeystoreError::AccessDenied(d) => prefixed("Access denied: ", d),
            KeystoreError::Io(d) => prefixed("IO error: ", d),
            KeystoreError::Serialization(d) => prefixed("Serialization error: ", d),
            KeystoreError::Platform(d) => prefixed("Platform error: ", d),
        }
    }

    /// The category followed by the text, as `CODE: message`.
    pub fn coded_message(&self) -> (r: String)
        ensures
            r@ == code_of(*self) + ": "@ + message_of(*self),
    {
        let mut r = JsKeystoreError::code_for(self).to_owned();
        r.append(": ");
        let m = self.message();
        r.append(m.as_str());
        r
    }
}

/// A failure as handed across the language boundary.
pub struct JsKeystoreError(pub KeystoreError);

impl JsKeystoreError {
    pub fn new(err: KeystoreError) -> (r: Self)
        ensures
            r.0 == err,
    {
        Self(err)
    }

    fn code_for(e: &KeystoreError) -> (r: &'static str)
        ensures
            r@ == code_of(*e),
    {
        match e {
            KeystoreError::PlatformNotSupported => "ERR_PLATFORM_NOT_SUPPORTED",
            KeystoreError::KeyNotFound(_) => "ERR_KEY_NOT_FOUND",
            KeystoreError::AccessDenied(_) => "ERR_ACCESS_DENIED",
            KeystoreError::Io(_) => "ERR_IO",
            KeystoreError::Serialization(_) => "ERR_SERIALIZATION",
            KeystoreError::Platform(_) => "ERR_PLATFORM",
        }
    }

    /// The stable category of the wrapped failure.
    pub fn error_code(&self) -> (r: &'static str)
        ensures
            r@ == code_of(self.0),
    {
        Self::code_for(&self.0)
    }
}

/// A failure as a plain object of a code and a message.
pub struct NapiKeystoreError {
    pub code: String,
    pub message: String,
}

impl NapiKeystoreError {
    /// The code and message of `err`.
    pub fn from_error(err: KeystoreError) -> (r: Self)
        ensures
            r.code@ == code_of(err),
            r.message@ == message_of(err),
    {
        let message = err.message();
        let code = JsKeystoreError::new(err).error_code().to_owned();
        NapiKeystoreError { code, message }
    }
}

} // verus!
