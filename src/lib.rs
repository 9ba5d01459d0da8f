//! Secret storage keyed by (service, account), with an encrypted-file
//! store for platforms that lack a native credential facility.
use vstd::prelude::*;

pub mod cipher;
pub mod error;
pub mod laws;
pub mod native;
pub mod record;
pub mod store;
pub mod text;

verus! {

/// One secret together with the identity that names it.
#[derive(Debug, Clone)]
pub struct KeystoreEntry {
    pub service: String,
    pub account: String,
    pub value: String,
}

} // verus!
