//! The encrypted-file store: a document of sealed records, each an
//! AES-256-GCM encryption of one record text, found again by decrypting
//! the records in order until one names the identity sought.
//!
//! Reading and writing the document and the key are left to the caller;
//! every operation here works on a document already loaded.
use vstd::prelude::*;
use vstd::utf8::{decode_utf8, encode_utf8, encode_utf8_decode_utf8, encode_utf8_valid_utf8, valid_utf8};
use crate::KeystoreEntry;
use crate::cipher::{
    gcm_decrypt, gcm_encrypt, gcm_open, gcm_seal, random_key, random_nonce, KEY_SIZE,
    MAX_PLAINTEXT_LEN,
};
use crate::error::KeystoreError;
use crate::record::{
    format_record, has_no_colon, lemma_record_round_trip, parse_record, record_text,
    split_record, Fields,
};
use crate::text::{identity_label, identity_text, utf8_string};

verus! {

/// One sealed record: a nonce and the ciphertext made under it, tag included.
#[derive(Debug, Clone)]
pub struct EncryptedEntry {
    pub nonce: [u8; 12],
    pub ciphertext: Vec<u8>,
}

/// The whole persisted document: sealed records in insertion order.
#[derive(Debug, Clone)]
pub struct KeystoreData {
    pub entries: Vec<EncryptedEntry>,
}

impl KeystoreData {
    /// The document of a store that has never been written.
    pub fn new() -> (r: Self)
        ensures
            r.entries@.len() == 0,
    {
        KeystoreData { entries: Vec::new() }
    }
}

/// The fields that a sealed record decrypts and parses to under `key`.
pub open spec fn opened(key: Seq<u8>, e: EncryptedEntry) -> Option<Fields> {
    match gcm_open(key, e.nonce@, e.ciphertext@) {
        Some(bytes) => if valid_utf8(bytes) {
            split_record(decode_utf8(bytes))
        } else {
            None
        },
        None => None,
    }
}

/// Under `key`, the record `e` names the identity (`service`, `account`).
pub open spec fn holds_identity(
    key: Seq<u8>,
    e: EncryptedEntry,
    service: Seq<char>,
    account: Seq<char>,
) -> bool {
    match opened(key, e) {
        Some(f) => f.0 == service && f.1 == account,
        None => false,
    }
}

/// Position `i` is the first record of `entries` that names the identity.
pub open spec fn is_first_match(
    key: Seq<u8>,
    entries: Seq<EncryptedEntry>,
    service: Seq<char>,
    account: Seq<char>,
    i: int,
) -> bool {
    &&& 0 <= i < entries.len()
    &&& holds_identity(key, entries[i], service, account)
    &&& forall|j: int| 0 <= j < i ==> !holds_identity(key, #[trigger] entries[j], service, account)
}

/// The position of the first record that names the identity, if any does.
pub open spec fn first_match(
    key: Seq<u8>,
    entries: Seq<EncryptedEntry>,
    service: Seq<char>,
    account: Seq<char>,
) -> Option<int> {
    if exists|i: int| is_first_match(key, entries, service, account, i) {
        Some(choose|i: int| is_first_match(key, entries, service, account, i))
    } else {
        None
    }
}

/// The value stored for the identity: that of the first record naming it.
pub open spec fn lookup(
    key: Seq<u8>,
    entries: Seq<EncryptedEntry>,
    service: Seq<char>,
    account: Seq<char>,
) -> Option<Seq<char>> {
    match first_match(key, entries, service, account) {
        Some(i) => match opened(key, entries[i]) {
            Some(f) => Some(f.2),
            None => None,
        },
        None => None,
    }
}

/// The document after storing `x` for the identity: in place of the first
/// record naming it, or appended where none does.
pub open spec fn upserted(
    key: Seq<u8>,
    entries: Seq<EncryptedEntry>,
    service: Seq<char>,
    account: Seq<char>,
    x: EncryptedEntry,
) -> Seq<EncryptedEntry> {
    match first_match(key, entries, service, account) {
        Some(i) => entries.update(i, x),
        None => entries.push(x),
    }
}

/// The document after removing the first record naming the identity.
pub open spec fn removed(
    key: Seq<u8>,
    entries: Seq<EncryptedEntry>,
    service: Seq<char>,
    account: Seq<char>,
) -> Seq<EncryptedEntry> {
    match first_match(key, entries, service, account) {
        Some(i) => entries.remove(i),
        None => entries,
    }
}

/// Under `key`, the record `x` decrypts to the UTF-8 bytes of `text`.
pub open spec fn seals(key: Seq<u8>, x: EncryptedEntry, text: Seq<char>) -> bool {
    gcm_open(key, x.nonce@, x.ciphertext@) == Some(encode_utf8(text))
}

/// Under `key`, no two records of the document name the same identity.
pub open spec fn unique_identities(key: Seq<u8>, entries: Seq<EncryptedEntry>) -> bool {
    forall|i: int, j: int, service: Seq<char>, account: Seq<char>|
        0 <= i < entries.len() && 0 <= j < entries.len() && i != j && #[trigger] holds_identity(
            key,
            entries[i],
            service,
            account,
        ) ==> !#[trigger] holds_identity(key, entries[j], service, account)
}

/// A key read back from storage is used only where it has the right length.
pub open spec fn usable_key(stored: Option<Vec<u8>>) -> bool {
    match stored {
        Some(b) => b@.len() == KEY_SIZE,
        None => false,
    }
}

proof fn lemma_first_exists(
    key: Seq<u8>,
    entries: Seq<EncryptedEntry>,
    service: Seq<char>,
    account: Seq<char>,
    j: int,
)
    requires
        0 <= j < entries.len(),
        holds_identity(key, entries[j], service, account),
    ensures
        exists|i: int| is_first_match(key, entries, service, account, i),
    decreases j,
{
    if exists|k: int| 0 <= k < j && holds_identity(key, #[trigger] entries[k], service, account) {
        let k = choose|k: int| 0 <= k < j && holds_identity(key, #[trigger] entries[k], service, account);
        lemma_first_exists(key, entries, service, account, k);
    } else {
        assert(is_first_match(key, entries, service, account, j));
    }
}

/// What `first_match` gives: the first position naming the identity, or
/// nothing where no record names it.
pub proof fn lemma_first_match(
    key: Seq<u8>,
    entries: Seq<EncryptedEntry>,
    service: Seq<char>,
    account: Seq<char>,
)
    ensures
        match first_match(key, entries, service, account) {
            Some(i) => is_first_match(key, entries, service, account, i),
            None => forall|j: int|
                0 <= j < entries.len() ==> !holds_identity(key, #[trigger] entries[j], service, account),
        },
{
    if first_match(key, entries, service, account) is None {
        assert forall|j: int| 0 <= j < entries.len() implies !holds_identity(
            key,
            #[trigger] entries[j],
            service,
            account,
        ) by {
            if holds_identity(key, entries[j], service, account) {
                lemma_first_exists(key, entries, service, account, j);
            }
        }
    }
}

pub proof fn lemma_first_match_at(
    key: Seq<u8>,
    entries: Seq<EncryptedEntry>,
    service: Seq<char>,
    account: Seq<char>,
    i: int,
)
    requires
        is_first_match(key, entries, service, account, i),
    ensures
        first_match(key, entries, service, account) == Some(i),
{
    let k = choose|k: int| is_first_match(key, entries, service, account, k);
    if k < i {
        assert(!holds_identity(key, entries[k], service, account));
    }
    if i < k {
        assert(!holds_identity(key, entries[i], service, account));
    }
}

/// A record sealed from the text of an identity whose service and account
/// hold no colon opens to that identity and value.
pub proof fn lemma_sealed_opens(
    key: Seq<u8>,
    x: EncryptedEntry,
    service: Seq<char>,
    account: Seq<char>,
    value: Seq<char>,
)
    requires
        seals(key, x, record_text(service, account, value)),
        has_no_colon(service),
        has_no_colon(account),
    ensures
        opened(key, x) == Some((service, account, value)),
{
    let t = record_text(service, account, value);
    encode_utf8_valid_utf8(t);
    encode_utf8_decode_utf8(t);
    lemma_record_round_trip(service, account, value);
}

impl FallbackKeystore {
    /// The store is usable: its key has the length AES-256 takes.
    pub open spec fn wf(&self) -> bool {
        self.key@.len() == KEY_SIZE
    }

    /// A store over the document at `file_path`, sealed under `key`.
    pub fn new(file_path: String, key: Vec<u8>) -> (r: Self)
        requires
            key@.len() == KEY_SIZE,
        ensures
            r.wf(),
            r.file_path@ == file_path@,
            r.key@ == key@,
    {
        FallbackKeystore { file_path, key }
    }

    /// Seals the record text of `entry` under the store's key and `nonce`.
    pub fn seal_entry(&self, entry: &KeystoreEntry, nonce: [u8; 12]) -> (r: Result<
        EncryptedEntry,
        KeystoreError,
    >)
        requires
            self.wf(),
        ensures
            r is Ok <==> encode_utf8(record_text(entry.service@, entry.account@, entry.value@)).len()
                <= MAX_PLAINTEXT_LEN,
            r matches Ok(x) ==> x.nonce == nonce && x.ciphertext@ == gcm_seal(
                self.key@,
                nonce@,
                encode_utf8(record_text(entry.service@, entry.account@, entry.value@)),
            ) && seals(self.key@, x, record_text(entry.service@, entry.account@, entry.value@)),
            r matches Err(err) ==> err matches KeystoreError::Platform(m) && exists|d: Seq<char>|
                m@ == "Encryption failed: "@ + d,
    {
        let text = format_record(entry);
        let bytes = text.as_str().as_bytes();
        match gcm_encrypt(self.key.as_slice(), &nonce, bytes) {
            Ok(ciphertext) => Ok(EncryptedEntry { nonce, ciphertext }),
            Err(e) => {
                let mut m = "Encryption failed: ".to_owned();
                let d = e.to_string();
                m.append(d.as_str());
                Err(KeystoreError::Platform(m))
            },
        }
    }

    /// Decrypts and parses one record; nothing where either step fails.
    pub fn open_entry(&self, e: &EncryptedEntry) -> (r: Option<KeystoreEntry>)
        requires
            self.wf(),
        ensures
            r is None <==> opened(self.key@, *e) is None,
            r matches Some(x) ==> opened(self.key@, *e) == Some((x.service@, x.account@, x.value@)),
    {
        match gcm_decrypt(self.key.as_slice(), &e.nonce, e.ciphertext.as_slice()) {
            Err(_) => None,
            Ok(bytes) => match utf8_string(bytes) {
                Err(_) => None,
                Ok(t) => parse_record(t.as_str()),
            },
        }
    }

    /// The position of the first record that names the identity.
    pub fn derive_index(&self, data: &KeystoreData, service: &str, account: &str) -> (r: Option<
        usize,
    >)
        requires
            self.wf(),
        ensures
            r matches Some(i) ==> first_match(self.key@, data.entries@, service@, account@) == Some(
                i as int,
            ),
            r is None ==> first_match(self.key@, data.entries@, service@, account@) is None,
    {
        let s = service.to_owned();
        let a = account.to_owned();
        let mut i: usize = 0;
        while i < data.entries.len()
            invariant
                self.wf(),
                i <= data.entries@.len(),
                s@ == service@,
                a@ == account@,
                forall|j: int|
                    0 <= j < i ==> !holds_identity(
                        self.key@,
                        #[trigger] data.entries@[j],
                        service@,
                        account@,
                    ),
            decreases data.entries@.len() - i,
        {
            if let Some(x) = self.open_entry(&data.entries[i]) {
                if x.service == s && x.account == a {
                    proof {
                        lemma_first_match_at(self.key@, data.entries@, service@, account@, i as int);
                    }
                    return Some(i);
                }
            }
            i = i + 1;
        }
        proof {
            lemma_first_match(self.key@, data.entries@, service@, account@);
            if first_match(self.key@, data.entries@, service@, account@) is Some {
                let k = first_match(self.key@, data.entries@, service@, account@)->Some_0;
                assert(!holds_identity(self.key@, data.entries@[k], service@, account@));
            }
        }
        None
    }

    /// The value of the first record that names the identity.
    pub fn get_password(&self, data: &KeystoreData, service: &str, account: &str) -> (r: Result<
        String,
        KeystoreError,
    >)
        requires
            self.wf(),
        ensures
            match lookup(self.key@, data.entries@, service@, account@) {
                Some(v) => r matches Ok(x) && x@ == v,
                None => r matches Err(KeystoreError::KeyNotFound(m)) && m@ == identity_text(
                    service@,
                    account@,
                ),
            },
    {
        let s = service.to_owned();
        let a = account.to_owned();
        let mut i: usize = 0;
        while i < data.entries.len()
            invariant
                self.wf(),
                i <= data.entries@.len(),
                s@ == service@,
                a@ == account@,
                forall|j: int|
                    0 <= j < i ==> !holds_identity(
                        self.key@,
                        #[trigger] data.entries@[j],
                        service@,
                        account@,
                    ),
            decreases data.entries@.len() - i,
        {
            if let Some(x) = self.open_entry(&data.entries[i]) {
                if x.service == s && x.account == a {
                    proof {
                        lemma_first_match_at(self.key@, data.entries@, service@, account@, i as int);
                    }
                    return Ok(x.value);
                }
            }
            i = i + 1;
        }
        proof {
            lemma_first_match(self.key@, data.entries@, service@, account@);
            if first_match(self.key@, data.entries@, service@, account@) is Some {
                let k = first_match(self.key@, data.entries@, service@, account@)->Some_0;
                assert(!holds_identity(self.key@, data.entries@[k], service@, account@));
            }
        }
        Err(KeystoreError::KeyNotFound(identity_label(service, account)))
    }

    /// Stores `entry`, sealed under a fresh nonce, in place of the first
    /// record naming its identity, or at the end where none does.
    pub fn set_password(&self, data: &mut KeystoreData, entry: &KeystoreEntry) -> (r: Result<
        (),
        KeystoreError,
    >)
        requires
            self.wf(),
        ensures
            r is Ok <==> encode_utf8(record_text(entry.service@, entry.account@, entry.value@)).len()
                <= MAX_PLAINTEXT_LEN,
            r is Ok ==> exists|x: EncryptedEntry|
                #[trigger] seals(self.key@, x, record_text(entry.service@, entry.account@, entry.value@))
                    && final(data).entries@ == upserted(
                    self.key@,
                    old(data).entries@,
                    entry.service@,
                    entry.account@,
                    x,
                ),
            r is Err ==> final(data).entries@ == old(data).entries@,
            r matches Err(err) ==> err is Platform,
    {
        let nonce = random_nonce();
        let sealed = match self.seal_entry(entry, nonce) {
            Ok(x) => x,
            Err(err) => return Err(err),
        };
        let ghost x = sealed;
        match self.derive_index(data, entry.service.as_str(), entry.account.as_str()) {
            Some(i) => {
                data.entries.set(i, sealed);
            },
            None => {
                data.entries.push(sealed);
            },
        }
        assert(seals(self.key@, x, record_text(entry.service@, entry.account@, entry.value@)));
        Ok(())
    }

    /// Removes the first record naming the identity.
    pub fn delete_password(&self, data: &mut KeystoreData, service: &str, account: &str) -> (r:
        Result<(), KeystoreError>)
        requires
            self.wf(),
        ensures
            r is Ok <==> first_match(self.key@, old(data).entries@, service@, account@) is Some,
            final(data).entries@ == removed(self.key@, old(data).entries@, service@, account@),
            r is Err ==> (r matches Err(KeystoreError::KeyNotFound(m)) && m@ == identity_text(
                service@,
                account@,
            )),
    {
        match self.derive_index(data, service, account) {
            Some(i) => {
                data.entries.remove(i);
                Ok(())
            },
            None => Err(KeystoreError::KeyNotFound(identity_label(service, account))),
        }
    }

    /// The file store is always there to fall back on.
    pub fn is_available(&self) -> (r: bool)
        ensures
            r,
    {
        true
    }
}

/// Where the store's files live, and the key that seals its records.
pub struct FallbackKeystore {
    pub file_path: String,
    pub key: Vec<u8>,
}

/// The key to use given what the key file held, and whether it must be
/// written: a stored key of the right length is used as it is; otherwise a
/// fresh random one replaces it.
pub fn get_or_create_key(stored: Option<Vec<u8>>) -> (r: (Vec<u8>, bool))
    ensures
        r.0@.len() == KEY_SIZE,
        usable_key(stored) ==> r.0@ == stored->Some_0@ && !r.1,
        !usable_key(stored) ==> r.1,
{
    match stored {
        Some(b) => {
            if b.len() == KEY_SIZE {
                return (b, false);
            }
        },
        None => {},
    }
    (random_key(), true)
}

} // verus!
