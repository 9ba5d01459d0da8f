//! What holds of the store's operations taken together, stated over the
//! document model of `store` and proved from it.
use vstd::prelude::*;
use crate::record::{has_no_colon, record_text};
use crate::store::{
    first_match, holds_identity, is_first_match, lemma_first_match, lemma_first_match_at,
    lemma_sealed_opens, lookup, opened, removed, seals, unique_identities, upserted,
    EncryptedEntry,
};

verus! {

/// Two documents that agree on every record naming the identity, where the
/// second only adds records that do not name it, find it at the same place.
proof fn lemma_same_first_match(
    key: Seq<u8>,
    e1: Seq<EncryptedEntry>,
    e2: Seq<EncryptedEntry>,
    service: Seq<char>,
    account: Seq<char>,
)
    requires
        e1.len() <= e2.len(),
        forall|j: int|
            0 <= j < e1.len() ==> (holds_identity(key, #[trigger] e2[j], service, account)
                == holds_identity(key, e1[j], service, account)),
        forall|j: int|
            0 <= j < e1.len() && holds_identity(key, #[trigger] e1[j], service, account) ==> e2[j]
                == e1[j],
        forall|j: int|
            e1.len() <= j < e2.len() ==> !holds_identity(key, #[trigger] e2[j], service, account),
    ensures
        first_match(key, e2, service, account) == first_match(key, e1, service, account),
        lookup(key, e2, service, account) == lookup(key, e1, service, account),
{
    lemma_first_match(key, e1, service, account);
    lemma_first_match(key, e2, service, account);
    match first_match(key, e1, service, account) {
        Some(k) => {
            assert(is_first_match(key, e2, service, account, k));
            lemma_first_match_at(key, e2, service, account, k);
        },
        None => {
            if first_match(key, e2, service, account) is Some {
                let k = first_match(key, e2, service, account)->Some_0;
                assert(holds_identity(key, e2[k], service, account));
                if k < e1.len() {
                    assert(holds_identity(key, e1[k], service, account));
                }
            }
        },
    }
}

/// A document with no records holds no identity.
pub proof fn lemma_empty_has_nothing(key: Seq<u8>, service: Seq<char>, account: Seq<char>)
    ensures
        first_match(key, Seq::<EncryptedEntry>::empty(), service, account) is None,
        lookup(key, Seq::<EncryptedEntry>::empty(), service, account) is None,
        unique_identities(key, Seq::<EncryptedEntry>::empty()),
{
    lemma_first_match(key, Seq::<EncryptedEntry>::empty(), service, account);
}

/// Storing a value and reading the identity back gives that value, for any
/// value and any service and account free of the delimiter.
pub proof fn lemma_set_then_get(
    key: Seq<u8>,
    entries: Seq<EncryptedEntry>,
    service: Seq<char>,
    account: Seq<char>,
    value: Seq<char>,
    x: EncryptedEntry,
)
    requires
        seals(key, x, record_text(service, account, value)),
        has_no_colon(service),
        has_no_colon(account),
    ensures
        first_match(key, upserted(key, entries, service, account, x), service, account) is Some,
        lookup(key, upserted(key, entries, service, account, x), service, account) == Some(value),
{
    lemma_sealed_opens(key, x, service, account, value);
    lemma_first_match(key, entries, service, account);
    let d = upserted(key, entries, service, account, x);
    let i = match first_match(key, entries, service, account) {
        Some(i) => i,
        None => entries.len() as int,
    };
    assert(d[i] == x);
    assert(is_first_match(key, d, service, account, i));
    lemma_first_match_at(key, d, service, account, i);
}

/// Storing twice under one identity reads back the second value, and the
/// second store replaces the first record instead of adding one.
pub proof fn lemma_update_in_place(
    key: Seq<u8>,
    entries: Seq<EncryptedEntry>,
    service: Seq<char>,
    account: Seq<char>,
    v1: Seq<char>,
    v2: Seq<char>,
    x1: EncryptedEntry,
    x2: EncryptedEntry,
)
    requires
        seals(key, x1, record_text(service, account, v1)),
        seals(key, x2, record_text(service, account, v2)),
        has_no_colon(service),
        has_no_colon(account),
    ensures
        ({
            let d1 = upserted(key, entries, service, account, x1);
            let d2 = upserted(key, d1, service, account, x2);
            &&& lookup(key, d2, service, account) == Some(v2)
            &&& d2.len() == d1.len()
        }),
{
    let d1 = upserted(key, entries, service, account, x1);
    lemma_set_then_get(key, entries, service, account, v1, x1);
    lemma_set_then_get(key, d1, service, account, v2, x2);
}

/// Storing under one identity leaves every other identity as it was: found
/// at the same place with the same value, or still absent.
pub proof fn lemma_other_identity_unaffected(
    key: Seq<u8>,
    entries: Seq<EncryptedEntry>,
    service: Seq<char>,
    account: Seq<char>,
    other_service: Seq<char>,
    other_account: Seq<char>,
    other_value: Seq<char>,
    x: EncryptedEntry,
)
    requires
        seals(key, x, record_text(other_service, other_account, other_value)),
        has_no_colon(other_service),
        has_no_colon(other_account),
        other_service != service || other_account != account,
    ensures
        first_match(key, upserted(key, entries, other_service, other_account, x), service, account)
            == first_match(key, entries, service, account),
        lookup(key, upserted(key, entries, other_service, other_account, x), service, account)
            == lookup(key, entries, service, account),
{
    lemma_sealed_opens(key, x, other_service, other_account, other_value);
    lemma_first_match(key, entries, other_service, other_account);
    let d = upserted(key, entries, other_service, other_account, x);
    assert forall|j: int|
        0 <= j < entries.len() implies (holds_identity(key, #[trigger] d[j], service, account)
        == holds_identity(key, entries[j], service, account)) by {
        if d[j] != entries[j] {
            let i = first_match(key, entries, other_service, other_account)->Some_0;
            assert(j == i);
            assert(holds_identity(key, entries[i], other_service, other_account));
        }
    }
    lemma_same_first_match(key, entries, d, service, account);
}

/// Storing keeps the document free of repeated identities.
pub proof fn lemma_upsert_keeps_unique(
    key: Seq<u8>,
    entries: Seq<EncryptedEntry>,
    service: Seq<char>,
    account: Seq<char>,
    value: Seq<char>,
    x: EncryptedEntry,
)
    requires
        unique_identities(key, entries),
        seals(key, x, record_text(service, account, value)),
        has_no_colon(service),
        has_no_colon(account),
    ensures
        unique_identities(key, upserted(key, entries, service, account, x)),
{
    lemma_sealed_opens(key, x, service, account, value);
    lemma_first_match(key, entries, service, account);
    let d = upserted(key, entries, service, account, x);
    let c = match first_match(key, entries, service, account) {
        Some(i) => i,
        None => entries.len() as int,
    };
    assert forall|i: int, j: int, s: Seq<char>, a: Seq<char>|
        0 <= i < d.len() && 0 <= j < d.len() && i != j && #[trigger] holds_identity(
            key,
            d[i],
            s,
            a,
        ) implies !#[trigger] holds_identity(key, d[j], s, a) by {
        if holds_identity(key, d[j], s, a) {
            if i == c {
                assert(s == service && a == account);
                assert(holds_identity(key, entries[j], service, account));
                if first_match(key, entries, service, account) is Some {
                    assert(holds_identity(key, entries[c], service, account));
                }
            } else if j == c {
                assert(s == service && a == account);
                assert(holds_identity(key, entries[i], service, account));
                if first_match(key, entries, service, account) is Some {
                    assert(holds_identity(key, entries[c], service, account));
                }
            } else {
                assert(holds_identity(key, entries[i], s, a));
                assert(holds_identity(key, entries[j], s, a));
            }
        }
    }
}

/// Removing keeps the document free of repeated identities.
pub proof fn lemma_remove_keeps_unique(
    key: Seq<u8>,
    entries: Seq<EncryptedEntry>,
    service: Seq<char>,
    account: Seq<char>,
)
    requires
        unique_identities(key, entries),
    ensures
        unique_identities(key, removed(key, entries, service, account)),
{
    if first_match(key, entries, service, account) is Some {
        let c = first_match(key, entries, service, account)->Some_0;
        lemma_first_match(key, entries, service, account);
        let d = removed(key, entries, service, account);
        assert forall|i: int, j: int, s: Seq<char>, a: Seq<char>|
            0 <= i < d.len() && 0 <= j < d.len() && i != j && #[trigger] holds_identity(
                key,
                d[i],
                s,
                a,
            ) implies !#[trigger] holds_identity(key, d[j], s, a) by {
            let oi = if i < c {
                i
            } else {
                i + 1
            };
            let oj = if j < c {
                j
            } else {
                j + 1
            };
            assert(d[i] == entries[oi]);
            assert(d[j] == entries[oj]);
            assert(holds_identity(key, entries[oi], s, a));
        }
    }
}

/// In a document without repeated identities, storing and then deleting an
/// identity leaves it absent: reading or deleting it again fails.
pub proof fn lemma_delete_then_get(
    key: Seq<u8>,
    entries: Seq<EncryptedEntry>,
    service: Seq<char>,
    account: Seq<char>,
    value: Seq<char>,
    x: EncryptedEntry,
)
    requires
        unique_identities(key, entries),
        seals(key, x, record_text(service, account, value)),
        has_no_colon(service),
        has_no_colon(account),
    ensures
        ({
            let d = removed(key, upserted(key, entries, service, account, x), service, account);
            &&& first_match(key, d, service, account) is None
            &&& lookup(key, d, service, account) is None
        }),
{
    let u = upserted(key, entries, service, account, x);
    lemma_set_then_get(key, entries, service, account, value, x);
    lemma_upsert_keeps_unique(key, entries, service, account, value, x);
    lemma_first_match(key, u, service, account);
    let c = first_match(key, u, service, account)->Some_0;
    let d = removed(key, u, service, account);
    lemma_first_match(key, d, service, account);
    if first_match(key, d, service, account) is Some {
        let k = first_match(key, d, service, account)->Some_0;
        let ok = if k < c {
            k
        } else {
            k + 1
        };
        assert(d[k] == u[ok]);
        assert(holds_identity(key, u[c], service, account));
        assert(holds_identity(key, u[ok], service, account));
    }
}

} // verus!
