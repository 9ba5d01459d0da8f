//! The plaintext layout of a secret record, `service:account:value`.
//!
//! Parsing stops after the second colon, so a value may hold colons; an
//! identity whose service or account holds one reads back differently.
use vstd::prelude::*;
use vstd::slice::slice_subrange;
use crate::KeystoreEntry;
use crate::text::{chars_of, string_of};

verus! {

/// The three fields of a record: service, account and value.
pub type Fields = (Seq<char>, Seq<char>, Seq<char>);

/// The text that stores a record: the three fields joined by colons.
pub open spec fn record_text(service: Seq<char>, account: Seq<char>, value: Seq<char>) -> Seq<char> {
    service + seq![':'] + account + seq![':'] + value
}

pub open spec fn has_no_colon(s: Seq<char>) -> bool {
    forall|i: int| 0 <= i < s.len() ==> s[i] != ':'
}

/// `f` is how `t` splits at its first two colons.
pub open spec fn is_split(t: Seq<char>, f: Fields) -> bool {
    &&& has_no_colon(f.0)
    &&& has_no_colon(f.1)
    &&& t == record_text(f.0, f.1, f.2)
}

/// The fields of a record text, or nothing where it holds fewer than two colons.
pub open spec fn split_record(t: Seq<char>) -> Option<Fields> {
    if exists|f: Fields| is_split(t, f) {
        Some(choose|f: Fields| is_split(t, f))
    } else {
        None
    }
}

/// A text splits in at most one way.
pub proof fn lemma_split_unique(t: Seq<char>, f: Fields, g: Fields)
    requires
        is_split(t, f),
        is_split(t, g),
    ensures
        f == g,
{
    let n = f.0.len() as int;
    let m = g.0.len() as int;
    assert(t[n] == ':');
    assert(t[m] == ':');
    if n < m {
        assert(t[n] == g.0[n]);
    }
    if m < n {
        assert(t[m] == f.0[m]);
    }
    assert(f.0 =~= t.take(n));
    assert(g.0 =~= t.take(n));
    let k = n + 1;
    let p = f.1.len() as int;
    let q = g.1.len() as int;
    assert(t[k + p] == ':');
    assert(t[k + q] == ':');
    if p < q {
        assert(t[k + p] == g.1[p]);
    }
    if q < p {
        assert(t[k + q] == f.1[q]);
    }
    assert(f.1 =~= t.subrange(k, k + p));
    assert(g.1 =~= t.subrange(k, k + p));
    assert(f.2 =~= t.skip(k + p + 1));
    assert(g.2 =~= t.skip(k + p + 1));
}

/// A text that splits as `f` reads back as `f`.
pub proof fn lemma_split_record(t: Seq<char>, f: Fields)
    requires
        is_split(t, f),
    ensures
        split_record(t) == Some(f),
{
    let g = choose|g: Fields| is_split(t, g);
    lemma_split_unique(t, f, g);
}

/// A record whose service and account hold no colon reads back as written.
pub proof fn lemma_record_round_trip(service: Seq<char>, account: Seq<char>, value: Seq<char>)
    requires
        has_no_colon(service),
        has_no_colon(account),
    ensures
        split_record(record_text(service, account, value)) == Some((service, account, value)),
{
    lemma_split_record(record_text(service, account, value), (service, account, value));
}

/// The record text of an entry.
pub fn format_record(entry: &KeystoreEntry) -> (r: String)
    ensures
        r@ == record_text(entry.service@, entry.account@, entry.value@),
{
    let mut r = entry.service.clone();
    r.append(":");
    r.append(entry.account.as_str());
    r.append(":");
    r.append(entry.value.as_str());
    proof {
        reveal_strlit(":");
    }
    r
}

/// The first colon of `t` at or after `from`.
fn find_colon(t: &Vec<char>, from: usize) -> (r: Option<usize>)
    requires
        from <= t@.len(),
    ensures
        match r {
            Some(i) => from <= i < t@.len() && t@[i as int] == ':' && forall|k: int|
                from <= k < i ==> t@[k] != ':',
            None => forall|k: int| from <= k < t@.len() ==> t@[k] != ':',
        },
{
    let mut i: usize = from;
    while i < t.len()
        invariant
            from <= i <= t@.len(),
            forall|k: int| from <= k < i ==> t@[k] != ':',
        decreases t@.len() - i,
    {
        if t[i] == ':' {
            return Some(i);
        }
        i = i + 1;
    }
    None
}

/// Splits a record text at its first two colons.
pub fn parse_record(text: &str) -> (r: Option<KeystoreEntry>)
    ensures
        r is None <==> split_record(text@) is None,
        r matches Some(e) ==> split_record(text@) == Some((e.service@, e.account@, e.value@)),
{
    let cs = chars_of(text);
    let ghost t = cs@;
    let n: usize = cs.len();
    match find_colon(&cs, 0) {
        None => {
            proof {
                if exists|f: Fields| is_split(t, f) {
                    let f = choose|f: Fields| is_split(t, f);
                    assert(t[f.0.len() as int] == ':');
                }
            }
            None
        },
        Some(i) => match find_colon(&cs, i + 1) {
            None => {
                proof {
                    if exists|f: Fields| is_split(t, f) {
                        let f = choose|f: Fields| is_split(t, f);
                        let n = f.0.len() as int;
                        assert(t[n] == ':');
                        if n > i {
                            assert(t[i as int] == f.0[i as int]);
                        }
                        assert(t[n + 1 + f.1.len()] == ':');
                    }
                }
                None
            },
            Some(j) => {
                let service = string_of(slice_subrange(cs.as_slice(), 0, i));
                let account = string_of(slice_subrange(cs.as_slice(), i + 1, j));
                let value = string_of(slice_subrange(cs.as_slice(), j + 1, n));
                proof {
                    let f = (service@, account@, value@);
                    assert(t =~= record_text(f.0, f.1, f.2));
                    lemma_split_record(t, f);
                }
                Some(KeystoreEntry { service, account, value })
            },
        },
    }
}

} // verus!
