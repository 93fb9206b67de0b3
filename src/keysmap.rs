use crate::text::str_eq;
use jsonwebtoken::jwk::{Jwk, JwkSet};
use jsonwebtoken::DecodingKey;
use vstd::prelude::*;

verus! {

/// A verification key of the JWT library; opaque here.
#[verifier::external_type_specification]
#[verifier::external_body]
pub struct ExDecodingKey(jsonwebtoken::DecodingKey);

/// A key-set entry of the JWT library, with its public fields visible.
#[verifier::external_type_specification]
pub struct ExJwk(jsonwebtoken::jwk::Jwk);

/// The parameters common to all key-set entries, with their public fields visible.
#[verifier::external_type_specification]
pub struct ExCommonParameters(jsonwebtoken::jwk::CommonParameters);

/// The key parameters of a key-set entry; opaque here.
#[verifier::external_type_specification]
#[verifier::external_body]
pub struct ExAlgorithmParameters(jsonwebtoken::jwk::AlgorithmParameters);

/// The intended use of a key; opaque here.
#[verifier::external_type_specification]
#[verifier::external_body]
pub struct ExPublicKeyUse(jsonwebtoken::jwk::PublicKeyUse);

/// An operation a key is meant for; opaque here.
#[verifier::external_type_specification]
#[verifier::external_body]
pub struct ExKeyOperations(jsonwebtoken::jwk::KeyOperations);

/// The algorithm a key is meant for; opaque here.
#[verifier::external_type_specification]
#[verifier::external_body]
pub struct ExKeyAlgorithm(jsonwebtoken::jwk::KeyAlgorithm);

/// A key set of the JWT library, with its list of entries visible.
#[verifier::external_type_specification]
pub struct ExJwkSet(jsonwebtoken::jwk::JwkSet);

/// What the pipeline takes from one key-set entry: its key identifier and,
/// when the entry converts, its verification key.
pub struct JwkEntry {
    pub key_id: Option<String>,
    pub key: Option<DecodingKey>,
}

/// Whether the JWT library builds a verification key from a key-set entry; it
/// depends on the entry alone.
pub uninterp spec fn jwk_converts(jwk: Jwk) -> bool;

/// Relies on `DecodingKey::from_jwk`: the verification key that a key-set
/// entry describes, or the library's refusal.
#[verifier::external_body]
fn decoding_key(jwk: &Jwk) -> (r: Result<DecodingKey, jsonwebtoken::errors::Error>)
    ensures
        r is Ok <==> jwk_converts(*jwk),
{
    DecodingKey::from_jwk(jwk)
}

/// The identifier and, when the library accepts the entry, the key of a key-set entry.
fn jwk_entry(jwk: &Jwk) -> (r: JwkEntry)
    ensures
        r.key_id == jwk.common.key_id,
        r.key is Some <==> jwk_converts(*jwk),
{
    let key_id = match &jwk.common.key_id {
        Some(id) => Some(id.clone()),
        None => None,
    };
    let key = match decoding_key(jwk) {
        Ok(k) => Some(k),
        Err(_) => None,
    };
    JwkEntry { key_id, key }
}

/// The mapping that a sequence of identified keys describes; a later
/// entry for the same identifier replaces an earlier one.
pub open spec fn map_of(es: Seq<(String, DecodingKey)>) -> Map<Seq<char>, DecodingKey>
    decreases es.len(),
{
    if es.len() == 0 {
        Map::empty()
    } else {
        map_of(es.drop_last()).insert(es.last().0@, es.last().1)
    }
}

/// The mapping that a sequence of key-set entries describes: entries without
/// an identifier or without a usable key are left out; a later entry for the
/// same identifier replaces an earlier one.
pub open spec fn entries_map(es: Seq<JwkEntry>) -> Map<Seq<char>, DecodingKey>
    decreases es.len(),
{
    if es.len() == 0 {
        Map::empty()
    } else {
        let before = entries_map(es.drop_last());
        match (es.last().key_id, es.last().key) {
            (Some(id), Some(k)) => before.insert(id@, k),
            _ => before,
        }
    }
}

pub open spec fn ids_of(es: Seq<(String, DecodingKey)>) -> Seq<Seq<char>> {
    es.map_values(|e: (String, DecodingKey)| e.0@)
}

proof fn lemma_map_of_dom(es: Seq<(String, DecodingKey)>, k: Seq<char>)
    ensures
        map_of(es).contains_key(k) <==> ids_of(es).contains(k),
    decreases es.len(),
{
    if es.len() > 0 {
        let before = es.drop_last();
        let last = es.len() - 1;
        lemma_map_of_dom(before, k);
        assert(ids_of(before) =~= ids_of(es).drop_last());
        if ids_of(es).contains(k) {
            let i = choose|i: int| 0 <= i < ids_of(es).len() && ids_of(es)[i] == k;
            if i < last {
                assert(ids_of(before)[i] == k);
            }
        }
        if map_of(es).contains_key(k) {
            if es.last().0@ == k {
                assert(ids_of(es)[last] == k);
            } else {
                assert(map_of(before).contains_key(k));
                let i = choose|i: int| 0 <= i < ids_of(before).len() && ids_of(before)[i] == k;
                assert(ids_of(es)[i] == k);
            }
        }
    }
}

proof fn lemma_map_of_value(es: Seq<(String, DecodingKey)>, j: int)
    requires
        ids_of(es).no_duplicates(),
        0 <= j < es.len(),
    ensures
        map_of(es).contains_key(es[j].0@),
        map_of(es)[es[j].0@] == es[j].1,
    decreases es.len(),
{
    if j < es.len() - 1 {
        assert(ids_of(es.drop_last()) =~= ids_of(es).drop_last());
        lemma_map_of_value(es.drop_last(), j);
        assert(ids_of(es)[j] != ids_of(es)[es.len() - 1]);
    }
}

proof fn lemma_map_of_len(es: Seq<(String, DecodingKey)>)
    requires
        ids_of(es).no_duplicates(),
    ensures
        map_of(es).dom().finite(),
        map_of(es).dom().len() == es.len(),
    decreases es.len(),
{
    if es.len() > 0 {
        let before = es.drop_last();
        assert(ids_of(before) =~= ids_of(es).drop_last());
        lemma_map_of_len(before);
        lemma_map_of_dom(before, es.last().0@);
        if ids_of(before).contains(es.last().0@) {
            let i = choose|i: int| 0 <= i < ids_of(before).len() && ids_of(before)[i] == es.last().0@;
            assert(ids_of(es)[i] == ids_of(es)[es.len() - 1]);
        }
    }
}

proof fn lemma_map_of_update(es: Seq<(String, DecodingKey)>, j: int, e: (String, DecodingKey))
    requires
        ids_of(es).no_duplicates(),
        0 <= j < es.len(),
        es[j].0@ == e.0@,
    ensures
        ids_of(es.update(j, e)).no_duplicates(),
        map_of(es.update(j, e)) == map_of(es).insert(e.0@, e.1),
{
    let es2 = es.update(j, e);
    let target = map_of(es).insert(e.0@, e.1);
    assert(ids_of(es2) =~= ids_of(es));
    assert(ids_of(es)[j] == e.0@);
    assert forall|k: Seq<char>| #[trigger] map_of(es2).contains_key(k) == target.contains_key(k) by {
        lemma_map_of_dom(es2, k);
        lemma_map_of_dom(es, k);
    }
    assert forall|k: Seq<char>| #[trigger] map_of(es2).contains_key(k) implies map_of(es2)[k] == target[k] by {
        lemma_map_of_dom(es2, k);
        let i = choose|i: int| 0 <= i < ids_of(es2).len() && ids_of(es2)[i] == k;
        lemma_map_of_value(es2, i);
        if i != j {
            assert(ids_of(es)[i] != ids_of(es)[j]);
            lemma_map_of_value(es, i);
        }
    }
    assert(map_of(es2) =~= target);
}

/// Verification keys by key identifier.
pub struct KeysMap {
    entries: Vec<(String, DecodingKey)>,
}

impl KeysMap {
    /// The identifier-to-key mapping.
    pub closed spec fn view_map(&self) -> Map<Seq<char>, DecodingKey> {
        map_of(self.entries@)
    }

    /// Each identifier is held once.
    #[verifier::type_invariant]
    spec fn inv(&self) -> bool {
        ids_of(self.entries@).no_duplicates()
    }

    /// The empty mapping.
    pub fn new() -> (r: KeysMap)
        ensures
            r.view_map() == Map::<Seq<char>, DecodingKey>::empty(),
    {
        let entries: Vec<(String, DecodingKey)> = Vec::new();
        assert(ids_of(entries@) =~= Seq::<Seq<char>>::empty());
        KeysMap { entries }
    }

    fn position(entries: &Vec<(String, DecodingKey)>, key_id: &str) -> (r: Option<usize>)
        ensures
            match r {
                Some(j) => j < entries@.len() && entries@[j as int].0@ == key_id@,
                None => !ids_of(entries@).contains(key_id@),
            },
    {
        let mut i: usize = 0;
        while i < entries.len()
            invariant
                i <= entries@.len(),
                forall|j: int| 0 <= j < i ==> entries@[j].0@ != key_id@,
            decreases entries@.len() - i,
        {
            if str_eq(entries[i].0.as_str(), key_id) {
                return Some(i);
            }
            i = i + 1;
        }
        assert forall|j: int| 0 <= j < ids_of(entries@).len() implies ids_of(entries@)[j] != key_id@ by {
            assert(ids_of(entries@)[j] == entries@[j].0@);
        }
        None
    }

    /// The key registered under `key_id`.
    pub fn get(&self, key_id: &str) -> (r: Option<&DecodingKey>)
        ensures
            match r {
                Some(k) => self.view_map().contains_key(key_id@) && self.view_map()[key_id@] == *k,
                None => !self.view_map().contains_key(key_id@),
            },
    {
        proof {
            use_type_invariant(self);
            lemma_map_of_dom(self.entries@, key_id@);
        }
        match KeysMap::position(&self.entries, key_id) {
            Some(j) => {
                proof {
                    lemma_map_of_value(self.entries@, j as int);
                }
                Some(&self.entries[j].1)
            },
            None => None,
        }
    }

    /// Whether a key is registered under `key_id`.
    pub fn contains_key(&self, key_id: &str) -> (r: bool)
        ensures
            r == self.view_map().contains_key(key_id@),
    {
        self.get(key_id).is_some()
    }

    /// The number of registered keys.
    pub fn len(&self) -> (r: usize)
        ensures
            r == self.view_map().dom().len(),
    {
        proof {
            use_type_invariant(self);
            lemma_map_of_len(self.entries@);
        }
        self.entries.len()
    }

    /// Registers `key` under `key_id`, replacing any key held there.
    pub fn insert(&mut self, key_id: String, key: DecodingKey)
        ensures
            final(self).view_map() == old(self).view_map().insert(key_id@, key),
    {
        proof {
            use_type_invariant(&*self);
        }
        let mut entries: Vec<(String, DecodingKey)> = Vec::new();
        proof {
            assert(ids_of(entries@) =~= Seq::<Seq<char>>::empty());
        }
        std::mem::swap(&mut entries, &mut self.entries);
        let ghost before = entries@;
        match KeysMap::position(&entries, key_id.as_str()) {
            Some(j) => {
                let ghost e = (key_id, key);
                proof {
                    lemma_map_of_update(entries@, j as int, e);
                }
                entries.set(j, (key_id, key));
            },
            None => {
                entries.push((key_id, key));
                proof {
                    assert(entries@.drop_last() =~= before);
                    assert(ids_of(entries@) =~= ids_of(before).push(key_id@));
                    assert forall|a: int, b: int| 0 <= a < b < ids_of(entries@).len() implies ids_of(entries@)[a] != ids_of(entries@)[b] by {
                        if b == ids_of(entries@).len() - 1 {
                            assert(ids_of(before)[a] == ids_of(entries@)[a]);
                        }
                    }
                }
            },
        }
        self.entries = entries;
    }

    /// Indexes key-set entries by identifier. Entries without an identifier,
    /// or whose key could not be built, are skipped; a later entry replaces an
    /// earlier one with the same identifier.
    pub fn from_entries(entries: Vec<JwkEntry>) -> (r: KeysMap)
        ensures
            r.view_map() == entries_map(entries@),
    {
        let mut map = KeysMap::new();
        let ghost all = entries@;
        let mut rest = entries;
        let mut taken: usize = 0;
        let n = rest.len();
        while rest.len() > 0
            invariant
                n == all.len(),
                taken + rest@.len() == n,
                rest@ == all.subrange(taken as int, n as int),
                map.view_map() == entries_map(all.subrange(0, taken as int)),
            decreases rest@.len(),
        {
            let e = rest.remove(0);
            assert(rest@ =~= all.subrange(taken + 1, n as int));
            proof {
                let next = all.subrange(0, taken + 1);
                assert(next.drop_last() =~= all.subrange(0, taken as int));
                assert(next.last() == all[taken as int]);
            }
            match e {
                JwkEntry { key_id: Some(id), key: Some(k) } => {
                    map.insert(id, k);
                },
                _ => {},
            }
            taken = taken + 1;
        }
        assert(all.subrange(0, n as int) =~= all);
        map
    }
}

impl KeysMap {
    /// Indexes a key set by key identifier, as `from_entries` does: one entry
    /// per key, in order, with the key's own identifier.
    pub fn from_jwk_set(jwks: JwkSet) -> (r: KeysMap)
        ensures
            exists|es: Seq<JwkEntry>|
                es.len() == jwks.keys@.len() && (forall|i: int|
                    0 <= i < es.len() ==> (#[trigger] es[i]).key_id == jwks.keys@[i].common.key_id
                        && (es[i].key is Some <==> jwk_converts(jwks.keys@[i])))
                    && r.view_map() == entries_map(es),
    {
        let mut entries: Vec<JwkEntry> = Vec::new();
        let mut i: usize = 0;
        while i < jwks.keys.len()
            invariant
                i <= jwks.keys@.len(),
                entries@.len() == i,
                forall|j: int| 0 <= j < i ==> (#[trigger] entries@[j]).key_id == jwks.keys@[j].common.key_id
                    && (entries@[j].key is Some <==> jwk_converts(jwks.keys@[j])),
            decreases jwks.keys@.len() - i,
        {
            entries.push(jwk_entry(&jwks.keys[i]));
            i = i + 1;
        }
        let ghost es = entries@;
        let r = KeysMap::from_entries(entries);
        assert(es.len() == jwks.keys@.len() && (forall|i: int|
            0 <= i < es.len() ==> (#[trigger] es[i]).key_id == jwks.keys@[i].common.key_id
                && (es[i].key is Some <==> jwk_converts(jwks.keys@[i])))
            && r.view_map() == entries_map(es));
        r
    }
}

} // verus!
