use crate::json::{claim_text, JsonValue};
use crate::text::{contains_str, copy_strings, list_items, split_list, str_eq, strings_view};
use vstd::prelude::*;

verus! {

/// Why a claim was refused.
#[derive(Debug)]
pub enum AcceptedClaimsError {
    /// The claim (named here) is absent.
    MissingClaim(String),
    /// The claim (named here) is neither a string nor an array of strings.
    WrongType(String),
    /// The claim's value, as text, matches no accepted value.
    Unsupported(String),
}

/// Whether every item of an array is a string.
pub open spec fn all_strings(items: Seq<JsonValue>) -> bool {
    forall|i: int| 0 <= i < items.len() ==> (#[trigger] items[i]) is String
}

/// The acceptance set for one named claim (issuer, audience, ...).
/// An empty set accepts any value, and a missing claim too.
#[derive(Debug)]
pub struct AcceptedClaims {
    accepted: Vec<String>,
    claim_name: String,
}

impl AcceptedClaims {
    /// Each accepted value is held once.
    #[verifier::type_invariant]
    spec fn inv(&self) -> bool {
        strings_view(self.accepted@).no_duplicates()
    }

    /// The accepted values.
    pub closed spec fn values(&self) -> Seq<Seq<char>> {
        strings_view(self.accepted@)
    }

    /// The name of the claim.
    pub closed spec fn name(&self) -> Seq<char> {
        self.claim_name@
    }

    /// A single string value is accepted.
    pub open spec fn accepts(&self, value: Seq<char>) -> bool {
        self.values().len() == 0 || self.values().contains(value)
    }

    /// An array item that is an accepted string.
    pub open spec fn accepted_item(&self, v: JsonValue) -> bool {
        match v {
            JsonValue::String(s) => self.values().contains(s@),
            _ => false,
        }
    }

    /// Some item of an array is an accepted string.
    pub open spec fn accepts_some(&self, items: Seq<JsonValue>) -> bool {
        exists|i: int| 0 <= i < items.len() && self.accepted_item(#[trigger] items[i])
    }

    /// A claims document passes the check.
    pub open spec fn passes(&self, claims: JsonValue) -> bool {
        self.values().len() == 0 || match claims.spec_get(self.name()) {
            Some(JsonValue::String(s)) => self.values().contains(s@),
            Some(JsonValue::Array(items)) => all_strings(items@) && self.accepts_some(items@),
            _ => false,
        }
    }

    /// The set of `accepted_values`, each held once in the order of its first
    /// occurrence, for the claim `claim_name`.
    pub fn new(accepted_values: Vec<String>, claim_name: String) -> (r: AcceptedClaims)
        ensures
            r.values().no_duplicates(),
            forall|v: Seq<char>| r.values().contains(v) <==> strings_view(accepted_values@).contains(v),
            r.name() == claim_name@,
    {
        let mut kept: Vec<String> = Vec::new();
        let mut i: usize = 0;
        assert(strings_view(kept@) =~= Seq::<Seq<char>>::empty());
        while i < accepted_values.len()
            invariant
                i <= accepted_values@.len(),
                strings_view(kept@).no_duplicates(),
                forall|v: Seq<char>| strings_view(kept@).contains(v) <==> strings_view(
                    accepted_values@.subrange(0, i as int),
                ).contains(v),
            decreases accepted_values@.len() - i,
        {
            let ghost before = kept@;
            let ghost seen = strings_view(accepted_values@.subrange(0, i as int));
            let ghost next = strings_view(accepted_values@.subrange(0, i + 1));
            assert(forall|v: Seq<char>| strings_view(before).contains(v) <==> seen.contains(v));
            assert(next =~= seen.push(accepted_values@[i as int]@));
            if !contains_str(&kept, accepted_values[i].as_str()) {
                kept.push(accepted_values[i].clone());
                assert(strings_view(kept@) =~= strings_view(before).push(accepted_values@[i as int]@));
                assert forall|a: int, b: int| 0 <= a < b < strings_view(kept@).len() implies strings_view(kept@)[a] != strings_view(kept@)[b] by {
                    if b == strings_view(kept@).len() - 1 {
                        assert(strings_view(before).contains(strings_view(kept@)[a]));
                    }
                }
                assert forall|v: Seq<char>| strings_view(kept@).contains(v) <==> next.contains(v) by {
                    if strings_view(kept@).contains(v) && v != accepted_values@[i as int]@ {
                        let k = choose|k: int| 0 <= k < strings_view(kept@).len() && strings_view(kept@)[k] == v;
                        assert(strings_view(before)[k] == v);
                        assert(strings_view(before).contains(v));
                        assert(seen.contains(v));
                        let m = choose|m: int| 0 <= m < seen.len() && seen[m] == v;
                        assert(next[m] == v);
                    }
                    if next.contains(v) && v != accepted_values@[i as int]@ {
                        let k = choose|k: int| 0 <= k < next.len() && next[k] == v;
                        assert(seen[k] == v);
                        assert(strings_view(before).contains(v));
                        let m = choose|m: int| 0 <= m < strings_view(before).len() && strings_view(before)[m] == v;
                        assert(strings_view(kept@)[m] == v);
                    }
                    if v == accepted_values@[i as int]@ {
                        assert(next[i as int] == v);
                        assert(strings_view(kept@)[strings_view(kept@).len() - 1] == v);
                    }
                }
            } else {
                assert forall|v: Seq<char>| strings_view(kept@).contains(v) <==> next.contains(v) by {
                    if next.contains(v) && v != accepted_values@[i as int]@ {
                        let k = choose|k: int| 0 <= k < next.len() && next[k] == v;
                        assert(seen[k] == v);
                    }
                    if seen.contains(v) {
                        let k = choose|k: int| 0 <= k < seen.len() && seen[k] == v;
                        assert(next[k] == v);
                    }
                }
            }
            i = i + 1;
        }
        assert(accepted_values@.subrange(0, accepted_values@.len() as int) =~= accepted_values@);
        AcceptedClaims { accepted: kept, claim_name }
    }

    /// A copy of the accepted values, each once.
    pub fn accepted_values(&self) -> (r: Vec<String>)
        ensures
            strings_view(r@) == self.values(),
            strings_view(r@).no_duplicates(),
    {
        proof {
            use_type_invariant(self);
        }
        copy_strings(&self.accepted)
    }

    /// The name of the claim that this set checks.
    pub fn claim_name(&self) -> (r: &str)
        ensures
            r@ == self.name(),
    {
        self.claim_name.as_str()
    }

    /// Builds the set from a comma-separated list: items trimmed, empty items skipped.
    pub fn from_comma_separated_values(comma_separated_values: &str, claim_name: String) -> (r:
        AcceptedClaims)
        ensures
            r.values().no_duplicates(),
            forall|v: Seq<char>| r.values().contains(v) <==> list_items(comma_separated_values@).contains(v),
            r.name() == claim_name@,
    {
        AcceptedClaims::new(split_list(comma_separated_values), claim_name)
    }

    /// Whether a single string value is accepted.
    pub fn is_accepted(&self, value: &str) -> (r: bool)
        ensures
            r == self.accepts(value@),
    {
        self.accepted.len() == 0 || contains_str(&self.accepted, value)
    }

    /// Checks the claim in a claims document. An empty set accepts anything,
    /// a missing claim included. Otherwise the claim must be present; a string
    /// must be accepted; an array must hold strings only, at least one accepted;
    /// any other kind of value is refused.
    pub fn check(&self, claims: &JsonValue) -> (r: Result<(), AcceptedClaimsError>)
        ensures
            r is Ok <==> self.passes(*claims),
            self.values().len() > 0 ==> match claims.spec_get(self.name()) {
                None => (r matches Err(AcceptedClaimsError::MissingClaim(n)) && n@ == self.name()),
                Some(JsonValue::String(s)) => self.values().contains(s@) || (r matches Err(
                    AcceptedClaimsError::Unsupported(t),
                ) && t@ == s@),
                Some(JsonValue::Array(items)) => if !all_strings(items@) {
                    (r matches Err(AcceptedClaimsError::WrongType(n)) && n@ == self.name())
                } else {
                    self.accepts_some(items@) || (r matches Err(AcceptedClaimsError::Unsupported(t))
                        && t@ == claim_text(JsonValue::Array(items)))
                },
                Some(_) => (r matches Err(AcceptedClaimsError::WrongType(n)) && n@ == self.name()),
            },
    {
        if self.accepted.len() == 0 {
            return Ok(());
        }
        match claims.get(self.claim_name.as_str()) {
            None => Err(AcceptedClaimsError::MissingClaim(self.claim_name.clone())),
            Some(value) => match value {
                JsonValue::String(s) => {
                    if contains_str(&self.accepted, s.as_str()) {
                        Ok(())
                    } else {
                        Err(AcceptedClaimsError::Unsupported(s.clone()))
                    }
                },
                JsonValue::Array(items) => {
                    let mut found = false;
                    let mut i: usize = 0;
                    while i < items.len()
                        invariant
                            claims.spec_get(self.name()) == Some(*value),
                            *value == JsonValue::Array(*items),
                            self.values().len() > 0,
                            i <= items@.len(),
                            forall|j: int| 0 <= j < i ==> (#[trigger] items@[j]) is String,
                            found <==> exists|j: int| 0 <= j < i && self.accepted_item(#[trigger] items@[j]),
                        decreases items@.len() - i,
                    {
                        match &items[i] {
                            JsonValue::String(s) => {
                                if contains_str(&self.accepted, s.as_str()) {
                                    found = true;
                                }
                            },
                            _ => {
                                assert(!all_strings(items@));
                                return Err(AcceptedClaimsError::WrongType(self.claim_name.clone()));
                            },
                        }
                        i = i + 1;
                    }
                    if found {
                        Ok(())
                    } else {
                        Err(AcceptedClaimsError::Unsupported(value.to_claim_text()))
                    }
                },
                _ => Err(AcceptedClaimsError::WrongType(self.claim_name.clone())),
            },
        }
    }
}

/// Two sets are equal when they check the same claim against the same values,
/// whatever their order.
impl PartialEq for AcceptedClaims {
    fn eq(&self, other: &AcceptedClaims) -> (r: bool) {
        if !str_eq(self.claim_name.as_str(), other.claim_name.as_str()) {
            return false;
        }
        let mut i: usize = 0;
        while i < self.accepted.len()
            invariant
                i <= self.accepted@.len(),
                self.name() == other.name(),
                forall|j: int| 0 <= j < i ==> other.values().contains(#[trigger] self.values()[j]),
            decreases self.accepted@.len() - i,
        {
            if !contains_str(&other.accepted, self.accepted[i].as_str()) {
                assert(self.values()[i as int] == self.accepted@[i as int]@);
                assert(self.values().contains(self.values()[i as int]));
                return false;
            }
            i = i + 1;
        }
        let mut k: usize = 0;
        while k < other.accepted.len()
            invariant
                k <= other.accepted@.len(),
                self.name() == other.name(),
                forall|j: int| 0 <= j < self.values().len() ==> other.values().contains(#[trigger] self.values()[j]),
                forall|j: int| 0 <= j < k ==> self.values().contains(#[trigger] other.values()[j]),
            decreases other.accepted@.len() - k,
        {
            if !contains_str(&self.accepted, other.accepted[k].as_str()) {
                assert(other.values()[k as int] == other.accepted@[k as int]@);
                assert(other.values().contains(other.values()[k as int]));
                return false;
            }
            k = k + 1;
        }
        true
    }
}

impl vstd::std_specs::cmp::PartialEqSpecImpl for AcceptedClaims {
    open spec fn obeys_eq_spec() -> bool {
        true
    }

    open spec fn eq_spec(&self, other: &AcceptedClaims) -> bool {
        &&& self.name() == other.name()
        &&& forall|v: Seq<char>| self.values().contains(v) <==> other.values().contains(v)
    }
}

} // verus!
