use crate::json::{claim_text, JsonValue};
use crate::text::{list_items, split_list, strings_view};
use vstd::prelude::*;

verus! {

/// The principal of a claims document: the first candidate claim that is
/// present, as text; the default when none is.
pub open spec fn principal_of(candidates: Seq<Seq<char>>, default_value: Seq<char>, claims: JsonValue) -> Seq<char>
    decreases candidates.len(),
{
    if candidates.len() == 0 {
        default_value
    } else {
        match claims.spec_get(candidates[0]) {
            Some(v) => claim_text(v),
            None => principal_of(candidates.drop_first(), default_value, claims),
        }
    }
}

/// Picks the principal identifier from an ordered list of candidate claims.
#[derive(Debug)]
pub struct PrincipalIDClaims {
    fields: Vec<String>,
    default_value: String,
}

impl PrincipalIDClaims {
    /// The candidate claim names, in order of preference.
    pub closed spec fn candidates(&self) -> Seq<Seq<char>> {
        strings_view(self.fields@)
    }

    /// The identifier used when no candidate claim is present.
    pub closed spec fn fallback(&self) -> Seq<char> {
        self.default_value@
    }

    pub fn new(fields: Vec<String>, default_value: String) -> (r: PrincipalIDClaims)
        ensures
            r.candidates() == strings_view(fields@),
            r.fallback() == default_value@,
    {
        PrincipalIDClaims { fields, default_value }
    }

    /// Builds the resolver from a comma-separated list of claim names: items
    /// trimmed, empty items skipped.
    pub fn from_comma_separated_values(comma_separated_values: &str, default_value: String) -> (r:
        PrincipalIDClaims)
        ensures
            r.candidates() == list_items(comma_separated_values@),
            r.fallback() == default_value@,
    {
        PrincipalIDClaims::new(split_list(comma_separated_values), default_value)
    }

    /// The first candidate claim present in `claims`, a string as it is and any
    /// other value as its JSON text; the default when none is present.
    pub fn get_principal_id_from_claims(&self, claims: &JsonValue) -> (r: String)
        ensures
            r@ == principal_of(self.candidates(), self.fallback(), *claims),
    {
        let mut i: usize = 0;
        assert(self.candidates().subrange(0, self.candidates().len() as int) =~= self.candidates());
        while i < self.fields.len()
            invariant
                i <= self.fields@.len(),
                principal_of(self.candidates(), self.fallback(), *claims) == principal_of(
                    self.candidates().subrange(i as int, self.candidates().len() as int),
                    self.fallback(),
                    *claims,
                ),
            decreases self.fields@.len() - i,
        {
            let ghost rest = self.candidates().subrange(i as int, self.candidates().len() as int);
            assert(rest.drop_first() =~= self.candidates().subrange(i + 1, self.candidates().len() as int));
            assert(rest[0] == self.fields@[i as int]@);
            match claims.get(self.fields[i].as_str()) {
                Some(v) => {
                    return v.to_claim_text();
                },
                None => {},
            }
            i = i + 1;
        }
        assert(self.candidates().subrange(i as int, self.candidates().len() as int).len() == 0);
        self.default_value.clone()
    }
}

} // verus!
