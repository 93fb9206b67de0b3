use crate::json::{claim_text, JsonValue};
use vstd::prelude::*;

verus! {

/// The inbound request: the authorization value and the invoked resource.
#[derive(Debug)]
pub struct TokenAuthorizerEvent {
    pub authorization_token: String,
    pub method_arn: String,
}

#[derive(Debug)]
pub struct PolicyStatement {
    pub action: String,
    pub effect: String,
    pub resource: String,
}

#[derive(Debug)]
pub struct PolicyDocument {
    pub version: String,
    pub statement: Vec<PolicyStatement>,
}

/// The decision. `context` holds distinct keys, in order.
#[derive(Debug)]
pub struct TokenAuthorizerResponse {
    pub principal_id: String,
    pub policy_document: PolicyDocument,
    pub context: Vec<(String, String)>,
}

/// The key under which the principal is exposed.
pub open spec fn principal_key() -> Seq<char> {
    "jwt_principal"@
}

/// The prefix of the key under which each claim is exposed.
pub open spec fn claim_key_prefix() -> Seq<char> {
    "jwt_claim_"@
}

/// The context entries that expose the members of a claims document.
pub open spec fn claims_context(claims: JsonValue) -> Seq<(Seq<char>, Seq<char>)> {
    match claims {
        JsonValue::Object(members) => members@.map_values(
            |m: (String, JsonValue)| (claim_key_prefix() + m.0@, claim_text(m.1)),
        ),
        _ => Seq::<(Seq<char>, Seq<char>)>::empty(),
    }
}

/// A context as pairs of character sequences.
pub open spec fn context_view(context: Seq<(String, String)>) -> Seq<(Seq<char>, Seq<char>)> {
    context.map_values(|e: (String, String)| (e.0@, e.1@))
}

/// The policy document grants (or refuses) invocation of `resource`.
pub open spec fn is_policy(doc: PolicyDocument, effect: Seq<char>, resource: Seq<char>) -> bool {
    &&& doc.version@ == "2012-10-17"@
    &&& doc.statement@.len() == 1
    &&& doc.statement@[0].action@ == "execute-api:Invoke"@
    &&& doc.statement@[0].effect@ == effect
    &&& doc.statement@[0].resource@ == resource
}

/// The uniform refusal for `resource`.
pub open spec fn is_deny(r: TokenAuthorizerResponse, resource: Seq<char>) -> bool {
    &&& r.principal_id@ == "none"@
    &&& is_policy(r.policy_document, "Deny"@, resource)
    &&& r.context@.len() == 0
}

/// The grant for `resource` to `principal`, exposing the claims.
pub open spec fn is_allow(
    r: TokenAuthorizerResponse,
    principal: Seq<char>,
    resource: Seq<char>,
    claims: JsonValue,
) -> bool {
    &&& r.principal_id@ == principal
    &&& is_policy(r.policy_document, "Allow"@, resource)
    &&& context_view(r.context@) == seq![(principal_key(), principal)] + claims_context(claims)
}

fn policy_document(effect: &str, resource: &str) -> (r: PolicyDocument)
    ensures
        is_policy(r, effect@, resource@),
{
    let statement = PolicyStatement {
        action: "execute-api:Invoke".to_string(),
        effect: effect.to_string(),
        resource: resource.to_string(),
    };
    PolicyDocument { version: "2012-10-17".to_string(), statement: vec![statement] }
}

impl TokenAuthorizerResponse {
    /// Grants invocation of `resource` to `principal_id`. The context exposes the
    /// principal, then each claim under `jwt_claim_<name>`: a string as it is,
    /// any other value as its JSON text.
    pub fn allow(principal_id: &str, resource: &str, claims: &JsonValue) -> (r: TokenAuthorizerResponse)
        ensures
            is_allow(r, principal_id@, resource@, *claims),
    {
        let mut context: Vec<(String, String)> = Vec::new();
        context.push(("jwt_principal".to_string(), principal_id.to_string()));
        match claims {
            JsonValue::Object(members) => {
                let mut i: usize = 0;
                while i < members.len()
                    invariant
                        i <= members@.len(),
                        context_view(context@) == seq![(principal_key(), principal_id@)]
                            + members@.subrange(0, i as int).map_values(
                            |m: (String, JsonValue)| (claim_key_prefix() + m.0@, claim_text(m.1)),
                        ),
                    decreases members@.len() - i,
                {
                    let mut key = "jwt_claim_".to_string();
                    key.append(members[i].0.as_str());
                    let value = members[i].1.to_claim_text();
                    let ghost before = context@;
                    let ghost entry = (key@, value@);
                    assert(entry == (claim_key_prefix() + members@[i as int].0@, claim_text(members@[i as int].1)));
                    context.push((key, value));
                    assert(context_view(context@) =~= context_view(before).push(entry));
                    assert(members@.subrange(0, i + 1) =~= members@.subrange(0, i as int).push(members@[i as int]));
                    assert(context_view(context@) =~= seq![(principal_key(), principal_id@)]
                        + members@.subrange(0, i + 1).map_values(
                        |m: (String, JsonValue)| (claim_key_prefix() + m.0@, claim_text(m.1)),
                    ));
                    i = i + 1;
                }
                assert(members@.subrange(0, members@.len() as int) =~= members@);
            },
            _ => {
                assert(context_view(context@) =~= seq![(principal_key(), principal_id@)] + claims_context(*claims));
            },
        }
        TokenAuthorizerResponse {
            principal_id: principal_id.to_string(),
            policy_document: policy_document("Allow", resource),
            context,
        }
    }

    /// The uniform refusal: principal `none`, a deny statement for
    /// `resource`, and an empty context.
    pub fn deny(resource: &str) -> (r: TokenAuthorizerResponse)
        ensures
            is_deny(r, resource@),
    {
        TokenAuthorizerResponse {
            principal_id: "none".to_string(),
            policy_document: policy_document("Deny", resource),
            context: Vec::new(),
        }
    }
}

} // verus!
