use crate::accepted_algorithms::AcceptedAlgorithms;
use crate::accepted_claims::AcceptedClaims;
use crate::cel_validation::{CelValidator, EvalOutcome};
use crate::json::JsonValue;
use crate::models::{context_view, is_allow, is_deny, TokenAuthorizerEvent, TokenAuthorizerResponse};
use crate::parse_token_from_header::{bearer_prefix, carries_bearer_token, parse_token_from_header};
use crate::principalid_claims::{principal_of, PrincipalIDClaims};
use jsonwebtoken::{Algorithm, DecodingKey, Header};
use vstd::prelude::*;

verus! {

/// A token header of the JWT library, with its public fields visible.
#[verifier::external_type_specification]
pub struct ExHeader(jsonwebtoken::Header);

/// A decoded JSON document of the JSON library; opaque here.
#[verifier::external_type_specification]
#[verifier::external_body]
pub struct ExJsonDocument(serde_json::Value);

/// The header that a token declares, when it parses; it depends on the token alone.
pub uninterp spec fn header_of(token: Seq<char>) -> Option<Header>;

/// Relies on `jsonwebtoken::decode_header`: the structural parse of a token's
/// header, without any signature check.
#[verifier::external_body]
fn decode_header(token: &str) -> (r: Result<Header, String>)
    ensures
        match r {
            Ok(h) => header_of(token@) == Some(h),
            Err(_) => header_of(token@) is None,
        },
{
    jsonwebtoken::decode_header(token).map_err(|e| e.to_string())
}

/// Relies on `jsonwebtoken::decode` with `Validation::new(algorithm)`: checks
/// the signature of `token` with `key` under `algorithm` and its expiry against
/// the clock (and, when asked, its audience and not-before time), then decodes
/// its claims.
#[verifier::external_body]
fn decode_claims(
    token: &str,
    key: &DecodingKey,
    algorithm: Algorithm,
    check_audience: bool,
    check_not_before: bool,
) -> (r: Result<serde_json::Value, String>) {
    let mut validation = jsonwebtoken::Validation::new(algorithm);
    validation.validate_aud = check_audience;
    validation.validate_nbf = check_not_before;
    jsonwebtoken::decode::<serde_json::Value>(token, key, &validation).map(|data| data.claims).map_err(|e| e.to_string())
}

/// The first stage's decision.
pub enum Begin {
    /// The request is refused.
    Deny(TokenAuthorizerResponse),
    /// Resolve the key `key_id`, then verify `token` with it under `header.alg`.
    ResolveKey { token: String, header: Header, key_id: String },
}

/// The authorization policies, immutable once built and shared by all requests.
pub struct Handler {
    pub principal_id_claims: PrincipalIDClaims,
    pub accepted_issuers: AcceptedClaims,
    pub accepted_audiences: AcceptedClaims,
    pub accepted_signing_algorithms: AcceptedAlgorithms,
    pub policy: CelValidator,
}

impl Handler {
    /// The claims pass the issuer and the audience policies.
    pub open spec fn claims_pass(&self, claims: JsonValue) -> bool {
        self.accepted_issuers.passes(claims) && self.accepted_audiences.passes(claims)
    }

    /// The principal that the claims designate.
    pub open spec fn principal(&self, claims: JsonValue) -> Seq<char> {
        principal_of(self.principal_id_claims.candidates(), self.principal_id_claims.fallback(), claims)
    }

    /// The policy expression passes: there is none, or it evaluated to `true`.
    pub open spec fn expression_passes(&self, outcome: EvalOutcome) -> bool {
        self.policy.permissive() || outcome == EvalOutcome::Bool(true)
    }

    /// A decoded header may go on to key resolution.
    pub open spec fn header_admitted(&self, header: Header) -> bool {
        self.accepted_signing_algorithms.accepts(header.alg) && header.kid is Some
    }

    pub fn new(
        principal_id_claims: PrincipalIDClaims,
        accepted_issuers: AcceptedClaims,
        accepted_audiences: AcceptedClaims,
        accepted_signing_algorithms: AcceptedAlgorithms,
        policy: CelValidator,
    ) -> (r: Handler)
        ensures
            r.principal_id_claims == principal_id_claims,
            r.accepted_issuers == accepted_issuers,
            r.accepted_audiences == accepted_audiences,
            r.accepted_signing_algorithms == accepted_signing_algorithms,
            r.policy == policy,
    {
        Handler { principal_id_claims, accepted_issuers, accepted_audiences, accepted_signing_algorithms, policy }
    }

    /// Screens a decoded header: its algorithm must be accepted and it must
    /// carry a key identifier.
    pub fn screen_header(&self, method_arn: &str, token: &str, header: Header) -> (r: Begin)
        ensures
            self.header_admitted(header) ==> (r matches Begin::ResolveKey { token: t, header: h, key_id } && t@ == token@ && h == header && header.kid == Some(key_id)),
            !self.header_admitted(header) ==> (r matches Begin::Deny(d) && is_deny(d, method_arn@)),
    {
        if !self.accepted_signing_algorithms.is_accepted(&header.alg) {
            return Begin::Deny(TokenAuthorizerResponse::deny(method_arn));
        }
        match &header.kid {
            None => Begin::Deny(TokenAuthorizerResponse::deny(method_arn)),
            Some(kid) => {
                let key_id = kid.clone();
                Begin::ResolveKey { token: token.to_string(), header, key_id }
            },
        }
    }

    /// The stages before any key lookup: bearer extraction, structural header
    /// parse, algorithm allow-list, key identifier. A token whose algorithm is
    /// not accepted is refused here, before its key is ever looked up.
    pub fn begin(&self, event: &TokenAuthorizerEvent) -> (r: Begin)
        ensures
            r matches Begin::Deny(d) ==> is_deny(d, event.method_arn@),
            !carries_bearer_token(event.authorization_token@) ==> r is Deny,
            carries_bearer_token(event.authorization_token@) ==> match header_of(
                event.authorization_token@.subrange(bearer_prefix().len() as int, event.authorization_token@.len() as int),
            ) {
                Some(h) => if self.header_admitted(h) {
                    (r matches Begin::ResolveKey { header, .. } && header == h)
                } else {
                    r is Deny
                },
                None => r is Deny,
            },
            r matches Begin::ResolveKey { token, header, key_id } ==> carries_bearer_token(event.authorization_token@)
                && token@ == event.authorization_token@.subrange(bearer_prefix().len() as int, event.authorization_token@.len() as int)
                && self.header_admitted(header) && header.kid == Some(key_id),
    {
        let token = match parse_token_from_header(event.authorization_token.as_str()) {
            Ok(t) => t,
            Err(_) => {
                return Begin::Deny(TokenAuthorizerResponse::deny(event.method_arn.as_str()));
            },
        };
        match decode_header(token) {
            Ok(header) => self.screen_header(event.method_arn.as_str(), token, header),
            Err(_) => Begin::Deny(TokenAuthorizerResponse::deny(event.method_arn.as_str())),
        }
    }

    /// Verifies the token's signature, expiry and not-before time with the
    /// resolved key and decodes its claims; any failure is a refusal. The
    /// audience is left to the audience policy.
    pub fn verify(&self, method_arn: &str, token: &str, key: &DecodingKey, algorithm: Algorithm) -> (r: Result<serde_json::Value, TokenAuthorizerResponse>)
        ensures
            r matches Err(d) ==> is_deny(d, method_arn@),
    {
        match decode_claims(token, key, algorithm, false, true) {
            Ok(claims) => Ok(claims),
            Err(_) => Err(TokenAuthorizerResponse::deny(method_arn)),
        }
    }

    /// The last stage once the policy expression has been judged: a passing
    /// verdict grants invocation to the claims' principal, any error refuses it.
    pub fn grant(&self, method_arn: &str, claims: &JsonValue, verdict: Result<(), crate::cel_validation::CelValidationError>) -> (r: TokenAuthorizerResponse)
        ensures
            verdict is Ok ==> is_allow(r, self.principal(*claims), method_arn@, *claims),
            verdict is Err ==> is_deny(r, method_arn@),
    {
        match verdict {
            Ok(()) => {
                let principal_id = self.principal_id_claims.get_principal_id_from_claims(claims);
                TokenAuthorizerResponse::allow(principal_id.as_str(), method_arn, claims)
            },
            Err(_) => TokenAuthorizerResponse::deny(method_arn),
        }
    }

    /// Whether the claims pass the issuer and then the audience policy.
    pub fn check_claims(&self, claims: &JsonValue) -> (r: bool)
        ensures
            r == self.claims_pass(*claims),
    {
        self.accepted_issuers.check(claims).is_ok() && self.accepted_audiences.check(claims).is_ok()
    }

    /// The stages after signature verification: issuer, then audience, then
    /// the policy expression, given what evaluating it produced, then the
    /// principal.
    pub fn conclude(&self, method_arn: &str, claims: &JsonValue, outcome: EvalOutcome) -> (r: TokenAuthorizerResponse)
        ensures
            !self.claims_pass(*claims) ==> is_deny(r, method_arn@),
            self.claims_pass(*claims) && self.expression_passes(outcome) ==> is_allow(r, self.principal(*claims), method_arn@, *claims),
            self.claims_pass(*claims) && !self.expression_passes(outcome) ==> is_deny(r, method_arn@),
    {
        if !self.check_claims(claims) {
            return TokenAuthorizerResponse::deny(method_arn);
        }
        let verdict = self.policy.validate(outcome);
        self.grant(method_arn, claims, verdict)
    }
}

/// The parts of a response that a caller observes.
pub open spec fn response_view(r: TokenAuthorizerResponse) -> (Seq<char>, Seq<char>, Seq<(Seq<char>, Seq<char>, Seq<char>)>, Seq<(Seq<char>, Seq<char>)>) {
    (
        r.principal_id@,
        r.policy_document.version@,
        r.policy_document.statement@.map_values(|s: crate::models::PolicyStatement| (s.action@, s.effect@, s.resource@)),
        context_view(r.context@),
    )
}

/// A grant is reproducible: two grants for the same principal, resource and
/// claims are the same payload, so the same valid token with the same keys is
/// answered identically each time.
pub proof fn grants_are_reproducible(
    r1: TokenAuthorizerResponse,
    r2: TokenAuthorizerResponse,
    principal: Seq<char>,
    resource: Seq<char>,
    claims: JsonValue,
)
    requires
        is_allow(r1, principal, resource, claims),
        is_allow(r2, principal, resource, claims),
    ensures
        response_view(r1) == response_view(r2),
{
    assert(r1.policy_document.statement@.map_values(|s: crate::models::PolicyStatement| (s.action@, s.effect@, s.resource@))
        =~= r2.policy_document.statement@.map_values(|s: crate::models::PolicyStatement| (s.action@, s.effect@, s.resource@)));
}

} // verus!
