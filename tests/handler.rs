use cel_interpreter::{Context, Value};
use jsonwebtoken::{Algorithm, EncodingKey, Header};
use oidc_authorizer::accepted_algorithms::AcceptedAlgorithms;
use oidc_authorizer::accepted_claims::AcceptedClaims;
use oidc_authorizer::cel_validation::{CelValidator, EvalOutcome, CLAIMS_VARIABLE, HEADER_VARIABLE};
use oidc_authorizer::handler::{Begin, Handler};
use oidc_authorizer::json::JsonValue;
use oidc_authorizer::keys_storage::{parse_jwks, KeyLookup, KeysStorage};
use oidc_authorizer::models::{TokenAuthorizerEvent, TokenAuthorizerResponse};
use oidc_authorizer::principalid_claims::PrincipalIDClaims;
use std::collections::HashMap;

// Ed25519 key pair of RFC 8032, section 7.1, test 1.
const PRIVATE_KEY_PKCS8: [u8; 48] = [
    48, 46, 2, 1, 0, 48, 5, 6, 3, 43, 101, 112, 4, 34, 4, 32, 157, 97, 177, 157, 239, 253, 90, 96,
    186, 132, 74, 244, 146, 236, 44, 196, 68, 73, 197, 105, 123, 50, 105, 25, 112, 59, 172, 3, 28,
    174, 127, 96,
];
const JWKS: &str = r#"{"keys":[{"kty":"OKP","crv":"Ed25519","x":"11qYAYKxCrfVS_7TyWQHOg7hcvPapiMlrwIaaPcHURo","kid":"k1","use":"sig","alg":"EdDSA"}]}"#;
const ARN: &str = "arn:aws:execute-api:us-east-1:123456789012:ymy8tbxw7b/*/GET/";
const ISSUER: &str = "https://issuer.example.com/";
const NOW: i64 = 1_700_000_000_000;

fn to_cel(json: &serde_json::Value) -> Value {
    match json {
        serde_json::Value::Null => Value::Null,
        serde_json::Value::Bool(b) => Value::Bool(*b),
        serde_json::Value::Number(n) => {
            if let Some(i) = n.as_i64() {
                Value::Int(i)
            } else if let Some(u) = n.as_u64() {
                Value::UInt(u)
            } else if let Some(f) = n.as_f64() {
                Value::Float(f)
            } else {
                Value::Null
            }
        }
        serde_json::Value::String(s) => Value::String(s.clone().into()),
        serde_json::Value::Array(arr) => Value::List(arr.iter().map(to_cel).collect::<Vec<_>>().into()),
        serde_json::Value::Object(obj) => {
            let map: HashMap<String, Value> = obj.iter().map(|(k, v)| (k.clone(), to_cel(v))).collect();
            Value::Map(map.into())
        }
    }
}

fn to_model(json: &serde_json::Value) -> JsonValue {
    match json {
        serde_json::Value::Null => JsonValue::Null,
        serde_json::Value::Bool(b) => JsonValue::Bool(*b),
        serde_json::Value::Number(n) => JsonValue::Number(n.to_string()),
        serde_json::Value::String(s) => JsonValue::String(s.clone()),
        serde_json::Value::Array(a) => JsonValue::Array(a.iter().map(to_model).collect()),
        serde_json::Value::Object(o) => {
            JsonValue::Object(o.iter().map(|(k, v)| (k.clone(), to_model(v))).collect())
        }
    }
}

fn handler(expression: &str, algorithms: &str) -> Handler {
    Handler::new(
        PrincipalIDClaims::from_comma_separated_values("preferred_username, sub", "unknown".to_string()),
        AcceptedClaims::from_comma_separated_values(ISSUER, "iss".to_string()),
        AcceptedClaims::from_comma_separated_values("test-app", "aud".to_string()),
        AcceptedAlgorithms::from_str(algorithms).unwrap(),
        CelValidator::from_str(expression).unwrap(),
    )
}

fn token(alg: Algorithm, kid: Option<&str>, claims: &str) -> String {
    let mut header = Header::new(alg);
    header.kid = kid.map(|k| k.to_string());
    let claims: serde_json::Value = serde_json::from_str(claims).unwrap();
    let key = match alg {
        Algorithm::EdDSA => EncodingKey::from_ed_der(&PRIVATE_KEY_PKCS8),
        _ => EncodingKey::from_secret(b"secret"),
    };
    jsonwebtoken::encode(&header, &claims, &key).unwrap()
}

fn valid_claims() -> String {
    format!(
        r#"{{"iss":"{}","aud":"test-app","exp":4102444800,"sub":"some_sub","preferred_username":"some_user"}}"#,
        ISSUER
    )
}

/// Runs every stage as the service does, counting key-set fetches.
fn authorize(handler: &Handler, keys: &mut KeysStorage, fetches: &mut u32, authorization: &str) -> TokenAuthorizerResponse {
    let event = TokenAuthorizerEvent {
        authorization_token: authorization.to_string(),
        method_arn: ARN.to_string(),
    };
    let (token, header, key_id) = match handler.begin(&event) {
        Begin::Deny(d) => return d,
        Begin::ResolveKey { token, header, key_id } => (token, header, key_id),
    };
    let cached = match keys.get(&key_id, NOW) {
        KeyLookup::Found(k) => Some(Some(k.clone())),
        KeyLookup::Refresh => None,
        KeyLookup::NotFound => Some(None),
    };
    let key = match cached {
        Some(Some(k)) => k,
        Some(None) => return TokenAuthorizerResponse::deny(ARN),
        None => {
            *fetches += 1;
            if keys.refreshed(parse_jwks(JWKS), NOW).is_err() {
                return TokenAuthorizerResponse::deny(ARN);
            }
            match keys.lookup_after_refresh(&key_id) {
                Ok(k) => k.clone(),
                Err(_) => return TokenAuthorizerResponse::deny(ARN),
            }
        }
    };
    let claims = match handler.verify(ARN, &token, &key, header.alg) {
        Ok(c) => c,
        Err(d) => return d,
    };
    let model = to_model(&claims);
    if !handler.check_claims(&model) {
        return TokenAuthorizerResponse::deny(ARN);
    }
    let outcome = match handler.policy.program() {
        None => EvalOutcome::Bool(true),
        Some(program) => {
            let mut context = Context::default();
            context.add_variable_from_value(HEADER_VARIABLE, to_cel(&serde_json::to_value(&header).unwrap()));
            context.add_variable_from_value(CLAIMS_VARIABLE, to_cel(&claims));
            match program.execute(&context) {
                Ok(Value::Bool(b)) => EvalOutcome::Bool(b),
                Ok(_) => EvalOutcome::NonBoolean,
                Err(e) => EvalOutcome::Failed(e.to_string()),
            }
        }
    };
    handler.conclude(ARN, &model, outcome)
}

fn effect(r: &TokenAuthorizerResponse) -> &str {
    r.policy_document.statement[0].effect.as_str()
}

#[test]
fn a_valid_token_is_allowed_with_its_claims_exposed() {
    let h = handler(r#"claims.sub != """#, "");
    let mut keys = KeysStorage::new(600_000);
    let mut fetches = 0;
    let r = authorize(&h, &mut keys, &mut fetches, &format!("Bearer {}", token(Algorithm::EdDSA, Some("k1"), &valid_claims())));
    assert_eq!(effect(&r), "Allow");
    assert_eq!(r.principal_id, "some_user");
    assert_eq!(r.policy_document.statement[0].resource, ARN);
    let context: HashMap<String, String> = r.context.iter().cloned().collect();
    assert_eq!(r.context.len(), 6);
    assert_eq!(context["jwt_principal"], "some_user");
    assert_eq!(context["jwt_claim_iss"], ISSUER);
    assert_eq!(context["jwt_claim_aud"], "test-app");
    assert_eq!(context["jwt_claim_exp"], "4102444800");
    assert_eq!(context["jwt_claim_sub"], "some_sub");
    assert_eq!(context["jwt_claim_preferred_username"], "some_user");
    assert_eq!(fetches, 1);
}

#[test]
fn an_expression_over_a_missing_field_denies() {
    let h = handler("claims.nonexistent == 1", "");
    let mut keys = KeysStorage::new(600_000);
    let mut fetches = 0;
    let r = authorize(&h, &mut keys, &mut fetches, &format!("Bearer {}", token(Algorithm::EdDSA, Some("k1"), &valid_claims())));
    assert_eq!(effect(&r), "Deny");
    assert_eq!(r.principal_id, "none");
    assert!(r.context.is_empty());
}

#[test]
fn the_same_token_is_answered_identically() {
    let h = handler("", "EdDSA");
    let mut keys = KeysStorage::new(600_000);
    let mut fetches = 0;
    let header = format!("Bearer {}", token(Algorithm::EdDSA, Some("k1"), &valid_claims()));
    let first = authorize(&h, &mut keys, &mut fetches, &header);
    let second = authorize(&h, &mut keys, &mut fetches, &header);
    assert_eq!(effect(&first), "Allow");
    assert_eq!(first.principal_id, second.principal_id);
    assert_eq!(first.context, second.context);
    assert_eq!(first.policy_document.version, second.policy_document.version);
    assert_eq!(effect(&first), effect(&second));
    assert_eq!(first.policy_document.statement[0].resource, second.policy_document.statement[0].resource);
    assert_eq!(fetches, 1);
}

#[test]
fn an_algorithm_outside_the_list_is_denied_before_any_key_lookup() {
    let h = handler("", "ES256, RS256");
    let mut keys = KeysStorage::new(600_000);
    let mut fetches = 0;
    let r = authorize(&h, &mut keys, &mut fetches, &format!("Bearer {}", token(Algorithm::EdDSA, Some("k1"), &valid_claims())));
    assert_eq!(effect(&r), "Deny");
    assert_eq!(fetches, 0);
}

#[test]
fn a_shared_secret_token_is_denied_before_any_key_lookup() {
    let h = handler("", "");
    let mut keys = KeysStorage::new(600_000);
    let mut fetches = 0;
    let r = authorize(&h, &mut keys, &mut fetches, &format!("Bearer {}", token(Algorithm::HS256, Some("k1"), &valid_claims())));
    assert_eq!(effect(&r), "Deny");
    assert_eq!(fetches, 0);
}

#[test]
fn malformed_requests_are_denied_for_the_requested_resource() {
    let h = handler("", "");
    let mut keys = KeysStorage::new(600_000);
    let mut fetches = 0;
    for authorization in ["", "Basic abc", "Bearer not-a-token", "Bearer a.b.c"] {
        let r = authorize(&h, &mut keys, &mut fetches, authorization);
        assert_eq!(effect(&r), "Deny");
        assert_eq!(r.policy_document.statement[0].resource, ARN);
    }
    let no_kid = format!("Bearer {}", token(Algorithm::EdDSA, None, &valid_claims()));
    assert_eq!(effect(&authorize(&h, &mut keys, &mut fetches, &no_kid)), "Deny");
    assert_eq!(fetches, 0);
}

#[test]
fn an_unknown_key_is_denied_after_one_fetch() {
    let h = handler("", "");
    let mut keys = KeysStorage::new(600_000);
    let mut fetches = 0;
    let other = format!("Bearer {}", token(Algorithm::EdDSA, Some("k2"), &valid_claims()));
    assert_eq!(effect(&authorize(&h, &mut keys, &mut fetches, &other)), "Deny");
    assert_eq!(effect(&authorize(&h, &mut keys, &mut fetches, &other)), "Deny");
    assert_eq!(fetches, 1);
}

#[test]
fn wrong_issuer_audience_or_expiry_is_denied() {
    let h = handler("", "");
    let mut keys = KeysStorage::new(600_000);
    let mut fetches = 0;
    let cases = [
        r#"{"iss":"https://other.example.com/","aud":"test-app","exp":4102444800,"sub":"s"}"#.to_string(),
        format!(r#"{{"iss":"{}","aud":["x","y"],"exp":4102444800,"sub":"s"}}"#, ISSUER),
        format!(r#"{{"iss":"{}","exp":4102444800,"sub":"s"}}"#, ISSUER),
        format!(r#"{{"iss":"{}","aud":"test-app","exp":1000,"sub":"s"}}"#, ISSUER),
    ];
    for claims in cases.iter() {
        let r = authorize(&h, &mut keys, &mut fetches, &format!("Bearer {}", token(Algorithm::EdDSA, Some("k1"), claims)));
        assert_eq!(effect(&r), "Deny");
    }
    let listed = format!(r#"{{"iss":"{}","aud":["x","test-app"],"exp":4102444800,"sub":"s"}}"#, ISSUER);
    let r = authorize(&h, &mut keys, &mut fetches, &format!("Bearer {}", token(Algorithm::EdDSA, Some("k1"), &listed)));
    assert_eq!(effect(&r), "Allow");
    assert_eq!(r.principal_id, "s");
}

#[test]
fn it_validates_eddsa_tokens() {
    let exp = chrono::Utc::now().timestamp() + 3600;
    let claims = format!(
        r#"{{"iss":"{}","aud":"test-app","exp":{},"sub":"some_user","preferred_username":"some_user"}}"#,
        ISSUER, exp
    );
    let h = Handler::new(
        PrincipalIDClaims::from_comma_separated_values("preferred_username, sub", "unknown".to_string()),
        AcceptedClaims::from_comma_separated_values(ISSUER, "iss".to_string()),
        AcceptedClaims::from_comma_separated_values("test-app", "aud".to_string()),
        Default::default(),
        Default::default(),
    );
    let mut keys = KeysStorage::new(600_000);
    let mut fetches = 0;
    let response = authorize(&h, &mut keys, &mut fetches, &format!("Bearer {}", token(Algorithm::EdDSA, Some("k1"), &claims)));
    assert_eq!(fetches, 1);
    assert_eq!(response.policy_document.statement.first().unwrap().effect, "Allow");
    assert_eq!(response.principal_id, "some_user");
}

#[test]
fn conclude_follows_the_claims_and_the_outcome() {
    let h = handler("claims.ok", "");
    let good = JsonValue::Object(vec![
        ("iss".to_string(), JsonValue::String(ISSUER.to_string())),
        ("aud".to_string(), JsonValue::String("test-app".to_string())),
        ("sub".to_string(), JsonValue::String("s".to_string())),
    ]);
    assert!(h.check_claims(&good));
    assert_eq!(effect(&h.conclude(ARN, &good, EvalOutcome::Bool(true))), "Allow");
    assert_eq!(effect(&h.conclude(ARN, &good, EvalOutcome::Bool(false))), "Deny");
    assert_eq!(effect(&h.conclude(ARN, &good, EvalOutcome::NonBoolean)), "Deny");
    assert_eq!(effect(&h.conclude(ARN, &good, EvalOutcome::Failed("e".to_string()))), "Deny");
    let bad = JsonValue::Object(vec![("sub".to_string(), JsonValue::String("s".to_string()))]);
    assert!(!h.check_claims(&bad));
    assert_eq!(effect(&h.conclude(ARN, &bad, EvalOutcome::Bool(true))), "Deny");
}
