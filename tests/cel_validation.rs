use cel_interpreter::{Context, Value};
use jsonwebtoken::Header;
use oidc_authorizer::cel_validation::{
    CelValidationError, CelValidator, EvalOutcome, CLAIMS_VARIABLE, HEADER_VARIABLE,
};
use serde_json::Value as JsonValue;
use std::collections::HashMap;

fn to_cel(json: &JsonValue) -> Value {
    match json {
        JsonValue::Null => Value::Null,
        JsonValue::Bool(b) => Value::Bool(*b),
        JsonValue::Number(n) => {
            if let Some(i) = n.as_i64() {
                Value::Int(i)
            } else if let Some(u) = n.as_u64() {
                Value::UInt(u)
            } else if let Some(f) = n.as_f64() {
                Value::Float(f)
            } else {
                Value::Null
            }
        }
        JsonValue::String(s) => Value::String(s.clone().into()),
        JsonValue::Array(arr) => Value::List(arr.iter().map(to_cel).collect::<Vec<_>>().into()),
        JsonValue::Object(obj) => {
            let map: HashMap<String, Value> =
                obj.iter().map(|(k, v)| (k.clone(), to_cel(v))).collect();
            Value::Map(map.into())
        }
    }
}

fn json(text: &str) -> JsonValue {
    serde_json::from_str(text).unwrap()
}

fn run(validator: &CelValidator, header: &Header, claims: &str) -> Result<(), CelValidationError> {
    let outcome = match validator.program() {
        None => EvalOutcome::NonBoolean,
        Some(program) => {
            let mut context = Context::default();
            context.add_variable_from_value(HEADER_VARIABLE, to_cel(&serde_json::to_value(header).unwrap()));
            context.add_variable_from_value(CLAIMS_VARIABLE, to_cel(&json(claims)));
            match program.execute(&context) {
                Ok(Value::Bool(b)) => EvalOutcome::Bool(b),
                Ok(_) => EvalOutcome::NonBoolean,
                Err(e) => EvalOutcome::Failed(e.to_string()),
            }
        }
    };
    validator.validate(outcome)
}

#[test]
fn it_should_skip_validation_with_empty_expression() {
    let validator: CelValidator = "".parse().unwrap();
    let header = Header::default();
    assert!(run(&validator, &header, r#"{"sub": "user123"}"#).is_ok());
}

#[test]
fn it_should_skip_validation_with_whitespace_expression() {
    let validator: CelValidator = "   ".parse().unwrap();
    let header = Header::default();
    assert!(run(&validator, &header, r#"{"sub": "user123"}"#).is_ok());
}

#[test]
fn it_should_pass_when_expression_is_true() {
    let validator: CelValidator = r#"claims.sub != """#.parse().unwrap();
    let header = Header::default();
    assert!(run(&validator, &header, r#"{"sub": "user123"}"#).is_ok());
}

#[test]
fn it_should_fail_when_expression_is_false() {
    let validator: CelValidator = r#"claims.sub == """#.parse().unwrap();
    let header = Header::default();
    let result = run(&validator, &header, r#"{"sub": "user123"}"#);
    assert!(result.is_err());
    assert!(matches!(result, Err(CelValidationError::ExecutionError(_))));
}

#[test]
fn it_should_access_header_fields() {
    let validator: CelValidator = r#"header.typ == "JWT""#.parse().unwrap();
    let mut header = Header::default();
    header.typ = Some("JWT".to_string());
    assert!(run(&validator, &header, "{}").is_ok());
}

#[test]
fn it_should_access_header_alg() {
    let validator: CelValidator = r#"header.alg == "HS256""#.parse().unwrap();
    let header = Header::default(); // default is HS256
    assert!(run(&validator, &header, "{}").is_ok());
}

#[test]
fn it_should_support_has_function() {
    let validator: CelValidator = "has(claims.email)".parse().unwrap();
    let header = Header::default();
    assert!(run(&validator, &header, r#"{"email": "user@example.com"}"#).is_ok());
}

#[test]
fn it_should_support_has_function_for_missing_fields() {
    let validator: CelValidator = "!has(claims.email)".parse().unwrap();
    let header = Header::default();
    assert!(run(&validator, &header, r#"{"sub": "user123"}"#).is_ok());
}

#[test]
fn it_should_support_optional_claim_validation() {
    // Pattern: !has(field) || field == expected_value
    let validator: CelValidator = r#"!has(claims.acr) || claims.acr == "urn:mfa""#.parse().unwrap();
    let header = Header::default();

    // Case 1: field is missing - should pass
    assert!(run(&validator, &header, r#"{"sub": "user123"}"#).is_ok());

    // Case 2: field is present with correct value - should pass
    assert!(run(&validator, &header, r#"{"sub": "user123", "acr": "urn:mfa"}"#).is_ok());

    // Case 3: field is present with wrong value - should fail
    assert!(run(&validator, &header, r#"{"sub": "user123", "acr": "wrong"}"#).is_err());
}

#[test]
fn it_should_support_string_endswith() {
    let validator: CelValidator = r#"claims.email.endsWith("@example.com")"#.parse().unwrap();
    let header = Header::default();
    assert!(run(&validator, &header, r#"{"email": "user@example.com"}"#).is_ok());
}

#[test]
fn it_should_support_string_startswith() {
    let validator: CelValidator = r#"claims.email.startsWith("user")"#.parse().unwrap();
    let header = Header::default();
    assert!(run(&validator, &header, r#"{"email": "user@example.com"}"#).is_ok());
}

#[test]
fn it_should_support_string_contains() {
    let validator: CelValidator = r#"claims.email.contains("@")"#.parse().unwrap();
    let header = Header::default();
    assert!(run(&validator, &header, r#"{"email": "user@example.com"}"#).is_ok());
}

#[test]
fn it_should_support_string_matches() {
    let validator: CelValidator = r#"claims.email.matches("^[a-z]+@[a-z]+\\.[a-z]+$")"#
        .parse()
        .unwrap();
    let header = Header::default();
    assert!(run(&validator, &header, r#"{"email": "user@example.com"}"#).is_ok());
}

#[test]
fn it_should_support_in_operator_for_lists() {
    let validator: CelValidator = r#""admin" in claims.roles"#.parse().unwrap();
    let header = Header::default();
    assert!(run(&validator, &header, r#"{"roles": ["user", "admin"]}"#).is_ok());
}

#[test]
fn it_should_support_exists_macro() {
    let validator: CelValidator = r#"claims.roles.exists(r, r == "admin")"#.parse().unwrap();
    let header = Header::default();
    assert!(run(&validator, &header, r#"{"roles": ["user", "admin"]}"#).is_ok());
}

#[test]
fn it_should_fail_exists_when_no_match() {
    let validator: CelValidator = r#"claims.roles.exists(r, r == "superadmin")"#.parse().unwrap();
    let header = Header::default();
    assert!(run(&validator, &header, r#"{"roles": ["user", "admin"]}"#).is_err());
}

#[test]
fn it_should_support_all_macro() {
    let validator: CelValidator = r#"claims.scopes.all(s, s.startsWith("read:"))"#.parse().unwrap();
    let header = Header::default();
    assert!(run(&validator, &header, r#"{"scopes": ["read:users", "read:posts"]}"#).is_ok());
}

#[test]
fn it_should_fail_all_when_not_all_match() {
    let validator: CelValidator = r#"claims.scopes.all(s, s.startsWith("read:"))"#.parse().unwrap();
    let header = Header::default();
    assert!(run(&validator, &header, r#"{"scopes": ["read:users", "write:posts"]}"#).is_err());
}

#[test]
fn it_should_support_boolean_and() {
    let validator: CelValidator = r#"claims.sub != "" && claims.email_verified == true"#
        .parse()
        .unwrap();
    let header = Header::default();
    assert!(run(&validator, &header, r#"{"sub": "user123", "email_verified": true}"#).is_ok());
}

#[test]
fn it_should_support_boolean_or() {
    let validator: CelValidator = r#"claims.role == "admin" || claims.role == "superuser""#
        .parse()
        .unwrap();
    let header = Header::default();
    assert!(run(&validator, &header, r#"{"role": "superuser"}"#).is_ok());
}

#[test]
fn it_should_support_ternary_operator() {
    // Test basic ternary operator
    let validator: CelValidator = r#"claims.count > 5 ? true : false"#.parse().unwrap();
    let header = Header::default();

    assert!(run(&validator, &header, r#"{"count": 10}"#).is_ok());

    assert!(run(&validator, &header, r#"{"count": 3}"#).is_err());
}

#[test]
fn it_should_handle_audience_as_string() {
    // When aud is a string, we can directly compare
    let validator: CelValidator = r#"claims.aud == "my-client-id""#.parse().unwrap();
    let header = Header::default();
    assert!(run(&validator, &header, r#"{"aud": "my-client-id"}"#).is_ok());
}

#[test]
fn it_should_handle_audience_as_array() {
    // When aud is an array, we can use 'in' operator
    let validator: CelValidator = r#""my-client-id" in claims.aud"#.parse().unwrap();
    let header = Header::default();
    assert!(run(&validator, &header, r#"{"aud": ["other-client", "my-client-id"]}"#).is_ok());
}

#[test]
fn it_should_fail_to_compile_invalid_expression() {
    let result: Result<CelValidator, _> = "invalid syntax {{{{".parse();
    assert!(result.is_err());
    assert!(matches!(result, Err(CelValidationError::CompileError(_))));
}

#[test]
fn it_should_fail_if_expression_returns_non_boolean() {
    let validator: CelValidator = r#"claims.sub"#.parse().unwrap();
    let header = Header::default();
    let result = run(&validator, &header, r#"{"sub": "user123"}"#);
    assert!(matches!(result, Err(CelValidationError::NonBooleanResult)));
}

#[test]
fn it_should_return_expression() {
    let validator: CelValidator = r#"claims.sub != """#.parse().unwrap();
    assert_eq!(validator.expression(), r#"claims.sub != """#);
}

#[test]
fn it_should_return_empty_expression_for_default() {
    let validator: CelValidator = Default::default();
    assert_eq!(validator.expression(), "");
}

#[test]
fn non_empty_subject_passes_and_empty_subject_fails() {
    let validator: CelValidator = r#"claims.sub != """#.parse().unwrap();
    let header = Header::default();
    assert!(run(&validator, &header, r#"{"sub": "user123"}"#).is_ok());
    assert!(matches!(
        run(&validator, &header, r#"{"sub": ""}"#),
        Err(CelValidationError::ExecutionError(_))
    ));
}

#[test]
fn a_missing_field_is_an_execution_error() {
    let validator: CelValidator = "claims.nonexistent == 1".parse().unwrap();
    let header = Header::default();
    assert!(matches!(
        run(&validator, &header, r#"{"sub": "user123"}"#),
        Err(CelValidationError::ExecutionError(_))
    ));
}

#[test]
fn empty_expression_passes_any_input() {
    let validator: CelValidator = "".parse().unwrap();
    let mut header = Header::default();
    header.kid = Some("k".to_string());
    for claims in ["{}", r#"{"a": [1, 2.5, null]}"#, "[]", "null"] {
        assert!(run(&validator, &header, claims).is_ok());
    }
}

#[test]
fn judging_outcomes() {
    let validator: CelValidator = "claims.ok".parse().unwrap();
    assert!(validator.judge(EvalOutcome::Bool(true)).is_ok());
    match validator.judge(EvalOutcome::Bool(false)) {
        Err(CelValidationError::ExecutionError(m)) => {
            assert_eq!(m, "expression 'claims.ok' evaluated to false")
        }
        other => panic!("unexpected {:?}", other),
    }
    assert!(matches!(validator.judge(EvalOutcome::NonBoolean), Err(CelValidationError::NonBooleanResult)));
    match validator.judge(EvalOutcome::Failed("boom".to_string())) {
        Err(CelValidationError::ExecutionError(m)) => assert_eq!(m, "boom"),
        other => panic!("unexpected {:?}", other),
    }
}

#[test]
fn a_permissive_validator_ignores_the_outcome() {
    let validator: CelValidator = " \t".parse().unwrap();
    assert!(validator.program().is_none());
    assert!(validator.validate(EvalOutcome::Bool(false)).is_ok());
    assert!(validator.validate(EvalOutcome::Failed("x".to_string())).is_ok());
    let strict: CelValidator = "true".parse().unwrap();
    assert!(strict.program().is_some());
    assert!(strict.validate(EvalOutcome::Bool(false)).is_err());
}
