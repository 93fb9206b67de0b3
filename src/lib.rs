//! Request-time bearer-token authorization: algorithm and claim policies,
//! a JWKS key cache, a boolean policy expression, principal resolution and
//! the deny-by-default decision pipeline that ties them together.

pub mod accepted_algorithms;
pub mod accepted_claims;
pub mod cel_validation;
pub mod handler;
pub mod json;
pub mod keys_storage;
pub mod keysmap;
pub mod models;
pub mod parse_token_from_header;
pub mod principalid_claims;
pub mod text;

pub use accepted_algorithms::{AcceptedAlgorithms, AcceptedAlgorithmsError};
pub use accepted_claims::{AcceptedClaims, AcceptedClaimsError};
pub use cel_validation::{CelValidationError, CelValidator, EvalOutcome};
pub use handler::{Begin, Handler};
pub use json::JsonValue;
pub use keys_storage::{KeyLookup, KeysStorage, KeysStorageError};
pub use keysmap::{JwkEntry, KeysMap};
pub use models::{PolicyDocument, PolicyStatement, TokenAuthorizerEvent, TokenAuthorizerResponse};
pub use parse_token_from_header::{parse_token_from_header, PARSE_ERROR_MESSAGE};
pub use principalid_claims::PrincipalIDClaims;
