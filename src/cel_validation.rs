use crate::text::{is_blank, is_blank_str};
use cel_interpreter::Program;
use vstd::prelude::*;

verus! {

/// A compiled policy expression; opaque here.
#[verifier::external_type_specification]
#[verifier::external_body]
pub struct ExProgram(cel_interpreter::Program);

/// The variable under which the token header is bound during evaluation.
pub const HEADER_VARIABLE: &'static str = "header";

/// The variable under which the token claims are bound during evaluation.
pub const CLAIMS_VARIABLE: &'static str = "claims";

/// Why a policy expression did not pass.
#[derive(Debug)]
pub enum CelValidationError {
    /// The expression does not compile.
    CompileError(String),
    /// The evaluation failed, or the expression evaluated to `false`.
    ExecutionError(String),
    /// The expression evaluated to something other than a boolean.
    NonBooleanResult,
    /// The token could not be turned into values of the expression language.
    ConversionError(String),
}

/// What one evaluation of a compiled expression produced.
#[derive(Debug)]
pub enum EvalOutcome {
    /// A boolean.
    Bool(bool),
    /// A value of another type.
    NonBoolean,
    /// The evaluation failed, with the engine's message.
    Failed(String),
}

/// Whether an expression compiles; it depends on the text alone.
pub uninterp spec fn cel_compiles(expression: Seq<char>) -> bool;

/// Relies on `cel_interpreter::Program::compile`: compiles an expression, or
/// reports the parser's message.
#[verifier::external_body]
fn compile(expression: &str) -> (r: Result<Program, String>)
    ensures
        r is Ok <==> cel_compiles(expression@),
{
    Program::compile(expression).map_err(|e| e.to_string())
}

/// The message of an expression that evaluated to `false`.
pub open spec fn false_message(expression: Seq<char>) -> Seq<char> {
    "expression '"@ + expression + "' evaluated to false"@
}

/// The result that an evaluation outcome calls for.
pub open spec fn judged(expression: Seq<char>, outcome: EvalOutcome, r: Result<(), CelValidationError>) -> bool {
    match outcome {
        EvalOutcome::Bool(true) => r is Ok,
        EvalOutcome::Bool(false) => (r matches Err(CelValidationError::ExecutionError(m)) && m@ == false_message(expression)),
        EvalOutcome::NonBoolean => (r matches Err(CelValidationError::NonBooleanResult)),
        EvalOutcome::Failed(m) => (r matches Err(CelValidationError::ExecutionError(m2)) && m2@ == m@),
    }
}

/// A boolean policy expression over the token's header and claims, compiled
/// once. Without an expression every token passes.
pub struct CelValidator {
    program: Option<Program>,
    expression: String,
}

impl CelValidator {
    /// The validator has no expression and lets every token pass.
    pub closed spec fn permissive(&self) -> bool {
        self.program is None
    }

    /// The expression's text (empty when permissive).
    pub closed spec fn source(&self) -> Seq<char> {
        self.expression@
    }

    /// Compiles `expression`. An empty or white-space expression gives the
    /// permissive validator; otherwise a compile failure is a `CompileError`.
    pub fn from_str(expression: &str) -> (r: Result<CelValidator, CelValidationError>)
        ensures
            is_blank(expression@) ==> (r matches Ok(v) && v.permissive() && v.source().len() == 0),
            !is_blank(expression@) ==> (r is Ok <==> cel_compiles(expression@)),
            !is_blank(expression@) ==> match r {
                Ok(v) => !v.permissive() && v.source() == expression@,
                Err(e) => e is CompileError,
            },
    {
        if is_blank_str(expression) {
            let empty = String::new();
            return Ok(CelValidator { program: None, expression: empty });
        }
        match compile(expression) {
            Ok(program) => Ok(CelValidator { program: Some(program), expression: expression.to_string() }),
            Err(message) => Err(CelValidationError::CompileError(message)),
        }
    }

    /// The expression's text.
    pub fn expression(&self) -> (r: &str)
        ensures
            r@ == self.source(),
    {
        self.expression.as_str()
    }

    /// The result that an evaluation outcome calls for: `true` passes, `false`
    /// is an `ExecutionError` that quotes the expression, a failed evaluation
    /// is an `ExecutionError` with the engine's message, and any other value
    /// is a `NonBooleanResult`.
    pub fn judge(&self, outcome: EvalOutcome) -> (r: Result<(), CelValidationError>)
        ensures
            judged(self.source(), outcome, r),
    {
        match outcome {
            EvalOutcome::Bool(true) => Ok(()),
            EvalOutcome::Bool(false) => {
                let mut message = "expression '".to_string();
                message.append(self.expression.as_str());
                message.append("' evaluated to false");
                Err(CelValidationError::ExecutionError(message))
            },
            EvalOutcome::NonBoolean => Err(CelValidationError::NonBooleanResult),
            EvalOutcome::Failed(m) => Err(CelValidationError::ExecutionError(m)),
        }
    }

    /// The compiled expression, for the caller to evaluate with the token's
    /// header and claims bound as `HEADER_VARIABLE` and `CLAIMS_VARIABLE`.
    pub fn program(&self) -> (r: Option<&Program>)
        ensures
            r is None <==> self.permissive(),
    {
        match &self.program {
            None => None,
            Some(p) => Some(p),
        }
    }

    /// The result of the check, given what evaluating `program()` produced.
    /// A permissive validator passes whatever the outcome.
    pub fn validate(&self, outcome: EvalOutcome) -> (r: Result<(), CelValidationError>)
        ensures
            self.permissive() ==> r is Ok,
            !self.permissive() ==> judged(self.source(), outcome, r),
    {
        match &self.program {
            None => Ok(()),
            Some(_) => self.judge(outcome),
        }
    }
}

impl Default for CelValidator {
    /// The permissive validator.
    fn default() -> (r: CelValidator)
        ensures
            r.permissive(),
            r.source().len() == 0,
    {
        CelValidator { program: None, expression: String::new() }
    }
}

} // verus!

verus! {

impl std::str::FromStr for CelValidator {
    type Err = CelValidationError;

    fn from_str(expression: &str) -> Result<CelValidator, CelValidationError> {
        CelValidator::from_str(expression)
    }
}

} // verus!
