use vstd::prelude::*;

verus! {

/// Spec-level shape of an [`EvalAltResult`].
pub enum ErrModel {
    FunctionNotFound { name: Seq<char>, arity: int },
    ArityMismatch { name: Seq<char>, expected: int, got: int },
    MismatchDataType { wanted: Seq<char>, actual: Seq<char> },
    VariableNotFound { name: Seq<char> },
    Parsing { at: int },
}

/// A structured evaluation error. An error raised inside a successfully
/// resolved and invoked function is propagated unchanged as the call's result:
/// the dispatcher never wraps, retries, or substitutes a default value.
#[derive(Debug, PartialEq, Eq)]
pub enum EvalAltResult {
    /// No candidate, native or script-defined, matches the name and arity.
    ErrorFunctionNotFound(String, usize),
    /// A candidate of this name exists, but with the given arity instead of
    /// the arity the call supplied.
    ErrorArityMismatch(String, usize, usize),
    /// A value's variant cannot provide the shape an invoked function asked
    /// for: the shape expected, then the name of the actual variant.
    ErrorMismatchDataType(String, String),
    /// A script-defined function body read a name that is not one of its
    /// parameters.
    ErrorVariableNotFound(String),
    /// The script text could not be parsed; the payload is the position, in
    /// characters, where parsing stopped.
    ErrorParsing(usize),
}

impl View for EvalAltResult {
    type V = ErrModel;

    open spec fn view(&self) -> ErrModel {
        match self {
            EvalAltResult::ErrorFunctionNotFound(name, arity) => ErrModel::FunctionNotFound {
                name: name@,
                arity: *arity as int,
            },
            EvalAltResult::ErrorArityMismatch(name, expected, got) => ErrModel::ArityMismatch {
                name: name@,
                expected: *expected as int,
                got: *got as int,
            },
            EvalAltResult::ErrorMismatchDataType(expected, actual) => ErrModel::MismatchDataType {
                wanted: expected@,
                actual: actual@,
            },
            EvalAltResult::ErrorVariableNotFound(name) => ErrModel::VariableNotFound { name: name@ },
            EvalAltResult::ErrorParsing(at) => ErrModel::Parsing { at: *at as int },
        }
    }
}

} // verus!
