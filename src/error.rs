use crate::symbol::FloScriptSymbol;
use vstd::prelude::*;

verus! {

/// Possible errors from a script call
#[derive(Clone, Debug)]
pub enum FloScriptError {
    /// The requested feature is not available (with description as to why)
    Unavailable(String),
    /// A requested symbol was not defined
    UndefinedSymbol(FloScriptSymbol),
    /// Tried to attach an input stream to a symbol that is not defined as an input symbol
    NotAnInputSymbol,
    /// Tried to perform an operation on an item that is not a namespace
    NotANamespace,
    /// Attempted to read from a namespace as if it were a stream
    CannotReadFromANamespace,
    /// Requested an output or an input with the wrong type
    IncorrectType,
    /// Indicates an error from the script
    ScriptError(String),
}

/// Result from a script operation
pub type FloScriptResult<T> = Result<T, FloScriptError>;

/// Two errors are the same kind, with equal messages or symbols
pub open spec fn same_error(a: FloScriptError, b: FloScriptError) -> bool {
    match a {
        FloScriptError::Unavailable(m) => b is Unavailable && b->Unavailable_0@ == m@,
        FloScriptError::UndefinedSymbol(s) => b is UndefinedSymbol && b->UndefinedSymbol_0 == s,
        FloScriptError::NotAnInputSymbol => b is NotAnInputSymbol,
        FloScriptError::NotANamespace => b is NotANamespace,
        FloScriptError::CannotReadFromANamespace => b is CannotReadFromANamespace,
        FloScriptError::IncorrectType => b is IncorrectType,
        FloScriptError::ScriptError(m) => b is ScriptError && b->ScriptError_0@ == m@,
    }
}

impl PartialEq for FloScriptError {
    fn eq(&self, other: &FloScriptError) -> (r: bool) {
        match self {
            FloScriptError::Unavailable(m) => match other {
                FloScriptError::Unavailable(n) => *m == *n,
                _ => false,
            },
            FloScriptError::UndefinedSymbol(s) => match other {
                FloScriptError::UndefinedSymbol(t) => *s == *t,
                _ => false,
            },
            FloScriptError::NotAnInputSymbol => match other {
                FloScriptError::NotAnInputSymbol => true,
                _ => false,
            },
            FloScriptError::NotANamespace => match other {
                FloScriptError::NotANamespace => true,
                _ => false,
            },
            FloScriptError::CannotReadFromANamespace => match other {
                FloScriptError::CannotReadFromANamespace => true,
                _ => false,
            },
            FloScriptError::IncorrectType => match other {
                FloScriptError::IncorrectType => true,
                _ => false,
            },
            FloScriptError::ScriptError(m) => match other {
                FloScriptError::ScriptError(n) => *m == *n,
                _ => false,
            },
        }
    }
}

impl vstd::std_specs::cmp::PartialEqSpecImpl for FloScriptError {
    open spec fn obeys_eq_spec() -> bool {
        true
    }

    open spec fn eq_spec(&self, other: &FloScriptError) -> bool {
        same_error(*self, *other)
    }
}

} // verus!
