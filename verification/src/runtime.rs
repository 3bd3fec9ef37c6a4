//! Errors of running a program, and how they are reported.
use vstd::prelude::*;
use crate::text::push_str;

verus! {

/// Errors of the interpreter.
#[derive(Debug, PartialEq)]
pub enum RuntimeError {
    UndefinedVariable(String),
    UndefinedFunction(String),
    TypeMismatch(String),
    DivisionByZero,
    MainNotFound,
}

/// The report of a runtime error.
pub open spec fn runtime_message(e: RuntimeError) -> Seq<char> {
    match e {
        RuntimeError::UndefinedVariable(n) => "अज्ञातः चरः (Undefined variable) '"@ + n@ + "'"@,
        RuntimeError::UndefinedFunction(n) => "अज्ञाता क्रिया (Undefined function) '"@ + n@ + "'"@,
        RuntimeError::TypeMismatch(m) => "अमान्या क्रिया (Type mismatch / Invalid operation): "@ + m@,
        RuntimeError::DivisionByZero => "शून्येन भागः अमान्यः (Division by zero)"@,
        RuntimeError::MainNotFound => "मुख्य-क्रिया न प्राप्ता (No 'मुख्य' function found)"@,
    }
}

impl RuntimeError {
    /// The report of this error.
    pub fn message(&self) -> (r: String)
        ensures
            r@ == runtime_message(*self),
    {
        match self {
            RuntimeError::UndefinedVariable(n) => {
                let mut s = String::from_str("अज्ञातः चरः (Undefined variable) '");
                push_str(&mut s, n.as_str());
                push_str(&mut s, "'");
                s
            },
            RuntimeError::UndefinedFunction(n) => {
                let mut s = String::from_str("अज्ञाता क्रिया (Undefined function) '");
                push_str(&mut s, n.as_str());
                push_str(&mut s, "'");
                s
            },
            RuntimeError::TypeMismatch(m) => {
                let mut s = String::from_str("अमान्या क्रिया (Type mismatch / Invalid operation): ");
                push_str(&mut s, m.as_str());
                s
            },
            RuntimeError::DivisionByZero => String::from_str("शून्येन भागः अमान्यः (Division by zero)"),
            RuntimeError::MainNotFound => String::from_str("मुख्य-क्रिया न प्राप्ता (No 'मुख्य' function found)"),
        }
    }
}

} // verus!
