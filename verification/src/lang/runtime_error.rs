//! Errors raised while a program runs.
use vstd::prelude::*;

verus! {

/// The kinds of runtime error.
#[derive(Debug, Clone, Copy, PartialEq, Eq, Structural)]
pub enum ErrorKind {
    OperatorNotDefined,
    ZeroDivision,
    TypeMismatch,
    UninitializedAccess,
    UndefinedVariable,
}

/// How a kind of error is named in reports.
pub open spec fn kind_text(kind: ErrorKind) -> Seq<char> {
    match kind {
        ErrorKind::OperatorNotDefined => "Operator not defined"@,
        ErrorKind::ZeroDivision => "Division by zero"@,
        ErrorKind::TypeMismatch => "Type mismatch"@,
        ErrorKind::UninitializedAccess => "Uninitialized access"@,
        ErrorKind::UndefinedVariable => "Undefined variable"@,
    }
}

impl ErrorKind {
    /// The name of this kind in reports.
    pub fn as_str(&self) -> (r: &'static str)
        ensures
            r@ == kind_text(*self),
    {
        match self {
            ErrorKind::OperatorNotDefined => "Operator not defined",
            ErrorKind::ZeroDivision => "Division by zero",
            ErrorKind::TypeMismatch => "Type mismatch",
            ErrorKind::UninitializedAccess => "Uninitialized access",
            ErrorKind::UndefinedVariable => "Undefined variable",
        }
    }

    /// The name of this kind in reports.
    pub fn to_string(&self) -> (r: String)
        ensures
            r@ == kind_text(*self),
    {
        String::from_str(self.as_str())
    }
}

/// A runtime error: its kind and what it is about.
#[derive(Debug, PartialEq)]
pub struct RuntimeError {
    pub what: String,
    pub kind: ErrorKind,
}

/// The mathematical value of a [`RuntimeError`].
pub struct RuntimeErrorView {
    pub what: Seq<char>,
    pub kind: ErrorKind,
}

impl View for RuntimeError {
    type V = RuntimeErrorView;

    open spec fn view(&self) -> RuntimeErrorView {
        RuntimeErrorView { what: self.what@, kind: self.kind }
    }
}

impl RuntimeErrorView {
    /// The error as text: its kind, a colon, and what it is about.
    pub open spec fn text(self) -> Seq<char> {
        kind_text(self.kind) + ": "@ + self.what
    }

    /// The line of output that reports the error.
    pub open spec fn report(self) -> Seq<char> {
        "Runtime Error: "@ + self.text()
    }
}

impl Clone for RuntimeError {
    fn clone(&self) -> (r: Self)
        ensures
            r@ == self@,
    {
        RuntimeError { what: self.what.clone(), kind: self.kind }
    }
}

impl RuntimeError {
    /// The error as text: its kind, a colon, and what it is about.
    pub fn to_string(&self) -> (r: String)
        ensures
            r@ == self@.text(),
    {
        let mut r = self.kind.to_string();
        r.append(": ");
        r.append(self.what.as_str());
        r
    }

    /// The line of output that reports the error.
    pub fn report(&self) -> (r: String)
        ensures
            r@ == self@.report(),
    {
        let mut r = String::from_str("Runtime Error: ");
        r.append(self.to_string().as_str());
        r
    }
}

} // verus!
