//! Diagnostics: what the lexer and the parser report about a source text.
use vstd::prelude::*;
use crate::lang::text::{decimal, push_decimal};

verus! {

/// A complaint about the source text, with the line it is about.
#[derive(Debug, PartialEq)]
pub struct Diagnostic {
    pub line: u32,
    pub message: String,
}

/// The mathematical value of a [`Diagnostic`].
pub struct DiagnosticView {
    pub line: u32,
    pub message: Seq<char>,
}

impl View for Diagnostic {
    type V = DiagnosticView;

    open spec fn view(&self) -> DiagnosticView {
        DiagnosticView { line: self.line, message: self.message@ }
    }
}

impl Clone for Diagnostic {
    fn clone(&self) -> (r: Self)
        ensures
            r@ == self@,
    {
        Diagnostic { line: self.line, message: self.message.clone() }
    }
}

/// The views of a sequence of diagnostics.
pub open spec fn diagnostic_views(items: Seq<Diagnostic>) -> Seq<DiagnosticView> {
    Seq::new(items.len(), |i: int| items[i]@)
}

/// The line of output that reports `msg` for source line `line`.
pub open spec fn error_line(line: u32, msg: Seq<char>) -> Seq<char> {
    "[Line: "@ + decimal(line as nat) + "] Error: "@ + msg
}

/// Formats the report of `msg` for source line `line`.
pub fn error(line: u32, msg: String) -> (r: String)
    ensures
        r@ == error_line(line, msg@),
{
    let mut r = String::from_str("[Line: ");
    push_decimal(&mut r, line);
    r.append("] Error: ");
    r.append(msg.as_str());
    r
}

impl Diagnostic {
    /// The line of output that reports this diagnostic.
    pub fn render(&self) -> (r: String)
        ensures
            r@ == error_line(self.line, self.message@),
    {
        error(self.line, self.message.clone())
    }
}

} // verus!
