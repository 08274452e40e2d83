//! Diagnostics: source spans, locations and structured error reports.

pub mod span;
pub mod report;
pub mod render;

pub use span::{Span, SourceLocation};
pub use report::{Diagnostic, DiagnosticKind};

use vstd::prelude::*;
use vstd::string::*;

verus! {

broadcast use vstd::string::group_string_axioms;

/// Top-level compiler error type. Wraps one or more diagnostics.
#[derive(Debug)]
pub struct CompileError(pub Vec<Diagnostic>);

impl CompileError {
    /// An error holding one diagnostic.
    pub fn single(diag: Diagnostic) -> (e: CompileError)
        ensures
            e.0@ == seq![diag],
    {
        let mut v = Vec::new();
        v.push(diag);
        CompileError(v)
    }

    /// An error holding the given diagnostics.
    pub fn many(diags: Vec<Diagnostic>) -> (e: CompileError)
        ensures
            e.0 == diags,
    {
        CompileError(diags)
    }

    /// `compilation failed with N error(s)`.
    pub fn display_text(&self) -> (s: String)
        ensures
            s@ == "compilation failed with "@ + crate::text::decimal(self.0@.len()) + " error(s)"@,
    {
        let n = crate::text::usize_to_text(self.0.len());
        let s = String::from_str("compilation failed with ");
        let s = s.concat(n.as_str());
        s.concat(" error(s)")
    }
}

} // verus!
