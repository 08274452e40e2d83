//! Structured diagnostic messages: severity, message, location and sub-notes.

use vstd::prelude::*;
use vstd::string::*;
use super::span::Span;

verus! {

broadcast use vstd::string::group_string_axioms;

/// Severity level of a diagnostic message.
#[derive(Debug, Clone, Copy, PartialEq, Eq, Structural)]
pub enum DiagnosticKind {
    Error,
    Warning,
    Note,
    Help,
}

/// The lower-case label under which a severity is shown.
pub open spec fn kind_label(k: DiagnosticKind) -> Seq<char> {
    match k {
        DiagnosticKind::Error => "error"@,
        DiagnosticKind::Warning => "warning"@,
        DiagnosticKind::Note => "note"@,
        DiagnosticKind::Help => "help"@,
    }
}

impl DiagnosticKind {
    /// The lower-case label under which this severity is shown.
    pub fn label(&self) -> (s: &'static str)
        ensures
            s@ == kind_label(*self),
    {
        match self {
            DiagnosticKind::Error => "error",
            DiagnosticKind::Warning => "warning",
            DiagnosticKind::Note => "note",
            DiagnosticKind::Help => "help",
        }
    }
}

/// A single diagnostic message with optional source location and sub-notes.
#[derive(Debug, Clone)]
pub struct Diagnostic {
    pub kind: DiagnosticKind,
    pub message: String,
    pub span: Option<Span>,
    pub filename: Option<String>,
    pub notes: Vec<String>,
    pub help: Option<String>,
}

impl Diagnostic {
    /// A fresh diagnostic of the given severity, with no location or notes.
    pub open spec fn fresh(kind: DiagnosticKind, message: Seq<char>, d: Diagnostic) -> bool {
        &&& d.kind == kind
        &&& d.message@ == message
        &&& d.span.is_none()
        &&& d.filename.is_none()
        &&& d.notes@.len() == 0
        &&& d.help.is_none()
    }

    /// An error-level diagnostic.
    pub fn error(message: String) -> (d: Diagnostic)
        ensures
            Self::fresh(DiagnosticKind::Error, message@, d),
    {
        Diagnostic {
            kind: DiagnosticKind::Error,
            message,
            span: None,
            filename: None,
            notes: Vec::new(),
            help: None,
        }
    }

    /// A warning-level diagnostic.
    pub fn warning(message: String) -> (d: Diagnostic)
        ensures
            Self::fresh(DiagnosticKind::Warning, message@, d),
    {
        Diagnostic {
            kind: DiagnosticKind::Warning,
            message,
            span: None,
            filename: None,
            notes: Vec::new(),
            help: None,
        }
    }

    /// The same diagnostic, located at `span`.
    pub fn with_span(self, span: Span) -> (d: Diagnostic)
        ensures
            d == (Diagnostic { span: Some(span), ..self }),
    {
        let mut d = self;
        d.span = Some(span);
        d
    }

    /// The same diagnostic, attributed to the file `filename`.
    pub fn with_file(self, filename: &str) -> (d: Diagnostic)
        ensures
            d.kind == self.kind,
            d.message == self.message,
            d.span == self.span,
            d.filename.is_some(),
            d.filename.unwrap()@ == filename@,
            d.notes == self.notes,
            d.help == self.help,
    {
        let mut d = self;
        d.filename = Some(String::from_str(filename));
        d
    }

    /// The same diagnostic with `note` appended to its notes.
    pub fn with_note(self, note: String) -> (d: Diagnostic)
        ensures
            d.kind == self.kind,
            d.message == self.message,
            d.span == self.span,
            d.filename == self.filename,
            d.notes@ == self.notes@.push(note),
            d.help == self.help,
    {
        let mut d = self;
        d.notes.push(note);
        d
    }

    /// The same diagnostic with `help` as its help suggestion.
    pub fn with_help(self, help: String) -> (d: Diagnostic)
        ensures
            d == (Diagnostic { help: Some(help), ..self }),
    {
        let mut d = self;
        d.help = Some(help);
        d
    }

    /// Whether this is an error-level diagnostic.
    pub fn is_error(&self) -> (b: bool)
        ensures
            b == (self.kind == DiagnosticKind::Error),
    {
        match self.kind {
            DiagnosticKind::Error => true,
            _ => false,
        }
    }

    /// The one-line `label: message` form of the diagnostic.
    pub fn display_text(&self) -> (s: String)
        ensures
            s@ == kind_label(self.kind) + ": "@ + self.message@,
    {
        let s = String::from_str(self.kind.label());
        let s = s.concat(": ");
        s.concat(self.message.as_str())
    }
}

} // verus!
