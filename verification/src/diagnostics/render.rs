//! Layout of diagnostics for the terminal: the header, the source excerpt
//! with the span underlined, the notes and help, and the summary line that
//! closes a run. Colouring and printing are left to the caller.

use vstd::prelude::*;
use vstd::string::*;
use vstd::utf8::encode_utf8;
use crate::text::{decimal, usize_to_text};
use crate::debugger::text::{split_lines, lines_of, views};
use super::span::{Span, SourceLocation, line_col_after, lemma_line_col_monotone, lemma_line_col_bounds};
use super::report::{Diagnostic, DiagnosticKind};

verus! {

broadcast use vstd::string::group_string_axioms;

/// A run of `width` carets under a source line, after `indent` blanks.
#[derive(Debug, Clone, Copy, PartialEq, Eq, Structural)]
pub struct Underline {
    pub indent: usize,
    pub width: usize,
}

/// One source line of an excerpt: its number (from 1), its text, and the
/// underline drawn beneath it, if any.
#[derive(Debug)]
pub struct ExcerptLine {
    pub number: usize,
    pub text: String,
    pub underline: Option<Underline>,
}

/// The source excerpt shown under a diagnostic that has a span: the
/// `file:line:column` of the span's start, the width of the line-number
/// gutter, and the lines the span covers.
#[derive(Debug)]
pub struct Excerpt {
    pub location: String,
    pub gutter_width: usize,
    pub lines: Vec<ExcerptLine>,
}

/// A diagnostic laid out for display.
#[derive(Debug)]
pub struct RenderedDiagnostic {
    pub kind: DiagnosticKind,
    pub message: String,
    pub excerpt: Option<Excerpt>,
    pub notes: Vec<String>,
    pub help: Option<String>,
}

/// `n`, but at least 1.
pub open spec fn at_least_one(n: int) -> int {
    if n < 1 {
        1
    } else {
        n
    }
}

/// `a - b`, or 0 when `b` exceeds `a`.
pub open spec fn minus_or_zero(a: int, b: int) -> int {
    if a >= b {
        a - b
    } else {
        0
    }
}

/// The underline of source line `number`, whose text is `text`, for a span
/// from (line, column) `a` to `b`: on a one-line span, from the start
/// column to the end column; on the first line of a longer span, from the
/// start column to the end of the line; on its last line, from the line's
/// start to the end column; none elsewhere. An underline is never empty.
pub open spec fn underline_for(number: nat, text: Seq<char>, a: (nat, nat), b: (nat, nat)) -> Option<Underline> {
    if number == a.0 && number == b.0 {
        Some(Underline { indent: (a.1 - 1) as usize, width: at_least_one(b.1 - a.1) as usize })
    } else if number == a.0 {
        Some(
            Underline {
                indent: (a.1 - 1) as usize,
                width: at_least_one(minus_or_zero(encode_utf8(text).len() as int, a.1 - 1)) as usize,
            },
        )
    } else if number == b.0 {
        Some(Underline { indent: 0, width: at_least_one(minus_or_zero(b.1 as int, 1)) as usize })
    } else {
        None
    }
}

/// The line and column of byte offset `offset` of `text`, an offset past
/// the end counting as the end.
pub open spec fn position_of(text: Seq<char>, offset: usize) -> (nat, nat) {
    let bytes = encode_utf8(text);
    line_col_after(bytes, if offset <= bytes.len() { offset as int } else { bytes.len() as int })
}

/// `ex` is the excerpt of `text` for `span` in the file named `file`.
pub open spec fn excerpt_of(ex: Excerpt, text: Seq<char>, span: Span, file: Seq<char>) -> bool {
    let a = position_of(text, span.start);
    let b = position_of(text, span.end);
    let ls = lines_of(text);
    let last: int = if b.0 <= ls.len() { b.0 as int } else { ls.len() as int };
    let first: int = a.0 - 1;
    &&& ex.location@ == file + ":"@ + decimal(a.0) + ":"@ + decimal(a.1)
    &&& ex.gutter_width == decimal(last as nat).len()
    &&& ex.lines@.len() == minus_or_zero(last, first)
    &&& forall|i: int|
        0 <= i < ex.lines@.len() ==> {
            &&& (#[trigger] ex.lines@[i]).number == first + i + 1
            &&& ex.lines@[i].text@ == ls[first + i]
            &&& ex.lines@[i].underline == underline_for((first + i + 1) as nat, ls[first + i], a, b)
        }
}

/// The file a diagnostic is shown under: its own, or `<input>`.
pub open spec fn shown_file(d: Diagnostic) -> Seq<char> {
    match d.filename {
        Some(f) => f@,
        None => "<input>"@,
    }
}

/// The number of diagnostics in `ds` of severity `k`.
pub open spec fn count_kind(ds: Seq<Diagnostic>, k: DiagnosticKind) -> nat
    decreases ds.len(),
{
    if ds.len() == 0 {
        0
    } else {
        count_kind(ds.drop_last(), k) + if ds.last().kind == k {
            1nat
        } else {
            0nat
        }
    }
}

/// `n` followed by `word`, plural unless `n` is 1.
pub open spec fn counted(n: nat, word: Seq<char>) -> Seq<char> {
    decimal(n) + " "@ + word + if n == 1 {
        ""@
    } else {
        "s"@
    }
}

/// The closing line of a run with `e` errors and `w` warnings; none when
/// there are neither.
pub open spec fn summary_text(e: nat, w: nat) -> Option<Seq<char>> {
    if e > 0 && w > 0 {
        Some(counted(e, "error"@) + ", "@ + counted(w, "warning"@))
    } else if e > 0 {
        Some(counted(e, "error"@))
    } else if w > 0 {
        Some(counted(w, "warning"@))
    } else {
        None
    }
}

/// The underline of source line `number`, whose text is `text`, for a span
/// from line `l1`, column `c1` to line `l2`, column `c2`.
fn underline_at(number: usize, text: &str, l1: usize, c1: usize, l2: usize, c2: usize) -> (u: Option<Underline>)
    requires
        c1 >= 1,
        l1 == l2 ==> c1 <= c2,
    ensures
        u == underline_for(number as nat, text@, (l1 as nat, c1 as nat), (l2 as nat, c2 as nat)),
{
    if number == l1 && number == l2 {
        let w = c2 - c1;
        Some(Underline { indent: c1 - 1, width: if w < 1 { 1 } else { w } })
    } else if number == l1 {
        let len = text.as_bytes().len();
        let w = len.saturating_sub(c1 - 1);
        Some(Underline { indent: c1 - 1, width: if w < 1 { 1 } else { w } })
    } else if number == l2 {
        let w = c2.saturating_sub(1);
        Some(Underline { indent: 0, width: if w < 1 { 1 } else { w } })
    } else {
        None
    }
}

/// A copy of a list of texts.
fn copy_texts(v: &Vec<String>) -> (r: Vec<String>)
    ensures
        views(r@) == views(v@),
{
    let mut r: Vec<String> = Vec::new();
    let mut i: usize = 0;
    while i < v.len()
        invariant
            i <= v@.len(),
            r@.len() == i,
            forall|j: int| 0 <= j < i ==> (#[trigger] r@[j])@ == v@[j]@,
        decreases v@.len() - i,
    {
        r.push(v[i].clone());
        i = i + 1;
    }
    assert(views(r@) =~= views(v@));
    r
}

/// The excerpt of `source` for `span` in the file named `file`.
fn excerpt(source: &str, span: Span, file: &str) -> (ex: Excerpt)
    requires
        source.spec_bytes().len() < usize::MAX,
        span.start <= span.end,
    ensures
        excerpt_of(ex, source@, span, file@),
{
    let loc = SourceLocation::from_offset(source, span.start, file);
    let end_loc = SourceLocation::from_offset(source, span.end, file);
    let ghost bytes = source.spec_bytes();
    proof {
        let n = if span.start <= bytes.len() { span.start as int } else { bytes.len() as int };
        let m = if span.end <= bytes.len() { span.end as int } else { bytes.len() as int };
        lemma_line_col_bounds(bytes, n);
        lemma_line_col_monotone(bytes, n, m);
    }
    let lines = split_lines(source);
    let ghost ls = lines_of(source@);
    let start_line = loc.line - 1;
    let end_line = if end_loc.line <= lines.len() {
        end_loc.line
    } else {
        lines.len()
    };
    let gutter_width = usize_to_text(end_line).unicode_len();
    let mut out: Vec<ExcerptLine> = Vec::new();
    let mut k = start_line;
    while k < end_line
        invariant
            views(lines@) == ls,
            end_line <= lines@.len(),
            start_line <= k || end_line <= start_line,
            start_line <= end_line ==> k <= end_line,
            start_line <= k ==> out@.len() == k - start_line,
            end_line <= start_line ==> out@.len() == 0 && k == start_line,
            loc.column >= 1,
            loc.line == end_loc.line ==> loc.column <= end_loc.column,
            forall|i: int|
                0 <= i < out@.len() ==> {
                    &&& (#[trigger] out@[i]).number == start_line + i + 1
                    &&& out@[i].text@ == ls[start_line + i]
                    &&& out@[i].underline == underline_for(
                        (start_line + i + 1) as nat,
                        ls[start_line + i],
                        (loc.line as nat, loc.column as nat),
                        (end_loc.line as nat, end_loc.column as nat),
                    )
                },
        decreases end_line - k,
    {
        assert(lines@[k as int]@ == ls[k as int]);
        let text = lines[k].clone();
        let underline = underline_at(k + 1, lines[k].as_str(), loc.line, loc.column, end_loc.line, end_loc.column);
        out.push(ExcerptLine { number: k + 1, text, underline });
        k = k + 1;
    }
    let location = loc.render();
    proof {
        reveal_strlit(":");
        assert(seq![':'] =~= ":"@);
    }
    Excerpt { location, gutter_width, lines: out }
}

/// Lay out a diagnostic for display against the source it was reported
/// on. The excerpt is there exactly when the diagnostic has a span.
pub fn render_diagnostic(diag: &Diagnostic, source: &str) -> (r: RenderedDiagnostic)
    requires
        source.spec_bytes().len() < usize::MAX,
        diag.span is Some ==> diag.span->0.start <= diag.span->0.end,
    ensures
        r.kind == diag.kind,
        r.message@ == diag.message@,
        views(r.notes@) == views(diag.notes@),
        r.help is Some <==> diag.help is Some,
        r.help is Some ==> r.help->0@ == diag.help->0@,
        match diag.span {
            Some(span) => r.excerpt is Some && excerpt_of(r.excerpt->0, source@, span, shown_file(*diag)),
            None => r.excerpt is None,
        },
{
    let file = match &diag.filename {
        Some(f) => f.clone(),
        None => String::from_str("<input>"),
    };
    proof {
        reveal_strlit("<input>");
    }
    let excerpt = match diag.span {
        Some(span) => Some(excerpt(source, span, file.as_str())),
        None => None,
    };
    let help = match &diag.help {
        Some(h) => Some(h.clone()),
        None => None,
    };
    RenderedDiagnostic {
        kind: diag.kind,
        message: diag.message.clone(),
        excerpt,
        notes: copy_texts(&diag.notes),
        help,
    }
}

/// `n` followed by `word`, plural unless `n` is 1.
fn counted_text(n: usize, word: &str) -> (s: String)
    ensures
        s@ == counted(n as nat, word@),
{
    proof {
        reveal_strlit(" ");
        reveal_strlit("");
        reveal_strlit("s");
    }
    let s = usize_to_text(n).concat(" ").concat(word);
    if n == 1 {
        s.concat("")
    } else {
        s.concat("s")
    }
}

/// The closing line of a run: how many errors and warnings were reported,
/// or nothing when there were neither.
pub fn summary_line(diagnostics: &Vec<Diagnostic>) -> (r: Option<String>)
    ensures
        match summary_text(
            count_kind(diagnostics@, DiagnosticKind::Error),
            count_kind(diagnostics@, DiagnosticKind::Warning),
        ) {
            Some(t) => r is Some && r->0@ == t,
            None => r is None,
        },
{
    let mut errors: usize = 0;
    let mut warnings: usize = 0;
    let mut i: usize = 0;
    while i < diagnostics.len()
        invariant
            i <= diagnostics@.len(),
            errors == count_kind(diagnostics@.subrange(0, i as int), DiagnosticKind::Error),
            warnings == count_kind(diagnostics@.subrange(0, i as int), DiagnosticKind::Warning),
            errors <= i,
            warnings <= i,
        decreases diagnostics@.len() - i,
    {
        assert(diagnostics@.subrange(0, i + 1).drop_last() =~= diagnostics@.subrange(0, i as int));
        if diagnostics[i].is_error() {
            errors = errors + 1;
        }
        if diagnostics[i].kind == DiagnosticKind::Warning {
            warnings = warnings + 1;
        }
        i = i + 1;
    }
    assert(diagnostics@.subrange(0, diagnostics@.len() as int) =~= diagnostics@);
    proof {
        reveal_strlit("error");
        reveal_strlit("warning");
        reveal_strlit(", ");
    }
    if errors > 0 && warnings > 0 {
        Some(counted_text(errors, "error").concat(", ").concat(counted_text(warnings, "warning").as_str()))
    } else if errors > 0 {
        Some(counted_text(errors, "error"))
    } else if warnings > 0 {
        Some(counted_text(warnings, "warning"))
    } else {
        None
    }
}

} // verus!
