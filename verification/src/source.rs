//! Positions in the source of a type map, and the diagnostics that point at them.

use vstd::prelude::*;
use vstd::string::*;

verus! {

/// A line and a column of a source text.
#[derive(Clone, Copy, Debug, PartialEq, Eq, Structural)]
pub struct LineColumn {
    pub line: usize,
    pub column: usize,
}

/// A region of a source text.
#[derive(Clone, Copy, Debug, PartialEq, Eq, Structural)]
pub struct Span {
    pub start: LineColumn,
    pub end: LineColumn,
}

impl Span {
    /// The position of what was not read from any source.
    pub open spec fn spec_call_site() -> Span {
        Span { start: LineColumn { line: 0, column: 0 }, end: LineColumn { line: 0, column: 0 } }
    }

    /// The position of what was not read from any source.
    #[verifier::when_used_as_spec(spec_call_site)]
    pub fn call_site() -> (r: Span)
        ensures
            r == Span::spec_call_site(),
    {
        Span { start: LineColumn { line: 0, column: 0 }, end: LineColumn { line: 0, column: 0 } }
    }

    /// The region from `start` to `end`.
    pub fn new(start_line: usize, start_column: usize, end_line: usize, end_column: usize) -> (r:
        Span)
        ensures
            r == (Span {
                start: LineColumn { line: start_line, column: start_column },
                end: LineColumn { line: end_line, column: end_column },
            }),
    {
        Span {
            start: LineColumn { line: start_line, column: start_column },
            end: LineColumn { line: end_line, column: end_column },
        }
    }
}

/// Which source text something was read from.
#[derive(Clone, Copy, Debug, PartialEq, Eq, Structural)]
pub struct SourceId {
    pub id: Option<usize>,
}

impl SourceId {
    /// The mark of what was read from no registered source.
    pub fn none() -> (r: SourceId)
        ensures
            r == (SourceId { id: None }),
    {
        SourceId { id: None }
    }
}

/// An identifier and the place where it is written.
pub struct Ident {
    pub name: String,
    pub span: Span,
}

impl Ident {
    /// The identifier `name` written at `span`.
    pub fn new(name: &str, span: Span) -> (r: Ident)
        ensures
            r.name@ == name@,
            r.span == span,
    {
        Ident { name: String::from_str(name), span }
    }

    /// The place where the identifier is written.
    pub fn span(&self) -> (r: Span)
        ensures
            r == self.span,
    {
        self.span
    }
}

/// A remark that belongs to a diagnostic: where, and what.
pub struct SpanNote {
    pub span: Span,
    pub message: String,
}

/// Mathematical model of [`SpanNote`].
pub struct SpanNoteModel {
    pub span: Span,
    pub message: Seq<char>,
}

impl View for SpanNote {
    type V = SpanNoteModel;

    open spec fn view(&self) -> SpanNoteModel {
        SpanNoteModel { span: self.span, message: self.message@ }
    }
}

/// Mathematical model of [`DiagnosticError`].
pub struct DiagnosticModel {
    pub src_id: SourceId,
    pub span: Span,
    pub message: Seq<char>,
    pub notes: Seq<SpanNoteModel>,
    /// Whether the diagnostic reports a broken promise inside the generator
    /// rather than a fault of the type map.
    pub internal: bool,
}

/// What went wrong while a type map was built: a position, a message, and
/// remarks that point at other positions.
pub struct DiagnosticError {
    src_id: SourceId,
    span: Span,
    message: String,
    notes: Vec<SpanNote>,
    internal: bool,
}

impl View for DiagnosticError {
    type V = DiagnosticModel;

    closed spec fn view(&self) -> DiagnosticModel {
        DiagnosticModel {
            src_id: self.src_id,
            span: self.span,
            message: self.message@,
            notes: Seq::new(self.notes@.len(), |i: int| self.notes@[i]@),
            internal: self.internal,
        }
    }
}

/// The text of a diagnostic with the first `n` of its remarks, one per line.
pub open spec fn diagnostic_text(d: DiagnosticModel, n: nat) -> Seq<char>
    decreases n,
{
    if n == 0 || n > d.notes.len() {
        d.message
    } else {
        diagnostic_text(d, (n - 1) as nat) + "\n"@ + d.notes[n - 1].message
    }
}

impl DiagnosticError {
    /// A diagnostic at `span` with the message `message` and no remarks.
    pub fn new(span: Span, message: &str) -> (r: DiagnosticError)
        ensures
            r@ == (DiagnosticModel {
                src_id: SourceId { id: None },
                span,
                message: message@,
                notes: Seq::empty(),
                internal: false,
            }),
    {
        DiagnosticError::new_in(SourceId::none(), span, message)
    }

    /// A diagnostic for what the generator itself cannot handle.
    pub fn internal(span: Span, message: &str) -> (r: DiagnosticError)
        ensures
            r@ == (DiagnosticModel {
                src_id: SourceId { id: None },
                span,
                message: message@,
                notes: Seq::empty(),
                internal: true,
            }),
    {
        let r = DiagnosticError {
            src_id: SourceId::none(),
            span,
            message: String::from_str(message),
            notes: Vec::new(),
            internal: true,
        };
        assert(r@.notes =~= Seq::empty());
        r
    }

    /// Whether the diagnostic reports a broken promise inside the generator.
    pub fn is_internal(&self) -> (r: bool)
        ensures
            r == self@.internal,
    {
        self.internal
    }

    /// A diagnostic at `span` of the source `src_id`.
    pub fn new_in(src_id: SourceId, span: Span, message: &str) -> (r: DiagnosticError)
        ensures
            r@ == (DiagnosticModel {
                src_id,
                span,
                message: message@,
                notes: Seq::empty(),
                internal: false,
            }),
    {
        let r = DiagnosticError {
            src_id,
            span,
            message: String::from_str(message),
            notes: Vec::new(),
            internal: false,
        };
        assert(r@.notes =~= Seq::empty());
        r
    }

    /// Adds a remark at `span`.
    pub fn span_note(&mut self, span: Span, message: &str)
        ensures
            final(self)@ == (DiagnosticModel {
                src_id: old(self)@.src_id,
                span: old(self)@.span,
                message: old(self)@.message,
                notes: old(self)@.notes.push(SpanNoteModel { span, message: message@ }),
                internal: old(self)@.internal,
            }),
    {
        self.notes.push(SpanNote { span, message: String::from_str(message) });
        assert(self@.notes =~= old(self)@.notes.push(SpanNoteModel { span, message: message@ }));
    }

    /// The position the diagnostic points at.
    pub fn span(&self) -> (r: Span)
        ensures
            r == self@.span,
    {
        self.span
    }

    /// The message of the diagnostic.
    pub fn message(&self) -> (r: &str)
        ensures
            r@ == self@.message,
    {
        self.message.as_str()
    }

    /// The number of remarks.
    pub fn notes_len(&self) -> (r: usize)
        ensures
            r == self@.notes.len(),
    {
        self.notes.len()
    }

    /// The remark at `index`.
    pub fn note(&self, index: usize) -> (r: &SpanNote)
        requires
            index < self@.notes.len(),
        ensures
            r@ == self@.notes[index as int],
    {
        &self.notes[index]
    }

    /// The message followed by the remarks, one per line.
    pub fn to_string(&self) -> (r: String)
        ensures
            r@ == diagnostic_text(self@, self@.notes.len()),
    {
        let mut out = self.message.clone();
        let mut i: usize = 0;
        while i < self.notes.len()
            invariant
                i <= self.notes.len(),
                out@ == diagnostic_text(self@, i as nat),
            decreases self.notes.len() - i,
        {
            let ghost before = out@;
            out.append("\n");
            out.append(self.notes[i].message.as_str());
            assert(self@.notes[i as int] == self.notes@[i as int]@);
            i += 1;
        }
        out
    }
}

/// The text that reports a type map that could not be built.
pub open spec fn parse_error_report(name: Seq<char>, error: Seq<char>) -> Seq<char> {
    "parsing of types map '"@ + name + "' failed\nerror: '"@ + error + "'"@
}

/// The report for a type map that could not be built: the map's name and the
/// diagnostic's text. The source text of the map is not quoted.
pub fn report_parse_error(name: &str, _code: &str, err: &DiagnosticError) -> (r: String)
    ensures
        r@ == parse_error_report(name@, diagnostic_text(err@, err@.notes.len())),
{
    let mut out = String::from_str("parsing of types map '");
    out.append(name);
    out.append("' failed\nerror: '");
    let text = err.to_string();
    out.append(text.as_str());
    out.append("'");
    out
}

} // verus!
