//! Diagnostics: the problems a check reports, and the result type that every
//! check and the pipeline itself return.

use vstd::prelude::*;

verus! {

/// A range of offsets into a source text, from `start` up to `end`.
#[derive(Clone, Copy, Debug, PartialEq, Eq)]
pub struct Span {
    pub start: u32,
    pub end: u32,
}

/// The place a diagnostic points at: a named source and a span within it.
#[derive(Clone, Debug, PartialEq, Eq)]
pub struct Location {
    pub source: String,
    pub span: Span,
}

/// The mathematical model of a [`Location`].
pub struct LocationView {
    pub source: Seq<char>,
    pub span: Span,
}

impl View for Location {
    type V = LocationView;

    open spec fn view(&self) -> LocationView {
        LocationView { source: self.source@, span: self.span }
    }
}

/// One reported problem: a message and the place it is about.
///
/// A diagnostic cannot be changed once it is made; it is read through
/// [`Diagnostic::message`] and [`Diagnostic::location`].
#[derive(Clone, Debug, PartialEq, Eq)]
pub struct Diagnostic {
    message: String,
    location: Location,
}

/// The mathematical model of a [`Diagnostic`].
pub struct DiagnosticView {
    pub message: Seq<char>,
    pub location: LocationView,
}

impl View for Diagnostic {
    type V = DiagnosticView;

    closed spec fn view(&self) -> DiagnosticView {
        DiagnosticView { message: self.message@, location: self.location@ }
    }
}

impl Diagnostic {
    /// Reports `message` about `location`.
    pub fn error(message: String, location: Location) -> (diagnostic: Diagnostic)
        ensures
            diagnostic@ == (DiagnosticView { message: message@, location: location@ }),
    {
        Diagnostic { message, location }
    }

    /// The text of the report.
    pub fn message(&self) -> (message: &str)
        ensures
            message@ == self@.message,
    {
        self.message.as_str()
    }

    /// The place the report is about.
    pub fn location(&self) -> (location: &Location)
        ensures
            location@ == self@.location,
    {
        &self.location
    }
}

/// What a check answers: `Ok`, or `Err` with the problems it found.
///
/// An `Err` is meant to carry at least one diagnostic; see [`well_formed`].
pub type DiagnosticsResult<T> = Result<T, Vec<Diagnostic>>;

/// The invariant of a [`DiagnosticsResult`]: a failure names at least one
/// problem.
pub open spec fn well_formed<T>(result: DiagnosticsResult<T>) -> bool {
    result matches Err(diagnostics) ==> diagnostics@.len() > 0
}

/// The diagnostics that `result` carries: those of an `Err`, none for an `Ok`.
pub open spec fn diagnostics_in<T>(result: DiagnosticsResult<T>) -> Seq<Diagnostic> {
    match result {
        Ok(_) => Seq::empty(),
        Err(diagnostics) => diagnostics@,
    }
}

/// The views of `diagnostics`, in the same order.
pub open spec fn views(diagnostics: Seq<Diagnostic>) -> Seq<DiagnosticView> {
    diagnostics.map_values(|diagnostic: Diagnostic| diagnostic@)
}

/// A result as a caller can observe it: its diagnostics taken by their views.
pub open spec fn observable<T>(result: DiagnosticsResult<T>) -> Result<T, Seq<DiagnosticView>> {
    match result {
        Ok(value) => Ok(value),
        Err(diagnostics) => Err(views(diagnostics@)),
    }
}

} // verus!
