//! Validation of a program in intermediate representation before it is
//! compiled: an ordered set of independent checks is run over the program,
//! and every problem that any of them reports is returned together.

pub mod aggregate;
pub mod diagnostic;
pub mod laws;
pub mod validate;

pub use aggregate::try_all;
pub use diagnostic::{Diagnostic, DiagnosticsResult, Location, Span};
pub use validate::{validate, Checks};
