//! The error taxonomy: codec-reported failures, and the caller-visible
//! exception hierarchy they are mapped to.

use vstd::prelude::*;
use crate::numtext::dec_rep;
use crate::numtext::u64_to_string;

verus! {

/// The caller-visible error kinds. `Toon` is the base codec-error kind;
/// `ToonSyntax` and `ToonIo` are its refinements. `Value` is the separate
/// validation class: malformed configuration or an unconvertible host value.
#[derive(Debug, Clone, Copy, PartialEq, Eq, Structural)]
pub enum ExceptionKind {
    Value,
    Toon,
    ToonSyntax,
    ToonIo,
}

/// A caller-visible failure: a kind in the exception hierarchy and a
/// human-readable message.
#[derive(Debug, PartialEq, Eq)]
pub struct ToonException {
    pub kind: ExceptionKind,
    pub message: String,
}

impl ToonException {
    /// Whether this failure belongs to the codec-error hierarchy
    /// (base, syntax or I/O), as opposed to the validation class.
    pub fn is_toon_error(&self) -> (r: bool)
        ensures
            r == (self.kind != ExceptionKind::Value),
    {
        !matches!(self.kind, ExceptionKind::Value)
    }

    /// Whether this failure is the syntax refinement.
    pub fn is_syntax_error(&self) -> (r: bool)
        ensures
            r == (self.kind == ExceptionKind::ToonSyntax),
    {
        matches!(self.kind, ExceptionKind::ToonSyntax)
    }

    /// Whether this failure is the I/O refinement.
    pub fn is_io_error(&self) -> (r: bool)
        ensures
            r == (self.kind == ExceptionKind::ToonIo),
    {
        matches!(self.kind, ExceptionKind::ToonIo)
    }

    /// Whether this failure is a validation error.
    pub fn is_validation_error(&self) -> (r: bool)
        ensures
            r == (self.kind == ExceptionKind::Value),
    {
        matches!(self.kind, ExceptionKind::Value)
    }
}

/// A failure reported by the codec or by a transcoding step: a syntax error
/// with its 1-based line, a free-text message, an I/O failure description,
/// or a wrapped downstream-format (JSON) error.
#[derive(Debug, PartialEq, Eq)]
pub enum CodecError {
    Syntax { line: u64, message: String },
    Message(String),
    Io(String),
    Json(String),
}

/// The mathematical shape of a codec failure.
pub enum CodecErrV {
    Syntax { line: int, message: Seq<char> },
    Message(Seq<char>),
    Io(Seq<char>),
    Json(Seq<char>),
}

impl View for CodecError {
    type V = CodecErrV;

    open spec fn view(&self) -> CodecErrV {
        match self {
            CodecError::Syntax { line, message } => CodecErrV::Syntax {
                line: *line as int,
                message: message@,
            },
            CodecError::Message(m) => CodecErrV::Message(m@),
            CodecError::Io(d) => CodecErrV::Io(d@),
            CodecError::Json(d) => CodecErrV::Json(d@),
        }
    }
}

/// The kind and message of the caller-visible failure for a codec failure:
/// a syntax error becomes the syntax kind with the 1-based line embedded in
/// the message, a message passes through as the base kind, an I/O failure
/// becomes the I/O kind, and a wrapped JSON error becomes the base kind with
/// a prefix naming the stage.
pub open spec fn spec_convert_toon_error(e: CodecErrV) -> (ExceptionKind, Seq<char>) {
    match e {
        CodecErrV::Syntax { line, message } => (
            ExceptionKind::ToonSyntax,
            "Line "@ + dec_rep(line) + ": "@ + message,
        ),
        CodecErrV::Message(m) => (ExceptionKind::Toon, m),
        CodecErrV::Io(d) => (ExceptionKind::ToonIo, d),
        CodecErrV::Json(d) => (ExceptionKind::Toon, "JSON error: "@ + d),
    }
}

/// Map a codec failure to the caller-visible exception.
pub fn convert_toon_error(e: &CodecError) -> (r: ToonException)
    ensures
        (r.kind, r.message@) == spec_convert_toon_error(e@),
{
    match e {
        CodecError::Syntax { line, message } => {
            let mut m = String::from_str("Line ");
            let line_text = u64_to_string(*line);
            m.append(line_text.as_str());
            m.append(": ");
            m.append(message.as_str());
            proof {
                assert(m@ =~= "Line "@ + dec_rep(*line as int) + ": "@ + message@);
            }
            ToonException { kind: ExceptionKind::ToonSyntax, message: m }
        },
        CodecError::Message(m) => ToonException {
            kind: ExceptionKind::Toon,
            message: m.clone(),
        },
        CodecError::Io(d) => ToonException { kind: ExceptionKind::ToonIo, message: d.clone() },
        CodecError::Json(d) => {
            let mut m = String::from_str("JSON error: ");
            m.append(d.as_str());
            ToonException { kind: ExceptionKind::Toon, message: m }
        },
    }
}

} // verus!
