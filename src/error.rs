use vstd::prelude::*;
use crate::class::RecordClass;
use crate::types::RecordType;

verus! {

/// Generic classification of a failed decode step.
#[derive(Debug, Clone, Copy, PartialEq, Eq, Structural)]
pub enum ErrorKind {
    /// Fewer bytes (or bits) remain than the step needs.
    Eof,
    /// A value was read but rejected by a rule of the format.
    MapRes,
}

/// The domain-specific cause of a decode failure.
#[derive(Debug, Clone, Copy, PartialEq, Eq, Structural)]
pub enum ParserErrorType {
    LabelBytesTooLong(u16),
    UnrecognizedLabelCode(u8),
    UnrecognizedClassCode(u16),
    UnrecognizedRecordType(u16),
    RDLengthTooLong(u16),
    DomainNameTooLong(usize),
    UnknownLabelType(u8),
    PointerNotPriorToLabel { idx: usize, ptr: u16 },
    LabelOverlapsWithOther { label: usize, other: usize },
    /// RDATA of this (type, class) pair is not decoded by this library.
    UnimplementedRecordData { rtype: RecordType, class: RecordClass },
}

/// A decode failure at an absolute byte position of the message.
#[derive(Debug, Clone, Copy, PartialEq, Eq, Structural)]
pub struct ParserError {
    pub position: usize,
    pub kind: Option<ErrorKind>,
    pub err_type: Option<ParserErrorType>,
}

/// A failed decode step, with its severity.
#[derive(Debug, Clone, Copy, PartialEq, Eq, Structural)]
pub enum Fault {
    /// Recoverable: another parse of the same bytes may still succeed.
    Error(ParserError),
    /// Fatal: the whole decode must stop and report this error.
    Failure(ParserError),
}

/// The recoverable end-of-input fault at byte position `p`.
pub open spec fn eof_at(p: usize) -> Fault {
    Fault::Error(ParserError { position: p, kind: Some(ErrorKind::Eof), err_type: None })
}

/// A fatal fault at `p` raised by a rule check on a value that was read.
pub open spec fn rejected_at(p: usize, e: ParserErrorType) -> Fault {
    Fault::Failure(ParserError { position: p, kind: Some(ErrorKind::MapRes), err_type: Some(e) })
}

/// A fatal fault at `p` raised without a generic classification.
pub open spec fn fatal_at(p: usize, e: ParserErrorType) -> Fault {
    Fault::Failure(ParserError { position: p, kind: None, err_type: Some(e) })
}

impl ParserError {
    /// The error for input that ends before a step of `kind` could complete.
    pub fn from_error_kind(position: usize, kind: ErrorKind) -> (r: ParserError)
        ensures
            r == (ParserError { position, kind: Some(kind), err_type: None }),
    {
        ParserError { position, kind: Some(kind), err_type: None }
    }

    /// The error for a value rejected by a rule of the format.
    pub fn from_external_error(position: usize, kind: ErrorKind, e: ParserErrorType) -> (r: ParserError)
        ensures
            r == (ParserError { position, kind: Some(kind), err_type: Some(e) }),
    {
        ParserError { position, kind: Some(kind), err_type: Some(e) }
    }
}

/// The error a fault carries, whatever its severity.
pub open spec fn carried(f: Fault) -> ParserError {
    match f {
        Fault::Error(e) => e,
        Fault::Failure(e) => e,
    }
}

impl Fault {
    /// The error carried by this fault, whatever its severity.
    pub fn error(&self) -> (r: ParserError)
        ensures
            r == carried(*self),
    {
        match *self {
            Fault::Error(e) => e,
            Fault::Failure(e) => e,
        }
    }

    /// Whether the decode must stop here.
    pub fn is_fatal(&self) -> (r: bool)
        ensures
            r == (*self is Failure),
    {
        match *self {
            Fault::Error(_) => false,
            Fault::Failure(_) => true,
        }
    }
}

} // verus!
