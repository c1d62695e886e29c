//! The assembler's errors.

use vstd::prelude::*;
use crate::text::string_of;

verus! {

/// What went wrong, without the offending text.
#[derive(Clone, Copy, Debug, PartialEq, Eq, Structural)]
pub enum ErrorKind {
    EndUsage,
    HaltUsage,
    InvalidBinary,
    InvalidDecimal,
    InvalidHex,
    InvalidNumber,
    InvalidSymbol,
    OrigUsage,
    Operands,
    UnknownOpcode,
}

/// An assembly error. Each carries its message or the offending text.
#[derive(Clone, Debug, PartialEq, Eq)]
pub enum AssemblerError {
    EndUsage(String),
    HaltUsage(String),
    InvalidBinary(String),
    InvalidDecimal(String),
    InvalidHex(String),
    InvalidNumber(String),
    InvalidSymbol(String),
    OrigUsage(String),
    Operands(String),
    UnknownOpcode(String),
}

/// An error as its kind and the characters it carries.
pub ghost struct ErrorModel {
    pub kind: ErrorKind,
    pub text: Seq<char>,
}

impl View for AssemblerError {
    type V = ErrorModel;

    open spec fn view(&self) -> ErrorModel {
        match self {
            AssemblerError::EndUsage(s) => ErrorModel { kind: ErrorKind::EndUsage, text: s@ },
            AssemblerError::HaltUsage(s) => ErrorModel { kind: ErrorKind::HaltUsage, text: s@ },
            AssemblerError::InvalidBinary(s) => ErrorModel {
                kind: ErrorKind::InvalidBinary,
                text: s@,
            },
            AssemblerError::InvalidDecimal(s) => ErrorModel {
                kind: ErrorKind::InvalidDecimal,
                text: s@,
            },
            AssemblerError::InvalidHex(s) => ErrorModel { kind: ErrorKind::InvalidHex, text: s@ },
            AssemblerError::InvalidNumber(s) => ErrorModel {
                kind: ErrorKind::InvalidNumber,
                text: s@,
            },
            AssemblerError::InvalidSymbol(s) => ErrorModel {
                kind: ErrorKind::InvalidSymbol,
                text: s@,
            },
            AssemblerError::OrigUsage(s) => ErrorModel { kind: ErrorKind::OrigUsage, text: s@ },
            AssemblerError::Operands(s) => ErrorModel { kind: ErrorKind::Operands, text: s@ },
            AssemblerError::UnknownOpcode(s) => ErrorModel {
                kind: ErrorKind::UnknownOpcode,
                text: s@,
            },
        }
    }
}

/// The error of kind `kind` that carries `text`.
pub open spec fn failure(kind: ErrorKind, text: Seq<char>) -> ErrorModel {
    ErrorModel { kind, text }
}

impl AssemblerError {
    pub fn new(kind: ErrorKind, text: String) -> (e: Self)
        ensures
            e@ == failure(kind, text@),
    {
        match kind {
            ErrorKind::EndUsage => AssemblerError::EndUsage(text),
            ErrorKind::HaltUsage => AssemblerError::HaltUsage(text),
            ErrorKind::InvalidBinary => AssemblerError::InvalidBinary(text),
            ErrorKind::InvalidDecimal => AssemblerError::InvalidDecimal(text),
            ErrorKind::InvalidHex => AssemblerError::InvalidHex(text),
            ErrorKind::InvalidNumber => AssemblerError::InvalidNumber(text),
            ErrorKind::InvalidSymbol => AssemblerError::InvalidSymbol(text),
            ErrorKind::OrigUsage => AssemblerError::OrigUsage(text),
            ErrorKind::Operands => AssemblerError::Operands(text),
            ErrorKind::UnknownOpcode => AssemblerError::UnknownOpcode(text),
        }
    }

    /// The error of kind `kind` that carries the characters of `text`.
    pub fn of_chars(kind: ErrorKind, text: &Vec<char>) -> (e: Self)
        ensures
            e@ == failure(kind, text@),
    {
        AssemblerError::new(kind, string_of(text))
    }

    pub fn kind(&self) -> (kind: ErrorKind)
        ensures
            kind == self@.kind,
    {
        match self {
            AssemblerError::EndUsage(_) => ErrorKind::EndUsage,
            AssemblerError::HaltUsage(_) => ErrorKind::HaltUsage,
            AssemblerError::InvalidBinary(_) => ErrorKind::InvalidBinary,
            AssemblerError::InvalidDecimal(_) => ErrorKind::InvalidDecimal,
            AssemblerError::InvalidHex(_) => ErrorKind::InvalidHex,
            AssemblerError::InvalidNumber(_) => ErrorKind::InvalidNumber,
            AssemblerError::InvalidSymbol(_) => ErrorKind::InvalidSymbol,
            AssemblerError::OrigUsage(_) => ErrorKind::OrigUsage,
            AssemblerError::Operands(_) => ErrorKind::Operands,
            AssemblerError::UnknownOpcode(_) => ErrorKind::UnknownOpcode,
        }
    }

    /// The one-line message that a user is shown.
    pub fn message(&self) -> (text: String)
        ensures
            text@ == self@.text,
    {
        match self {
            AssemblerError::EndUsage(s) => s.clone(),
            AssemblerError::HaltUsage(s) => s.clone(),
            AssemblerError::InvalidBinary(s) => s.clone(),
            AssemblerError::InvalidDecimal(s) => s.clone(),
            AssemblerError::InvalidHex(s) => s.clone(),
            AssemblerError::InvalidNumber(s) => s.clone(),
            AssemblerError::InvalidSymbol(s) => s.clone(),
            AssemblerError::OrigUsage(s) => s.clone(),
            AssemblerError::Operands(s) => s.clone(),
            AssemblerError::UnknownOpcode(s) => s.clone(),
        }
    }
}

} // verus!
