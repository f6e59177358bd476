//! The decoder's error taxonomy.
//!
//! The set of errors is closed and flat; every variant carries a descriptive
//! message naming the offending tag and the enclosing record.  Decoding is
//! fail-fast: the first error anywhere in the recursive decode aborts the
//! whole document decode and is returned verbatim.

use vstd::prelude::*;

verus! {

/// An error raised while decoding a QFX document.
///
/// `FileNotFound` and `FileReadError` are raised only by callers that own the
/// file I/O; the decoding routines in this crate never produce them.
#[derive(Clone, Debug, PartialEq, Eq)]
pub enum QFXParsingError {
    NotFoundError(),
    UnexpectedToken(String),
    UnexpectedEOF(String),
    MissingRequiredValue(String),
    UnexpectedDateFormat(String),
    InvalidTransactionAmount(String),
    FileNotFound(String),
    FileReadError(String),
}

/// Mathematical mirror of [`QFXParsingError`], carrying each message as a
/// sequence of characters.  Contracts speak of this type.
pub enum ErrorView {
    NotFoundError,
    UnexpectedToken(Seq<char>),
    UnexpectedEOF(Seq<char>),
    MissingRequiredValue(Seq<char>),
    UnexpectedDateFormat(Seq<char>),
    InvalidTransactionAmount(Seq<char>),
    FileNotFound(Seq<char>),
    FileReadError(Seq<char>),
}

impl View for QFXParsingError {
    type V = ErrorView;

    open spec fn view(&self) -> ErrorView {
        match self {
            QFXParsingError::NotFoundError() => ErrorView::NotFoundError,
            QFXParsingError::UnexpectedToken(m) => ErrorView::UnexpectedToken(m@),
            QFXParsingError::UnexpectedEOF(m) => ErrorView::UnexpectedEOF(m@),
            QFXParsingError::MissingRequiredValue(m) => ErrorView::MissingRequiredValue(m@),
            QFXParsingError::UnexpectedDateFormat(m) => ErrorView::UnexpectedDateFormat(m@),
            QFXParsingError::InvalidTransactionAmount(m) => {
                ErrorView::InvalidTransactionAmount(m@)
            },
            QFXParsingError::FileNotFound(m) => ErrorView::FileNotFound(m@),
            QFXParsingError::FileReadError(m) => ErrorView::FileReadError(m@),
        }
    }
}

/// Builds the message `a + b`.
pub fn concat2(a: &str, b: &str) -> (r: String)
    ensures
        r@ == a@ + b@,
{
    let mut s = String::from_str(a);
    s.append(b);
    s
}

/// Builds the message `a + b + c`; used for diagnostics that embed the
/// offending token between two fixed phrases.
pub fn concat3(a: &str, b: &str, c: &str) -> (r: String)
    ensures
        r@ == a@ + b@ + c@,
{
    let mut s = String::from_str(a);
    s.append(b);
    s.append(c);
    s
}

} // verus!
