//! The unified error taxonomy for every parsing step.

use vstd::prelude::*;

verus! {

/// The kind of a parse failure, without its diagnostic context.
///
/// Contracts speak about kinds: the context string carried by [`GdtfError`]
/// is purely diagnostic and is never pinned down by a specification.
#[derive(Debug, Clone, Copy, PartialEq, Eq, Structural)]
pub enum ErrorKind {
    /// Malformed markup reported by the underlying XML reader.
    Tokenizer,
    /// A mandatory attribute or child element was absent.
    RequiredValueNotFound,
    /// An identifier violated the permitted character set or length bound.
    InvalidIdentifier,
    /// An attribute value could not be converted to its typed representation.
    ValueConversion,
}

/// Failure signal from any parsing step: a kind plus a context string.
///
/// This is the only channel for reporting failure; parsing never panics on
/// malformed input.
#[derive(Debug, PartialEq)]
pub enum GdtfError {
    /// Malformed markup reported by the underlying XML reader.
    TokenizerFailure(String),
    /// A mandatory attribute or child element was absent.
    RequiredValueNotFound(String),
    /// An identifier violated the permitted character set or length bound.
    InvalidIdentifier(String),
    /// An attribute value could not be converted to its typed representation.
    ValueConversionFailure(String),
}

impl GdtfError {
    /// The kind of this error, used by contracts.
    pub open spec fn kind(&self) -> ErrorKind {
        match self {
            GdtfError::TokenizerFailure(_) => ErrorKind::Tokenizer,
            GdtfError::RequiredValueNotFound(_) => ErrorKind::RequiredValueNotFound,
            GdtfError::InvalidIdentifier(_) => ErrorKind::InvalidIdentifier,
            GdtfError::ValueConversionFailure(_) => ErrorKind::ValueConversion,
        }
    }

    /// A short human-readable description of the error kind.
    pub fn describe(&self) -> (r: String)
        ensures
            r@ == self.kind().describe_spec(),
    {
        match self {
            GdtfError::TokenizerFailure(_) => "malformed markup".to_owned(),
            GdtfError::RequiredValueNotFound(_) => "required value not found".to_owned(),
            GdtfError::InvalidIdentifier(_) => "invalid identifier".to_owned(),
            GdtfError::ValueConversionFailure(_) => "value conversion failed".to_owned(),
        }
    }
}

impl ErrorKind {
    /// What [`GdtfError::describe`] returns for each kind.
    pub open spec fn describe_spec(&self) -> Seq<char> {
        match self {
            ErrorKind::Tokenizer => "malformed markup"@,
            ErrorKind::RequiredValueNotFound => "required value not found"@,
            ErrorKind::InvalidIdentifier => "invalid identifier"@,
            ErrorKind::ValueConversion => "value conversion failed"@,
        }
    }
}

} // verus!
