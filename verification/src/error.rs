//! The failures that the library reports.

use vstd::prelude::*;

verus! {

/// What went wrong in a call of the library.
#[derive(Debug, Clone, PartialEq, Eq)]
pub enum CottasError {
    /// The extension of the file names no RDF serialization that is read here.
    UnsupportedFormat,
    /// The RDF text does not follow its serialization; the field is the
    /// parser's message.
    ParseFailure(String),
    /// A pattern with fewer than three terms.
    MalformedPattern,
    /// A list of terms that is neither a triple nor a quad.
    InvalidPatternArity,
    /// A label that names no storage index.
    InvalidIndexLabel,
}

} // verus!
