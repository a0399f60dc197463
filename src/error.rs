//! Errors reported by the annotation functions.

use vstd::prelude::*;

verus! {

/// Why an annotation could not be produced.
#[derive(Debug, PartialEq, Eq)]
pub enum AnnotationError {
    /// A reading starts with a small kana, which has no mora to attach to.
    MalformedReading,
    /// A token of an accent-number list is not an unsigned 8-bit number.
    PitchNumberFormat,
    /// The hiragana rebuilt from an annotated pronunciation differs from the
    /// expected reading.
    ReadingMismatch { expected: String, found: String },
    /// A partial accent pattern is longer than the reading it belongs to.
    PaddingUnderflow,
}

} // verus!
