//! Error kinds raised while decoding or validating a manifest.

use vstd::prelude::*;

verus! {

/// A decode or validation failure. Every failure is terminal for the
/// document it was raised on: no partial manifest is ever produced.
#[derive(Clone, Debug, PartialEq, Eq)]
pub enum Error {
    /// A field was present that the schema of its containing element does
    /// not declare. Silently dropping unknown input is disallowed.
    UnknownField { field: String, container: String },
    /// A required field of the containing element was absent.
    MissingRequiredField { field: String, container: String },
    /// A capability discriminator outside the closed decode vocabulary.
    UnrecognizedVariant { discriminator: String },
    /// A sequence field held a number of entries outside its schema bounds.
    CardinalityViolation { field: String, min: usize, max: usize, actual: usize },
    /// A recognized field carried a value of the wrong shape for its schema.
    TypeMismatch { field: String, container: String },
    /// An encoding step could not render a field.
    EncodingFailure { field: String, cause: String },
}

/// The mathematical image of an [`Error`]: the same variants over
/// character sequences and unbounded integers.
pub ghost enum ErrorSpec {
    UnknownField { field: Seq<char>, container: Seq<char> },
    MissingRequiredField { field: Seq<char>, container: Seq<char> },
    UnrecognizedVariant { discriminator: Seq<char> },
    CardinalityViolation { field: Seq<char>, min: nat, max: nat, actual: nat },
    TypeMismatch { field: Seq<char>, container: Seq<char> },
    EncodingFailure { field: Seq<char>, cause: Seq<char> },
}

impl View for Error {
    type V = ErrorSpec;

    open spec fn view(&self) -> ErrorSpec {
        match self {
            Error::UnknownField { field, container } => ErrorSpec::UnknownField {
                field: field@,
                container: container@,
            },
            Error::MissingRequiredField { field, container } => ErrorSpec::MissingRequiredField {
                field: field@,
                container: container@,
            },
            Error::UnrecognizedVariant { discriminator } => ErrorSpec::UnrecognizedVariant {
                discriminator: discriminator@,
            },
            Error::CardinalityViolation { field, min, max, actual } => ErrorSpec::CardinalityViolation {
                field: field@,
                min: *min as nat,
                max: *max as nat,
                actual: *actual as nat,
            },
            Error::TypeMismatch { field, container } => ErrorSpec::TypeMismatch {
                field: field@,
                container: container@,
            },
            Error::EncodingFailure { field, cause } => ErrorSpec::EncodingFailure {
                field: field@,
                cause: cause@,
            },
        }
    }
}

} // verus!
