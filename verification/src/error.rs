//! The failures that a decode can end in.
use vstd::prelude::*;

verus! {

/// A file format that the library reads.
#[derive(Clone, Copy, Debug, PartialEq, Eq, Structural)]
pub enum Format {
    Stl,
    Step,
    Obj,
    KiCad,
    Eagle,
    Pdf,
    Json,
    Xml,
    Csv,
    Text,
}

/// Why a file could not be read in its format.
#[derive(Clone, Copy, Debug, PartialEq, Eq, Structural)]
pub enum ParseFailure {
    /// The file is not UTF-8 text.
    InvalidText,
    /// The file does not begin as its format requires.
    MalformedHeader,
    /// The file ends before its content is complete.
    Truncated,
    /// A number is not a decimal literal, or is too large to be held.
    InvalidNumber,
    /// A coordinate is an infinity or not a number.
    NonFinite,
    /// An element refers to a vertex, normal or point that the file does not hold.
    InvalidReference,
    /// The file holds no triangle.
    EmptyGeometry,
    /// The buffers of a mesh do not fit each other.
    InconsistentBuffers,
    /// A statement or token is not what the format allows at its place.
    UnexpectedToken,
    /// An entity of a kind that the decoder does not read.
    UnsupportedEntity,
    /// The document is not well-formed in its own grammar.
    InvalidSyntax,
    /// A required attribute or field is missing or has the wrong type.
    MissingField,
    /// A value lies outside the range that the model allows.
    OutOfRange,
}

/// Which kind of reference dangles in a PCB file.
#[derive(Clone, Copy, Debug, PartialEq, Eq, Structural)]
pub enum IntegrityKind {
    /// A net node names a component that the board does not hold.
    UnknownComponent,
    /// A trace names a net that the board does not hold.
    UnknownNet,
    /// A trace names a layer that the board does not declare.
    UnknownLayer,
    /// A trace has fewer than two points or no positive width.
    DegenerateTrace,
}

/// A failed decode.
#[derive(Debug, PartialEq)]
pub enum DecodeError {
    /// No file exists at the path.
    FileNotFound { path: String },
    /// The path's extension names no format of the requested family.
    UnsupportedFormat { extension: String },
    /// The file is malformed, truncated or syntactically invalid.
    ParseError { format: Format, reason: ParseFailure },
    /// A reference inside a PCB file names nothing.
    IntegrityError { kind: IntegrityKind, id: String },
    /// Surfaces could not be tessellated within the deviation bound.
    ToleranceError,
}

/// A failed decode, with texts as sequences of characters.
pub enum Failure {
    FileNotFound { path: Seq<char> },
    UnsupportedFormat { extension: Seq<char> },
    ParseError { format: Format, reason: ParseFailure },
    IntegrityError { kind: IntegrityKind, id: Seq<char> },
    ToleranceError,
}

impl DeepView for DecodeError {
    type V = Failure;

    open spec fn deep_view(&self) -> Failure {
        match self {
            DecodeError::FileNotFound { path } => Failure::FileNotFound { path: path@ },
            DecodeError::UnsupportedFormat { extension } => Failure::UnsupportedFormat {
                extension: extension@,
            },
            DecodeError::ParseError { format, reason } => Failure::ParseError {
                format: *format,
                reason: *reason,
            },
            DecodeError::IntegrityError { kind, id } => Failure::IntegrityError {
                kind: *kind,
                id: id@,
            },
            DecodeError::ToleranceError => Failure::ToleranceError,
        }
    }
}

/// What a decode ended in, with the model and the failure as their views.
pub open spec fn outcome<T: DeepView>(r: Result<T, DecodeError>) -> Result<T::V, Failure> {
    match r {
        Ok(model) => Ok(model.deep_view()),
        Err(e) => Err(e.deep_view()),
    }
}

/// A parse failure of the given format, as the view of a decode failure.
pub open spec fn parse_failure(format: Format, reason: ParseFailure) -> Failure {
    Failure::ParseError { format, reason }
}

/// What a step of a decode ended in, with the value as its view.
pub open spec fn viewed<T: DeepView>(r: Result<T, ParseFailure>) -> Result<T::V, ParseFailure> {
    match r {
        Ok(value) => Ok(value.deep_view()),
        Err(e) => Err(e),
    }
}

} // verus!
