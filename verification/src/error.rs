//! What can be wrong with a job description.

use vstd::prelude::*;

verus! {

/// The four kinds of fault in a job description.
#[derive(Debug, Clone, Copy, PartialEq, Eq, Structural)]
pub enum ErrorKind {
    /// A field is missing or has the wrong shape or type.
    Schema,
    /// A number does not fit the integers that its field takes.
    Range,
    /// Fields that are each in order do not go together.
    Compatibility,
    /// A colour string holds something that is no hexadecimal digit.
    Parse,
}

/// The fields of a job description.
#[derive(Debug, Clone, Copy, PartialEq, Eq, Structural)]
pub enum Field {
    WallType,
    Sequence,
    Modulo,
    LeftValues,
    SequenceStart,
    Colours,
    Top,
    Bottom,
    Left,
    Right,
    OutputFile,
}

/// Why a value is no colour.
#[derive(Debug, Clone, Copy, PartialEq, Eq, Structural)]
pub enum ColourError {
    /// An array that does not have three elements.
    WrongArrayLength { length: usize },
    /// The element of an array at `position` is no number.
    ComponentNotNumber { position: usize },
    /// The element of an array at `position` is no integer from 0 to 255.
    ComponentOutOfRange { position: usize },
    /// A string that does not have 3, 4, 6 or 7 characters.
    WrongTextLength { length: usize },
    /// The character of a string at `position` is no hexadecimal digit.
    InvalidHexDigit { position: usize },
    /// A value that is neither an array nor a string.
    NotAColour,
}

impl ColourError {
    /// The kind of fault that the error reports.
    pub open spec fn kind_of(self) -> ErrorKind {
        match self {
            ColourError::ComponentOutOfRange { .. } => ErrorKind::Range,
            ColourError::InvalidHexDigit { .. } => ErrorKind::Parse,
            _ => ErrorKind::Schema,
        }
    }

    /// The kind of fault that the error reports.
    pub fn kind(&self) -> (kind: ErrorKind)
        ensures
            kind == self.kind_of(),
    {
        match self {
            ColourError::ComponentOutOfRange { .. } => ErrorKind::Range,
            ColourError::InvalidHexDigit { .. } => ErrorKind::Parse,
            _ => ErrorKind::Schema,
        }
    }
}

/// Why a document describes no job.
#[derive(Debug, PartialEq, Eq)]
pub enum ConfigError {
    /// The field is missing or holds a value of the wrong type.
    WrongType { field: Field },
    /// The field holds a name that stands for nothing; `name` is what it
    /// holds.
    UnknownName { field: Field, name: String },
    /// The field holds an array of the wrong length.
    WrongLength { field: Field, length: usize },
    /// The element at `position` of the field's array is no number.
    ElementNotNumber { field: Field, position: usize },
    /// The element at `position` of the field's array is no integer that
    /// fits.
    ElementOutOfRange { field: Field, position: usize },
    /// The field's number is no integer that fits.
    OutOfRange { field: Field },
    /// A key of the palette that is neither an integer nor the word for the
    /// default colour; `key` is what stands there.
    ColourKey { key: String },
    /// A value of the palette that is no colour.
    Colour { error: ColourError },
    /// The last row of the boundary lies above its first row, so that the
    /// two do not go together.
    BottomAboveTop,
    /// A left boundary below zero on a wall whose columns start at zero.
    NegativeLeft,
    /// A right boundary below zero on a wall whose columns start at zero.
    NegativeRight,
    /// A named sequence on a repeating wall, which takes a list of values.
    NamedSequenceRepeats,
}

impl ConfigError {
    /// The kind of fault that the error reports.
    pub open spec fn kind_of(self) -> ErrorKind {
        match self {
            ConfigError::WrongType { .. } => ErrorKind::Schema,
            ConfigError::UnknownName { .. } => ErrorKind::Schema,
            ConfigError::WrongLength { .. } => ErrorKind::Schema,
            ConfigError::ElementNotNumber { .. } => ErrorKind::Schema,
            ConfigError::ElementOutOfRange { .. } => ErrorKind::Range,
            ConfigError::OutOfRange { .. } => ErrorKind::Range,
            ConfigError::ColourKey { .. } => ErrorKind::Schema,
            ConfigError::Colour { error } => error.kind_of(),
            ConfigError::BottomAboveTop => ErrorKind::Compatibility,
            ConfigError::NegativeLeft => ErrorKind::Compatibility,
            ConfigError::NegativeRight => ErrorKind::Compatibility,
            ConfigError::NamedSequenceRepeats => ErrorKind::Compatibility,
        }
    }

    /// The kind of fault that the error reports.
    pub fn kind(&self) -> (kind: ErrorKind)
        ensures
            kind == self.kind_of(),
    {
        match self {
            ConfigError::WrongType { .. } => ErrorKind::Schema,
            ConfigError::UnknownName { .. } => ErrorKind::Schema,
            ConfigError::WrongLength { .. } => ErrorKind::Schema,
            ConfigError::ElementNotNumber { .. } => ErrorKind::Schema,
            ConfigError::ElementOutOfRange { .. } => ErrorKind::Range,
            ConfigError::OutOfRange { .. } => ErrorKind::Range,
            ConfigError::ColourKey { .. } => ErrorKind::Schema,
            ConfigError::Colour { error } => error.kind(),
            ConfigError::BottomAboveTop => ErrorKind::Compatibility,
            ConfigError::NegativeLeft => ErrorKind::Compatibility,
            ConfigError::NegativeRight => ErrorKind::Compatibility,
            ConfigError::NamedSequenceRepeats => ErrorKind::Compatibility,
        }
    }
}

} // verus!
