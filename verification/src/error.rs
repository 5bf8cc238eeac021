use vstd::prelude::*;

use crate::arrow::ColumnType;

verus! {

/// Every failure the codec and the record layer can report.
#[derive(Debug, PartialEq, Eq)]
pub enum Error {
    /// The named field is absent from the decomposition, or its slot
    /// has already been consumed by an owned extraction.
    FieldMissing(String),
    /// The named field exists but holds a column of another type.
    TypeMismatch { field: String, expected: ColumnType, actual: ColumnType },
    /// The named UTF-8 field's offsets are not monotonically increasing,
    /// do not start at zero, or overrun the byte buffer.
    MalformedOffsets(String),
    /// A slice of the named UTF-8 field is not valid UTF-8.
    InvalidUtf8(String),
    /// The named field's buffer is aliased by another holder, so it
    /// cannot be reclaimed as exclusively owned.
    BufferShared(String),
    /// A record constructor was handed payloads whose lengths do not
    /// agree with each other or with the declared shape.
    LengthMismatch,
    /// The requested encoding conversion is not defined for the value's
    /// current encoding.
    UnsupportedConversion,
    /// The wire record's union tagging is internally inconsistent.
    MalformedRecord,
    /// The columnar assembly could not be completed.
    BuildFailed,
    /// A schema declares the same field name twice.
    DuplicateField(String),
}

impl Error {
    /// A short human-readable description of the failure.
    pub fn message(&self) -> (r: &'static str)
        ensures
            r@.len() > 0,
    {
        let m: &'static str = match self {
            Error::FieldMissing(_) => "invalid field for this map of data",
            Error::TypeMismatch { .. } => "invalid type for this buffer",
            Error::MalformedOffsets(_) => "malformed offsets for this field",
            Error::InvalidUtf8(_) => "field is not UTF-8 encoded",
            Error::BufferShared(_) => "buffer is shared and cannot be reclaimed",
            Error::LengthMismatch => "payload lengths do not match",
            Error::UnsupportedConversion => "conversion is not defined for this encoding",
            Error::MalformedRecord => "wire record is malformed",
            Error::BuildFailed => "failed to assemble the wire record",
            Error::DuplicateField(_) => "schema declares a field name twice",
        };
        proof {
            reveal_strlit("invalid field for this map of data");
            reveal_strlit("invalid type for this buffer");
            reveal_strlit("malformed offsets for this field");
            reveal_strlit("field is not UTF-8 encoded");
            reveal_strlit("buffer is shared and cannot be reclaimed");
            reveal_strlit("payload lengths do not match");
            reveal_strlit("conversion is not defined for this encoding");
            reveal_strlit("wire record is malformed");
            reveal_strlit("failed to assemble the wire record");
            reveal_strlit("schema declares a field name twice");
        }
        m
    }
}

} // verus!
