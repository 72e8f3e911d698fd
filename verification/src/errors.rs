//! The error taxonomy of the converter.

use vstd::prelude::*;

verus! {

/// Every failure the library itself can report.
///
/// `UnsupportedFormat`, `InvalidDimensionFormat`, `InvalidNumber` and
/// `ZeroDimension` are validation errors: they abort a run before any
/// work starts. `NoImagesFound` aborts a batch whose input directory
/// holds no file with a supported image extension. Decode and encode
/// failures of individual files are not values of this type: they are
/// recorded per file as an `Outcome` and never abort a batch.
#[derive(Clone, Copy, Debug, PartialEq, Eq, Structural)]
pub enum ConvertError {
    /// The format token names no supported output container.
    UnsupportedFormat,
    /// A dimension string does not split into exactly two parts on `x`.
    InvalidDimensionFormat,
    /// A dimension segment is not a base-10 integer that fits in `u32`.
    InvalidNumber,
    /// A dimension parsed as zero; both sides must be positive.
    ZeroDimension,
    /// A batch walk discovered no file with a supported image extension.
    NoImagesFound,
}

impl ConvertError {
    /// A short human-readable description of the error.
    pub fn message(&self) -> (m: &'static str)
        ensures
            m@ == match *self {
                ConvertError::UnsupportedFormat => "unsupported format"@,
                ConvertError::InvalidDimensionFormat => "invalid dimensions format, use WIDTHxHEIGHT"@,
                ConvertError::InvalidNumber => "width and height must be base-10 integers"@,
                ConvertError::ZeroDimension => "width and height must be greater than 0"@,
                ConvertError::NoImagesFound => "no image files found"@,
            },
    {
        match *self {
            ConvertError::UnsupportedFormat => "unsupported format",
            ConvertError::InvalidDimensionFormat => "invalid dimensions format, use WIDTHxHEIGHT",
            ConvertError::InvalidNumber => "width and height must be base-10 integers",
            ConvertError::ZeroDimension => "width and height must be greater than 0",
            ConvertError::NoImagesFound => "no image files found",
        }
    }
}

} // verus!
