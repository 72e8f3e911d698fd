//! The validated run configuration handed over by the command line.

use vstd::prelude::*;

use crate::dimensions::parse_dimensions_result;
use crate::errors::ConvertError;
use crate::job::{clamp_quality, ImageConverter};

verus! {

/// One run of the converter, as plain values: where to read, where to
/// write, the target format token, the quality scalar, the optional
/// resize string, and whether to convert a whole directory tree. The
/// argument-parsing shell fills this in and the library validates it.
#[derive(Clone, Debug)]
pub struct Args {
    /// Source file, or source directory in batch mode.
    pub input: String,
    /// Destination file, or destination directory in batch mode.
    pub output: String,
    /// Target format token, resolved case-insensitively.
    pub format: String,
    /// JPEG quality; clamped into `[1, 100]` before use.
    pub quality: u8,
    /// Literal resize target as `WIDTHxHEIGHT`, if any.
    pub resize: Option<String>,
    /// Whether to convert a directory tree instead of one file.
    pub batch: bool,
}

impl Args {
    /// The conversion job these arguments configure: the quality clamped
    /// into range, and the resize string parsed and validated.
    pub fn job(&self) -> (r: Result<ImageConverter, ConvertError>)
        ensures
            match self.resize {
                None => r == Ok::<ImageConverter, ConvertError>(
                    ImageConverter { quality: clamp_quality(self.quality), resize: None },
                ),
                Some(s) => match parse_dimensions_result(s@) {
                    Ok(dims) => r == Ok::<ImageConverter, ConvertError>(
                        ImageConverter { quality: clamp_quality(self.quality), resize: Some(dims) },
                    ),
                    Err(e) => r == Err::<ImageConverter, ConvertError>(e),
                },
            },
            r matches Ok(c) ==> c.wf(),
    {
        let resize: Option<String> = match &self.resize {
            Some(s) => Some(s.clone()),
            None => None,
        };
        ImageConverter::new(self.quality, resize)
    }
}

} // verus!
