//! The immutable configuration of one conversion run.

use vstd::prelude::*;

use crate::dimensions::{parse_dimensions, parse_dimensions_result};
use crate::errors::ConvertError;

verus! {

/// The quality scalar clamped into `[1, 100]`: out-of-range values are
/// clamped, never rejected.
pub open spec fn clamp_quality(q: u8) -> u8 {
    if q < 1 {
        1
    } else if q > 100 {
        100
    } else {
        q
    }
}

/// The shared configuration of a conversion run: the JPEG quality scalar
/// and the optional literal resize dimensions. Built once from validated
/// input and read-only afterwards.
#[derive(Clone, Copy, Debug)]
pub struct ImageConverter {
    /// Lossy-compression quality for JPEG output, always in `[1, 100]`.
    pub quality: u8,
    /// Target `(width, height)`, applied literally, both positive; or
    /// `None` for no resize.
    pub resize: Option<(u32, u32)>,
}

impl ImageConverter {
    /// The configuration invariant: quality in range, dimensions positive.
    pub open spec fn wf(self) -> bool {
        &&& 1 <= self.quality <= 100
        &&& match self.resize {
            Some(dims) => dims.0 > 0 && dims.1 > 0,
            None => true,
        }
    }

    /// Builds the run configuration: the quality is clamped into
    /// `[1, 100]`, and the resize string, when given, must parse as
    /// positive `WIDTHxHEIGHT` dimensions.
    pub fn new(quality: u8, resize: Option<String>) -> (r: Result<ImageConverter, ConvertError>)
        ensures
            match resize {
                None => r == Ok::<ImageConverter, ConvertError>(
                    ImageConverter { quality: clamp_quality(quality), resize: None },
                ),
                Some(s) => match parse_dimensions_result(s@) {
                    Ok(dims) => r == Ok::<ImageConverter, ConvertError>(
                        ImageConverter { quality: clamp_quality(quality), resize: Some(dims) },
                    ),
                    Err(e) => r == Err::<ImageConverter, ConvertError>(e),
                },
            },
            r matches Ok(c) ==> c.wf(),
    {
        let resize_dims: Option<(u32, u32)> = match resize {
            Some(resize_str) => match parse_dimensions(resize_str.as_str()) {
                Ok(dims) => Some(dims),
                Err(e) => {
                    return Err(e);
                },
            },
            None => None,
        };
        let q: u8 = if quality < 1 {
            1
        } else if quality > 100 {
            100
        } else {
            quality
        };
        Ok(ImageConverter { quality: q, resize: resize_dims })
    }

    /// The pixel dimensions the written output must have: the configured
    /// resize target when one is set, else the source dimensions.
    pub open spec fn spec_output_dimensions(self, src_w: u32, src_h: u32) -> (u32, u32) {
        match self.resize {
            Some(dims) => dims,
            None => (src_w, src_h),
        }
    }

    /// The dimensions to encode at, given the decoded source dimensions.
    pub fn output_dimensions(&self, src_w: u32, src_h: u32) -> (r: (u32, u32))
        ensures
            r == self.spec_output_dimensions(src_w, src_h),
    {
        match self.resize {
            Some(dims) => dims,
            None => (src_w, src_h),
        }
    }
}

} // verus!
