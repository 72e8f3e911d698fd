//! PixelForge: a batch image-conversion pipeline.
//!
//! The library holds the verified core of the converter: format-token
//! resolution, dimension parsing, output-path mapping, the conversion-job
//! configuration, and the batch planning and outcome aggregation that the
//! orchestrator is built on. Decoding, resampling and encoding of pixel
//! data are delegated to an imaging library by the surrounding binary and
//! are out of scope here.

pub mod batch;
pub mod cli;
pub mod dimensions;
pub mod errors;
pub mod formats;
pub mod job;
pub mod paths;
pub mod text;

pub use errors::ConvertError;
