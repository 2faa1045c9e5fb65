//! Error taxonomy of the pipeline: every failure of a fetch or of the
//! composition is mapped to one of these kinds before it leaves the
//! pipeline, and each kind carries its HTTP status.

use vstd::prelude::*;
use crate::request::Size;

verus! {

/// A requested geometry was rejected: some present side was zero or
/// negative, or a watermark scale lay outside its accepted range.
/// Holds the offending requested size.
#[derive(Debug, PartialEq, Eq, Clone)]
pub struct InvalidSizeError {
    pub width: Option<i32>,
    pub height: Option<i32>,
}

impl InvalidSizeError {
    pub fn new(size: &Size) -> (e: InvalidSizeError)
        ensures
            e.width == size.width,
            e.height == size.height,
    {
        InvalidSizeError { width: size.width, height: size.height }
    }
}

/// How a codec operation failed: the input image could not be opened or
/// decoded (the caller's fault), or an internal processing step failed.
#[derive(Debug, PartialEq, Eq, Clone, Copy)]
pub enum CodecFailure {
    DecodeFailed,
    ProcessingFailed,
}

/// The closed set of failures a request can surface. Base-image fetch
/// and composition failures are fatal; a watermark fetch failure is
/// recovered by dropping that watermark.
#[derive(Debug, PartialEq, Eq, Clone)]
pub enum ImageProcessingError {
    /// The source locator could not be parsed.
    InvalidResourceUriProvided(String),
    /// The fetch of an image timed out.
    ImageDownloadTimedOut,
    /// The upstream answered with a client-error status for this resource.
    ClientReturnedErrorStatusCode(u16, String),
    /// The fetch failed in transfer, or the upstream answered with a
    /// status that is neither success nor client error.
    ImageDownloadFailed,
    /// The composition task's completion could not be awaited.
    ProcessingWorkerJoinError,
    /// The codec rejected the work.
    ImageProcessingFailed(CodecFailure),
    /// A fetched image grew past the configured maximum byte count.
    FileSizeExceeded(u32),
}

impl ImageProcessingError {
    /// The HTTP status this error maps to: client-attributable failures
    /// answer 400 (or the upstream's own client-error status, where it is
    /// a representable code), internal ones 500.
    pub open spec fn spec_status_code(self) -> int {
        match self {
            ImageProcessingError::ClientReturnedErrorStatusCode(code, _) => {
                if 100 <= code <= 999 {
                    code as int
                } else {
                    400
                }
            },
            ImageProcessingError::ImageProcessingFailed(CodecFailure::DecodeFailed) => 400,
            ImageProcessingError::ImageDownloadTimedOut => 400,
            ImageProcessingError::InvalidResourceUriProvided(_) => 400,
            ImageProcessingError::FileSizeExceeded(_) => 400,
            _ => 500,
        }
    }

    pub fn status_code(&self) -> (s: u16)
        ensures
            s == self.spec_status_code(),
    {
        match self {
            ImageProcessingError::ClientReturnedErrorStatusCode(code, _) => {
                if 100 <= *code && *code <= 999 {
                    *code
                } else {
                    400
                }
            },
            ImageProcessingError::ImageProcessingFailed(CodecFailure::DecodeFailed) => 400,
            ImageProcessingError::ImageDownloadTimedOut => 400,
            ImageProcessingError::InvalidResourceUriProvided(_) => 400,
            ImageProcessingError::FileSizeExceeded(_) => 400,
            ImageProcessingError::ImageProcessingFailed(CodecFailure::ProcessingFailed) => 500,
            ImageProcessingError::ImageDownloadFailed => 500,
            ImageProcessingError::ProcessingWorkerJoinError => 500,
        }
    }
}

} // verus!
