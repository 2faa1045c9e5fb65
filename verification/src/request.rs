//! The request model: one base image reference plus an ordered list of
//! watermark overlays, with optional resize, rotation, output format and
//! quality. A request is parsed once at the HTTP edge and is immutable
//! afterwards; everything here is plain data the pipeline decides on.

use vstd::prelude::*;

verus! {

/// Default encode quality when the request names none.
pub const DEFAULT_QUALITY: i32 = 75;

/// Default watermark scale, in thousandths of a percent: the overlay
/// occupies at most ten percent of the base image's width and height.
pub const DEFAULT_WATERMARK_SIZE_MILLIPERCENT: i32 = 10_000;

/// Desired output dimensions of a request; an absent side means the
/// missing side follows the original's proportion.
#[derive(Debug, Clone)]
pub struct Size {
    pub width: Option<i32>,
    pub height: Option<i32>,
}

impl Size {
    /// True when at least one requested side is present and non-positive.
    pub open spec fn spec_has_nonpositive(&self) -> bool {
        ||| (self.width matches Some(w) && w <= 0)
        ||| (self.height matches Some(h) && h <= 0)
    }
}

impl Default for Size {
    fn default() -> (s: Size)
        ensures
            s.width is None,
            s.height is None,
    {
        Size { width: None, height: None }
    }
}

/// Horizontal anchor of an overlay: a pixel offset from the named edge,
/// or centered.
#[derive(Debug, Clone, Copy)]
pub enum HorizontalPosition {
    Left(i32),
    Right(i32),
    Center,
}

/// Vertical anchor of an overlay: a pixel offset from the named edge,
/// or centered.
#[derive(Debug, Clone, Copy)]
pub enum VerticalPosition {
    Top(i32),
    Bottom(i32),
    Center,
}

/// Where an overlay is anchored on the canvas.
#[derive(Debug, Clone, Copy)]
pub struct Point {
    pub x: HorizontalPosition,
    pub y: VerticalPosition,
}

impl Default for Point {
    fn default() -> (p: Point)
        ensures
            p.x == HorizontalPosition::Left(0),
            p.y == VerticalPosition::Top(0),
    {
        Point { x: HorizontalPosition::Left(0), y: VerticalPosition::Top(0) }
    }
}

/// Whether a watermark is placed at an explicit point or centered.
#[derive(Debug, Clone, Copy)]
pub enum WatermarkPosition {
    Center,
    Point,
}

impl Default for WatermarkPosition {
    fn default() -> (w: WatermarkPosition)
        ensures
            w == WatermarkPosition::Point,
    {
        WatermarkPosition::Point
    }
}

/// An extra rotation requested on top of the EXIF normalization,
/// anti-clockwise.
#[derive(Debug, Clone, Copy)]
pub enum Rotation {
    R90,
    R180,
    R270,
}

impl Rotation {
    /// The clockwise angle, in degrees, that realizes this anti-clockwise
    /// rotation on an engine that only turns clockwise.
    pub fn clockwise_degrees(&self) -> (d: u32)
        ensures
            *self is R90 ==> d == 270,
            *self is R180 ==> d == 180,
            *self is R270 ==> d == 90,
    {
        match self {
            Rotation::R90 => 270,
            Rotation::R180 => 180,
            Rotation::R270 => 90,
        }
    }
}

/// The output encodings the pipeline can answer with.
#[derive(Debug, Clone, Copy)]
pub enum ImageFormat {
    Png,
    Jpeg,
    Webp,
    Heic,
}

impl ImageFormat {
    pub open spec fn spec_name(self) -> Seq<char> {
        match self {
            ImageFormat::Jpeg => "jpeg"@,
            ImageFormat::Png => "png"@,
            ImageFormat::Webp => "webp"@,
            ImageFormat::Heic => "heic"@,
        }
    }

    /// The lowercase name of the format, as it appears in the response's
    /// media type.
    pub fn name(&self) -> (s: &'static str)
        ensures
            s@ == self.spec_name(),
    {
        match self {
            ImageFormat::Jpeg => "jpeg",
            ImageFormat::Png => "png",
            ImageFormat::Webp => "webp",
            ImageFormat::Heic => "heic",
        }
    }
}

impl Default for ImageFormat {
    fn default() -> (f: ImageFormat)
        ensures
            f == ImageFormat::Jpeg,
    {
        ImageFormat::Jpeg
    }
}

/// One overlay: where its bytes come from, where it is anchored, the
/// factor its alpha channel is multiplied by (in thousandths, unclamped),
/// and the share of the base image it may occupy, in thousandths of a
/// percent.
#[derive(Debug, Clone)]
pub struct Watermark {
    pub image_address: String,
    pub position: Point,
    pub alpha_permille: i32,
    pub size_millipercent: i32,
}

/// A full request: base image reference, optional target size, output
/// format and quality, ordered overlays (later ones are drawn on top),
/// and an optional extra rotation.
#[derive(Debug, Clone)]
pub struct ProcessImageRequest {
    pub image_address: String,
    pub size: Size,
    pub format: ImageFormat,
    pub quality: i32,
    pub watermarks: Vec<Watermark>,
    pub rotation: Option<Rotation>,
}

/// Wraps a value decoded from a request's query string.
pub struct ProcessImageRequestExtractor<T>(pub T);

} // verus!
