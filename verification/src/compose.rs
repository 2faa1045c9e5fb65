//! Composition planning: which decode mode the base image needs, how
//! each surviving watermark is scaled and placed, and the encode
//! parameters of each output format. The imaging engine executes these
//! plans; this module decides them.

use vstd::prelude::*;
use crate::errors::InvalidSizeError;
use crate::geometry::{
    get_target_size, get_watermark_target_size, spec_target_size, spec_watermark_target_size,
};
use crate::placement::{
    get_watermark_borders, spec_h_borders, spec_h_offset_in_range, spec_v_borders,
    spec_v_offset_in_range,
};
use crate::request::{ImageFormat, Rotation, Size, Watermark};

verus! {

/// The EXIF tag code of the orientation entry.
pub const ORIENTATION_TAG: u32 = 0x0112;

/// The EXIF entries of an image buffer: tag code and first integer
/// value of each entry, in order. A buffer without parseable EXIF data
/// has none.
pub uninterp spec fn exif_tags_of(bytes: Seq<u8>) -> Seq<(u32, Option<i64>)>;

/// Relies on rexif::parse_buffer_quiet and TagValue::to_i64: the parsed
/// entries, read as tag code and first integer value, are a function of
/// the bytes alone, and a buffer that does not parse yields none.
#[verifier::external_body]
fn parse_exif_tags(bytes: &Vec<u8>) -> (r: Vec<(u32, Option<i64>)>)
    ensures
        r@ == exif_tags_of(bytes@),
{
    match rexif::parse_buffer_quiet(&bytes[..]).0 {
        Ok(data) => data.entries.iter().map(|e| (e.tag as u32, e.value.to_i64(0))).collect(),
        Err(_) => Vec::new(),
    }
}

/// True of an EXIF entry that asks for a rotation: the orientation tag
/// with an integer value other than 0 or 1.
pub open spec fn spec_entry_rotates(entry: (u32, Option<i64>)) -> bool {
    &&& entry.0 == ORIENTATION_TAG
    &&& entry.1 matches Some(v) && v != 0 && v != 1
}

/// True when some EXIF entry asks for a rotation.
pub open spec fn spec_orientation_rotates(tags: Seq<(u32, Option<i64>)>) -> bool {
    exists|k: int| 0 <= k < tags.len() && #[trigger] spec_entry_rotates(tags[k])
}

/// Scans the parsed EXIF entries for an orientation that asks for a
/// rotation.
fn has_rotating_orientation(tags: &Vec<(u32, Option<i64>)>) -> (r: bool)
    ensures
        r == spec_orientation_rotates(tags@),
{
    let mut i: usize = 0;
    while i < tags.len()
        invariant
            0 <= i <= tags@.len(),
            forall|k: int| 0 <= k < i ==> !spec_entry_rotates(tags@[k]),
        decreases tags@.len() - i,
    {
        let (tag, value) = tags[i];
        match value {
            Some(v) => {
                if tag == ORIENTATION_TAG && v != 0 && v != 1 {
                    proof {
                        assert(spec_entry_rotates(tags@[i as int]));
                    }
                    return true;
                }
            },
            None => {},
        }
        i = i + 1;
    }
    false
}

/// How the base image is decoded and normalized: whether any rotation
/// happens at all, whether the decode may stream sequentially (no
/// random access is needed when nothing rotates), whether the EXIF
/// orientation is normalized, and which extra rotation is applied
/// after resizing.
pub struct DecodePlan {
    pub needs_rotation: bool,
    pub sequential_access: bool,
    pub autorotate: bool,
    pub extra_rotation: Option<Rotation>,
}

/// Decides the decode plan: rotation is needed when one was requested
/// or when the bytes' EXIF orientation asks for one; only a
/// rotation-free image may be decoded sequentially, and only a rotating
/// one is auto-rotated.
pub fn plan_decode(rotation: Option<Rotation>, bytes: &Vec<u8>) -> (p: DecodePlan)
    ensures
        p.needs_rotation == (rotation is Some || spec_orientation_rotates(exif_tags_of(bytes@))),
        p.sequential_access == !p.needs_rotation,
        p.autorotate == p.needs_rotation,
        p.extra_rotation == rotation,
{
    let needs_rotation = if rotation.is_some() {
        true
    } else {
        let tags = parse_exif_tags(bytes);
        has_rotating_orientation(&tags)
    };
    DecodePlan {
        needs_rotation,
        sequential_access: !needs_rotation,
        autorotate: needs_rotation,
        extra_rotation: rotation,
    }
}

/// The resize decision for a decoded base image: no requested size
/// passes the image through unchanged, otherwise the fitted target
/// dimensions are as `spec_target_size` says, and an invalid size is
/// rejected.
pub open spec fn spec_resize_decision(
    r: Result<Option<(i32, i32)>, InvalidSizeError>,
    ow: int,
    oh: int,
    size: Size,
) -> bool {
    if size.width is None && size.height is None {
        r matches Ok(t) && t is None
    } else if size.spec_has_nonpositive() {
        r is Err
    } else {
        r matches Ok(t) && t matches Some(dims) && Some((dims.0 as int, dims.1 as int))
            == spec_target_size(ow, oh, size)
    }
}

/// Decides whether and to which dimensions the base image is resized.
pub fn resize_target(original_width: i32, original_height: i32, size: &Size) -> (r: Result<
    Option<(i32, i32)>,
    InvalidSizeError,
>)
    requires
        0 < original_width,
        0 < original_height,
    ensures
        spec_resize_decision(r, original_width as int, original_height as int, *size),
        r matches Ok(t) ==> (t matches Some(dims) ==> (1 <= dims.0 <= original_width && 1 <= dims.1
            <= original_height)),
        r matches Err(e) ==> e.width == size.width && e.height == size.height,
{
    if size.width.is_none() && size.height.is_none() {
        return Ok(None);
    }
    match get_target_size(original_width, original_height, size) {
        Ok(dims) => Ok(Some(dims)),
        Err(e) => Err(e),
    }
}

/// One watermark's application: the dimensions it is scaled to, whether
/// that scaling shrinks it (the engine then resizes before the alpha
/// work rather than after), and the border widths that place it on the
/// canvas.
pub struct WatermarkApplication {
    pub target_width: i32,
    pub target_height: i32,
    pub shrinks: bool,
    pub left: i32,
    pub top: i32,
    pub right: i32,
    pub bottom: i32,
}

/// What a planned application promises: the target dimensions fit the
/// watermark inside its percentage box, `shrinks` says whether the
/// scaled watermark has fewer pixels than the decoded one, and the
/// borders place the scaled watermark at its anchor on the canvas.
pub open spec fn spec_watermark_application(
    a: WatermarkApplication,
    iw: int,
    ih: int,
    wmw: int,
    wmh: int,
    wm: Watermark,
) -> bool {
    &&& Some((a.target_width as int, a.target_height as int)) == spec_watermark_target_size(
        iw,
        ih,
        wmw,
        wmh,
        wm.size_millipercent as int,
    )
    &&& a.shrinks == (wmw * wmh > a.target_width * a.target_height)
    &&& (a.left as int, a.right as int) == spec_h_borders(iw, a.target_width as int, wm.position.x)
    &&& (a.top as int, a.bottom as int) == spec_v_borders(ih, a.target_height as int, wm.position.y)
}

/// Plans one watermark against the already-resized base image: its
/// fitted dimensions, whether it shrinks, and its placement borders.
/// Rejects exactly the scales outside zero to one hundred percent.
pub fn plan_watermark(
    image_width: i32,
    image_height: i32,
    wm_width: i32,
    wm_height: i32,
    wm: &Watermark,
) -> (r: Result<WatermarkApplication, InvalidSizeError>)
    requires
        0 < image_width <= 0x2000_0000,
        0 < image_height <= 0x2000_0000,
        0 < wm_width,
        0 < wm_height,
        spec_h_offset_in_range(wm.position.x),
        spec_v_offset_in_range(wm.position.y),
    ensures
        r is Err <==> (wm.size_millipercent <= 0 || wm.size_millipercent > 100_000),
        r matches Ok(a) ==> spec_watermark_application(
            a,
            image_width as int,
            image_height as int,
            wm_width as int,
            wm_height as int,
            *wm,
        ),
        r matches Err(e) ==> e.width is None && e.height is None,
{
    let (target_width, target_height) = match get_watermark_target_size(
        image_width,
        image_height,
        wm_width,
        wm_height,
        wm.size_millipercent,
    ) {
        Ok(dims) => dims,
        Err(e) => {
            return Err(e);
        },
    };
    proof {
        assert((wm_width as int) * (wm_height as int) < 0x4000_0000_0000_0000 && 0 <= (target_width
            as int) * (target_height as int) < 0x4000_0000_0000_0000) by (nonlinear_arith)
            requires
                0 < (wm_width as int) < 0x8000_0000,
                0 < (wm_height as int) < 0x8000_0000,
                0 <= (target_width as int) < 0x8000_0000,
                0 <= (target_height as int) < 0x8000_0000,
        ;
    }
    let shrinks = (wm_width as i64) * (wm_height as i64) > (target_width as i64) * (target_height
        as i64);
    let (left, top, right, bottom) = get_watermark_borders(
        image_width,
        image_height,
        target_width,
        target_height,
        &wm.position,
    );
    Ok(WatermarkApplication { target_width, target_height, shrinks, left, top, right, bottom })
}

/// Encode options for one output format: the requested quality passed
/// through unclamped, metadata stripped for every format, and the
/// format's own extras.
pub enum EncodeParameters {
    Jpeg { quality: i32, strip: bool, optimize_coding: bool, optimize_scans: bool, interlace: bool },
    Webp { quality: i32, strip: bool, effort: i32 },
    Png { quality: i32, strip: bool, bitdepth: i32 },
    Heic { quality: i32, strip: bool },
}

/// Maps an output format to its encode options: a pure lookup. Every
/// format strips metadata; JPEG additionally asks for progressive,
/// optimized encoding, WebP for a bounded effort, PNG for an 8-bit
/// depth.
pub fn encode_parameters(format: ImageFormat, quality: i32) -> (p: EncodeParameters)
    ensures
        format is Jpeg ==> p == (EncodeParameters::Jpeg {
            quality,
            strip: true,
            optimize_coding: true,
            optimize_scans: true,
            interlace: true,
        }),
        format is Webp ==> p == (EncodeParameters::Webp { quality, strip: true, effort: 2 }),
        format is Png ==> p == (EncodeParameters::Png { quality, strip: true, bitdepth: 8 }),
        format is Heic ==> p == (EncodeParameters::Heic { quality, strip: true }),
{
    match format {
        ImageFormat::Jpeg => EncodeParameters::Jpeg {
            quality,
            strip: true,
            optimize_coding: true,
            optimize_scans: true,
            interlace: true,
        },
        ImageFormat::Webp => EncodeParameters::Webp { quality, strip: true, effort: 2 },
        ImageFormat::Png => EncodeParameters::Png { quality, strip: true, bitdepth: 8 },
        ImageFormat::Heic => EncodeParameters::Heic { quality, strip: true },
    }
}

} // verus!
