//! Target-size fitting: decides the output dimensions of the base image
//! and the fitted dimensions of a watermark. All ratio arithmetic
//! truncates toward zero; results never exceed the original, and a
//! resolved side is never below one pixel (truncation alone could reach
//! zero on extreme aspect ratios, but resolved dimensions stay positive).

use vstd::prelude::*;
use vstd::arithmetic::div_mod::{
    lemma_div_by_multiple, lemma_div_is_ordered, lemma_div_pos_is_pos, lemma_fundamental_div_mod,
    lemma_mod_division_less_than_divisor, lemma_multiply_divide_le,
};
use vstd::arithmetic::mul::{lemma_mul_inequality, lemma_mul_is_commutative};
use crate::errors::InvalidSizeError;
use crate::request::Size;

verus! {

/// `opposite` scaled by the ratio `desired / original`, truncated toward
/// zero. This is how a missing side follows a requested one.
pub open spec fn spec_scaled(desired: int, original: int, opposite: int) -> int {
    opposite * desired / original
}

/// A resolved side is never below one pixel: truncation toward zero may
/// reach zero on extreme aspect ratios, but dimensions stay positive.
pub open spec fn spec_at_least_one(v: int) -> int {
    if v < 1 {
        1
    } else {
        v
    }
}

/// A scaled side is never negative and never exceeds the side it scales,
/// as long as the request does not exceed the original.
pub proof fn lemma_scaled_bounds(desired: int, original: int, opposite: int)
    requires
        0 < desired <= original,
        0 < opposite,
    ensures
        0 <= spec_scaled(desired, original, opposite) <= opposite,
{
    lemma_mul_is_commutative(opposite, desired);
    lemma_mul_is_commutative(opposite, original);
    lemma_mul_inequality(desired, original, opposite);
    lemma_div_is_ordered(opposite * desired, opposite * original, original);
    lemma_div_by_multiple(opposite, original);
    lemma_div_pos_is_pos(opposite * desired, original);
}

/// The dimensions the base image is resized to, or `None` when the
/// requested size is rejected. In priority order: no requested side
/// keeps the original; a non-positive side is rejected; a request
/// exceeding the original on both sides keeps the original (never
/// upscale); otherwise the binding side is taken as requested and the
/// other follows the original's proportion, truncated toward zero.
pub open spec fn spec_target_size(ow: int, oh: int, size: Size) -> Option<(int, int)> {
    match (size.width, size.height) {
        (Option::None, Option::None) => Some((ow, oh)),
        (Option::Some(w), Option::Some(h)) => {
            if w <= 0 || h <= 0 {
                None
            } else if h > oh && w > ow {
                Some((ow, oh))
            } else if h * ow < w * oh && h <= oh {
                Some((spec_at_least_one(spec_scaled(h as int, oh, ow)), h as int))
            } else {
                Some((w as int, spec_at_least_one(spec_scaled(w as int, ow, oh))))
            }
        },
        (Option::None, Option::Some(h)) => {
            if h <= 0 {
                None
            } else if h > oh {
                Some((ow, oh))
            } else {
                Some((spec_at_least_one(spec_scaled(h as int, oh, ow)), h as int))
            }
        },
        (Option::Some(w), Option::None) => {
            if w <= 0 {
                None
            } else if w > ow {
                Some((ow, oh))
            } else {
                Some((w as int, spec_at_least_one(spec_scaled(w as int, ow, oh))))
            }
        },
    }
}

/// One side scaled to follow the other side's requested ratio:
/// `opposite_orig_measure * (desired_measure / original_measure)`,
/// truncated toward zero and raised to the one-pixel minimum.
fn get_ratio(desired_measure: i32, original_measure: i32, opposite_orig_measure: i32) -> (r: i32)
    requires
        0 < desired_measure <= original_measure,
        0 < opposite_orig_measure,
    ensures
        r == spec_at_least_one(spec_scaled(
            desired_measure as int,
            original_measure as int,
            opposite_orig_measure as int,
        )),
        1 <= r <= opposite_orig_measure,
{
    proof {
        lemma_scaled_bounds(
            desired_measure as int,
            original_measure as int,
            opposite_orig_measure as int,
        );
        assert((opposite_orig_measure as int) * (desired_measure as int)
            < 0x4000_0000_0000_0000) by (nonlinear_arith)
            requires
                0 < (opposite_orig_measure as int) < 0x8000_0000,
                0 < (desired_measure as int) < 0x8000_0000,
        ;
    }
    let product: i64 = (opposite_orig_measure as i64) * (desired_measure as i64);
    let scaled = (product / (original_measure as i64)) as i32;
    if scaled < 1 {
        1
    } else {
        scaled
    }
}

/// Decides the output dimensions for a requested size, given the
/// original's dimensions. Rejects the request exactly when some present
/// side is non-positive; otherwise the result is `spec_target_size`,
/// and it never exceeds the original on either side.
pub fn get_target_size(original_width: i32, original_height: i32, desired_size: &Size) -> (r:
    Result<(i32, i32), InvalidSizeError>)
    requires
        0 < original_width,
        0 < original_height,
    ensures
        r is Err <==> desired_size.spec_has_nonpositive(),
        r matches Ok(dims) ==> Some((dims.0 as int, dims.1 as int)) == spec_target_size(
            original_width as int,
            original_height as int,
            *desired_size,
        ),
        r matches Ok(dims) ==> 1 <= dims.0 <= original_width && 1 <= dims.1 <= original_height,
        r matches Err(e) ==> e.width == desired_size.width && e.height == desired_size.height,
{
    match desired_size {
        Size { width: None, height: None } => Ok((original_width, original_height)),
        s if is_negative_or_zero(s) => Err(InvalidSizeError::new(desired_size)),
        Size { width: Some(w), height: Some(h) } if *h > original_height && *w
            > original_width => Ok((original_width, original_height)),
        Size { width: Some(w), height: Some(h) } => {
            proof {
                assert((h as int) * (original_width as int) < 0x4000_0000_0000_0000 && (w as int)
                    * (original_height as int) < 0x4000_0000_0000_0000) by (nonlinear_arith)
                    requires
                        0 < (h as int) < 0x8000_0000,
                        0 < (w as int) < 0x8000_0000,
                        0 < (original_width as int) < 0x8000_0000,
                        0 < (original_height as int) < 0x8000_0000,
                ;
            }
            let fits_height = (*h as i64) * (original_width as i64) < (*w as i64) * (original_height
                as i64);
            if fits_height && *h <= original_height {
                Ok((get_ratio(*h, original_height, original_width), *h))
            } else {
                proof {
                    if *w > original_width {
                        assert(false) by (nonlinear_arith)
                            requires
                                (w as int) > (original_width as int),
                                (h as int) <= (original_height as int),
                                0 < original_width as int,
                                0 < original_height as int,
                                0 < h as int,
                                !((h as int) * (original_width as int) < (w as int)
                                    * (original_height as int) && (h as int) <= (original_height
                                    as int)),
                        ;
                    }
                }
                Ok((*w, get_ratio(*w, original_width, original_height)))
            }
        },
        Size { width: None, height: Some(h) } => {
            if *h > original_height {
                Ok((original_width, original_height))
            } else {
                Ok((get_ratio(*h, original_height, original_width), *h))
            }
        },
        Size { width: Some(w), height: None } => {
            if *w > original_width {
                Ok((original_width, original_height))
            } else {
                Ok((*w, get_ratio(*w, original_width, original_height)))
            }
        },
    }
}

/// The rejection rule for requested sizes: any present side that is
/// zero or negative makes the whole size invalid.
pub fn is_negative_or_zero(size: &Size) -> (r: bool)
    ensures
        r == size.spec_has_nonpositive(),
{
    (size.height.is_some() && *size.height.as_ref().unwrap() <= 0) || (size.width.is_some()
        && *size.width.as_ref().unwrap() <= 0)
}


/// The dimensions a watermark is scaled to: the overlay is fitted
/// inside the box that `size_millipercent` thousandths of a percent of
/// the base image span, keeping the overlay's own aspect ratio
/// (contain), truncated toward zero and raised to the one-pixel
/// minimum. `None` when the scale lies outside `(0, 100_000]`, that is
/// outside zero to one hundred percent.
pub open spec fn spec_watermark_target_size(
    iw: int,
    ih: int,
    wmw: int,
    wmh: int,
    size_millipercent: int,
) -> Option<(int, int)> {
    if size_millipercent <= 0 || size_millipercent > 100_000 {
        None
    } else if wmw * ih >= wmh * iw {
        Some(
            (
                spec_at_least_one(iw * size_millipercent / 100_000),
                spec_at_least_one(wmh * (iw * size_millipercent) / (100_000 * wmw)),
            ),
        )
    } else {
        Some(
            (
                spec_at_least_one(wmw * (ih * size_millipercent) / (100_000 * wmh)),
                spec_at_least_one(ih * size_millipercent / 100_000),
            ),
        )
    }
}

/// Fits a watermark of `wm_width` by `wm_height` inside the box spanned
/// by `size_millipercent` thousandths of a percent of the base image,
/// keeping the watermark's aspect ratio. Rejects exactly the scales
/// outside zero to one hundred percent; the result never exceeds the
/// base image and never falls below one pixel on either side.
pub fn get_watermark_target_size(
    image_width: i32,
    image_height: i32,
    wm_width: i32,
    wm_height: i32,
    size_millipercent: i32,
) -> (r: Result<(i32, i32), InvalidSizeError>)
    requires
        0 < image_width,
        0 < image_height,
        0 < wm_width,
        0 < wm_height,
    ensures
        r is Err <==> (size_millipercent <= 0 || size_millipercent > 100_000),
        r matches Ok(dims) ==> Some((dims.0 as int, dims.1 as int)) == spec_watermark_target_size(
            image_width as int,
            image_height as int,
            wm_width as int,
            wm_height as int,
            size_millipercent as int,
        ),
        r matches Ok(dims) ==> 1 <= dims.0 <= image_width && 1 <= dims.1 <= image_height,
        r matches Err(e) ==> e.width is None && e.height is None,
{
    if size_millipercent <= 0 || size_millipercent > 100_000 {
        return Err(InvalidSizeError::new(&Size::default()));
    }
    let iw: i128 = image_width as i128;
    let ih: i128 = image_height as i128;
    let wmw: i128 = wm_width as i128;
    let wmh: i128 = wm_height as i128;
    let p: i128 = size_millipercent as i128;
    proof {
        assert((iw as int) * (p as int) < 0x1_0000_0000_0000 && (ih as int) * (p as int)
            < 0x1_0000_0000_0000 && (wmw as int) * (ih as int) < 0x4000_0000_0000_0000 && (wmh
            as int) * (iw as int) < 0x4000_0000_0000_0000) by (nonlinear_arith)
            requires
                0 < (iw as int) < 0x8000_0000,
                0 < (ih as int) < 0x8000_0000,
                0 < (wmw as int) < 0x8000_0000,
                0 < (wmh as int) < 0x8000_0000,
                0 < (p as int) <= 100_000,
        ;
    }
    let num_w: i128 = iw * p;
    let num_h: i128 = ih * p;
    if wmw * ih >= wmh * iw {
        proof {
            assert((wmh as int) * (num_w as int) < 0x8000_0000_0000_0000_0000 && 0 <= (wmh as int)
                * (num_w as int) && 0 < 100_000 * (wmw as int) < 0x1_0000_0000_0000) by (nonlinear_arith)
                requires
                    0 < (wmh as int) < 0x8000_0000,
                    0 < (wmw as int) < 0x8000_0000,
                    0 <= (num_w as int) < 0x1_0000_0000_0000,
            ;
        }
        let tw: i128 = num_w / 100_000;
        let th: i128 = (wmh * num_w) / (100_000 * wmw);
        proof {
            assert((iw as int) * (p as int) <= 100_000 * (iw as int)) by (nonlinear_arith)
                requires
                    0 < (iw as int),
                    0 < (p as int) <= 100_000,
            ;
            lemma_multiply_divide_le(iw as int * (p as int), 100_000, iw as int);
            lemma_div_pos_is_pos(iw as int * (p as int), 100_000);
            assert((wmh as int) * ((iw as int) * (p as int)) <= (100_000 * (wmw as int)) * (ih
                as int)) by (nonlinear_arith)
                requires
                    (wmh as int) * (iw as int) <= (wmw as int) * (ih as int),
                    0 < (p as int) <= 100_000,
                    0 < (wmh as int),
                    0 < (wmw as int),
                    0 < (iw as int),
                    0 < (ih as int),
            ;
            lemma_multiply_divide_le(
                (wmh as int) * ((iw as int) * (p as int)),
                100_000 * (wmw as int),
                ih as int,
            );
            lemma_div_pos_is_pos(
                (wmh as int) * ((iw as int) * (p as int)),
                100_000 * (wmw as int),
            );
        }
        let tw: i128 = if tw < 1 {
            1
        } else {
            tw
        };
        let th: i128 = if th < 1 {
            1
        } else {
            th
        };
        Ok((tw as i32, th as i32))
    } else {
        proof {
            assert((wmw as int) * (num_h as int) < 0x8000_0000_0000_0000_0000 && 0 <= (wmw as int)
                * (num_h as int) && 0 < 100_000 * (wmh as int) < 0x1_0000_0000_0000) by (nonlinear_arith)
                requires
                    0 < (wmh as int) < 0x8000_0000,
                    0 < (wmw as int) < 0x8000_0000,
                    0 <= (num_h as int) < 0x1_0000_0000_0000,
            ;
        }
        let th: i128 = num_h / 100_000;
        let tw: i128 = (wmw * num_h) / (100_000 * wmh);
        proof {
            assert((ih as int) * (p as int) <= 100_000 * (ih as int)) by (nonlinear_arith)
                requires
                    0 < (ih as int),
                    0 < (p as int) <= 100_000,
            ;
            lemma_multiply_divide_le(ih as int * (p as int), 100_000, ih as int);
            lemma_div_pos_is_pos(ih as int * (p as int), 100_000);
            assert((wmw as int) * ((ih as int) * (p as int)) <= (100_000 * (wmh as int)) * (iw
                as int)) by (nonlinear_arith)
                requires
                    (wmw as int) * (ih as int) < (wmh as int) * (iw as int),
                    0 < (p as int) <= 100_000,
                    0 < (wmh as int),
                    0 < (wmw as int),
                    0 < (iw as int),
                    0 < (ih as int),
            ;
            lemma_multiply_divide_le(
                (wmw as int) * ((ih as int) * (p as int)),
                100_000 * (wmh as int),
                iw as int,
            );
            lemma_div_pos_is_pos(
                (wmw as int) * ((ih as int) * (p as int)),
                100_000 * (wmh as int),
            );
        }
        let tw: i128 = if tw < 1 {
            1
        } else {
            tw
        };
        let th: i128 = if th < 1 {
            1
        } else {
            th
        };
        Ok((tw as i32, th as i32))
    }
}


/// Requesting no size at all keeps the original dimensions exactly.
pub proof fn lemma_fit_identity(ow: int, oh: int)
    ensures
        spec_target_size(ow, oh, Size { width: None, height: None }) == Some((ow, oh)),
{
}

/// A requested size is rejected exactly when one of its present sides is
/// zero or negative, independent of which side it is.
pub proof fn lemma_fit_rejects_nonpositive(ow: int, oh: int, size: Size)
    ensures
        spec_target_size(ow, oh, size) is None <==> size.spec_has_nonpositive(),
{
}

/// Never upscale: when both requested sides exceed the original, the
/// original dimensions are kept exactly.
pub proof fn lemma_fit_no_upscale(ow: int, oh: int, size: Size)
    requires
        0 < ow,
        0 < oh,
        size.width matches Some(w) && w > ow,
        size.height matches Some(h) && h > oh,
    ensures
        spec_target_size(ow, oh, size) == Some((ow, oh)),
{
}

/// Truncation brackets: the scaled side multiplied back by the original
/// differs from the exact product by less than one original unit.
pub proof fn lemma_scaled_brackets(desired: int, original: int, opposite: int)
    requires
        0 < original,
        0 <= opposite,
    ensures
        spec_scaled(desired, original, opposite) * original <= opposite * desired < (spec_scaled(
            desired,
            original,
            opposite,
        ) + 1) * original,
{
    let q = spec_scaled(desired, original, opposite);
    lemma_fundamental_div_mod(opposite * desired, original);
    lemma_mod_division_less_than_divisor(opposite * desired, original);
    assert(original * q <= opposite * desired < original * (q + 1) ==> q * original <= opposite
        * desired < (q + 1) * original) by (nonlinear_arith);
    assert(original * (q + 1) == original * q + original) by (nonlinear_arith);
}

/// Aspect preservation for one-sided requests that do not exceed the
/// original: the requested side is taken exactly; the computed side is
/// the exact proportional value truncated toward zero, raised to the
/// one-pixel minimum, so wherever a whole pixel is available the output
/// aspect ratio matches the original's up to less than one pixel of
/// truncation.
pub proof fn lemma_fit_one_sided_aspect(ow: int, oh: int, size: Size)
    requires
        0 < ow,
        0 < oh,
    ensures
        size.width is None ==> (size.height matches Some(h) ==> (0 < h <= oh ==> ({
            let tw = spec_scaled(h as int, oh, ow);
            &&& spec_target_size(ow, oh, size) == Some((spec_at_least_one(tw), h as int))
            &&& tw * oh <= ow * h < (tw + 1) * oh
        }))),
        size.height is None ==> (size.width matches Some(w) ==> (0 < w <= ow ==> ({
            let th = spec_scaled(w as int, ow, oh);
            &&& spec_target_size(ow, oh, size) == Some((w as int, spec_at_least_one(th)))
            &&& th * ow <= oh * w < (th + 1) * ow
        }))),
{
    match size.height {
        Some(h) => {
            if size.width is None && 0 < h <= oh {
                lemma_scaled_brackets(h as int, oh, ow);
            }
        },
        None => {},
    }
    match size.width {
        Some(w) => {
            if size.height is None && 0 < w <= ow {
                lemma_scaled_brackets(w as int, ow, oh);
            }
        },
        None => {},
    }
}

/// Resolved dimensions are positive: a successful fit never yields a
/// side below one pixel.
pub proof fn lemma_fit_positive(ow: int, oh: int, size: Size)
    requires
        0 < ow,
        0 < oh,
    ensures
        spec_target_size(ow, oh, size) matches Some(dims) ==> 1 <= dims.0 && 1 <= dims.1,
{
}

/// A fitted watermark's dimensions are positive as well.
pub proof fn lemma_watermark_fit_positive(iw: int, ih: int, wmw: int, wmh: int, scale: int)
    requires
        0 < iw,
        0 < ih,
    ensures
        spec_watermark_target_size(iw, ih, wmw, wmh, scale) matches Some(dims) ==> 1 <= dims.0
            && 1 <= dims.1,
{
}

/// A watermark scale is rejected exactly when it lies outside zero to
/// one hundred percent, expressed in thousandths of a percent.
pub proof fn lemma_watermark_scale_range(iw: int, ih: int, wmw: int, wmh: int, scale: int)
    ensures
        spec_watermark_target_size(iw, ih, wmw, wmh, scale) is None <==> (scale <= 0 || scale
            > 100_000),
{
}

} // verus!
