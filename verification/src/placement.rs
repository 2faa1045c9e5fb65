//! Watermark placement: turns an anchor into the four border widths that
//! surround the overlay on the canvas. Overflow past an edge is absorbed
//! by the opposite border, so the borders and the overlay always span
//! the canvas exactly (up to the one truncated pixel of an odd centered
//! overlay).

use vstd::prelude::*;
use crate::request::{HorizontalPosition, Point, VerticalPosition};

verus! {

/// Left and right border widths for a horizontal anchor on a canvas of
/// width `w` holding an overlay of width `wmw`.
pub open spec fn spec_h_borders(w: int, wmw: int, x: HorizontalPosition) -> (int, int) {
    match x {
        HorizontalPosition::Center => {
            let left = w / 2 - wmw / 2;
            (left, left + w % 2)
        },
        HorizontalPosition::Left(o) => {
            let overflow = w - o - wmw;
            if overflow < 0 {
                (o + overflow, 0)
            } else {
                (o as int, overflow)
            }
        },
        HorizontalPosition::Right(o) => {
            let left = w - o - wmw;
            if left < 0 {
                (0, o + left)
            } else {
                (left, o as int)
            }
        },
    }
}

/// Top and bottom border widths for a vertical anchor on a canvas of
/// height `h` holding an overlay of height `wmh`.
pub open spec fn spec_v_borders(h: int, wmh: int, y: VerticalPosition) -> (int, int) {
    match y {
        VerticalPosition::Center => {
            let top = h / 2 - wmh / 2;
            (top, top + h % 2)
        },
        VerticalPosition::Top(o) => {
            let overflow = h - o - wmh;
            if overflow < 0 {
                (o + overflow, 0)
            } else {
                (o as int, overflow)
            }
        },
        VerticalPosition::Bottom(o) => {
            let top = h - o - wmh;
            if top < 0 {
                (0, o + top)
            } else {
                (top, o as int)
            }
        },
    }
}

/// True when the anchor's offset, if any, is small enough for the
/// border arithmetic to stay within machine range.
pub open spec fn spec_h_offset_in_range(x: HorizontalPosition) -> bool {
    match x {
        HorizontalPosition::Center => true,
        HorizontalPosition::Left(o) => -0x2000_0000 <= o <= 0x2000_0000,
        HorizontalPosition::Right(o) => -0x2000_0000 <= o <= 0x2000_0000,
    }
}

/// True when the anchor's offset, if any, is small enough for the
/// border arithmetic to stay within machine range.
pub open spec fn spec_v_offset_in_range(y: VerticalPosition) -> bool {
    match y {
        VerticalPosition::Center => true,
        VerticalPosition::Top(o) => -0x2000_0000 <= o <= 0x2000_0000,
        VerticalPosition::Bottom(o) => -0x2000_0000 <= o <= 0x2000_0000,
    }
}

/// Computes `(left, top, right, bottom)` border widths that place the
/// overlay at the anchored point of the canvas, clamping an overlay that
/// would overshoot an edge by absorbing the excess into the opposite
/// border.
pub fn get_watermark_borders(
    width: i32,
    height: i32,
    wm_width: i32,
    wm_height: i32,
    point: &Point,
) -> (r: (i32, i32, i32, i32))
    requires
        0 < width <= 0x2000_0000,
        0 < height <= 0x2000_0000,
        0 <= wm_width <= 0x2000_0000,
        0 <= wm_height <= 0x2000_0000,
        spec_h_offset_in_range(point.x),
        spec_v_offset_in_range(point.y),
    ensures
        (r.0 as int, r.2 as int) == spec_h_borders(width as int, wm_width as int, point.x),
        (r.1 as int, r.3 as int) == spec_v_borders(height as int, wm_height as int, point.y),
{
    let (left, right) = match point.x {
        HorizontalPosition::Center => {
            let left = (width / 2) - (wm_width / 2);
            (left, left + (width % 2))
        },
        HorizontalPosition::Left(x) => {
            let right = width - x - wm_width;
            let left = x + if right < 0 {
                right
            } else {
                0
            };
            (
                left,
                if right > 0 {
                    right
                } else {
                    0
                },
            )
        },
        HorizontalPosition::Right(x) => {
            let left = width - x - wm_width;
            let right = x + if left < 0 {
                left
            } else {
                0
            };
            (
                if left > 0 {
                    left
                } else {
                    0
                },
                right,
            )
        },
    };
    let (top, bottom) = match point.y {
        VerticalPosition::Center => {
            let top = (height / 2) - (wm_height / 2);
            (top, top + (height % 2))
        },
        VerticalPosition::Top(y) => {
            let bottom = height - y - wm_height;
            let top = y + if bottom < 0 {
                bottom
            } else {
                0
            };
            (
                top,
                if bottom > 0 {
                    bottom
                } else {
                    0
                },
            )
        },
        VerticalPosition::Bottom(y) => {
            let top = height - y - wm_height;
            let bottom = y + if top < 0 {
                top
            } else {
                0
            };
            (
                if top > 0 {
                    top
                } else {
                    0
                },
                bottom,
            )
        },
    };
    (left, top, right, bottom)
}

/// The placement invariant: the borders and the overlay span the canvas
/// exactly, `left + wmW + right == canvasW` and `top + wmH + bottom ==
/// canvasH`, on every anchor including the clamped overflow cases. For a
/// centered axis this asks the overlay's side to be even: an odd
/// centered side overshoots the canvas by the one truncated pixel.
pub proof fn lemma_borders_span_canvas(w: int, h: int, wmw: int, wmh: int, point: Point)
    requires
        point.x is Center ==> wmw % 2 == 0,
        point.y is Center ==> wmh % 2 == 0,
    ensures
        ({
            let (left, right) = spec_h_borders(w, wmw, point.x);
            left + wmw + right == w
        }),
        ({
            let (top, bottom) = spec_v_borders(h, wmh, point.y);
            top + wmh + bottom == h
        }),
{
}

} // verus!

