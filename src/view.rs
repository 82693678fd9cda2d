//! From clip space to the screen, for billboards.
use crate::fixed::{scale, scaled};
use vstd::prelude::*;

verus! {

/// Screen coordinate given to a point at or behind the eye plane.
pub const OFF_SCREEN: i64 = -1000;

/// Largest clip coordinate accepted, in either direction.
pub const MAX_CLIP: i64 = 1_000_000_000;

/// Largest viewport side accepted, in pixels.
pub const MAX_SCREEN: i64 = 1_000_000;

/// Screen position, in pixels, of a point with clip coordinates
/// `(cx, cy, _, cw)` on a `width` by `height` viewport: the perspective
/// divide, then NDC mapped onto the viewport with `y` downward; a point
/// with `cw <= 0` goes to `(OFF_SCREEN, OFF_SCREEN)`.
pub open spec fn screen_of(cx: int, cy: int, cw: int, width: int, height: int) -> (int, int) {
    if cw <= 0 {
        (OFF_SCREEN as int, OFF_SCREEN as int)
    } else {
        (scaled(cx + cw, width, 2 * cw), scaled(cw - cy, height, 2 * cw))
    }
}

/// Maps clip coordinates (any common scale) to a screen position.
pub fn project_clip(cx: i64, cy: i64, cw: i64, width: i64, height: i64) -> (r: (i64, i64))
    requires
        -MAX_CLIP <= cx <= MAX_CLIP,
        -MAX_CLIP <= cy <= MAX_CLIP,
        -MAX_CLIP <= cw <= MAX_CLIP,
        0 <= width <= MAX_SCREEN,
        0 <= height <= MAX_SCREEN,
    ensures
        (r.0 as int, r.1 as int) == screen_of(cx as int, cy as int, cw as int, width as int, height as int),
{
    if cw <= 0 {
        return (OFF_SCREEN, OFF_SCREEN);
    }
    let a = cx + cw;
    let b = cw - cy;
    assert(-2 * MAX_CLIP * MAX_SCREEN <= a * width <= 2 * MAX_CLIP * MAX_SCREEN) by (nonlinear_arith)
        requires
            -2 * MAX_CLIP <= a <= 2 * MAX_CLIP,
            0 <= width <= MAX_SCREEN,
    ;
    assert(-2 * MAX_CLIP * MAX_SCREEN <= b * height <= 2 * MAX_CLIP * MAX_SCREEN) by (nonlinear_arith)
        requires
            -2 * MAX_CLIP <= b <= 2 * MAX_CLIP,
            0 <= height <= MAX_SCREEN,
    ;
    (scale(a, width, 2 * cw), scale(b, height, 2 * cw))
}

} // verus!
