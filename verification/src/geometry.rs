//! Rectangles in app units (1/60 of a CSS pixel), with the saturating arithmetic of
//! `app_units::Au` and `euclid`'s translation on them.

use vstd::prelude::*;

use app_units::Au;
use euclid::{point2, size2, vec2, Rect, UnknownUnit};

verus! {

/// The smallest valid app-unit value, `app_units::MIN_AU`.
pub const MIN_APP_UNITS: i32 = -1073741823;

/// The largest valid app-unit value, `app_units::MAX_AU`.
pub const MAX_APP_UNITS: i32 = 1073741823;

/// A rectangle in app units: its origin and its size.
#[derive(Clone, Copy, Debug, PartialEq, Eq)]
pub struct AppUnitRect {
    pub x: i32,
    pub y: i32,
    pub width: i32,
    pub height: i32,
}

/// A value within `MIN_APP_UNITS..=MAX_APP_UNITS`, the range `app_units` asks for.
pub open spec fn valid_app_units(value: int) -> bool {
    MIN_APP_UNITS <= value <= MAX_APP_UNITS
}

/// `value` clamped to the valid app-unit range, as `Au` arithmetic clamps its results.
pub open spec fn clamp_app_units(value: int) -> int {
    if value < MIN_APP_UNITS {
        MIN_APP_UNITS as int
    } else if value > MAX_APP_UNITS {
        MAX_APP_UNITS as int
    } else {
        value
    }
}

/// `a + b` in app units.
pub open spec fn au_add(a: int, b: int) -> int {
    clamp_app_units(a + b)
}

impl AppUnitRect {
    /// All four values are valid app units.
    pub open spec fn is_valid(self) -> bool {
        &&& valid_app_units(self.x as int)
        &&& valid_app_units(self.y as int)
        &&& valid_app_units(self.width as int)
        &&& valid_app_units(self.height as int)
    }
}

/// The rectangle moved by `(dx, dy)`.
pub open spec fn spec_rect_translate(r: AppUnitRect, dx: i32, dy: i32) -> AppUnitRect {
    AppUnitRect {
        x: au_add(r.x as int, dx as int) as i32,
        y: au_add(r.y as int, dy as int) as i32,
        width: r.width,
        height: r.height,
    }
}

/// `euclid::Rect::translate` on a rectangle of `app_units::Au`: the origin moves by the
/// vector with `Au`'s clamping `+`; the size is kept.
#[verifier::external_body]
pub(crate) fn rect_translate(r: &AppUnitRect, dx: i32, dy: i32) -> (result: AppUnitRect)
    requires
        r.is_valid(),
        valid_app_units(dx as int),
        valid_app_units(dy as int),
    ensures
        result == spec_rect_translate(*r, dx, dy),
{
    let rect: Rect<Au, UnknownUnit> = Rect::new(point2(Au(r.x), Au(r.y)), size2(Au(r.width), Au(r.height)));
    let moved = rect.translate(vec2(Au(dx), Au(dy)));
    AppUnitRect { x: moved.origin.x.0, y: moved.origin.y.0, width: moved.size.width.0, height: moved.size.height.0 }
}

} // verus!
