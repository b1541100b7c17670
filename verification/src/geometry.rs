//! Points and the mapping from the coordinates of the command stream to
//! device pixels.

use vstd::prelude::*;

verus! {

/// A position in pixels; x grows to the right and y downwards.
#[derive(Clone, Copy, Debug, PartialEq, Eq, Structural)]
pub struct Point {
    pub x: i32,
    pub y: i32,
}

impl Point {
    /// The point with the given coordinates.
    pub fn new(x: i32, y: i32) -> (point: Point)
        ensures
            point == (Point { x, y }),
    {
        Point { x, y }
    }
}

/// Width of the logical canvas that graphics commands are expressed in.
pub const LOGICAL_WIDTH: i32 = 1280;

/// Height of the logical canvas.
pub const LOGICAL_HEIGHT: i32 = 1024;

/// The quotient of `a` by a positive `b`, rounded towards zero.
pub open spec fn trunc_div(a: int, b: int) -> int {
    if a >= 0 {
        a / b
    } else {
        -((-a) / b)
    }
}

/// A point of the logical canvas scaled to a device of the given size; with
/// logical coordinates switched off the point is left as it is.
pub open spec fn scaled(logical: bool, width: int, height: int, p: Point) -> Point {
    if logical {
        Point {
            x: trunc_div(p.x * width, LOGICAL_WIDTH as int) as i32,
            y: trunc_div(p.y * height, LOGICAL_HEIGHT as int) as i32,
        }
    } else {
        p
    }
}

/// A point moved by the graphics origin. With logical coordinates the y
/// axis points upwards from the bottom edge of a device of the given
/// height.
pub open spec fn translated(logical: bool, height: int, origin: Point, p: Point) -> Point {
    if logical {
        Point { x: (p.x + origin.x) as i32, y: (height - p.y - origin.y) as i32 }
    } else {
        Point { x: (p.x + origin.x) as i32, y: (p.y + origin.y) as i32 }
    }
}

/// The point that `translated` maps to `p`.
pub open spec fn untranslated(logical: bool, height: int, origin: Point, p: Point) -> Point {
    if logical {
        Point { x: (p.x - origin.x) as i32, y: (height - p.y - origin.y) as i32 }
    } else {
        Point { x: (p.x - origin.x) as i32, y: (p.y - origin.y) as i32 }
    }
}

/// Whether `translated` can be computed in 32 bits.
pub open spec fn translatable(logical: bool, height: int, origin: Point, p: Point) -> bool {
    &&& i32::MIN <= p.x + origin.x <= i32::MAX
    &&& if logical {
        i32::MIN <= height - p.y - origin.y <= i32::MAX
    } else {
        i32::MIN <= p.y + origin.y <= i32::MAX
    }
}

/// The magnitude of a scaled coordinate is at most that of the coordinate,
/// as long as the device is no larger than the logical canvas.
pub proof fn lemma_scaled_bound(v: int, size: int, full: int)
    requires
        0 < size <= full,
    ensures
        -abs(v) <= trunc_div(v * size, full) <= abs(v),
        v >= 0 ==> trunc_div(v * size, full) >= 0,
        v <= 0 ==> trunc_div(v * size, full) <= 0,
{
    let a = abs(v);
    assert(0 <= a * size <= a * full) by (nonlinear_arith)
        requires
            0 <= a,
            0 < size <= full,
    ;
    assert(0 <= (a * size) / full <= a) by (nonlinear_arith)
        requires
            0 <= a * size <= a * full,
            0 < full,
    ;
    if v >= 0 {
        assert(v * size == a * size);
    } else {
        assert(-(v * size) == a * size) by (nonlinear_arith)
            requires
                a == -v,
        ;
        assert(v * size <= 0);
        if v * size == 0 {
            assert(a * size == 0);
        }
    }
}

/// Absolute value.
pub open spec fn abs(v: int) -> int {
    if v >= 0 {
        v
    } else {
        -v
    }
}

/// 1 for a distance that is not negative, -1 for one that is.
pub open spec fn direction(distance: int) -> int {
    if distance >= 0 {
        1
    } else {
        -1
    }
}

/// `quotient` is what `value / divisor` gives when `value` lies in the
/// `quotient`-th stretch of length `divisor`.
pub proof fn lemma_quotient(value: int, divisor: int, quotient: int)
    requires
        0 < divisor,
        quotient * divisor <= value < quotient * divisor + divisor,
    ensures
        value / divisor == quotient,
{
    vstd::arithmetic::div_mod::lemma_fundamental_div_mod_converse(
        value,
        divisor,
        quotient,
        value - quotient * divisor,
    );
}

/// Scales a point of the logical canvas to a device of the given size.
pub fn scale_point(logical: bool, width: i32, height: i32, p: Point) -> (q: Point)
    requires
        0 < width <= LOGICAL_WIDTH,
        0 < height <= LOGICAL_HEIGHT,
    ensures
        q == scaled(logical, width as int, height as int, p),
        !logical ==> q == p,
        abs(q.x as int) <= abs(p.x as int),
        abs(q.y as int) <= abs(p.y as int),
        p.x >= 0 ==> q.x >= 0,
        p.y >= 0 ==> q.y >= 0,
{
    if logical {
        proof {
            lemma_scaled_bound(p.x as int, width as int, LOGICAL_WIDTH as int);
            lemma_scaled_bound(p.y as int, height as int, LOGICAL_HEIGHT as int);
            assert(-0x8000_0000 * 1280 <= p.x * width <= 0x8000_0000 * 1280) by (nonlinear_arith)
                requires
                    -0x8000_0000 <= p.x <= 0x8000_0000,
                    0 < width <= 1280,
            ;
            assert(-0x8000_0000 * 1024 <= p.y * height <= 0x8000_0000 * 1024) by (nonlinear_arith)
                requires
                    -0x8000_0000 <= p.y <= 0x8000_0000,
                    0 < height <= 1024,
            ;
        }
        let x: i64 = (p.x as i64 * width as i64) / (LOGICAL_WIDTH as i64);
        let y: i64 = (p.y as i64 * height as i64) / (LOGICAL_HEIGHT as i64);
        Point { x: x as i32, y: y as i32 }
    } else {
        p
    }
}

/// Moves a point by the graphics origin.
pub fn translate_point(logical: bool, height: i32, origin: Point, p: Point) -> (q: Point)
    requires
        translatable(logical, height as int, origin, p),
    ensures
        q == translated(logical, height as int, origin, p),
{
    if logical {
        let y: i64 = height as i64 - p.y as i64 - origin.y as i64;
        Point { x: p.x + origin.x, y: y as i32 }
    } else {
        Point { x: p.x + origin.x, y: p.y + origin.y }
    }
}

/// Taking the origin off a translated point gives the point back, in
/// either coordinate mode.
pub proof fn lemma_translate_inverse(logical: bool, height: int, origin: Point, p: Point)
    requires
        translatable(logical, height, origin, p),
    ensures
        untranslated(logical, height, origin, translated(logical, height, origin, p)) == p,
{
}

/// Scaling leaves every point as it is while logical coordinates are
/// switched off.
pub proof fn lemma_scale_identity_in_device_mode(width: int, height: int, p: Point)
    ensures
        scaled(false, width, height, p) == p,
{
}

} // verus!
