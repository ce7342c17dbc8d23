//! Points, sizes, rectangles, circles, line segments and colours.

use vstd::prelude::*;
use crate::fixed::{clamp, clamp_spec, isqrt, sqrt_floor};

verus! {

/// A position on the surface, in fixed-point steps.
#[derive(Clone, Copy, Debug, PartialEq, Eq, Structural)]
pub struct Point {
    pub x: i32,
    pub y: i32,
}

/// The extent of the surface.
#[derive(Clone, Copy, Debug, PartialEq, Eq, Structural)]
pub struct Size {
    pub width: i32,
    pub height: i32,
}

/// An axis-aligned rectangle given by two opposite corners.
#[derive(Clone, Copy, Debug, PartialEq, Eq, Structural)]
pub struct Rect {
    pub x0: i32,
    pub y0: i32,
    pub x1: i32,
    pub y1: i32,
}

/// A circle.
#[derive(Clone, Copy, Debug, PartialEq, Eq, Structural)]
pub struct Circle {
    pub center: Point,
    pub radius: i32,
}

/// A line segment.
#[derive(Clone, Copy, Debug, PartialEq, Eq, Structural)]
pub struct Line {
    pub p0: Point,
    pub p1: Point,
}

/// A display colour: red, green, blue and alpha, eight bits each, red in the
/// most significant byte.
#[derive(Clone, Copy, Debug, PartialEq, Eq, Structural)]
pub struct Color {
    pub rgba: u32,
}

/// Packed values of the named colours.
pub const RED: u32 = 0xff00_00ff;

pub const GREEN: u32 = 0x0080_00ff;

pub const SILVER: u32 = 0xc0c0_c0ff;

pub const YELLOW: u32 = 0xffff_00ff;

pub const PURPLE: u32 = 0x8000_80ff;

pub const AQUA: u32 = 0x00ff_ffff;

pub const MAROON: u32 = 0x8000_00ff;

pub const TEAL: u32 = 0x0080_80ff;

pub const OLIVE: u32 = 0x8080_00ff;

pub const WHITE: u32 = 0xffff_ffff;

pub const BLACK: u32 = 0x0000_00ff;

/// Square of the distance between `(ax, ay)` and `(bx, by)`.
pub open spec fn distance_squared(ax: int, ay: int, bx: int, by: int) -> int {
    (ax - bx) * (ax - bx) + (ay - by) * (ay - by)
}

/// Squares of `i32` differences, summed, stay far below the `u128` range.
pub proof fn lemma_distance_squared_bound(ax: i32, ay: i32, bx: i32, by: i32)
    ensures
        0 <= distance_squared(ax as int, ay as int, bx as int, by as int)
            <= 0x2_0000_0000_0000_0000,
{
    let dx = ax - bx;
    let dy = ay - by;
    assert(0 <= dx * dx <= 0x1_0000_0000_0000_0000) by (nonlinear_arith)
        requires
            -0x1_0000_0000 <= dx <= 0x1_0000_0000,
    ;
    assert(0 <= dy * dy <= 0x1_0000_0000_0000_0000) by (nonlinear_arith)
        requires
            -0x1_0000_0000 <= dy <= 0x1_0000_0000,
    ;
}

/// Square of the distance between two positions.
pub fn squared_distance(ax: i32, ay: i32, bx: i32, by: i32) -> (d2: u128)
    ensures
        d2 == distance_squared(ax as int, ay as int, bx as int, by as int),
        d2 <= 0x2_0000_0000_0000_0000,
{
    proof {
        lemma_distance_squared_bound(ax, ay, bx, by);
    }
    let dx: i128 = ax as i128 - bx as i128;
    let dy: i128 = ay as i128 - by as i128;
    assert(0 <= dx * dx <= 0x1_0000_0000_0000_0000) by (nonlinear_arith)
        requires
            -0x1_0000_0000 <= dx <= 0x1_0000_0000,
    ;
    assert(0 <= dy * dy <= 0x1_0000_0000_0000_0000) by (nonlinear_arith)
        requires
            -0x1_0000_0000 <= dy <= 0x1_0000_0000,
    ;
    (dx * dx + dy * dy) as u128
}

impl Point {
    pub fn new(x: i32, y: i32) -> (p: Point)
        ensures
            p == (Point { x, y }),
    {
        Point { x, y }
    }

    /// Distance to `other`, rounded down to a whole step.
    pub open spec fn distance_spec(self, other: Point) -> int {
        sqrt_floor(distance_squared(self.x as int, self.y as int, other.x as int, other.y as int))
    }

    /// Distance to `other`, rounded down to a whole step.
    pub fn distance(self, other: Point) -> (d: i64)
        ensures
            d == self.distance_spec(other),
            0 <= d <= 0x2_0000_0000,
    {
        let d2 = squared_distance(self.x, self.y, other.x, other.y);
        let r = isqrt(d2);
        assert(r <= 0x2_0000_0000) by (nonlinear_arith)
            requires
                r * r <= d2,
                d2 <= 0x2_0000_0000_0000_0000,
        ;
        r as i64
    }
}

impl Size {
    pub fn new(width: i32, height: i32) -> (s: Size)
        ensures
            s == (Size { width, height }),
    {
        Size { width, height }
    }
}

impl Rect {
    /// The corners are in order on both axes.
    pub open spec fn wf(self) -> bool {
        self.x0 <= self.x1 && self.y0 <= self.y1
    }

    pub fn new(x0: i32, y0: i32, x1: i32, y1: i32) -> (r: Rect)
        ensures
            r == (Rect { x0, y0, x1, y1 }),
    {
        Rect { x0, y0, x1, y1 }
    }

    /// The rectangle spanned by two points, whichever corners they are.
    pub open spec fn spanning(p0: Point, p1: Point) -> Rect {
        Rect {
            x0: if p0.x < p1.x { p0.x } else { p1.x },
            y0: if p0.y < p1.y { p0.y } else { p1.y },
            x1: if p0.x < p1.x { p1.x } else { p0.x },
            y1: if p0.y < p1.y { p1.y } else { p0.y },
        }
    }

    /// The rectangle spanned by two points, with its corners put in order.
    pub fn from_points(p0: Point, p1: Point) -> (r: Rect)
        ensures
            r == Rect::spanning(p0, p1),
            r.wf(),
    {
        Rect {
            x0: if p0.x < p1.x { p0.x } else { p1.x },
            y0: if p0.y < p1.y { p0.y } else { p1.y },
            x1: if p0.x < p1.x { p1.x } else { p0.x },
            y1: if p0.y < p1.y { p1.y } else { p0.y },
        }
    }

    /// `(x, y)` lies in the rectangle; the far edges do not belong to it.
    pub open spec fn contains_spec(self, x: int, y: int) -> bool {
        self.x0 <= x < self.x1 && self.y0 <= y < self.y1
    }

    /// Whether `point` lies in the rectangle; the far edges do not belong
    /// to it.
    pub fn contains(&self, point: Point) -> (inside: bool)
        ensures
            inside == self.contains_spec(point.x as int, point.y as int),
    {
        point.x >= self.x0 && point.x < self.x1 && point.y >= self.y0 && point.y < self.y1
    }

    pub open spec fn min_x_spec(self) -> int {
        if self.x0 < self.x1 { self.x0 as int } else { self.x1 as int }
    }

    pub open spec fn max_x_spec(self) -> int {
        if self.x0 < self.x1 { self.x1 as int } else { self.x0 as int }
    }

    pub open spec fn min_y_spec(self) -> int {
        if self.y0 < self.y1 { self.y0 as int } else { self.y1 as int }
    }

    pub open spec fn max_y_spec(self) -> int {
        if self.y0 < self.y1 { self.y1 as int } else { self.y0 as int }
    }

    /// Smallest x-coordinate of the rectangle.
    pub fn min_x(&self) -> (v: i32)
        ensures
            v == self.min_x_spec(),
    {
        if self.x0 < self.x1 { self.x0 } else { self.x1 }
    }

    /// Largest x-coordinate of the rectangle.
    pub fn max_x(&self) -> (v: i32)
        ensures
            v == self.max_x_spec(),
    {
        if self.x0 < self.x1 { self.x1 } else { self.x0 }
    }

    /// Smallest y-coordinate of the rectangle.
    pub fn min_y(&self) -> (v: i32)
        ensures
            v == self.min_y_spec(),
    {
        if self.y0 < self.y1 { self.y0 } else { self.y1 }
    }

    /// Largest y-coordinate of the rectangle.
    pub fn max_y(&self) -> (v: i32)
        ensures
            v == self.max_y_spec(),
    {
        if self.y0 < self.y1 { self.y1 } else { self.y0 }
    }

    /// The point of the rectangle nearest to `(x, y)`: each coordinate
    /// clamped to the rectangle's range on its axis.
    pub open spec fn nearest_spec(self, x: int, y: int) -> (int, int) {
        (clamp_spec(x, self.x0 as int, self.x1 as int), clamp_spec(y, self.y0 as int, self.y1 as int))
    }

    /// Square of the distance from `(x, y)` to the nearest point of the
    /// rectangle.
    pub open spec fn gap_squared(self, x: int, y: int) -> int {
        let near = self.nearest_spec(x, y);
        distance_squared(x, y, near.0, near.1)
    }

    /// The point of the rectangle nearest to `point`.
    pub fn nearest(&self, point: Point) -> (p: Point)
        ensures
            (p.x as int, p.y as int) == self.nearest_spec(point.x as int, point.y as int),
    {
        Point { x: clamp(point.x, self.x0, self.x1), y: clamp(point.y, self.y0, self.y1) }
    }
}

impl Circle {
    pub fn new(center: Point, radius: i32) -> (c: Circle)
        ensures
            c == (Circle { center, radius }),
    {
        Circle { center, radius }
    }
}

impl Line {
    pub fn new(p0: Point, p1: Point) -> (l: Line)
        ensures
            l == (Line { p0, p1 }),
    {
        Line { p0, p1 }
    }
}

impl Color {
    /// A colour from its packed value.
    pub fn from_rgba32_u32(rgba: u32) -> (c: Color)
        ensures
            c == (Color { rgba }),
    {
        Color { rgba }
    }

    /// The packed value of the colour.
    pub fn as_rgba_u32(&self) -> (rgba: u32)
        ensures
            rgba == self.rgba,
    {
        self.rgba
    }
}

} // verus!
