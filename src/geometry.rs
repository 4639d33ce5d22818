//! Integer geometry: points, sizes, axis-aligned rectangles, and the
//! collision resolver that pushes a moving rectangle out of a static one.

use embedded_graphics::geometry::{Point as EgPoint, Size as EgSize};
use embedded_graphics::primitives::Rectangle as EgRect;
use vstd::prelude::*;

verus! {

/// Bound on coordinates and extents accepted by the geometry routines, so
/// that every sum and difference they form fits in an `i32`.
pub const COORD_LIMIT: i32 = 0x2000_0000;

/// A point or a vector with integer coordinates.
#[derive(Clone, Copy, Debug, PartialEq, Eq, Structural)]
pub struct Point {
    pub x: i32,
    pub y: i32,
}

/// A width and a height.
#[derive(Clone, Copy, Debug, PartialEq, Eq, Structural)]
pub struct Size {
    pub width: u32,
    pub height: u32,
}

/// An axis-aligned rectangle given by its top-left corner and its size.
#[derive(Clone, Copy, Debug, PartialEq, Eq, Structural)]
pub struct Rectangle {
    pub top_left: Point,
    pub size: Size,
}

pub open spec fn min_int(a: int, b: int) -> int {
    if a <= b { a } else { b }
}

pub open spec fn max_int(a: int, b: int) -> int {
    if a >= b { a } else { b }
}

pub open spec fn abs_int(a: int) -> int {
    if a < 0 { -a } else { a }
}

pub open spec fn sign(a: int) -> int {
    if a > 0 { 1 } else if a < 0 { -1 } else { 0 }
}

/// Coordinate `c` moved by `amount` against the direction of `to`:
/// `c - sign(to) * amount`.
pub open spec fn step_back(c: int, to: int, amount: int) -> int {
    if to > 0 { c - amount } else if to < 0 { c + amount } else { c }
}

impl Point {
    pub fn new(x: i32, y: i32) -> (r: Point)
        ensures
            r.x == x,
            r.y == y,
    {
        Point { x, y }
    }
}

impl Size {
    pub fn new(width: u32, height: u32) -> (r: Size)
        ensures
            r.width == width,
            r.height == height,
    {
        Size { width, height }
    }
}

impl Rectangle {
    pub fn new(top_left: Point, size: Size) -> (r: Rectangle)
        ensures
            r.top_left == top_left,
            r.size == size,
    {
        Rectangle { top_left, size }
    }

    /// Coordinates and extents lie within `COORD_LIMIT`.
    pub open spec fn fits(self) -> bool {
        -COORD_LIMIT <= self.top_left.x <= COORD_LIMIT
        && -COORD_LIMIT <= self.top_left.y <= COORD_LIMIT
        && self.size.width <= COORD_LIMIT
        && self.size.height <= COORD_LIMIT
    }

    pub open spec fn left(self) -> int {
        self.top_left.x as int
    }

    /// One past the rightmost column.
    pub open spec fn right(self) -> int {
        self.top_left.x + self.size.width
    }

    pub open spec fn top(self) -> int {
        self.top_left.y as int
    }

    /// One past the lowest row.
    pub open spec fn bottom(self) -> int {
        self.top_left.y + self.size.height
    }

    pub open spec fn center_x(self) -> int {
        self.top_left.x + self.size.width as int / 2
    }

    pub open spec fn center_y(self) -> int {
        self.top_left.y + self.size.height as int / 2
    }

    pub open spec fn is_empty(self) -> bool {
        self.size.width == 0 || self.size.height == 0
    }

    /// The center: the top-left corner plus half the size, rounded down.
    pub fn center(&self) -> (r: Point)
        requires
            self.fits(),
        ensures
            r.x == self.center_x(),
            r.y == self.center_y(),
    {
        Point { x: self.top_left.x + (self.size.width / 2) as i32, y: self.top_left.y + (self.size.height / 2) as i32 }
    }

    /// The rectangle moved by `by`.
    pub fn translate(&self, by: Point) -> (r: Rectangle)
        requires
            -COORD_LIMIT <= self.top_left.x + by.x <= COORD_LIMIT,
            -COORD_LIMIT <= self.top_left.y + by.y <= COORD_LIMIT,
        ensures
            r.top_left.x == self.top_left.x + by.x,
            r.top_left.y == self.top_left.y + by.y,
            r.size == self.size,
    {
        Rectangle { top_left: Point { x: self.top_left.x + by.x, y: self.top_left.y + by.y }, size: self.size }
    }
}

/// Width of the common part of the horizontal extents of `a` and `b`
/// (not positive when they are apart).
pub open spec fn overlap_width(a: Rectangle, b: Rectangle) -> int {
    min_int(a.right(), b.right()) - max_int(a.left(), b.left())
}

/// Height of the common part of the vertical extents of `a` and `b`.
pub open spec fn overlap_height(a: Rectangle, b: Rectangle) -> int {
    min_int(a.bottom(), b.bottom()) - max_int(a.top(), b.top())
}

/// `a` and `b` share at least one cell.
pub open spec fn overlaps(a: Rectangle, b: Rectangle) -> bool {
    !a.is_empty() && !b.is_empty() && overlap_width(a, b) > 0 && overlap_height(a, b) > 0
}

/// Relies on embedded_graphics `Rectangle::intersection`: the common part of
/// two rectangles when they share a cell, and otherwise a rectangle with a
/// zero width or height.
#[verifier::external_body]
fn intersection(a: &Rectangle, b: &Rectangle) -> (r: Rectangle)
    requires
        a.fits(),
        b.fits(),
    ensures
        overlaps(*a, *b) ==> r.top_left.x == max_int(a.left(), b.left())
            && r.top_left.y == max_int(a.top(), b.top())
            && r.size.width == overlap_width(*a, *b)
            && r.size.height == overlap_height(*a, *b),
        !overlaps(*a, *b) ==> r.is_empty(),
{
    let ea = EgRect::new(EgPoint::new(a.top_left.x, a.top_left.y), EgSize::new(a.size.width, a.size.height));
    let eb = EgRect::new(EgPoint::new(b.top_left.x, b.top_left.y), EgSize::new(b.size.width, b.size.height));
    let r = ea.intersection(&eb);
    Rectangle {
        top_left: Point { x: r.top_left.x, y: r.top_left.y },
        size: Size { width: r.size.width, height: r.size.height },
    }
}

/// The collision is resolved on the vertical axis: the overlap is wider
/// than it is tall. A tie goes to the horizontal axis.
pub open spec fn resolves_vertically(a: Rectangle, b: Rectangle) -> bool {
    overlap_width(a, b) > overlap_height(a, b)
}

/// A velocity component after a bounce, pointing away from the static
/// rectangle: negative when the static center lies ahead (`to > 0`),
/// otherwise non-negative.
pub open spec fn bounced(to: int, v: int) -> int {
    if to > 0 { -abs_int(v) } else { abs_int(v) }
}

/// The moving rectangle `a` and its velocity `v` after `a` is pushed out of
/// `b`: along the resolved axis, `a` steps back against the direction of
/// `b`'s center by the overlap, and the velocity component bounces away.
pub open spec fn resolved(a: Rectangle, v: Point, b: Rectangle) -> (Rectangle, Point) {
    let to_x = b.center_x() - a.center_x();
    let to_y = b.center_y() - a.center_y();
    if resolves_vertically(a, b) {
        (
            Rectangle {
                top_left: Point {
                    x: a.top_left.x,
                    y: step_back(a.top_left.y as int, to_y, overlap_height(a, b)) as i32,
                },
                size: a.size,
            },
            Point { x: v.x, y: bounced(to_y, v.y as int) as i32 },
        )
    } else {
        (
            Rectangle {
                top_left: Point {
                    x: step_back(a.top_left.x as int, to_x, overlap_width(a, b)) as i32,
                    y: a.top_left.y,
                },
                size: a.size,
            },
            Point { x: bounced(to_x, v.x as int) as i32, y: v.y },
        )
    }
}

fn sign_of(v: i32) -> (r: i32)
    ensures
        r == sign(v as int),
{
    if v > 0 {
        1
    } else if v < 0 {
        -1
    } else {
        0
    }
}

/// `c` moved against the direction `s` (a sign) by `amount`.
fn push_back(c: i32, s: i32, amount: u32) -> (r: i32)
    requires
        -COORD_LIMIT <= c <= COORD_LIMIT,
        amount <= COORD_LIMIT,
        -1 <= s <= 1,
    ensures
        r == step_back(c as int, s as int, amount as int),
{
    if s > 0 {
        c - amount as i32
    } else if s < 0 {
        c + amount as i32
    } else {
        c
    }
}

fn bounce(to: i32, v: i32) -> (r: i32)
    requires
        v > i32::MIN,
    ensures
        r == bounced(to as int, v as int),
{
    let m = if v < 0 { -v } else { v };
    if to > 0 {
        -m
    } else {
        m
    }
}

/// Pushes the moving rectangle `a` out of the static rectangle `b` and
/// bounces its velocity `vel`, when the two share a cell. Returns whether
/// they did; otherwise nothing changes.
pub fn resolve_collison(a: &mut Rectangle, vel: &mut Point, b: &Rectangle) -> (hit: bool)
    requires
        old(a).fits(),
        b.fits(),
        old(vel).x > i32::MIN,
        old(vel).y > i32::MIN,
    ensures
        hit == overlaps(*old(a), *b),
        !hit ==> *final(a) == *old(a) && *final(vel) == *old(vel),
        hit ==> (*final(a), *final(vel)) == resolved(*old(a), *old(vel), *b),
{
    let inter = intersection(a, b);
    if inter.size.width == 0 || inter.size.height == 0 {
        return false;
    }
    let a_center = a.center();
    let b_center = b.center();
    let to = Point { x: b_center.x - a_center.x, y: b_center.y - a_center.y };
    let to_signum = Point { x: sign_of(to.x), y: sign_of(to.y) };
    if inter.size.width > inter.size.height {
        a.top_left.y = push_back(a.top_left.y, to_signum.y, inter.size.height);
        vel.y = bounce(to_signum.y, vel.y);
    } else {
        a.top_left.x = push_back(a.top_left.x, to_signum.x, inter.size.width);
        vel.x = bounce(to_signum.x, vel.x);
    }
    true
}

/// After a collision the velocity component on the resolved axis points from
/// the static rectangle's center toward the moving one's: its sign is that of
/// `moving_center - static_center`, whenever that difference and the incoming
/// component are both non-zero. The axis is the one along which the overlap
/// is smaller, the horizontal one on a tie.
pub proof fn lemma_bounce_points_away(a: Rectangle, v: Point, b: Rectangle)
    requires
        a.fits(),
        b.fits(),
        overlaps(a, b),
        v.x > i32::MIN,
        v.y > i32::MIN,
    ensures
        ({
            let (a2, v2) = resolved(a, v, b);
            &&& resolves_vertically(a, b) <==> overlap_width(a, b) > overlap_height(a, b)
            &&& resolves_vertically(a, b) ==> a2.top_left.x == a.top_left.x && v2.x == v.x
            &&& !resolves_vertically(a, b) ==> a2.top_left.y == a.top_left.y && v2.y == v.y
            &&& resolves_vertically(a, b) && v.y != 0 && a.center_y() != b.center_y()
                ==> sign(v2.y as int) == sign(a.center_y() - b.center_y())
            &&& !resolves_vertically(a, b) && v.x != 0 && a.center_x() != b.center_x()
                ==> sign(v2.x as int) == sign(a.center_x() - b.center_x())
        }),
{
}

/// Rectangles that share no cell are left alone: the resolver reports no
/// hit exactly when they are apart.
pub proof fn lemma_apart_no_hit(a: Rectangle, b: Rectangle)
    requires
        a.is_empty() || b.is_empty() || overlap_width(a, b) <= 0 || overlap_height(a, b) <= 0,
    ensures
        !overlaps(a, b),
{
}

} // verus!
