//! Shape descriptors and the rule by which each one covers a cell.

use vstd::prelude::*;

verus! {

/// A lattice point: column first, then row.
pub type Point = (i64, i64);

/// The largest coordinate, either way from zero, that the covering rules
/// compute with.
pub const COORDINATE_LIMIT: i64 = 0x3fff_ffff_ffff_ffff;

/// Twice the signed area of the triangle `a`, `b`, `c`; its sign says on
/// which side of the edge from `c` to `b` the point `a` lies.
pub open spec fn edge_side(a: (int, int), b: (int, int), c: (int, int)) -> int {
    (a.0 - c.0) * (b.1 - c.1) - (b.0 - c.0) * (a.1 - c.1)
}

/// Whether `pt` lies in the triangle `pt1`, `pt2`, `pt3`, its edges and
/// corners included: the three edge sides of `pt` never disagree in sign.
pub open spec fn in_triangle(pt: (int, int), pt1: (int, int), pt2: (int, int), pt3: (int, int)) -> bool {
    let d1 = edge_side(pt, pt1, pt2);
    let d2 = edge_side(pt, pt2, pt3);
    let d3 = edge_side(pt, pt3, pt1);
    let has_neg = d1 < 0 || d2 < 0 || d3 < 0;
    let has_pos = d1 > 0 || d2 > 0 || d3 > 0;
    !(has_neg && has_pos)
}

/// A point as a pair of mathematical integers.
pub open spec fn point_view(p: Point) -> (int, int) {
    (p.0 as int, p.1 as int)
}

/// Whether both coordinates of `p` are within the coordinate limit.
pub open spec fn point_in_limit(p: Point) -> bool {
    &&& -COORDINATE_LIMIT <= p.0 <= COORDINATE_LIMIT
    &&& -COORDINATE_LIMIT <= p.1 <= COORDINATE_LIMIT
}

fn side(a: Point, b: Point, c: Point) -> (d: i128)
    requires
        point_in_limit(a),
        point_in_limit(b),
        point_in_limit(c),
    ensures
        d == edge_side(point_view(a), point_view(b), point_view(c)),
{
    let ax: i128 = a.0 as i128 - c.0 as i128;
    let by: i128 = b.1 as i128 - c.1 as i128;
    let bx: i128 = b.0 as i128 - c.0 as i128;
    let ay: i128 = a.1 as i128 - c.1 as i128;
    assert(-0x3fff_ffff_ffff_ffff_ffff_ffff_ffff_ffff <= ax * by <= 0x3fff_ffff_ffff_ffff_ffff_ffff_ffff_ffff)
        by (nonlinear_arith)
        requires
            -0x7fff_ffff_ffff_fffe <= ax <= 0x7fff_ffff_ffff_fffe,
            -0x7fff_ffff_ffff_fffe <= by <= 0x7fff_ffff_ffff_fffe,
    ;
    assert(-0x3fff_ffff_ffff_ffff_ffff_ffff_ffff_ffff <= bx * ay <= 0x3fff_ffff_ffff_ffff_ffff_ffff_ffff_ffff)
        by (nonlinear_arith)
        requires
            -0x7fff_ffff_ffff_fffe <= bx <= 0x7fff_ffff_ffff_fffe,
            -0x7fff_ffff_ffff_fffe <= ay <= 0x7fff_ffff_ffff_fffe,
    ;
    ax * by - bx * ay
}

/// Whether `pt` lies in the triangle `pt1`, `pt2`, `pt3`. A point on an
/// edge or at a corner counts as inside.
pub fn point_in_triangle(pt: Point, pt1: Point, pt2: Point, pt3: Point) -> (inside: bool)
    requires
        point_in_limit(pt),
        point_in_limit(pt1),
        point_in_limit(pt2),
        point_in_limit(pt3),
    ensures
        inside == in_triangle(point_view(pt), point_view(pt1), point_view(pt2), point_view(pt3)),
{
    let d1: i128 = side(pt, pt1, pt2);
    let d2: i128 = side(pt, pt2, pt3);
    let d3: i128 = side(pt, pt3, pt1);
    let has_neg: bool = d1 < 0 || d2 < 0 || d3 < 0;
    let has_pos: bool = d1 > 0 || d2 > 0 || d3 > 0;
    !(has_neg && has_pos)
}

/// The parameters of one shape, as drawn.
#[derive(Clone, Copy, Debug, PartialEq, Eq)]
pub enum Shape {
    /// The cells from column `x` to `x + width` and from row `y` to
    /// `y + height`, both ends included.
    Rect { x: usize, y: usize, width: usize, height: usize },
    /// The cells nearer than `radius` to the cell in column `x`, row `y`.
    Circle { x: usize, y: usize, radius: usize },
    /// The triangle with its base from `(x, y + height)` to
    /// `(x + width, y + height)` and its apex at `(x + width / 2, y)`.
    Triangle { x: usize, y: usize, width: usize, height: usize },
}

impl Shape {
    /// Whether the shape covers the cell in column `cx`, row `cy`.
    pub open spec fn covers(&self, cx: int, cy: int) -> bool {
        match *self {
            Shape::Rect { x, y, width, height } => {
                x <= cx <= x + width && y <= cy <= y + height
            },
            Shape::Circle { x, y, radius } => {
                (cx - x) * (cx - x) + (cy - y) * (cy - y) < radius * radius
            },
            Shape::Triangle { x, y, width, height } => {
                in_triangle(
                    (cx, cy),
                    (x as int, y + height),
                    (x + width / 2, y as int),
                    (x + width, y + height),
                )
            },
        }
    }

    /// Whether every number in the descriptor, and every corner it
    /// stands for, is within the coordinate limit and fits a `usize`.
    pub open spec fn in_limit(&self) -> bool {
        match *self {
            Shape::Rect { x, y, width, height } => {
                &&& x + width <= COORDINATE_LIMIT
                &&& y + height <= COORDINATE_LIMIT
                &&& x + width <= usize::MAX
                &&& y + height <= usize::MAX
            },
            Shape::Circle { x, y, radius } => {
                x <= COORDINATE_LIMIT && y <= COORDINATE_LIMIT && radius <= COORDINATE_LIMIT
            },
            Shape::Triangle { x, y, width, height } => {
                &&& x + width <= COORDINATE_LIMIT
                &&& y + height <= COORDINATE_LIMIT
                &&& x + width <= usize::MAX
                &&& y + height <= usize::MAX
            },
        }
    }

    /// The value of the cell in column `cx`, row `cy` of the shape's
    /// raster: 1 where the shape covers it, else 0.
    pub open spec fn cell_value(&self, cx: int, cy: int) -> i64 {
        if self.covers(cx, cy) {
            1
        } else {
            0
        }
    }

    /// Computes the value of the cell in column `cx`, row `cy`.
    pub fn cell(&self, cx: usize, cy: usize) -> (value: i64)
        requires
            self.in_limit(),
            cx <= COORDINATE_LIMIT,
            cy <= COORDINATE_LIMIT,
        ensures
            value == self.cell_value(cx as int, cy as int),
    {
        let px: i64 = cx as i64;
        let py: i64 = cy as i64;
        let covered: bool = match *self {
            Shape::Rect { x, y, width, height } => {
                cx >= x && cx <= x + width && cy >= y && cy <= y + height
            },
            Shape::Circle { x, y, radius } => {
                let dx: i128 = px as i128 - x as i128;
                let dy: i128 = py as i128 - y as i128;
                let r: i128 = radius as i128;
                assert(0 <= dx * dx <= 0x0fff_ffff_ffff_ffff_ffff_ffff_ffff_ffff) by (nonlinear_arith)
                    requires
                        -0x3fff_ffff_ffff_ffff <= dx <= 0x3fff_ffff_ffff_ffff,
                ;
                assert(0 <= dy * dy <= 0x0fff_ffff_ffff_ffff_ffff_ffff_ffff_ffff) by (nonlinear_arith)
                    requires
                        -0x3fff_ffff_ffff_ffff <= dy <= 0x3fff_ffff_ffff_ffff,
                ;
                assert(0 <= r * r <= 0x0fff_ffff_ffff_ffff_ffff_ffff_ffff_ffff) by (nonlinear_arith)
                    requires
                        0 <= r <= 0x3fff_ffff_ffff_ffff,
                ;
                dx * dx + dy * dy < r * r
            },
            Shape::Triangle { x, y, width, height } => {
                let left: i64 = x as i64;
                let top: i64 = y as i64;
                let right: i64 = (x + width) as i64;
                let bottom: i64 = (y + height) as i64;
                let middle: i64 = (x + width / 2) as i64;
                point_in_triangle((px, py), (left, bottom), (middle, top), (right, bottom))
            },
        };
        if covered {
            1
        } else {
            0
        }
    }
}

/// The least of three numbers.
pub open spec fn least(a: int, b: int, c: int) -> int {
    if a <= b && a <= c {
        a
    } else if b <= c {
        b
    } else {
        c
    }
}

/// The greatest of three numbers.
pub open spec fn greatest(a: int, b: int, c: int) -> int {
    if a >= b && a >= c {
        a
    } else if b >= c {
        b
    } else {
        c
    }
}

/// Each corner of a triangle lies in it.
pub proof fn law_corners_in_triangle(pt1: (int, int), pt2: (int, int), pt3: (int, int))
    ensures
        in_triangle(pt1, pt1, pt2, pt3),
        in_triangle(pt2, pt1, pt2, pt3),
        in_triangle(pt3, pt1, pt2, pt3),
{
    assert(edge_side(pt1, pt1, pt2) == 0 && edge_side(pt1, pt3, pt1) == 0) by (nonlinear_arith);
    assert(edge_side(pt2, pt1, pt2) == 0 && edge_side(pt2, pt2, pt3) == 0) by (nonlinear_arith);
    assert(edge_side(pt3, pt2, pt3) == 0 && edge_side(pt3, pt3, pt1) == 0) by (nonlinear_arith);
}

/// The three edge sides of a point add up to twice the area of the
/// triangle, and weigh the corners so that they balance at the point.
proof fn lemma_sides_balance(pt: (int, int), pt1: (int, int), pt2: (int, int), pt3: (int, int))
    ensures
        edge_side(pt, pt1, pt2) + edge_side(pt, pt2, pt3) + edge_side(pt, pt3, pt1) == edge_side(
            pt1,
            pt2,
            pt3,
        ),
        edge_side(pt, pt2, pt3) * (pt1.0 - pt.0) + edge_side(pt, pt3, pt1) * (pt2.0 - pt.0)
            + edge_side(pt, pt1, pt2) * (pt3.0 - pt.0) == 0,
        edge_side(pt, pt2, pt3) * (pt1.1 - pt.1) + edge_side(pt, pt3, pt1) * (pt2.1 - pt.1)
            + edge_side(pt, pt1, pt2) * (pt3.1 - pt.1) == 0,
{
    let u1 = pt1.0 - pt.0;
    let v1 = pt1.1 - pt.1;
    let u2 = pt2.0 - pt.0;
    let v2 = pt2.1 - pt.1;
    let u3 = pt3.0 - pt.0;
    let v3 = pt3.1 - pt.1;
    let d1 = edge_side(pt, pt1, pt2);
    let d2 = edge_side(pt, pt2, pt3);
    let d3 = edge_side(pt, pt3, pt1);
    assert(d1 == u1 * v2 - u2 * v1) by {
        lemma_cross(u1, v1, u2, v2);
    }
    assert(d2 == u2 * v3 - u3 * v2) by {
        lemma_cross(u2, v2, u3, v3);
    }
    assert(d3 == u3 * v1 - u1 * v3) by {
        lemma_cross(u3, v3, u1, v1);
    }
    assert(edge_side(pt1, pt2, pt3) == (u1 - u3) * (v2 - v3) - (u2 - u3) * (v1 - v3));
    assert((u1 - u3) * (v2 - v3) - (u2 - u3) * (v1 - v3) == (u1 * v2 - u2 * v1) + (u2 * v3 - u3 * v2)
        + (u3 * v1 - u1 * v3)) by (nonlinear_arith);
    lemma_triple(u1, v1, u2, v2, u3, v3);
}

/// The edge side of the origin against the edge from `(u2, v2)` to
/// `(u1, v1)` is the cross product of the two.
proof fn lemma_cross(u1: int, v1: int, u2: int, v2: int)
    ensures
        (0 - u2) * (v1 - v2) - (u1 - u2) * (0 - v2) == u1 * v2 - u2 * v1,
{
    assert((0 - u2) * (v1 - v2) - (u1 - u2) * (0 - v2) == u1 * v2 - u2 * v1) by (nonlinear_arith);
}

/// The cross products of three vectors, each weighed by a coordinate of
/// the vector that it leaves out, cancel.
proof fn lemma_triple(u1: int, v1: int, u2: int, v2: int, u3: int, v3: int)
    ensures
        (u2 * v3 - u3 * v2) * u1 + (u3 * v1 - u1 * v3) * u2 + (u1 * v2 - u2 * v1) * u3 == 0,
        (u2 * v3 - u3 * v2) * v1 + (u3 * v1 - u1 * v3) * v2 + (u1 * v2 - u2 * v1) * v3 == 0,
{
    assert((u2 * v3 - u3 * v2) * u1 == u1 * u2 * v3 - u1 * u3 * v2) by (nonlinear_arith);
    assert((u3 * v1 - u1 * v3) * u2 == u2 * u3 * v1 - u1 * u2 * v3) by (nonlinear_arith);
    assert((u1 * v2 - u2 * v1) * u3 == u1 * u3 * v2 - u2 * u3 * v1) by (nonlinear_arith);
    assert((u2 * v3 - u3 * v2) * v1 == u2 * v1 * v3 - u3 * v1 * v2) by (nonlinear_arith);
    assert((u3 * v1 - u1 * v3) * v2 == u3 * v1 * v2 - u1 * v2 * v3) by (nonlinear_arith);
    assert((u1 * v2 - u2 * v1) * v3 == u1 * v2 * v3 - u2 * v1 * v3) by (nonlinear_arith);
}

/// Three products of numbers of one sign with positive numbers that add
/// up to zero have all three numbers zero.
proof fn lemma_balance_zero(d1: int, d2: int, d3: int, g1: int, g2: int, g3: int)
    requires
        (d1 >= 0 && d2 >= 0 && d3 >= 0) || (d1 <= 0 && d2 <= 0 && d3 <= 0),
        (g1 > 0 && g2 > 0 && g3 > 0) || (g1 < 0 && g2 < 0 && g3 < 0),
        d1 * g1 + d2 * g2 + d3 * g3 == 0,
    ensures
        d1 == 0 && d2 == 0 && d3 == 0,
{
    assert(d1 == 0 && d2 == 0 && d3 == 0) by (nonlinear_arith)
        requires
            (d1 >= 0 && d2 >= 0 && d3 >= 0) || (d1 <= 0 && d2 <= 0 && d3 <= 0),
            (g1 > 0 && g2 > 0 && g3 > 0) || (g1 < 0 && g2 < 0 && g3 < 0),
            d1 * g1 + d2 * g2 + d3 * g3 == 0,
    ;
}

/// A point outside the bounding box of a triangle lies outside the
/// triangle. Left out are the points all three of whose edge sides are
/// zero; there are such points only where the triangle has no area, on
/// the line that its corners lie in.
pub proof fn law_outside_box_outside_triangle(
    pt: (int, int),
    pt1: (int, int),
    pt2: (int, int),
    pt3: (int, int),
)
    requires
        pt.0 < least(pt1.0, pt2.0, pt3.0) || pt.0 > greatest(pt1.0, pt2.0, pt3.0) || pt.1 < least(
            pt1.1,
            pt2.1,
            pt3.1,
        ) || pt.1 > greatest(pt1.1, pt2.1, pt3.1),
        edge_side(pt1, pt2, pt3) != 0 || edge_side(pt, pt1, pt2) != 0 || edge_side(pt, pt2, pt3) != 0
            || edge_side(pt, pt3, pt1) != 0,
    ensures
        !in_triangle(pt, pt1, pt2, pt3),
{
    let d1 = edge_side(pt, pt1, pt2);
    let d2 = edge_side(pt, pt2, pt3);
    let d3 = edge_side(pt, pt3, pt1);
    lemma_sides_balance(pt, pt1, pt2, pt3);
    if in_triangle(pt, pt1, pt2, pt3) {
        if pt.0 < least(pt1.0, pt2.0, pt3.0) || pt.0 > greatest(pt1.0, pt2.0, pt3.0) {
            lemma_balance_zero(d2, d3, d1, pt1.0 - pt.0, pt2.0 - pt.0, pt3.0 - pt.0);
        } else {
            lemma_balance_zero(d2, d3, d1, pt1.1 - pt.1, pt2.1 - pt.1, pt3.1 - pt.1);
        }
    }
}

/// A drawn triangle covers its apex and both ends of its base.
pub proof fn law_triangle_covers_corners(x: usize, y: usize, width: usize, height: usize)
    ensures
        (Shape::Triangle { x, y, width, height }).covers(x + width / 2, y as int),
        (Shape::Triangle { x, y, width, height }).covers(x as int, y + height),
        (Shape::Triangle { x, y, width, height }).covers(x + width, y + height),
{
    law_corners_in_triangle(
        (x as int, y + height),
        (x + width / 2, y as int),
        (x + width, y + height),
    );
}

/// A drawn triangle with a width and a height covers no cell outside the
/// box from its left end to its right end and from its apex to its base.
pub proof fn law_triangle_within_box(
    x: usize,
    y: usize,
    width: usize,
    height: usize,
    cx: int,
    cy: int,
)
    requires
        width >= 1,
        height >= 1,
        (Shape::Triangle { x, y, width, height }).covers(cx, cy),
    ensures
        x <= cx <= x + width,
        y <= cy <= y + height,
{
    let pt1 = (x as int, y + height);
    let pt2 = (x + width / 2, y as int);
    let pt3 = (x + width, y + height);
    assert(edge_side(pt1, pt2, pt3) == width * height) by (nonlinear_arith)
        requires
            pt1 == (x as int, y + height),
            pt2 == (x + width / 2, y as int),
            pt3 == (x + width, y + height),
    ;
    assert(width * height != 0) by (nonlinear_arith)
        requires
            width >= 1,
            height >= 1,
    ;
    if !(x <= cx <= x + width && y <= cy <= y + height) {
        law_outside_box_outside_triangle((cx, cy), pt1, pt2, pt3);
    }
}

/// A circle with a radius covers its centre.
pub proof fn law_circle_covers_centre(x: usize, y: usize, radius: usize)
    requires
        radius >= 1,
    ensures
        (Shape::Circle { x, y, radius }).covers(x as int, y as int),
{
    let dx = x as int - x;
    let dy = y as int - y;
    assert(dx * dx + dy * dy == 0) by (nonlinear_arith)
        requires
            dx == 0,
            dy == 0,
    ;
    assert(0 < radius * radius) by (nonlinear_arith)
        requires
            radius >= 1,
    ;
}

/// A circle does not cover a cell whose distance from the centre is the
/// radius: the rim is outside.
pub proof fn law_circle_rim_outside(x: usize, y: usize, radius: usize, cx: int, cy: int)
    requires
        (cx - x) * (cx - x) + (cy - y) * (cy - y) == radius * radius,
    ensures
        !(Shape::Circle { x, y, radius }).covers(cx, cy),
{
}

} // verus!
