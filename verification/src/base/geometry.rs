use vstd::prelude::*;
use crate::base::fixed::{
    floor_sqrt, isqrt, lemma_floor_sqrt_below, lemma_floor_sqrt_exists, lemma_ratio_at_least,
    lemma_ratio_bounded, lemma_ratio_is_one, ratio_millionths, ratio_millionths_spec, MILLION,
};

verus! {

/// An axis-aligned rectangle on the integer grid of a page.
///
/// A box whose upper corner does not lie beyond its lower corner is empty:
/// its width, height and area count as zero.
#[derive(Debug, Clone, Copy, PartialEq, Eq, Structural)]
pub struct BBox {
    pub x0: i32,
    pub y0: i32,
    pub x1: i32,
    pub y1: i32,
}

impl DeepView for BBox {
    type V = BBox;

    open spec fn deep_view(&self) -> BBox {
        *self
    }
}

/// The larger of two numbers.
pub open spec fn spec_max(a: int, b: int) -> int {
    if a >= b { a } else { b }
}

/// The smaller of two numbers.
pub open spec fn spec_min(a: int, b: int) -> int {
    if a <= b { a } else { b }
}

fn max_i32(a: i32, b: i32) -> (r: i32)
    ensures
        r == spec_max(a as int, b as int),
{
    if a >= b { a } else { b }
}

fn min_i32(a: i32, b: i32) -> (r: i32)
    ensures
        r == spec_min(a as int, b as int),
{
    if a <= b { a } else { b }
}

impl BBox {
    /// Horizontal extent, zero for an empty box.
    pub open spec fn spec_width(self) -> int {
        spec_max(0, self.x1 - self.x0)
    }

    /// Vertical extent, zero for an empty box.
    pub open spec fn spec_height(self) -> int {
        spec_max(0, self.y1 - self.y0)
    }

    /// Enclosed area in square units.
    pub open spec fn spec_area(self) -> int {
        self.spec_width() * self.spec_height()
    }

    /// The centre of the box, in hundredths of a unit.
    pub open spec fn spec_center(self) -> (int, int) {
        (50 * (self.x0 + self.x1), 50 * (self.y0 + self.y1))
    }

    /// The smallest box that encloses both.
    pub open spec fn spec_union(self, other: Self) -> Self {
        BBox {
            x0: spec_min(self.x0 as int, other.x0 as int) as i32,
            y0: spec_min(self.y0 as int, other.y0 as int) as i32,
            x1: spec_max(self.x1 as int, other.x1 as int) as i32,
            y1: spec_max(self.y1 as int, other.y1 as int) as i32,
        }
    }

    /// The overlap of both boxes (empty when they do not meet).
    pub open spec fn spec_intersection(self, other: Self) -> Self {
        BBox {
            x0: spec_max(self.x0 as int, other.x0 as int) as i32,
            y0: spec_max(self.y0 as int, other.y0 as int) as i32,
            x1: spec_min(self.x1 as int, other.x1 as int) as i32,
            y1: spec_min(self.y1 as int, other.y1 as int) as i32,
        }
    }

    /// The area covered by at least one of the two boxes.
    pub open spec fn spec_cover_area(self, other: Self) -> int {
        self.spec_area() + other.spec_area() - self.spec_intersection(other).spec_area()
    }

    /// Intersection over union, in millionths, rounded down; zero when nothing is covered.
    pub open spec fn spec_iou(self, other: Self) -> int {
        ratio_millionths_spec(
            self.spec_intersection(other).spec_area(),
            self.spec_cover_area(other),
        )
    }

    /// The squared distance between the two centres, in squared hundredths of a unit.
    pub open spec fn spec_center_gap_squared(self, other: Self) -> int {
        let (ax, ay) = self.spec_center();
        let (bx, by) = other.spec_center();
        (ax - bx) * (ax - bx) + (ay - by) * (ay - by)
    }

    /// The Euclidean distance between the two centres, in hundredths of a unit, rounded down.
    pub open spec fn spec_center_distance(self, other: Self) -> int {
        floor_sqrt(self.spec_center_gap_squared(other) as nat) as int
    }

    /// The box with the corners `(x0, y0)` and `(x1, y1)`.
    pub fn new(x0: i32, y0: i32, x1: i32, y1: i32) -> (r: Self)
        ensures
            r == (BBox { x0, y0, x1, y1 }),
    {
        Self { x0, y0, x1, y1 }
    }

    /// Horizontal extent, zero for an empty box.
    pub fn width(&self) -> (w: u32)
        ensures
            w == self.spec_width(),
    {
        if self.x1 > self.x0 {
            let d: i64 = self.x1 as i64 - self.x0 as i64;
            d as u32
        } else {
            0
        }
    }

    /// Vertical extent, zero for an empty box.
    pub fn height(&self) -> (h: u32)
        ensures
            h == self.spec_height(),
    {
        if self.y1 > self.y0 {
            let d: i64 = self.y1 as i64 - self.y0 as i64;
            d as u32
        } else {
            0
        }
    }

    /// Enclosed area in square units.
    pub fn area(&self) -> (a: u64)
        ensures
            a == self.spec_area(),
    {
        let w: u32 = self.width();
        let h: u32 = self.height();
        assert(w * h <= u32::MAX * u32::MAX) by (nonlinear_arith)
            requires
                w <= u32::MAX,
                h <= u32::MAX,
        ;
        (w as u64) * (h as u64)
    }

    /// The centre of the box, in hundredths of a unit.
    pub fn center(&self) -> (c: (i64, i64))
        ensures
            (c.0 as int, c.1 as int) == self.spec_center(),
    {
        (50 * (self.x0 as i64 + self.x1 as i64), 50 * (self.y0 as i64 + self.y1 as i64))
    }

    /// The smallest box that encloses both.
    pub fn union(&self, other: &Self) -> (r: Self)
        ensures
            r == self.spec_union(*other),
    {
        Self {
            x0: min_i32(self.x0, other.x0),
            y0: min_i32(self.y0, other.y0),
            x1: max_i32(self.x1, other.x1),
            y1: max_i32(self.y1, other.y1),
        }
    }

    /// Intersection over union, in millionths, rounded down.
    pub fn iou(&self, other: &Self) -> (r: u32)
        ensures
            r == self.spec_iou(*other),
            r <= MILLION,
    {
        let inter = BBox {
            x0: max_i32(self.x0, other.x0),
            y0: max_i32(self.y0, other.y0),
            x1: min_i32(self.x1, other.x1),
            y1: min_i32(self.y1, other.y1),
        };
        assert(inter == self.spec_intersection(*other));
        let inter_area: u64 = inter.area();
        proof {
            lemma_intersection_area(*self, *other);
        }
        let cover: u128 = self.area() as u128 + other.area() as u128 - inter_area as u128;
        ratio_millionths(inter_area, cover)
    }

    /// The distance between the two centres, in hundredths of a unit, rounded down.
    pub fn center_distance(&self, other: &Self) -> (d: u64)
        ensures
            d == self.spec_center_distance(*other),
    {
        let (ax, ay) = self.center();
        let (bx, by) = other.center();
        let dx: i128 = ax as i128 - bx as i128;
        let dy: i128 = ay as i128 - by as i128;
        assert(dx * dx <= 0x80_0000_0000int * 0x80_0000_0000int && dx * dx >= 0) by (nonlinear_arith)
            requires
                -0x80_0000_0000int <= dx <= 0x80_0000_0000int,
        ;
        assert(dy * dy <= 0x80_0000_0000int * 0x80_0000_0000int && dy * dy >= 0) by (nonlinear_arith)
            requires
                -0x80_0000_0000int <= dy <= 0x80_0000_0000int,
        ;
        assert(0x80_0000_0000int * 0x80_0000_0000int == 0x4000_0000_0000_0000_0000int) by (nonlinear_arith);
        let gap: i128 = dx * dx + dy * dy;
        isqrt(gap as u128)
    }
}

/// The overlap of two boxes is no larger than either, so it never exceeds what they cover.
pub proof fn lemma_intersection_area(a: BBox, b: BBox)
    ensures
        0 <= a.spec_intersection(b).spec_area() <= a.spec_area(),
        a.spec_intersection(b).spec_area() <= b.spec_area(),
        a.spec_intersection(b).spec_area() <= a.spec_cover_area(b),
{
    let i = a.spec_intersection(b);
    assert(0 <= i.spec_width() <= a.spec_width());
    assert(0 <= i.spec_height() <= a.spec_height());
    assert(i.spec_width() <= b.spec_width());
    assert(i.spec_height() <= b.spec_height());
    lemma_product_monotone(i.spec_width(), i.spec_height(), a.spec_width(), a.spec_height());
    lemma_product_monotone(i.spec_width(), i.spec_height(), b.spec_width(), b.spec_height());
}

proof fn lemma_product_monotone(w1: int, h1: int, w2: int, h2: int)
    requires
        0 <= w1 <= w2,
        0 <= h1 <= h2,
    ensures
        0 <= w1 * h1 <= w2 * h2,
        (w2 * h2 > 0 && w1 * h1 == w2 * h2) ==> (w1 == w2 && h1 == h2),
{
    assert(0 <= w1 * h1 <= w2 * h2) by (nonlinear_arith)
        requires
            0 <= w1 <= w2,
            0 <= h1 <= h2,
    ;
    if w2 * h2 > 0 && w1 * h1 == w2 * h2 {
        assert(w1 == w2 && h1 == h2) by (nonlinear_arith)
            requires
                0 <= w1 <= w2,
                0 <= h1 <= h2,
                w2 * h2 > 0,
                w1 * h1 == w2 * h2,
        ;
    }
}

/// The overlap ratio of any two boxes lies between zero and one.
pub proof fn lemma_iou_bounded(a: BBox, b: BBox)
    ensures
        0 <= a.spec_iou(b) <= MILLION,
{
    lemma_ratio_bounded(a.spec_intersection(b).spec_area(), a.spec_cover_area(b));
}

/// For two boxes of positive area, the overlap ratio is one exactly when the boxes are equal.
pub proof fn lemma_iou_one_iff_equal(a: BBox, b: BBox)
    requires
        a.spec_area() > 0,
        b.spec_area() > 0,
    ensures
        a.spec_iou(b) == MILLION <==> a == b,
{
    let i = a.spec_intersection(b);
    lemma_intersection_area(a, b);
    lemma_ratio_is_one(i.spec_area(), a.spec_cover_area(b));
    assert(a.spec_width() > 0 && a.spec_height() > 0) by (nonlinear_arith)
        requires
            a.spec_width() * a.spec_height() > 0,
            a.spec_width() >= 0,
            a.spec_height() >= 0,
    ;
    assert(b.spec_width() > 0 && b.spec_height() > 0) by (nonlinear_arith)
        requires
            b.spec_width() * b.spec_height() > 0,
            b.spec_width() >= 0,
            b.spec_height() >= 0,
    ;
    if a == b {
        assert(i == a);
    }
    if a.spec_iou(b) == MILLION {
        assert(i.spec_area() == a.spec_area());
        assert(i.spec_area() == b.spec_area());
        lemma_product_monotone(i.spec_width(), i.spec_height(), a.spec_width(), a.spec_height());
        lemma_product_monotone(i.spec_width(), i.spec_height(), b.spec_width(), b.spec_height());
        assert(a == b);
    }
}

/// The rounded overlap ratio of two boxes that cover some area reaches a
/// threshold counted in millionths exactly when their true ratio does.
pub proof fn lemma_iou_at_least(a: BBox, b: BBox, threshold: int)
    requires
        a.spec_cover_area(b) > 0,
        0 < threshold <= MILLION,
    ensures
        a.spec_iou(b) >= threshold <==> a.spec_intersection(b).spec_area() * MILLION >= threshold
            * a.spec_cover_area(b),
{
    lemma_intersection_area(a, b);
    lemma_ratio_at_least(a.spec_intersection(b).spec_area(), a.spec_cover_area(b), threshold);
}

/// The rounded distance of two centres lies below a whole bound exactly when
/// the true distance does: their squared gap lies below the square of the bound.
pub proof fn lemma_center_distance_below(a: BBox, b: BBox, bound: nat)
    ensures
        a.spec_center_distance(b) < bound <==> a.spec_center_gap_squared(b) < bound * bound,
{
    let gap = a.spec_center_gap_squared(b);
    let (ax, ay) = a.spec_center();
    let (bx, by) = b.spec_center();
    assert(gap >= 0) by (nonlinear_arith)
        requires
            gap == (ax - bx) * (ax - bx) + (ay - by) * (ay - by),
    ;
    lemma_floor_sqrt_exists(gap as nat);
    lemma_floor_sqrt_below(gap as nat, floor_sqrt(gap as nat), bound);
}

/// The overlap ratio does not depend on the order of the boxes.
pub proof fn lemma_iou_symmetric(a: BBox, b: BBox)
    ensures
        a.spec_iou(b) == b.spec_iou(a),
{
    assert(a.spec_intersection(b) == b.spec_intersection(a));
}

} // verus!
