//! Pixel-space rectangles: the geometry shared by the framebuffer core and
//! the refresh controller.
//!
//! A `Rect` is an unsigned rectangle `{top, left, width, height}`. One value
//! is set apart: the all-max *sentinel*, which stands for "nothing refreshed
//! yet". The sentinel contains nothing and is contained by nothing except
//! itself, so it can never satisfy a coalescing test by accident.

use vstd::prelude::*;

verus! {

/// An unsigned rectangle in pixel space.
#[derive(Clone, Copy, Debug, PartialEq, Eq, Structural)]
pub struct Rect {
    pub top: u32,
    pub left: u32,
    pub width: u32,
    pub height: u32,
}

impl Rect {
    /// The all-max sentinel: "nothing refreshed yet".
    pub open spec fn spec_sentinel() -> Rect {
        Rect { top: u32::MAX, left: u32::MAX, width: u32::MAX, height: u32::MAX }
    }

    pub open spec fn is_sentinel(self) -> bool {
        self == Rect::spec_sentinel()
    }

    pub open spec fn is_empty(self) -> bool {
        self.width == 0 || self.height == 0
    }

    /// The point `(y, x)` lies inside `self`. The sentinel has no points.
    pub open spec fn spec_contains_point(self, y: int, x: int) -> bool {
        &&& !self.is_sentinel()
        &&& self.top <= y < self.top + self.height
        &&& self.left <= x < self.left + self.width
    }

    /// Rectangle containment. For ordinary rectangles this holds exactly when
    /// every point of `other` lies in `self` (see `lemma_contains_iff_points`);
    /// the sentinel contains nothing and is contained by nothing but itself.
    pub open spec fn spec_contains(self, other: Rect) -> bool {
        if self.is_sentinel() || other.is_sentinel() {
            self.is_sentinel() && other.is_sentinel()
        } else if other.is_empty() {
            true
        } else {
            &&& self.top <= other.top
            &&& self.left <= other.left
            &&& other.top + other.height <= self.top + self.height
            &&& other.left + other.width <= self.left + self.width
        }
    }

    /// The two rectangles share at least one point.
    pub open spec fn spec_intersects(self, other: Rect) -> bool {
        exists|y: int, x: int| self.spec_contains_point(y, x) && other.spec_contains_point(y, x)
    }

    /// `self` lies within a `panel_w` x `panel_h` panel.
    pub open spec fn spec_in_panel(self, panel_w: int, panel_h: int) -> bool {
        &&& self.top + self.height <= panel_h
        &&& self.left + self.width <= panel_w
    }

    /// Coordinate form of intersection, used by the executable test.
    pub open spec fn spec_overlaps(self, other: Rect) -> bool {
        &&& !self.is_sentinel()
        &&& !other.is_sentinel()
        &&& !self.is_empty()
        &&& !other.is_empty()
        &&& self.top < other.top + other.height
        &&& other.top < self.top + self.height
        &&& self.left < other.left + other.width
        &&& other.left < self.left + self.width
    }

    pub fn sentinel() -> (r: Rect)
        ensures
            r == Rect::spec_sentinel(),
    {
        Rect { top: u32::MAX, left: u32::MAX, width: u32::MAX, height: u32::MAX }
    }

    pub fn is_invalid(&self) -> (r: bool)
        ensures
            r == self.is_sentinel(),
    {
        self.top == u32::MAX && self.left == u32::MAX && self.width == u32::MAX
            && self.height == u32::MAX
    }

    /// Point containment; the sentinel contains no point.
    pub fn contains_point(&self, y: u32, x: u32) -> (r: bool)
        ensures
            r == self.spec_contains_point(y as int, x as int),
    {
        !self.is_invalid() && self.top <= y && (y as u64) < self.top as u64 + self.height as u64
            && self.left <= x && (x as u64) < self.left as u64 + self.width as u64
    }

    /// Rectangle containment, used for refresh coalescing.
    pub fn contains(&self, other: &Rect) -> (r: bool)
        ensures
            r == self.spec_contains(*other),
    {
        if self.is_invalid() || other.is_invalid() {
            self.is_invalid() && other.is_invalid()
        } else if other.width == 0 || other.height == 0 {
            true
        } else {
            self.top <= other.top && self.left <= other.left
                && other.top as u64 + other.height as u64 <= self.top as u64 + self.height as u64
                && other.left as u64 + other.width as u64 <= self.left as u64 + self.width as u64
        }
    }

    /// Overlap test, used for the refresh collision probe.
    pub fn intersects(&self, other: &Rect) -> (r: bool)
        ensures
            r == self.spec_intersects(*other),
    {
        let r = !self.is_invalid() && !other.is_invalid()
            && self.width > 0 && self.height > 0 && other.width > 0 && other.height > 0
            && (self.top as u64) < other.top as u64 + other.height as u64
            && (other.top as u64) < self.top as u64 + self.height as u64
            && (self.left as u64) < other.left as u64 + other.width as u64
            && (other.left as u64) < self.left as u64 + self.width as u64;
        proof {
            lemma_overlaps_iff_intersects(*self, *other);
        }
        r
    }
}

/// The smaller of two values.
pub open spec fn spec_min_u32(a: u32, b: u32) -> u32 {
    if a <= b {
        a
    } else {
        b
    }
}

/// The larger of two values.
pub open spec fn spec_max_u32(a: u32, b: u32) -> u32 {
    if a >= b {
        a
    } else {
        b
    }
}

/// The bounding rectangle of a three-point stroke (each point `(y, x)`): the
/// smallest rectangle containing its start, control and end point.
pub open spec fn spec_stroke_bound(p1: (u32, u32), p2: (u32, u32), p3: (u32, u32)) -> Rect {
    let top = spec_min_u32(p1.0, spec_min_u32(p2.0, p3.0));
    let left = spec_min_u32(p1.1, spec_min_u32(p2.1, p3.1));
    let bottom = spec_max_u32(p1.0, spec_max_u32(p2.0, p3.0));
    let right = spec_max_u32(p1.1, spec_max_u32(p2.1, p3.1));
    Rect {
        top,
        left,
        width: (right - left + 1) as u32,
        height: (bottom - top + 1) as u32,
    }
}

impl Rect {
    /// The bounding rectangle of a three-point stroke: the smallest rectangle
    /// containing all three points (`lemma_stroke_bound`).
    pub fn stroke_bound(p1: (u32, u32), p2: (u32, u32), p3: (u32, u32)) -> (r: Rect)
        requires
            p1.0 < u32::MAX && p1.1 < u32::MAX,
            p2.0 < u32::MAX && p2.1 < u32::MAX,
            p3.0 < u32::MAX && p3.1 < u32::MAX,
        ensures
            r == spec_stroke_bound(p1, p2, p3),
    {
        let top = min_u32(p1.0, min_u32(p2.0, p3.0));
        let left = min_u32(p1.1, min_u32(p2.1, p3.1));
        let bottom = max_u32(p1.0, max_u32(p2.0, p3.0));
        let right = max_u32(p1.1, max_u32(p2.1, p3.1));
        Rect { top, left, width: right - left + 1, height: bottom - top + 1 }
    }
}

/// The smaller of two values.
pub fn min_u32(a: u32, b: u32) -> (r: u32)
    ensures
        r == spec_min_u32(a, b),
{
    if a <= b {
        a
    } else {
        b
    }
}

/// The larger of two values.
pub fn max_u32(a: u32, b: u32) -> (r: u32)
    ensures
        r == spec_max_u32(a, b),
{
    if a >= b {
        a
    } else {
        b
    }
}

/// The stroke bound is the smallest rectangle around its three points: it
/// contains each of them, and every rectangle containing all three contains
/// it.
pub proof fn lemma_stroke_bound(p1: (u32, u32), p2: (u32, u32), p3: (u32, u32))
    requires
        p1.0 < u32::MAX && p1.1 < u32::MAX,
        p2.0 < u32::MAX && p2.1 < u32::MAX,
        p3.0 < u32::MAX && p3.1 < u32::MAX,
    ensures
        ({
            let b = spec_stroke_bound(p1, p2, p3);
            &&& b.spec_contains_point(p1.0 as int, p1.1 as int)
            &&& b.spec_contains_point(p2.0 as int, p2.1 as int)
            &&& b.spec_contains_point(p3.0 as int, p3.1 as int)
            &&& forall|r: Rect|
                r.spec_contains_point(p1.0 as int, p1.1 as int) && r.spec_contains_point(
                    p2.0 as int,
                    p2.1 as int,
                ) && r.spec_contains_point(p3.0 as int, p3.1 as int) ==> #[trigger] r.spec_contains(
                    b,
                )
        }),
{
    let b = spec_stroke_bound(p1, p2, p3);
    assert(!b.is_sentinel());
    assert forall|r: Rect|
        r.spec_contains_point(p1.0 as int, p1.1 as int) && r.spec_contains_point(
            p2.0 as int,
            p2.1 as int,
        ) && r.spec_contains_point(p3.0 as int, p3.1 as int) implies #[trigger] r.spec_contains(
        b,
    ) by {
        assert(!r.is_sentinel());
        assert(r.top <= b.top && r.left <= b.left);
        assert(b.top + b.height <= r.top + r.height);
        assert(b.left + b.width <= r.left + r.width);
    }
}

/// Containment is exactly point-wise containment, for ordinary (non-sentinel)
/// rectangles: `a.spec_contains(b)` holds iff every point of `b` is a point of
/// `a`.
pub proof fn lemma_contains_iff_points(a: Rect, b: Rect)
    requires
        !a.is_sentinel(),
        !b.is_sentinel(),
    ensures
        a.spec_contains(b) <==> (forall|y: int, x: int|
            b.spec_contains_point(y, x) ==> a.spec_contains_point(y, x)),
{
    if b.is_empty() {
        assert(forall|y: int, x: int| !b.spec_contains_point(y, x));
    } else {
        if !a.spec_contains(b) {
            // A corner of `b` is a witness point that escapes `a`.
            assert(b.spec_contains_point(b.top as int, b.left as int));
            if a.top <= b.top && a.left <= b.left
                && b.top + b.height <= a.top + a.height {
                assert(b.spec_contains_point(b.top as int, b.left + b.width - 1));
                assert(!a.spec_contains_point(b.top as int, b.left + b.width - 1));
            } else if a.top <= b.top && a.left <= b.left {
                assert(b.spec_contains_point(b.top + b.height - 1, b.left as int));
                assert(!a.spec_contains_point(b.top + b.height - 1, b.left as int));
            } else {
                assert(!a.spec_contains_point(b.top as int, b.left as int));
            }
        }
    }
}

/// The sentinel contains nothing and is contained by nothing except itself.
pub proof fn lemma_sentinel_contains(a: Rect, b: Rect)
    requires
        a.is_sentinel() || b.is_sentinel(),
    ensures
        a.spec_contains(b) <==> a == b,
{
}

/// The coordinate overlap test decides point-wise intersection.
pub proof fn lemma_overlaps_iff_intersects(a: Rect, b: Rect)
    ensures
        a.spec_overlaps(b) <==> a.spec_intersects(b),
{
    if a.spec_overlaps(b) {
        let y = if a.top >= b.top { a.top as int } else { b.top as int };
        let x = if a.left >= b.left { a.left as int } else { b.left as int };
        assert(a.spec_contains_point(y, x) && b.spec_contains_point(y, x));
    }
}

} // verus!
