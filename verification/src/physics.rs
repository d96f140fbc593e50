use vstd::prelude::*;
use vstd::std_specs::convert::FromSpecImpl;
use vstd::std_specs::ops::AddSpecImpl;
use crate::math::{Vec2, can_add, vec_add};

verus! {

/// An axis-aligned rectangle of terminal cells.
///
/// `cor1` is the top-left corner and `cor2` the bottom-right corner; both are
/// part of the rectangle.
#[derive(Debug, Hash, Clone, Copy, PartialEq, Eq, Structural)]
pub struct AABB {
    pub cor1: Vec2,
    pub cor2: Vec2,
}

/// The smaller of two integers.
pub open spec fn min_i32(a: i32, b: i32) -> i32 {
    if a <= b { a } else { b }
}

/// The larger of two integers.
pub open spec fn max_i32(a: i32, b: i32) -> i32 {
    if a <= b { b } else { a }
}

/// The rectangle with `start` and `end` as opposite corners, normalised so
/// that `cor1` is top-left and `cor2` bottom-right.
pub open spec fn spanning(start: Vec2, end: Vec2) -> AABB {
    AABB {
        cor1: Vec2 { x: min_i32(start.x, end.x), y: min_i32(start.y, end.y) },
        cor2: Vec2 { x: max_i32(start.x, end.x), y: max_i32(start.y, end.y) },
    }
}

/// A rectangle made of the single cell `p`.
pub open spec fn cell_box(p: Vec2) -> AABB {
    AABB { cor1: p, cor2: p }
}

/// Top-left corner really is above and left of the bottom-right one.
pub open spec fn well_formed(b: AABB) -> bool {
    b.cor1.x <= b.cor2.x && b.cor1.y <= b.cor2.y
}

/// Two rectangles overlap (touching edges count) unless one lies wholly
/// to one side of the other.
pub open spec fn overlaps(a: AABB, b: AABB) -> bool {
    !(a.cor1.x > b.cor2.x || a.cor1.y > b.cor2.y || a.cor2.x < b.cor1.x || a.cor2.y < b.cor1.y)
}

/// The rectangle moved by `v`.
pub open spec fn translated(a: AABB, v: Vec2) -> AABB {
    AABB { cor1: vec_add(a.cor1, v), cor2: vec_add(a.cor2, v) }
}

/// Whether moving the rectangle by `v` stays inside `i32`.
pub open spec fn can_translate(a: AABB, v: Vec2) -> bool {
    can_add(a.cor1, v) && can_add(a.cor2, v)
}

/// The four corners, clockwise from the top-left one.
pub open spec fn corners(b: AABB) -> (Vec2, Vec2, Vec2, Vec2) {
    (
        b.cor1,
        Vec2 { x: b.cor2.x, y: b.cor1.y },
        b.cor2,
        Vec2 { x: b.cor1.x, y: b.cor2.y },
    )
}

impl AABB {
    /// In order: top-left, top-right, bottom-right, bottom-left.
    pub fn get_corners(&self) -> (r: (Vec2, Vec2, Vec2, Vec2))
        ensures
            r == corners(*self),
    {
        (
            self.cor1,
            Vec2::from((self.cor2.x, self.cor1.y)),
            self.cor2,
            Vec2::from((self.cor1.x, self.cor2.y)),
        )
    }

    /// The rectangle spanned by two opposite corners, given in any order.
    pub fn new(start: Vec2, end: Vec2) -> (r: Self)
        ensures
            r == spanning(start, end),
    {
        let (x1, x2) = if start.x > end.x { (end.x, start.x) } else { (start.x, end.x) };
        let (y1, y2) = if start.y > end.y { (end.y, start.y) } else { (start.y, end.y) };
        AABB { cor1: Vec2 { x: x1, y: y1 }, cor2: Vec2 { x: x2, y: y2 } }
    }
}

impl Default for AABB {
    fn default() -> (r: Self)
        ensures
            r == (AABB { cor1: Vec2 { x: 0, y: 0 }, cor2: Vec2 { x: 0, y: 0 } }),
    {
        AABB { cor1: Vec2 { x: 0, y: 0 }, cor2: Vec2 { x: 0, y: 0 } }
    }
}

impl From<(Vec2, Vec2)> for AABB {
    fn from(value: (Vec2, Vec2)) -> (r: Self) {
        AABB { cor1: value.0, cor2: value.1 }
    }
}

impl FromSpecImpl<(Vec2, Vec2)> for AABB {
    open spec fn obeys_from_spec() -> bool {
        true
    }

    open spec fn from_spec(v: (Vec2, Vec2)) -> AABB {
        AABB { cor1: v.0, cor2: v.1 }
    }
}

impl From<((i32, i32), (i32, i32))> for AABB {
    fn from(value: ((i32, i32), (i32, i32))) -> (r: Self) {
        AABB { cor1: Vec2::from(value.0), cor2: Vec2::from(value.1) }
    }
}

impl FromSpecImpl<((i32, i32), (i32, i32))> for AABB {
    open spec fn obeys_from_spec() -> bool {
        true
    }

    open spec fn from_spec(v: ((i32, i32), (i32, i32))) -> AABB {
        AABB { cor1: Vec2 { x: v.0.0, y: v.0.1 }, cor2: Vec2 { x: v.1.0, y: v.1.1 } }
    }
}

impl From<i32> for AABB {
    fn from(value: i32) -> (r: Self) {
        AABB { cor1: Vec2::from(0i32), cor2: Vec2::from(value) }
    }
}

impl FromSpecImpl<i32> for AABB {
    open spec fn obeys_from_spec() -> bool {
        true
    }

    open spec fn from_spec(v: i32) -> AABB {
        AABB { cor1: Vec2 { x: 0, y: 0 }, cor2: Vec2 { x: v, y: v } }
    }
}

impl core::ops::Add for AABB {
    type Output = AABB;

    fn add(self, rhs: Self) -> (r: Self::Output) {
        AABB { cor1: self.cor1 + rhs.cor1, cor2: self.cor2 + rhs.cor2 }
    }
}

impl AddSpecImpl for AABB {
    open spec fn obeys_add_spec() -> bool {
        true
    }

    open spec fn add_req(self, rhs: Self) -> bool {
        can_add(self.cor1, rhs.cor1) && can_add(self.cor2, rhs.cor2)
    }

    open spec fn add_spec(self, rhs: Self) -> AABB {
        AABB { cor1: vec_add(self.cor1, rhs.cor1), cor2: vec_add(self.cor2, rhs.cor2) }
    }
}

impl core::ops::Add<Vec2> for AABB {
    type Output = AABB;

    fn add(self, rhs: Vec2) -> (r: Self::Output) {
        AABB { cor1: self.cor1 + rhs, cor2: self.cor2 + rhs }
    }
}

impl AddSpecImpl<Vec2> for AABB {
    open spec fn obeys_add_spec() -> bool {
        true
    }

    open spec fn add_req(self, rhs: Vec2) -> bool {
        can_translate(self, rhs)
    }

    open spec fn add_spec(self, rhs: Vec2) -> AABB {
        translated(self, rhs)
    }
}

impl core::ops::AddAssign<Vec2> for AABB {
    fn add_assign(&mut self, rhs: Vec2)
        requires
            can_translate(*old(self), rhs),
        ensures
            *final(self) == translated(*old(self), rhs),
    {
        self.cor1 = self.cor1 + rhs;
        self.cor2 = self.cor2 + rhs;
    }
}

/// Collision test between two shapes.
pub trait CollisionCheck<Rhs = Self> {
    fn is_colliding(&self, other: &Rhs) -> bool;
}

/// Collision test against a scalar.
pub trait ColCheck {
    fn is_colliding(&self, other: i32) -> bool;
}

impl CollisionCheck for AABB {
    fn is_colliding(&self, other: &Self) -> (r: bool)
        ensures
            r == overlaps(*self, *other),
    {
        if self.cor1.x > other.cor2.x {
            false
        } else if self.cor1.y > other.cor2.y {
            false
        } else if self.cor2.x < other.cor1.x {
            false
        } else if self.cor2.y < other.cor1.y {
            false
        } else {
            true
        }
    }
}

/// Collision does not depend on which rectangle asks.
pub proof fn lemma_collision_symmetric(a: AABB, b: AABB)
    ensures
        overlaps(a, b) == overlaps(b, a),
{
}

/// A well-formed rectangle collides with itself.
pub proof fn lemma_collision_reflexive(a: AABB)
    requires
        well_formed(a),
    ensures
        overlaps(a, a),
{
}

/// Moving both rectangles by the same offset does not change whether they collide.
pub proof fn lemma_collision_translation_invariant(a: AABB, b: AABB, v: Vec2)
    requires
        can_translate(a, v),
        can_translate(b, v),
    ensures
        overlaps(translated(a, v), translated(b, v)) == overlaps(a, b),
{
}

/// Every corner of a well-formed rectangle lies inside it.
pub proof fn lemma_corners_inside(b: AABB)
    requires
        well_formed(b),
    ensures
        overlaps(b, cell_box(corners(b).0)),
        overlaps(b, cell_box(corners(b).1)),
        overlaps(b, cell_box(corners(b).2)),
        overlaps(b, cell_box(corners(b).3)),
{
}

/// The rectangle built from two corners contains both of them.
/// It is well formed whatever order the corners were given in.
pub proof fn lemma_spanning_box(start: Vec2, end: Vec2)
    ensures
        well_formed(spanning(start, end)),
        overlaps(spanning(start, end), cell_box(start)),
        overlaps(spanning(start, end), cell_box(end)),
        spanning(start, end) == spanning(end, start),
{
}


/// Whether cell `p` lies in rectangle `a`.
pub open spec fn holds_cell(a: AABB, p: Vec2) -> bool {
    a.cor1.x <= p.x <= a.cor2.x && a.cor1.y <= p.y <= a.cor2.y
}

/// Rectangles that lie in disjoint rows, or in disjoint columns, never
/// collide.
pub proof fn lemma_disjoint_ranges_do_not_collide(a: AABB, b: AABB)
    ensures
        a.cor2.y < b.cor1.y ==> !overlaps(a, b),
        a.cor1.y > b.cor2.y ==> !overlaps(a, b),
        a.cor2.x < b.cor1.x ==> !overlaps(a, b),
        a.cor1.x > b.cor2.x ==> !overlaps(a, b),
{
}

/// Two well-formed rectangles collide exactly when some cell lies in both.
pub proof fn lemma_collide_iff_shared_cell(a: AABB, b: AABB)
    requires
        well_formed(a),
        well_formed(b),
    ensures
        overlaps(a, b) <==> exists|p: Vec2| #[trigger] holds_cell(a, p) && holds_cell(b, p),
{
    if overlaps(a, b) {
        let p = Vec2 {
            x: if a.cor1.x <= b.cor1.x { b.cor1.x } else { a.cor1.x },
            y: if a.cor1.y <= b.cor1.y { b.cor1.y } else { a.cor1.y },
        };
        assert(holds_cell(a, p) && holds_cell(b, p));
    }
}

} // verus!
