use vstd::prelude::*;
use vstd::std_specs::cmp::PartialOrdSpecImpl;
use vstd::std_specs::convert::FromSpecImpl;
use vstd::std_specs::ops::{AddSpecImpl, SubSpecImpl};
use core::cmp::Ordering;

verus! {

/// A point or an offset on the terminal grid, in cells.
#[derive(Debug, Clone, Copy, PartialEq, Eq, Structural, Hash)]
pub struct Vec2 {
    pub x: i32,
    pub y: i32,
}

/// Whether `a + b` fits in an `i32`.
pub open spec fn fits_i32(v: int) -> bool {
    i32::MIN <= v <= i32::MAX
}

/// Whether adding `b` to `a` component-wise stays inside `i32`.
pub open spec fn can_add(a: Vec2, b: Vec2) -> bool {
    fits_i32(a.x + b.x) && fits_i32(a.y + b.y)
}

/// Whether subtracting `b` from `a` component-wise stays inside `i32`.
pub open spec fn can_sub(a: Vec2, b: Vec2) -> bool {
    fits_i32(a.x - b.x) && fits_i32(a.y - b.y)
}

/// Component-wise sum.
pub open spec fn vec_add(a: Vec2, b: Vec2) -> Vec2 {
    Vec2 { x: (a.x + b.x) as i32, y: (a.y + b.y) as i32 }
}

/// Component-wise difference.
pub open spec fn vec_sub(a: Vec2, b: Vec2) -> Vec2 {
    Vec2 { x: (a.x - b.x) as i32, y: (a.y - b.y) as i32 }
}

/// Lexicographic order: first by `x`, then by `y`.
pub open spec fn lex_order(a: Vec2, b: Vec2) -> Ordering {
    if a.x < b.x {
        Ordering::Less
    } else if a.x > b.x {
        Ordering::Greater
    } else if a.y < b.y {
        Ordering::Less
    } else if a.y > b.y {
        Ordering::Greater
    } else {
        Ordering::Equal
    }
}

/// The pair of terminal cells that a point maps to: each coordinate keeps its
/// low 16 bits, as an `as u16` cast does.
pub open spec fn cell_of(v: Vec2) -> (u16, u16) {
    (v.x as u16, v.y as u16)
}

impl Vec2 {
    pub fn new(x: i32, y: i32) -> (r: Self)
        ensures
            r.x == x,
            r.y == y,
    {
        Self { x, y }
    }

    /// The terminal cell of this point (both coordinates truncated to 16 bits).
    pub fn to_cell(self) -> (r: (u16, u16))
        ensures
            r == cell_of(self),
    {
        (self.x as u16, self.y as u16)
    }
}

impl Default for Vec2 {
    fn default() -> (r: Self)
        ensures
            r == (Vec2 { x: 0, y: 0 }),
    {
        Vec2 { x: 0, y: 0 }
    }
}

impl PartialOrd for Vec2 {
    fn partial_cmp(&self, other: &Self) -> (r: Option<Ordering>) {
        if self.x < other.x {
            Some(Ordering::Less)
        } else if self.x > other.x {
            Some(Ordering::Greater)
        } else if self.y < other.y {
            Some(Ordering::Less)
        } else if self.y > other.y {
            Some(Ordering::Greater)
        } else {
            Some(Ordering::Equal)
        }
    }
}

impl PartialOrdSpecImpl for Vec2 {
    open spec fn obeys_partial_cmp_spec() -> bool {
        true
    }

    open spec fn partial_cmp_spec(&self, other: &Self) -> Option<Ordering> {
        Some(lex_order(*self, *other))
    }
}

impl From<Vec2> for (i32, i32) {
    fn from(value: Vec2) -> (r: (i32, i32)) {
        (value.x, value.y)
    }
}

impl FromSpecImpl<Vec2> for (i32, i32) {
    open spec fn obeys_from_spec() -> bool {
        true
    }

    open spec fn from_spec(v: Vec2) -> (i32, i32) {
        (v.x, v.y)
    }
}

impl From<Vec2> for (u16, u16) {
    fn from(value: Vec2) -> (r: (u16, u16)) {
        (value.x as u16, value.y as u16)
    }
}

impl FromSpecImpl<Vec2> for (u16, u16) {
    open spec fn obeys_from_spec() -> bool {
        true
    }

    open spec fn from_spec(v: Vec2) -> (u16, u16) {
        cell_of(v)
    }
}

impl From<(u16, u16)> for Vec2 {
    fn from(value: (u16, u16)) -> (r: Vec2) {
        Vec2 { x: value.0 as i32, y: value.1 as i32 }
    }
}

impl FromSpecImpl<(u16, u16)> for Vec2 {
    open spec fn obeys_from_spec() -> bool {
        true
    }

    open spec fn from_spec(v: (u16, u16)) -> Vec2 {
        Vec2 { x: v.0 as i32, y: v.1 as i32 }
    }
}

impl From<(i32, i32)> for Vec2 {
    fn from(value: (i32, i32)) -> (r: Vec2) {
        Vec2 { x: value.0, y: value.1 }
    }
}

impl FromSpecImpl<(i32, i32)> for Vec2 {
    open spec fn obeys_from_spec() -> bool {
        true
    }

    open spec fn from_spec(v: (i32, i32)) -> Vec2 {
        Vec2 { x: v.0, y: v.1 }
    }
}

impl From<u16> for Vec2 {
    fn from(value: u16) -> (r: Vec2) {
        Vec2 { x: value as i32, y: value as i32 }
    }
}

impl FromSpecImpl<u16> for Vec2 {
    open spec fn obeys_from_spec() -> bool {
        true
    }

    open spec fn from_spec(v: u16) -> Vec2 {
        Vec2 { x: v as i32, y: v as i32 }
    }
}

impl From<i32> for Vec2 {
    fn from(value: i32) -> (r: Vec2) {
        Vec2 { x: value, y: value }
    }
}

impl FromSpecImpl<i32> for Vec2 {
    open spec fn obeys_from_spec() -> bool {
        true
    }

    open spec fn from_spec(v: i32) -> Vec2 {
        Vec2 { x: v, y: v }
    }
}

impl core::ops::Add for Vec2 {
    type Output = Self;

    fn add(self, rhs: Self) -> (r: Self::Output) {
        Self { x: self.x + rhs.x, y: self.y + rhs.y }
    }
}

impl AddSpecImpl for Vec2 {
    open spec fn obeys_add_spec() -> bool {
        true
    }

    open spec fn add_req(self, rhs: Self) -> bool {
        can_add(self, rhs)
    }

    open spec fn add_spec(self, rhs: Self) -> Self {
        vec_add(self, rhs)
    }
}

impl core::ops::Sub for Vec2 {
    type Output = Self;

    fn sub(self, rhs: Self) -> (r: Self::Output) {
        Self { x: self.x - rhs.x, y: self.y - rhs.y }
    }
}

impl SubSpecImpl for Vec2 {
    open spec fn obeys_sub_spec() -> bool {
        true
    }

    open spec fn sub_req(self, rhs: Self) -> bool {
        can_sub(self, rhs)
    }

    open spec fn sub_spec(self, rhs: Self) -> Self {
        vec_sub(self, rhs)
    }
}

impl core::ops::AddAssign for Vec2 {
    fn add_assign(&mut self, rhs: Self)
        requires
            can_add(*old(self), rhs),
        ensures
            *final(self) == vec_add(*old(self), rhs),
    {
        self.x = self.x + rhs.x;
        self.y = self.y + rhs.y;
    }
}

impl core::ops::SubAssign for Vec2 {
    fn sub_assign(&mut self, rhs: Self)
        requires
            can_sub(*old(self), rhs),
        ensures
            *final(self) == vec_sub(*old(self), rhs),
    {
        self.x = self.x - rhs.x;
        self.y = self.y - rhs.y;
    }
}

/// Subtracting what was added gives the point back, and the other way round.
pub proof fn lemma_add_sub_inverse(a: Vec2, b: Vec2)
    ensures
        can_add(a, b) ==> vec_sub(vec_add(a, b), b) == a,
        can_sub(a, b) ==> vec_add(vec_sub(a, b), b) == a,
{
}

} // verus!
