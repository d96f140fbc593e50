use vstd::prelude::*;

verus! {

/// Absolute value.
pub open spec fn abs(v: int) -> int {
    if v < 0 { -v } else { v }
}

/// One step of a coordinate towards its target: +1 or -1.
pub open spec fn step_toward(from: int, to: int) -> int {
    if from < to { 1 } else { -1 }
}

/// The coordinate `a` moved `j` times by `d`.
pub open spec fn offset(a: int, d: int, j: int) -> int {
    a + d * j
}

/// The error term a Bresenham walk starts with: half the longer extent,
/// positive when the line is mostly horizontal and negative otherwise
/// (halves rounded toward zero).
pub open spec fn bres_err0(dx: int, dy: int) -> int {
    if dx > dy { dx / 2 } else { -(dy / 2) }
}

/// State of a Bresenham walk: current column, current row, error term.
pub struct BresState {
    pub x: int,
    pub y: int,
    pub err: int,
}

/// One step of the walk from `(x0, y0)` to `(x1, y1)`: both tests look at the
/// error term as it was before the step.
pub open spec fn bres_step(s: BresState, x0: int, y0: int, x1: int, y1: int) -> BresState {
    let dx = abs(x1 - x0);
    let dy = abs(y1 - y0);
    let (nx, e1) = if s.err > -dx { (s.x + step_toward(x0, x1), s.err - dy) } else { (s.x, s.err) };
    let (ny, e2) = if s.err < dy { (s.y + step_toward(y0, y1), e1 + dx) } else { (s.y, e1) };
    BresState { x: nx, y: ny, err: e2 }
}

/// The walk's state after `k` steps.
pub open spec fn bres_state(x0: int, y0: int, x1: int, y1: int, k: nat) -> BresState
    decreases k,
{
    if k == 0 {
        BresState { x: x0, y: y0, err: bres_err0(abs(x1 - x0), abs(y1 - y0)) }
    } else {
        bres_step(bres_state(x0, y0, x1, y1, (k - 1) as nat), x0, y0, x1, y1)
    }
}

/// How many steps the walk takes: the longer of the two extents.
pub open spec fn bres_steps(x0: int, y0: int, x1: int, y1: int) -> nat {
    let dx = abs(x1 - x0);
    let dy = abs(y1 - y0);
    (if dx > dy { dx } else { dy }) as nat
}

/// What holds after `k` steps of a walk whose horizontal extent is the
/// longer one: `k` columns done, `j` rows done, and the error term pinned
/// by them.
pub open spec fn x_major_at(x0: int, y0: int, x1: int, y1: int, k: nat, s: BresState) -> bool {
    let dx = abs(x1 - x0);
    let dy = abs(y1 - y0);
    exists|j: int|
        #![trigger offset(y0, step_toward(y0, y1), j)]
        {
            &&& 0 <= j <= dy
            &&& s.x == offset(x0, step_toward(x0, x1), k as int)
            &&& s.y == offset(y0, step_toward(y0, y1), j)
            &&& s.err == bres_err0(dx, dy) - k * dy + j * dx
            &&& 0 <= s.err <= dx - 1
        }
}

/// The same for a walk whose vertical extent is at least the horizontal one.
pub open spec fn y_major_at(x0: int, y0: int, x1: int, y1: int, k: nat, s: BresState) -> bool {
    let dx = abs(x1 - x0);
    let dy = abs(y1 - y0);
    exists|i: int|
        #![trigger offset(x0, step_toward(x0, x1), i)]
        {
            &&& 0 <= i <= dx
            &&& s.x == offset(x0, step_toward(x0, x1), i)
            &&& s.y == offset(y0, step_toward(y0, y1), k as int)
            &&& s.err == bres_err0(dx, dy) - i * dy + k * dx
            &&& -(dy - 1) <= s.err <= 0
        }
}

proof fn lemma_mul_bounds(a: int, b: int, c: int)
    requires
        b > 0,
        -b < a * b < b,
    ensures
        a == 0,
{
    if a >= 1 {
        assert(a * b >= b) by (nonlinear_arith)
            requires a >= 1, b > 0;
    } else if a <= -1 {
        assert(a * b <= -b) by (nonlinear_arith)
            requires a <= -1, b > 0;
    }
}

proof fn lemma_le_from_mul(j: int, d: int, b: int)
    requires
        b > 0,
        j * b < (d + 1) * b,
    ensures
        j <= d,
{
    if j > d {
        assert(j * b >= (d + 1) * b) by (nonlinear_arith)
            requires j >= d + 1, b > 0;
    }
}

/// The walk stays between its endpoints, its error term stays bounded, and
/// after its last step it stands exactly on the end point.
pub proof fn lemma_bres_walk(x0: int, y0: int, x1: int, y1: int, k: nat)
    requires
        k <= bres_steps(x0, y0, x1, y1),
    ensures
        ({
            let dx = abs(x1 - x0);
            let dy = abs(y1 - y0);
            let s = bres_state(x0, y0, x1, y1, k);
            &&& dx > dy ==> x_major_at(x0, y0, x1, y1, k, s)
            &&& 0 < dy && dx <= dy ==> y_major_at(x0, y0, x1, y1, k, s)
            &&& (s.x == x1 && s.y == y1) <==> k == bres_steps(x0, y0, x1, y1)
        }),
    decreases k,
{
    let dx = abs(x1 - x0);
    let dy = abs(y1 - y0);
    let sx = step_toward(x0, x1);
    let sy = step_toward(y0, y1);
    let e0 = bres_err0(dx, dy);
    let n = bres_steps(x0, y0, x1, y1);
    let s = bres_state(x0, y0, x1, y1, k);
    assert(x1 == x0 + sx * dx);
    assert(y1 == y0 + sy * dy);
    if k == 0 {
        if dx > dy {
            assert(s.y == offset(y0, sy, 0));
            assert(x_major_at(x0, y0, x1, y1, k, s));
        }
        if 0 < dy && dx <= dy {
            assert(s.x == offset(x0, sx, 0));
            assert(y_major_at(x0, y0, x1, y1, k, s));
        }
    } else {
        let km = (k - 1) as nat;
        lemma_bres_walk(x0, y0, x1, y1, km);
        let p = bres_state(x0, y0, x1, y1, km);
        if dx > dy {
            let j = choose|j: int|
                #![trigger offset(y0, sy, j)]
                {
                    &&& 0 <= j <= dy
                    &&& p.x == offset(x0, sx, km as int)
                    &&& p.y == offset(y0, sy, j)
                    &&& p.err == e0 - km * dy + j * dx
                    &&& 0 <= p.err <= dx - 1
                };
            let j2 = if p.err < dy { j + 1 } else { j };
            assert(s.x == offset(x0, sx, k as int));
            assert(s.y == offset(y0, sy, j2));
            assert(k * dy == km * dy + dy) by (nonlinear_arith)
                requires k == km + 1;
            assert(s == bres_step(p, x0, y0, x1, y1));
            assert(p.err > -dx);
            if p.err < dy {
                assert(j2 * dx == j * dx + dx) by (nonlinear_arith)
                    requires j2 == j + 1;
                assert(s.err == p.err - dy + dx);
            } else {
                assert(s.err == p.err - dy);
            }
            assert(s.err == e0 - k * dy + j2 * dx);
            // j2 <= dy: from the bound on the error term
            assert(j2 * dx < (dy + 1) * dx) by (nonlinear_arith)
                requires
                    s.err == e0 - k * dy + j2 * dx,
                    0 <= s.err,
                    s.err <= dx - 1,
                    0 <= e0,
                    k <= dx,
                    dx > 0,
                    dy >= 0,
            ;
            lemma_le_from_mul(j2, dy, dx);
            assert(x_major_at(x0, y0, x1, y1, k, s));
            if k == n {
                assert((j2 - dy) * dx == s.err - e0) by (nonlinear_arith)
                    requires s.err == e0 - k * dy + j2 * dx, k == dx;
                lemma_mul_bounds(j2 - dy, dx, 0);
            }
        } else if 0 < dy {
            let i = choose|i: int|
                #![trigger offset(x0, sx, i)]
                {
                    &&& 0 <= i <= dx
                    &&& p.x == offset(x0, sx, i)
                    &&& p.y == offset(y0, sy, km as int)
                    &&& p.err == e0 - i * dy + km * dx
                    &&& -(dy - 1) <= p.err <= 0
                };
            let i2 = if p.err > -dx { i + 1 } else { i };
            assert(s.x == offset(x0, sx, i2));
            assert(s.y == offset(y0, sy, k as int));
            assert(k * dx == km * dx + dx) by (nonlinear_arith)
                requires k == km + 1;
            assert(s == bres_step(p, x0, y0, x1, y1));
            assert(p.err < dy);
            if p.err > -dx {
                assert(i2 * dy == i * dy + dy) by (nonlinear_arith)
                    requires i2 == i + 1;
                assert(s.err == p.err - dy + dx);
            } else {
                assert(s.err == p.err + dx);
            }
            assert(s.err == e0 - i2 * dy + k * dx);
            assert(i2 * dy < (dx + 1) * dy) by (nonlinear_arith)
                requires
                    s.err == e0 - i2 * dy + k * dx,
                    -(dy - 1) <= s.err,
                    e0 <= 0,
                    k <= dy,
                    dy > 0,
                    dx >= 0,
            ;
            lemma_le_from_mul(i2, dx, dy);
            assert(y_major_at(x0, y0, x1, y1, k, s));
            if k == n {
                assert((dx - i2) * dy == s.err - e0) by (nonlinear_arith)
                    requires s.err == e0 - i2 * dy + k * dx, k == dy;
                lemma_mul_bounds(dx - i2, dy, 0);
            }
        }
    }
}

/// Every cell of the walk lies in the rectangle spanned by its endpoints.
pub proof fn lemma_walk_in_range(x0: int, y0: int, x1: int, y1: int, k: nat)
    requires
        k <= bres_steps(x0, y0, x1, y1),
    ensures
        ({
            let s = bres_state(x0, y0, x1, y1, k);
            &&& (x0 <= s.x <= x1 || x1 <= s.x <= x0)
            &&& (y0 <= s.y <= y1 || y1 <= s.y <= y0)
        }),
{
    lemma_bres_walk(x0, y0, x1, y1, k);
    let dx = abs(x1 - x0);
    let dy = abs(y1 - y0);
    let sx = step_toward(x0, x1);
    let sy = step_toward(y0, y1);
    let s = bres_state(x0, y0, x1, y1, k);
    if dx > dy {
        let j = choose|j: int|
            #![trigger offset(y0, sy, j)]
            {
                &&& 0 <= j <= dy
                &&& s.x == offset(x0, sx, k as int)
                &&& s.y == offset(y0, sy, j)
                &&& s.err == bres_err0(dx, dy) - k * dy + j * dx
                &&& 0 <= s.err <= dx - 1
            };
        assert(k <= dx);
    } else if 0 < dy {
        let i = choose|i: int|
            #![trigger offset(x0, sx, i)]
            {
                &&& 0 <= i <= dx
                &&& s.x == offset(x0, sx, i)
                &&& s.y == offset(y0, sy, k as int)
                &&& s.err == bres_err0(dx, dy) - i * dy + k * dx
                &&& -(dy - 1) <= s.err <= 0
            };
        assert(k <= dy);
    }
}

/// A Bresenham walk starts at its start point, ends at its end point after
/// `max(|dx|, |dy|)` steps, and every step moves to one of the eight
/// neighbouring cells, toward the end point.
pub proof fn lemma_bres_connected(x0: int, y0: int, x1: int, y1: int, k: nat)
    ensures
        bres_state(x0, y0, x1, y1, 0).x == x0,
        bres_state(x0, y0, x1, y1, 0).y == y0,
        bres_state(x0, y0, x1, y1, bres_steps(x0, y0, x1, y1)).x == x1,
        bres_state(x0, y0, x1, y1, bres_steps(x0, y0, x1, y1)).y == y1,
        k < bres_steps(x0, y0, x1, y1) ==> ({
            let a = bres_state(x0, y0, x1, y1, k);
            let b = bres_state(x0, y0, x1, y1, k + 1);
            &&& (b.x == a.x || b.x == a.x + step_toward(x0, x1))
            &&& (b.y == a.y || b.y == a.y + step_toward(y0, y1))
            &&& (b.x != a.x || b.y != a.y)
        }),
{
    let n = bres_steps(x0, y0, x1, y1);
    lemma_bres_walk(x0, y0, x1, y1, n);
    if k < n {
        lemma_bres_walk(x0, y0, x1, y1, k);
        let dx = abs(x1 - x0);
        let dy = abs(y1 - y0);
        let a = bres_state(x0, y0, x1, y1, k);
        assert(bres_state(x0, y0, x1, y1, k + 1) == bres_step(a, x0, y0, x1, y1));
        if dx > dy {
            assert(x_major_at(x0, y0, x1, y1, k, a));
            assert(a.err > -dx);
        } else {
            assert(y_major_at(x0, y0, x1, y1, k, a));
            assert(a.err < dy);
        }
    }
}

} // verus!
