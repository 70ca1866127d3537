use vstd::prelude::*;

verus! {

/// The largest `k <= bound` whose square is at most `n`.
pub open spec fn sqrt_below(n: int, k: int) -> int
    decreases k,
{
    if k <= 0 {
        0
    } else if k * k <= n {
        k
    } else {
        sqrt_below(n, k - 1)
    }
}

/// The integer square root of `n`, rounded down.
pub open spec fn floor_sqrt(n: int) -> int {
    sqrt_below(n, n)
}

proof fn lemma_sqrt_below(n: int, k: int, r: int)
    requires
        0 <= r <= k,
        r * r <= n,
        n < (r + 1) * (r + 1),
    ensures
        sqrt_below(n, k) == r,
    decreases k - r,
{
    if k > r {
        assert(k * k >= (r + 1) * (r + 1)) by (nonlinear_arith)
            requires k >= r + 1, r >= 0;
        lemma_sqrt_below(n, k - 1, r);
    } else if k == 0 {
    }
}

proof fn lemma_floor_sqrt(n: int, r: int)
    requires
        0 <= r,
        r * r <= n,
        n < (r + 1) * (r + 1),
    ensures
        floor_sqrt(n) == r,
{
    assert(r <= n) by (nonlinear_arith)
        requires 0 <= r, r * r <= n;
    lemma_sqrt_below(n, n, r);
}

/// Largest argument of `isqrt`.
pub const MAX_SQRT_ARG: u64 = 4398046511104;

/// The integer square root of `n`, rounded down.
pub fn isqrt(n: u64) -> (r: u64)
    requires
        n <= MAX_SQRT_ARG,
    ensures
        r == floor_sqrt(n as int),
        r <= 2097152,
{
    let mut lo: u64 = 0;
    let mut hi: u64 = 2097153;
    assert(2097153 * 2097153 > MAX_SQRT_ARG);
    while lo + 1 < hi
        invariant
            n <= MAX_SQRT_ARG,
            lo < hi <= 2097153,
            lo * lo <= n,
            n < hi * hi,
        decreases hi - lo,
    {
        let mid = lo + (hi - lo) / 2;
        assert(mid * mid <= 2097153 * 2097153) by (nonlinear_arith)
            requires mid <= 2097153;
        if mid * mid <= n {
            lo = mid;
        } else {
            hi = mid;
        }
    }
    proof {
        lemma_floor_sqrt(n as int, lo as int);
    }
    lo
}

/// Coverage, in 255ths, of a point at squared distance `d2` from the centre
/// of a circle of radius `r`: full within the radius, falling linearly to
/// nothing over the next pixel.
pub open spec fn ring_coverage(d2: int, r: int) -> int {
    let c = 255 * (r + 1) - floor_sqrt(65025 * d2);
    if c < 0 {
        0
    } else if c > 255 {
        255
    } else {
        c
    }
}

/// Largest corner radius.
pub const MAX_RADIUS: i64 = 4096;

fn ring_cov(d2: u64, r: i64) -> (c: u8)
    requires
        d2 <= 33554432,
        0 <= r <= MAX_RADIUS,
    ensures
        c == ring_coverage(d2 as int, r as int),
{
    let s = isqrt(65025 * d2) as i64;
    let c = 255 * (r + 1) - s;
    if c < 0 {
        0
    } else if c > 255 {
        255
    } else {
        c as u8
    }
}

/// An axis-aligned card with rounded corners.
#[derive(Clone, Copy, Debug, PartialEq, Eq, Structural)]
pub struct RoundRect {
    pub x: i64,
    pub y: i64,
    pub w: i64,
    pub h: i64,
    pub radius: i64,
}

pub open spec fn round_rect_ok(c: RoundRect) -> bool {
    &&& -4194304 <= c.x <= 4194304
    &&& -4194304 <= c.y <= 4194304
    &&& 0 <= c.radius <= MAX_RADIUS
    &&& 2 * c.radius <= c.w <= 4194304
    &&& 2 * c.radius <= c.h <= 4194304
}

/// The centre of the corner whose quarter holds `(x, y)`, if any: pixels
/// within `radius` of a corner on both axes belong to that corner.
pub open spec fn corner_center(c: RoundRect, x: int, y: int) -> Option<(int, int)> {
    let cx = if x < c.x + c.radius {
        Some(c.x + c.radius)
    } else if x >= c.x + c.w - c.radius {
        Some(c.x + c.w - c.radius)
    } else {
        None::<int>
    };
    let cy = if y < c.y + c.radius {
        Some(c.y + c.radius)
    } else if y >= c.y + c.h - c.radius {
        Some(c.y + c.h - c.radius)
    } else {
        None::<int>
    };
    if cx is Some && cy is Some {
        Some((cx->0, cy->0))
    } else {
        None
    }
}

/// How much of pixel `(x, y)` the card covers, in 255ths: nothing outside
/// its bounds, all of it along the straight edges and inside, and in a
/// corner's quarter the ring coverage around that corner's centre.
pub open spec fn card_coverage(c: RoundRect, x: int, y: int) -> int {
    if !(c.x <= x < c.x + c.w && c.y <= y < c.y + c.h) {
        0
    } else {
        match corner_center(c, x, y) {
            None => 255,
            Some(ctr) => ring_coverage((x - ctr.0) * (x - ctr.0) + (y - ctr.1) * (y - ctr.1), c.radius as int),
        }
    }
}

/// Coverage of pixel `(x, y)` by a rounded card, in 255ths.
pub fn card_cov(c: RoundRect, x: i64, y: i64) -> (r: u8)
    requires
        round_rect_ok(c),
        -4194304 <= x <= 4194304,
        -4194304 <= y <= 4194304,
    ensures
        r == card_coverage(c, x as int, y as int),
{
    if !(c.x <= x && x < c.x + c.w && c.y <= y && y < c.y + c.h) {
        return 0;
    }
    let cx = if x < c.x + c.radius {
        Some(c.x + c.radius)
    } else if x >= c.x + c.w - c.radius {
        Some(c.x + c.w - c.radius)
    } else {
        None
    };
    let cy = if y < c.y + c.radius {
        Some(c.y + c.radius)
    } else if y >= c.y + c.h - c.radius {
        Some(c.y + c.h - c.radius)
    } else {
        None
    };
    match (cx, cy) {
        (Some(px), Some(py)) => {
            let dx = x - px;
            let dy = y - py;
            assert(-4096 <= dx <= 4096 && -4096 <= dy <= 4096);
            assert(0 <= dx * dx <= 4096 * 4096 && 0 <= dy * dy <= 4096 * 4096) by (nonlinear_arith)
                requires -4096 <= dx <= 4096, -4096 <= dy <= 4096;
            ring_cov((dx * dx + dy * dy) as u64, c.radius)
        },
        _ => 255,
    }
}

} // verus!
