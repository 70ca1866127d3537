use vstd::prelude::*;
use vstd::string::StringSliceAdditionalSpecFns;

verus! {

/// The SHA-256 digest of a byte string.
pub uninterp spec fn sha256_of(data: Seq<u8>) -> Seq<u8>;

/// Relies on `sha2::Sha256::digest`: the 32-byte SHA-256 digest of `data`.
#[verifier::external_body]
pub(crate) fn sha256(data: &[u8]) -> (r: Vec<u8>)
    ensures
        r@ == sha256_of(data@),
        r@.len() == 32,
{
    <sha2::Sha256 as sha2::Digest>::digest(data).to_vec()
}

/// The two colours and the direction byte of a card's gradient.
#[derive(Clone, Copy, Debug, PartialEq, Eq)]
pub struct GradientSeed {
    pub color1: (u8, u8, u8),
    pub color2: (u8, u8, u8),
    /// The direction, as a fraction of a full turn, in 255ths.
    pub angle: u8,
}

/// Seed read from a digest: bytes 0-2 are the first colour, bytes 3-5 the
/// second, byte 6 the direction.
pub open spec fn seed_of(h: Seq<u8>) -> GradientSeed {
    GradientSeed { color1: (h[0], h[1], h[2]), color2: (h[3], h[4], h[5]), angle: h[6] }
}

/// Reads the gradient seed out of a digest of at least seven bytes.
pub fn seed_from_digest(h: &Vec<u8>) -> (g: GradientSeed)
    requires
        h@.len() >= 7,
    ensures
        g == seed_of(h@),
{
    GradientSeed { color1: (h[0], h[1], h[2]), color2: (h[3], h[4], h[5]), angle: h[6] }
}

/// The gradient seed of a tweet: a pure function of its id, through SHA-256.
pub fn gradient_seed(id: &str) -> (g: GradientSeed)
    ensures
        g == seed_of(sha256_of(id.spec_bytes())),
{
    let h = sha256(id.as_bytes());
    seed_from_digest(&h)
}

/// Two calls of `gradient_seed` on one id give the same colours and direction.
pub proof fn lemma_seed_deterministic(id: Seq<u8>, g1: GradientSeed, g2: GradientSeed)
    requires
        g1 == seed_of(sha256_of(id)),
        g2 == seed_of(sha256_of(id)),
    ensures
        g1.color1 == g2.color1,
        g1.color2 == g2.color2,
        g1.angle == g2.angle,
{
}

/// Largest canvas side for which gradients are computed.
pub const MAX_SIDE: i64 = 1048576;

/// Largest magnitude of a direction component; a unit vector is scaled by 65536.
pub const MAX_DIR: i64 = 65536;

pub open spec fn dir_ok(w: int, h: int, vx: int, vy: int) -> bool {
    &&& 0 <= w <= MAX_SIDE
    &&& 0 <= h <= MAX_SIDE
    &&& -MAX_DIR <= vx <= MAX_DIR
    &&& -MAX_DIR <= vy <= MAX_DIR
}

/// Projection of a point on the direction `(vx, vy)`.
pub open spec fn proj(x: int, y: int, vx: int, vy: int) -> int {
    x * vx + y * vy
}

pub open spec fn min4(a: int, b: int, c: int, d: int) -> int {
    let ab = if a <= b { a } else { b };
    let cd = if c <= d { c } else { d };
    if ab <= cd { ab } else { cd }
}

pub open spec fn max4(a: int, b: int, c: int, d: int) -> int {
    let ab = if a >= b { a } else { b };
    let cd = if c >= d { c } else { d };
    if ab >= cd { ab } else { cd }
}

/// Smallest projection over the four corners of a `w`×`h` canvas.
pub open spec fn spec_min_proj(w: int, h: int, vx: int, vy: int) -> int {
    min4(proj(0, 0, vx, vy), proj(w, 0, vx, vy), proj(0, h, vx, vy), proj(w, h, vx, vy))
}

/// Largest projection over the four corners of a `w`×`h` canvas.
pub open spec fn spec_max_proj(w: int, h: int, vx: int, vy: int) -> int {
    max4(proj(0, 0, vx, vy), proj(w, 0, vx, vy), proj(0, h, vx, vy), proj(w, h, vx, vy))
}

proof fn lemma_proj_bounds(x: int, y: int, vx: int, vy: int)
    requires
        dir_ok(x, y, vx, vy),
    ensures
        -68719476736 <= x * vx <= 68719476736,
        -68719476736 <= y * vy <= 68719476736,
        -137438953472 <= proj(x, y, vx, vy) <= 137438953472,
{
    assert(-68719476736 <= x * vx <= 68719476736) by (nonlinear_arith)
        requires 0 <= x <= 1048576, -65536 <= vx <= 65536;
    assert(-68719476736 <= y * vy <= 68719476736) by (nonlinear_arith)
        requires 0 <= y <= 1048576, -65536 <= vy <= 65536;
}

fn projection(x: i64, y: i64, vx: i64, vy: i64) -> (p: i64)
    requires
        dir_ok(x as int, y as int, vx as int, vy as int),
    ensures
        p == proj(x as int, y as int, vx as int, vy as int),
{
    proof {
        lemma_proj_bounds(x as int, y as int, vx as int, vy as int);
    }
    x * vx + y * vy
}

/// Smallest corner projection of a `w`×`h` canvas on `(vx, vy)`.
pub fn min_proj(w: i64, h: i64, vx: i64, vy: i64) -> (p: i64)
    requires
        dir_ok(w as int, h as int, vx as int, vy as int),
    ensures
        p == spec_min_proj(w as int, h as int, vx as int, vy as int),
        p <= proj(0, 0, vx as int, vy as int) && p <= proj(w as int, 0, vx as int, vy as int),
        p <= proj(0, h as int, vx as int, vy as int) && p <= proj(w as int, h as int, vx as int, vy as int),
        p == proj(0, 0, vx as int, vy as int) || p == proj(w as int, 0, vx as int, vy as int)
            || p == proj(0, h as int, vx as int, vy as int) || p == proj(w as int, h as int, vx as int, vy as int),
{
    let a = projection(0, 0, vx, vy);
    let b = projection(w, 0, vx, vy);
    let c = projection(0, h, vx, vy);
    let d = projection(w, h, vx, vy);
    let ab = if a <= b { a } else { b };
    let cd = if c <= d { c } else { d };
    if ab <= cd { ab } else { cd }
}

/// Largest corner projection of a `w`×`h` canvas on `(vx, vy)`.
pub fn max_proj(w: i64, h: i64, vx: i64, vy: i64) -> (p: i64)
    requires
        dir_ok(w as int, h as int, vx as int, vy as int),
    ensures
        p == spec_max_proj(w as int, h as int, vx as int, vy as int),
        p >= proj(0, 0, vx as int, vy as int) && p >= proj(w as int, 0, vx as int, vy as int),
        p >= proj(0, h as int, vx as int, vy as int) && p >= proj(w as int, h as int, vx as int, vy as int),
        p == proj(0, 0, vx as int, vy as int) || p == proj(w as int, 0, vx as int, vy as int)
            || p == proj(0, h as int, vx as int, vy as int) || p == proj(w as int, h as int, vx as int, vy as int),
{
    let a = projection(0, 0, vx, vy);
    let b = projection(w, 0, vx, vy);
    let c = projection(0, h, vx, vy);
    let d = projection(w, h, vx, vy);
    let ab = if a >= b { a } else { b };
    let cd = if c >= d { c } else { d };
    if ab >= cd { ab } else { cd }
}

/// One channel mixed between `a` (at `num == 0`) and `b` (at `num == den`),
/// rounded to the nearest value.
pub open spec fn mix(a: u8, b: u8, num: int, den: int) -> int {
    if den <= 0 {
        a as int
    } else {
        (2 * (a * (den - num) + b * num) + den) / (2 * den)
    }
}

pub open spec fn spec_interpolate(c1: (u8, u8, u8), c2: (u8, u8, u8), num: int, den: int) -> (u8, u8, u8) {
    (mix(c1.0, c2.0, num, den) as u8, mix(c1.1, c2.1, num, den) as u8, mix(c1.2, c2.2, num, den) as u8)
}

proof fn lemma_mix_bounds(a: u8, b: u8, num: int, den: int)
    requires
        0 <= num <= den,
    ensures
        0 <= mix(a, b, num, den) <= 255,
{
    if den > 0 {
        let ai = a as int;
        let bi = b as int;
        assert(0 <= 2 * (ai * (den - num) + bi * num) + den) by (nonlinear_arith)
            requires 0 <= ai, 0 <= bi, 0 <= num <= den;
        assert(2 * (ai * (den - num) + bi * num) + den < 256 * (2 * den)) by (nonlinear_arith)
            requires 0 <= ai <= 255, 0 <= bi <= 255, 0 <= num <= den, 0 < den;
        assert((2 * (ai * (den - num) + bi * num) + den) / (2 * den) < 256) by (nonlinear_arith)
            requires 2 * (ai * (den - num) + bi * num) + den < 256 * (2 * den), 0 < den;
    }
}

fn mix_channel(a: u8, b: u8, num: i64, den: i64) -> (r: u8)
    requires
        0 <= num <= den <= 274877906944,
    ensures
        r == mix(a, b, num as int, den as int),
{
    proof {
        lemma_mix_bounds(a, b, num as int, den as int);
    }
    if den <= 0 {
        a
    } else {
        let ai = a as i64;
        let bi = b as i64;
        assert(0 <= ai * (den - num) <= 255 * 274877906944) by (nonlinear_arith)
            requires 0 <= ai <= 255, 0 <= num <= den <= 274877906944;
        assert(0 <= bi * num <= 255 * 274877906944) by (nonlinear_arith)
            requires 0 <= bi <= 255, 0 <= num <= 274877906944;
        ((2 * (ai * (den - num) + bi * num) + den) / (2 * den)) as u8
    }
}

/// Interpolates between two colours at `num / den` (`0 <= num <= den`).
pub fn interpolate(c1: (u8, u8, u8), c2: (u8, u8, u8), num: i64, den: i64) -> (c: (u8, u8, u8))
    requires
        0 <= num <= den <= 274877906944,
    ensures
        c == spec_interpolate(c1, c2, num as int, den as int),
{
    (mix_channel(c1.0, c2.0, num, den), mix_channel(c1.1, c2.1, num, den), mix_channel(c1.2, c2.2, num, den))
}

/// Where a point falls along the gradient: its projection's offset from the
/// smallest corner projection, clamped to the corner range.
pub open spec fn gradient_t(x: int, y: int, w: int, h: int, vx: int, vy: int) -> int {
    let lo = spec_min_proj(w, h, vx, vy);
    let hi = spec_max_proj(w, h, vx, vy);
    let off = proj(x, y, vx, vy) - lo;
    if off < 0 {
        0
    } else if off > hi - lo {
        hi - lo
    } else {
        off
    }
}

/// Colour of the gradient at `(x, y)` of a `w`×`h` canvas.
pub open spec fn spec_gradient_color(g: GradientSeed, x: int, y: int, w: int, h: int, vx: int, vy: int) -> (u8, u8, u8) {
    spec_interpolate(g.color1, g.color2, gradient_t(x, y, w, h, vx, vy), spec_max_proj(w, h, vx, vy) - spec_min_proj(w, h, vx, vy))
}

/// The gradient colour at `(x, y)` of a `w`×`h` canvas, for direction `(vx, vy)`.
pub fn gradient_color(g: GradientSeed, x: i64, y: i64, w: i64, h: i64, vx: i64, vy: i64) -> (c: (u8, u8, u8))
    requires
        dir_ok(w as int, h as int, vx as int, vy as int),
        0 <= x <= w,
        0 <= y <= h,
    ensures
        c == spec_gradient_color(g, x as int, y as int, w as int, h as int, vx as int, vy as int),
{
    let lo = min_proj(w, h, vx, vy);
    let hi = max_proj(w, h, vx, vy);
    proof {
        lemma_proj_bounds(0, 0, vx as int, vy as int);
        lemma_proj_bounds(w as int, 0, vx as int, vy as int);
        lemma_proj_bounds(0, h as int, vx as int, vy as int);
        lemma_proj_bounds(w as int, h as int, vx as int, vy as int);
        lemma_proj_bounds(x as int, y as int, vx as int, vy as int);
    }
    let p = projection(x, y, vx, vy);
    let off = p - lo;
    let t = if off < 0 { 0 } else if off > hi - lo { hi - lo } else { off };
    interpolate(g.color1, g.color2, t, hi - lo)
}

/// Interpolation is exact at its ends: at `num == 0` it gives the first
/// colour on every channel, and at `num == den` (a non-empty range) the second.
pub proof fn lemma_interpolate_ends(c1: (u8, u8, u8), c2: (u8, u8, u8), den: int)
    ensures
        spec_interpolate(c1, c2, 0, den) == c1,
        den > 0 ==> spec_interpolate(c1, c2, den, den) == c2,
{
    assert forall|a: u8, b: u8| #[trigger] mix(a, b, 0, den) == a as int by {
        if den > 0 {
            assert(a * (den - 0) + b * 0 == a * den) by (nonlinear_arith);
            assert((2 * (a * den) + den) / (2 * den) == a) by (nonlinear_arith)
                requires den > 0;
        }
    }
    assert forall|a: u8, b: u8| den > 0 implies #[trigger] mix(a, b, den, den) == b as int by {
        assert(a * (den - den) + b * den == b * den) by (nonlinear_arith);
        assert((2 * (b * den) + den) / (2 * den) == b) by (nonlinear_arith)
            requires den > 0;
    }
}

/// At the corner with the smallest projection the gradient is exactly its
/// first colour; at the corner with the largest, exactly its second.
pub proof fn lemma_gradient_ends(g: GradientSeed, w: int, h: int, vx: int, vy: int, cx: int, cy: int)
    requires
        dir_ok(w, h, vx, vy),
        (cx == 0 || cx == w) && (cy == 0 || cy == h),
    ensures
        proj(cx, cy, vx, vy) == spec_min_proj(w, h, vx, vy)
            ==> spec_gradient_color(g, cx, cy, w, h, vx, vy) == g.color1,
        spec_min_proj(w, h, vx, vy) < spec_max_proj(w, h, vx, vy)
            && proj(cx, cy, vx, vy) == spec_max_proj(w, h, vx, vy)
            ==> spec_gradient_color(g, cx, cy, w, h, vx, vy) == g.color2,
{
    let lo = spec_min_proj(w, h, vx, vy);
    let hi = spec_max_proj(w, h, vx, vy);
    let den = hi - lo;
    assert(lo <= proj(cx, cy, vx, vy) <= hi);
    lemma_interpolate_ends(g.color1, g.color2, den);
}

} // verus!
