use vstd::prelude::*;
use crate::pixel::Rgba;
use crate::gradient::{GradientSeed, dir_ok, spec_gradient_color, gradient_color};
use crate::shape::{RoundRect, round_rect_ok, card_coverage, card_cov, floor_sqrt, isqrt};

verus! {

/// Largest number of pixels of a canvas.
pub const MAX_PIXELS: usize = 67108864;

/// Colour of the inside of a tweet card.
pub open spec fn card_color() -> Rgba {
    Rgba { r: 5, g: 5, b: 5, a: 255 }
}

pub open spec fn canvas_ok(w: int, h: int) -> bool {
    0 < w && 0 <= h && w <= crate::gradient::MAX_SIDE && h <= crate::gradient::MAX_SIDE && w * h <= MAX_PIXELS
}

/// A pixel of a tweet card's background: the card colour where the card
/// covers it fully, the gradient where the card does not reach, and along
/// the card's rounded corners the card colour blended over the gradient by
/// the card's coverage.
pub open spec fn background_pixel(g: GradientSeed, w: int, h: int, vx: int, vy: int, card: RoundRect, x: int, y: int) -> Rgba {
    let cov = card_coverage(card, x, y);
    if cov == 255 {
        card_color()
    } else {
        let c = spec_gradient_color(g, x, y, w, h, vx, vy);
        Rgba { r: blend(c.0, 5, cov as u8), g: blend(c.1, 5, cov as u8), b: blend(c.2, 5, cov as u8), a: 255 }
    }
}

proof fn lemma_index(i: int, w: int, h: int)
    requires
        0 < w,
        0 <= i < w * h,
    ensures
        0 <= i % w < w,
        0 <= i / w < h,
{
    assert(0 <= i % w < w) by (nonlinear_arith)
        requires 0 < w;
    assert(0 <= i / w < h) by (nonlinear_arith)
        requires 0 < w, 0 <= i < w * h;
}

/// Paints the background of a `w`×`h` tweet card image, row by row: the
/// card in the card colour over the gradient of `g` along `(vx, vy)`, with
/// anti-aliased rounded corners.
pub fn fill_card_background(g: GradientSeed, w: usize, h: usize, vx: i64, vy: i64, card: RoundRect) -> (px: Vec<Rgba>)
    requires
        canvas_ok(w as int, h as int),
        dir_ok(w as int, h as int, vx as int, vy as int),
        round_rect_ok(card),
    ensures
        px@.len() == w * h,
        forall|i: int| 0 <= i < w * h ==> #[trigger] px@[i] == background_pixel(
            g, w as int, h as int, vx as int, vy as int, card, i % (w as int), i / (w as int)),
{
    let n = w * h;
    let mut px: Vec<Rgba> = Vec::new();
    let mut i: usize = 0;
    while i < n
        invariant
            n == w * h,
            canvas_ok(w as int, h as int),
            dir_ok(w as int, h as int, vx as int, vy as int),
            round_rect_ok(card),
            i <= n,
            px@.len() == i,
            forall|j: int| 0 <= j < i ==> #[trigger] px@[j] == background_pixel(
                g, w as int, h as int, vx as int, vy as int, card, j % (w as int), j / (w as int)),
        decreases n - i,
    {
        proof {
            lemma_index(i as int, w as int, h as int);
        }
        let x = (i % w) as i64;
        let y = (i / w) as i64;
        let cov = card_cov(card, x, y);
        let p = if cov == 255 {
            Rgba { r: 5, g: 5, b: 5, a: 255 }
        } else {
            let c = gradient_color(g, x, y, w as i64, h as i64, vx, vy);
            Rgba { r: blend_channel(c.0, 5, cov), g: blend_channel(c.1, 5, cov), b: blend_channel(c.2, 5, cov), a: 255 }
        };
        px.push(p);
        i = i + 1;
    }
    px
}

/// Whether pixel `(x, y)` of a `s`×`s` square lies on or within the circle
/// centred at `(s/2, s/2)` of radius `s/2` (all measured in half pixels).
pub open spec fn in_circle(s: int, x: int, y: int) -> bool {
    (2 * x - s) * (2 * x - s) + (2 * y - s) * (2 * y - s) <= s * s
}

/// Largest side of a circular mask.
pub const MAX_MASK_SIDE: usize = 4096;

/// The circular mask of a `s`×`s` square, row by row.
pub fn circle_mask(s: usize) -> (m: Vec<bool>)
    requires
        0 < s <= MAX_MASK_SIDE,
    ensures
        m@.len() == s * s,
        forall|i: int| 0 <= i < s * s ==> #[trigger] m@[i] == in_circle(s as int, i % (s as int), i / (s as int)),
{
    assert(s * s <= 4096 * 4096) by (nonlinear_arith)
        requires s <= 4096;
    let n = s * s;
    let si = s as i64;
    let mut m: Vec<bool> = Vec::new();
    let mut i: usize = 0;
    while i < n
        invariant
            n == s * s,
            0 < s <= MAX_MASK_SIDE,
            si == s,
            i <= n,
            m@.len() == i,
            forall|j: int| 0 <= j < i ==> #[trigger] m@[j] == in_circle(s as int, j % (s as int), j / (s as int)),
        decreases n - i,
    {
        proof {
            lemma_index(i as int, s as int, s as int);
        }
        let x = (i % s) as i64;
        let y = (i / s) as i64;
        let dx = 2 * x - si;
        let dy = 2 * y - si;
        assert(dx * dx <= 8192 * 8192 && dy * dy <= 8192 * 8192 && si * si <= 4096 * 4096) by (nonlinear_arith)
            requires -4096 <= dx <= 8192, -4096 <= dy <= 8192, 0 < si <= 4096;
        assert(0 <= dx * dx && 0 <= dy * dy) by (nonlinear_arith);
        m.push(dx * dx + dy * dy <= si * si);
        i = i + 1;
    }
    m
}

/// The pixels of `src` with a non-zero alpha.
pub fn opaque_mask(src: &Vec<Rgba>) -> (m: Vec<bool>)
    ensures
        m@.len() == src@.len(),
        forall|i: int| 0 <= i < src@.len() ==> #[trigger] m@[i] == (src@[i].a > 0),
{
    let mut m: Vec<bool> = Vec::new();
    let mut i: usize = 0;
    while i < src.len()
        invariant
            i <= src@.len(),
            m@.len() == i,
            forall|j: int| 0 <= j < i ==> #[trigger] m@[j] == (src@[j].a > 0),
        decreases src.len() - i,
    {
        m.push(src[i].a > 0);
        i = i + 1;
    }
    m
}

/// Pixel `(x, y)` of a canvas after stamping a `sw`×`sh` image at `(x0, y0)`:
/// the image's pixel where it covers the point and its mask is set, else
/// the canvas's own.
pub open spec fn stamped(old: Rgba, src: Seq<Rgba>, mask: Seq<bool>, sw: int, sh: int, x0: int, y0: int, x: int, y: int) -> Rgba {
    let sx = x - x0;
    let sy = y - y0;
    if 0 <= sx < sw && 0 <= sy < sh && mask[sy * sw + sx] {
        src[sy * sw + sx]
    } else {
        old
    }
}

/// Copies onto a `cw`-wide canvas the pixels of a `sw`×`sh` image placed at
/// `(x0, y0)` whose mask is set; what falls outside the canvas is dropped.
pub fn stamp(canvas: &mut Vec<Rgba>, cw: usize, src: &Vec<Rgba>, sw: usize, sh: usize, x0: i64, y0: i64, mask: &Vec<bool>)
    requires
        0 < cw <= crate::gradient::MAX_SIDE,
        old(canvas)@.len() <= MAX_PIXELS,
        sw <= MAX_PIXELS,
        sh <= MAX_PIXELS,
        src@.len() == sw * sh,
        mask@.len() == sw * sh,
        -(MAX_PIXELS as int) <= x0 <= MAX_PIXELS,
        -(MAX_PIXELS as int) <= y0 <= MAX_PIXELS,
    ensures
        final(canvas)@.len() == old(canvas)@.len(),
        forall|i: int| 0 <= i < old(canvas)@.len() ==> #[trigger] final(canvas)@[i] == stamped(
            old(canvas)@[i], src@, mask@, sw as int, sh as int, x0 as int, y0 as int, i % (cw as int), i / (cw as int)),
{
    let n = canvas.len();
    let mut i: usize = 0;
    while i < n
        invariant
            n == old(canvas)@.len(),
            canvas@.len() == n,
            0 < cw <= crate::gradient::MAX_SIDE,
            n <= MAX_PIXELS,
            sw <= MAX_PIXELS,
            sh <= MAX_PIXELS,
            src@.len() == sw * sh,
            mask@.len() == sw * sh,
            -(MAX_PIXELS as int) <= x0 <= MAX_PIXELS,
            -(MAX_PIXELS as int) <= y0 <= MAX_PIXELS,
            i <= n,
            forall|j: int| 0 <= j < i ==> #[trigger] canvas@[j] == stamped(
                old(canvas)@[j], src@, mask@, sw as int, sh as int, x0 as int, y0 as int, j % (cw as int), j / (cw as int)),
            forall|j: int| i <= j < n ==> #[trigger] canvas@[j] == old(canvas)@[j],
        decreases n - i,
    {
        assert(0 <= i % cw < cw && i / cw <= i) by (nonlinear_arith)
            requires 0 < cw;
        let x = (i % cw) as i64;
        let y = (i / cw) as i64;
        let sx = x - x0;
        let sy = y - y0;
        let ghost before = canvas@;
        if 0 <= sx && sx < sw as i64 && 0 <= sy && sy < sh as i64 {
            let ghost (sxi, syi) = (sx as int, sy as int);
            assert(0 <= syi * sw + sxi < sw * sh) by (nonlinear_arith)
                requires 0 <= sxi < sw, 0 <= syi < sh;
            assert(0 <= syi * sw) by (nonlinear_arith)
                requires 0 <= syi, 0 <= sw;
            let len = src.len();
            assert(len == sw * sh);
            let k = (sy as usize) * sw + (sx as usize);
            if mask[k] {
                canvas.set(i, src[k]);
            }
        }
        assert(canvas@[i as int] == stamped(old(canvas)@[i as int], src@, mask@, sw as int, sh as int, x0 as int, y0 as int, (i as int) % (cw as int), (i as int) / (cw as int)));
        assert(forall|j: int| 0 <= j < n && j != i ==> canvas@[j] == before[j]);
        i = i + 1;
    }
}

/// One sample of a rasterised glyph: a pixel and how much of it the glyph
/// covers, in 255ths.
#[derive(Clone, Copy, Debug, PartialEq, Eq, Structural)]
pub struct Coverage {
    pub x: i64,
    pub y: i64,
    pub cov: u8,
}

/// Smallest coverage that is drawn; fainter samples are skipped.
pub const MIN_COVERAGE: u8 = 3;

/// A channel blended towards `src` by coverage `cov`, rounded down.
pub open spec fn blend(dst: u8, src: u8, cov: u8) -> u8 {
    (((255 - cov) * dst + cov * src) / 255) as u8
}

/// A canvas of width `cw` and height `ch` after one coverage sample in `color`:
/// colour channels are blended, alpha is kept; samples off the canvas or
/// too faint change nothing.
pub open spec fn apply_sample(c: Seq<Rgba>, cw: int, ch: int, s: Coverage, color: Rgba) -> Seq<Rgba> {
    if s.cov >= MIN_COVERAGE && 0 <= s.x < cw && 0 <= s.y < ch {
        let i = s.y * cw + s.x;
        let p = c[i];
        c.update(i, Rgba { r: blend(p.r, color.r, s.cov), g: blend(p.g, color.g, s.cov), b: blend(p.b, color.b, s.cov), a: p.a })
    } else {
        c
    }
}

/// A canvas after the samples, applied in order.
pub open spec fn apply_samples(c: Seq<Rgba>, cw: int, ch: int, s: Seq<Coverage>, color: Rgba) -> Seq<Rgba>
    decreases s.len(),
{
    if s.len() == 0 {
        c
    } else {
        apply_sample(apply_samples(c, cw, ch, s.drop_last(), color), cw, ch, s.last(), color)
    }
}

fn blend_channel(dst: u8, src: u8, cov: u8) -> (r: u8)
    ensures
        r == blend(dst, src, cov),
{
    let d = dst as u32;
    let s = src as u32;
    let c = cov as u32;
    assert((255 - c) * d <= 255 * 255 && c * s <= 255 * 255) by (nonlinear_arith)
        requires c <= 255, d <= 255, s <= 255;
    (((255 - c) * d + c * s) / 255) as u8
}

/// Blends glyph coverage samples in `color` onto a `cw`×`ch` canvas, in
/// order; samples off the canvas are dropped.
pub fn draw_coverage(canvas: &mut Vec<Rgba>, cw: usize, ch: usize, samples: &Vec<Coverage>, color: Rgba)
    requires
        canvas_ok(cw as int, ch as int),
        old(canvas)@.len() == cw * ch,
    ensures
        final(canvas)@ == apply_samples(old(canvas)@, cw as int, ch as int, samples@, color),
{
    let mut i: usize = 0;
    while i < samples.len()
        invariant
            canvas_ok(cw as int, ch as int),
            i <= samples@.len(),
            canvas@.len() == cw * ch,
            canvas@ == apply_samples(old(canvas)@, cw as int, ch as int, samples@.take(i as int), color),
        decreases samples.len() - i,
    {
        let s = samples[i];
        assert(samples@.take(i + 1).drop_last() =~= samples@.take(i as int));
        if s.cov >= MIN_COVERAGE && 0 <= s.x && s.x < cw as i64 && 0 <= s.y && s.y < ch as i64 {
            let ghost (xi, yi) = (s.x as int, s.y as int);
            assert(0 <= yi * cw + xi < cw * ch) by (nonlinear_arith)
                requires 0 <= xi < cw, 0 <= yi < ch;
            let k = (s.y as usize) * cw + (s.x as usize);
            let p = canvas[k];
            let q = Rgba { r: blend_channel(p.r, color.r, s.cov), g: blend_channel(p.g, color.g, s.cov), b: blend_channel(p.b, color.b, s.cov), a: p.a };
            canvas.set(k, q);
        }
        i = i + 1;
    }
    assert(samples@.take(i as int) =~= samples@);
}

/// A canvas of width `cw` and height `ch` after a horizontal line of `width`
/// pixels from `(x, y)`: the pixels of the line that fall on the canvas take
/// `color`.
pub open spec fn on_hline(x: int, y: int, width: int, px: int, py: int) -> bool {
    py == y && x <= px < x + width
}

/// Draws a one-pixel horizontal line; the part off the canvas is dropped.
pub fn draw_horizontal_line(canvas: &mut Vec<Rgba>, cw: usize, ch: usize, x: i64, y: i64, width: i64, color: Rgba)
    requires
        canvas_ok(cw as int, ch as int),
        old(canvas)@.len() == cw * ch,
        -(MAX_PIXELS as int) <= x <= MAX_PIXELS,
        0 <= width <= MAX_PIXELS,
    ensures
        final(canvas)@.len() == cw * ch,
        forall|i: int| 0 <= i < cw * ch ==> #[trigger] final(canvas)@[i] == if on_hline(
            x as int, y as int, width as int, i % (cw as int), i / (cw as int)) {
            color
        } else {
            old(canvas)@[i]
        },
{
    let mut k: i64 = 0;
    while k < width
        invariant
            canvas_ok(cw as int, ch as int),
            canvas@.len() == cw * ch,
            -(MAX_PIXELS as int) <= x <= MAX_PIXELS,
            0 <= k <= width <= MAX_PIXELS,
            forall|i: int| 0 <= i < cw * ch ==> #[trigger] canvas@[i] == if on_hline(
                x as int, y as int, k as int, i % (cw as int), i / (cw as int)) {
                color
            } else {
                old(canvas)@[i]
            },
        decreases width - k,
    {
        let px = x + k;
        let ghost before = canvas@;
        if 0 <= px && px < cw as i64 && 0 <= y && y < ch as i64 {
            let ghost (xi, yi) = (px as int, y as int);
            assert(0 <= yi * cw + xi < cw * ch) by (nonlinear_arith)
                requires 0 <= xi < cw, 0 <= yi < ch;
            let idx = (y as usize) * cw + (px as usize);
            assert(idx as int % (cw as int) == xi && idx as int / (cw as int) == yi) by (nonlinear_arith)
                requires idx == yi * cw + xi, 0 <= xi < cw, 0 <= yi;
            canvas.set(idx, color);
            assert forall|i: int| 0 <= i < cw * ch implies #[trigger] canvas@[i] == if on_hline(
                x as int, y as int, k + 1, i % (cw as int), i / (cw as int)) {
                color
            } else {
                old(canvas)@[i]
            } by {
                if i != idx {
                    assert(before[i] == canvas@[i]);
                    assert(!(i % (cw as int) == xi && i / (cw as int) == yi)) by (nonlinear_arith)
                        requires i != idx, idx == yi * cw + xi, 0 < cw, 0 <= i;
                }
            }
        } else {
            assert forall|i: int| 0 <= i < cw * ch implies #[trigger] canvas@[i] == if on_hline(
                x as int, y as int, k + 1, i % (cw as int), i / (cw as int)) {
                color
            } else {
                old(canvas)@[i]
            } by {
                assert(0 <= i % (cw as int) < cw && 0 <= i / (cw as int) < ch) by (nonlinear_arith)
                    requires 0 <= i < cw * ch, 0 < cw;
            }
        }
        k = k + 1;
    }
}

/// Coverage, in 255ths, of pixel `(x, y)` of a `s`×`s` square by the circle
/// of radius `s/2` at its centre: full within the radius, falling linearly
/// to nothing over the next pixel (distances in half pixels).
pub open spec fn circle_coverage(s: int, x: int, y: int) -> int {
    let c2 = 255 * (s + 2) - floor_sqrt(65025 * ((2 * x - s) * (2 * x - s) + (2 * y - s) * (2 * y - s)));
    if c2 <= 0 {
        0
    } else if c2 / 2 > 255 {
        255
    } else {
        c2 / 2
    }
}

/// Pixel `(x, y)` of the circular crop of a `sw`×`sh` image to a square of
/// side `s`: the nearest source pixel, its alpha scaled by the circle's coverage.
pub open spec fn crop_pixel(src: Seq<Rgba>, sw: int, sh: int, s: int, x: int, y: int) -> Rgba {
    let p = src[(y * sh / s) * sw + x * sw / s];
    Rgba { r: p.r, g: p.g, b: p.b, a: ((p.a * circle_coverage(s, x, y)) / 255) as u8 }
}

/// Largest side of an image that is cropped to a circle.
pub const MAX_CROP_SIDE: usize = 4096;

/// Crops a `sw`×`sh` image to a circle in a square of side `min(sw, sh)`,
/// sampling the nearest source pixel; outside the circle's anti-aliased
/// edge the result is transparent.
pub fn circular_crop(src: &Vec<Rgba>, sw: usize, sh: usize) -> (r: Vec<Rgba>)
    requires
        0 < sw <= MAX_CROP_SIDE,
        0 < sh <= MAX_CROP_SIDE,
        src@.len() == sw * sh,
    ensures
        ({
            let s = if sw <= sh { sw as int } else { sh as int };
            &&& r@.len() == s * s
            &&& forall|i: int| 0 <= i < s * s ==> #[trigger] r@[i] == crop_pixel(src@, sw as int, sh as int, s, i % s, i / s)
        }),
{
    let s: usize = if sw <= sh { sw } else { sh };
    assert(s * s <= 4096 * 4096) by (nonlinear_arith)
        requires s <= 4096;
    let n = s * s;
    let si = s as i64;
    let mut out: Vec<Rgba> = Vec::new();
    let mut i: usize = 0;
    while i < n
        invariant
            0 < s <= MAX_CROP_SIDE,
            s <= sw <= MAX_CROP_SIDE,
            s <= sh <= MAX_CROP_SIDE,
            s == sw || s == sh,
            si == s,
            n == s * s,
            src@.len() == sw * sh,
            i <= n,
            out@.len() == i,
            forall|j: int| 0 <= j < i ==> #[trigger] out@[j] == crop_pixel(src@, sw as int, sh as int, s as int, j % (s as int), j / (s as int)),
        decreases n - i,
    {
        assert(0 <= i % s < s && 0 <= i / s < s) by (nonlinear_arith)
            requires 0 <= i < s * s, 0 < s;
        let x = i % s;
        let y = i / s;
        proof {
            let (xi, yi, si2, wi, hi) = (x as int, y as int, s as int, sw as int, sh as int);
            assert((xi * wi) / si2 < wi && (yi * hi) / si2 < hi) by (nonlinear_arith)
                requires xi < si2, yi < si2, 0 < si2, 0 < wi, 0 < hi, 0 <= xi, 0 <= yi;
            assert(0 <= xi * wi <= 4096 * 4096 && 0 <= yi * hi <= 4096 * 4096) by (nonlinear_arith)
                requires 0 <= xi < 4096, 0 <= yi < 4096, 0 < wi <= 4096, 0 < hi <= 4096;
        }
        let sx = x * sw / s;
        let sy = y * sh / s;
        proof {
            let (a, b, wi, hi) = (sx as int, sy as int, sw as int, sh as int);
            assert(b * wi + a < wi * hi) by (nonlinear_arith)
                requires 0 <= a < wi, 0 <= b < hi;
            assert(0 <= b * wi) by (nonlinear_arith)
                requires 0 <= b, 0 <= wi;
        }
        let len = src.len();
        let p = src[sy * sw + sx];
        let dx = 2 * (x as i64) - si;
        let dy = 2 * (y as i64) - si;
        assert(0 <= dx * dx <= 4096 * 4096 && 0 <= dy * dy <= 4096 * 4096) by (nonlinear_arith)
            requires -4096 <= dx <= 4096, -4096 <= dy <= 4096;
        let root = isqrt(65025 * ((dx * dx + dy * dy) as u64)) as i64;
        let c2 = 255 * (si + 2) - root;
        let cov: u32 = if c2 <= 0 {
            0
        } else if c2 / 2 > 255 {
            255
        } else {
            (c2 / 2) as u32
        };
        assert((p.a as u32) * cov <= 255 * 255) by (nonlinear_arith)
            requires p.a <= 255, cov <= 255;
        out.push(Rgba { r: p.r, g: p.g, b: p.b, a: ((p.a as u32) * cov / 255) as u8 });
        i = i + 1;
    }
    out
}

} // verus!
