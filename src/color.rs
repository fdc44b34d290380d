use vstd::prelude::*;

use crate::raster::{channel, lemma_pixel_index, Image, Rgb, MAX_PIXELS};
use crate::paint::{blend_channel, blend_pixel, lemma_blend_in_range};
use crate::shape::ellipse::{ellipse_rows, lemma_covers_center, placeable};
use crate::shape::{Ellipse, Rasterizable, Row};
use crate::util::{clamp, clamp_spec};

verus! {

/// The sum of `f` over the indices `base + lo ..= base + hi`.
pub open spec fn line_total(f: spec_fn(int) -> int, base: int, lo: int, hi: int) -> int
    decreases hi - lo + 1,
{
    if hi < lo {
        0
    } else {
        line_total(f, base, lo, hi - 1) + f(base + hi)
    }
}

/// The row lies on a line of a `width` by `height` image.
pub open spec fn row_visible(row: Row, width: int, height: int) -> bool {
    0 <= row.y < height && width > 0
}

/// First column of the row once clipped to the image.
pub open spec fn clipped_lo(row: Row, width: int) -> int {
    clamp_spec(row.x1 as int, 0, width - 1)
}

/// Last column of the row once clipped to the image.
pub open spec fn clipped_hi(row: Row, width: int) -> int {
    clamp_spec(row.x2 as int, 0, width - 1)
}

/// The sum of `f` over the pixel indices that the clipped row covers.
pub open spec fn row_total(f: spec_fn(int) -> int, row: Row, width: int, height: int) -> int {
    if row_visible(row, width, height) {
        line_total(f, row.y * width, clipped_lo(row, width), clipped_hi(row, width))
    } else {
        0
    }
}

/// The number of pixels that the clipped row covers.
pub open spec fn row_count(row: Row, width: int, height: int) -> int {
    if row_visible(row, width, height) && clipped_lo(row, width) <= clipped_hi(row, width) {
        clipped_hi(row, width) - clipped_lo(row, width) + 1
    } else {
        0
    }
}

/// The sum of `f` over the rows, a pixel counted once for each row that covers it.
pub open spec fn rows_total(f: spec_fn(int) -> int, rows: Seq<Row>, width: int, height: int) -> int
    decreases rows.len(),
{
    if rows.len() == 0 {
        0
    } else {
        rows_total(f, rows.drop_last(), width, height) + row_total(f, rows.last(), width, height)
    }
}

/// The number of covered pixels, a pixel counted once for each row that covers it.
pub open spec fn rows_count(rows: Seq<Row>, width: int, height: int) -> int
    decreases rows.len(),
{
    if rows.len() == 0 {
        0
    } else {
        rows_count(rows.drop_last(), width, height) + row_count(rows.last(), width, height)
    }
}

/// `wa * a[i] - wb * b[i]` in channel `c`.
pub open spec fn weighted(a: Seq<Rgb>, b: Seq<Rgb>, c: int, wa: int, wb: int) -> spec_fn(int) -> int {
    |i: int| wa * channel(a[i], c) - wb * channel(b[i], c)
}

/// `n / d` rounded to the nearest integer, halves away from zero.
pub open spec fn round_div(n: int, d: int) -> int {
    if n >= 0 {
        (2 * n + d) / (2 * d)
    } else {
        -((2 * (-n) + d) / (2 * d))
    }
}

/// Scaled by 255 and summed over the covered pixels, the colour that painted
/// at opacity `alpha / 255` over `source` would give `target` exactly:
/// `255 * target - (255 - alpha) * source`.
pub open spec fn required_total(
    rows: Seq<Row>,
    alpha: int,
    source: Image,
    target: Image,
    c: int,
) -> int {
    rows_total(
        weighted(target.pixels@, source.pixels@, c, 255, 255 - alpha),
        rows,
        source.width as int,
        source.height as int,
    )
}

/// The best single colour channel: the mean of the required colours,
/// rounded, then clamped to `[0, 255]`.
pub open spec fn best_channel(total: int, count: int, alpha: int) -> int {
    clamp_spec(round_div(total, alpha * count), 0, 255)
}

/// The uniform colour that, painted over the rows at opacity `alpha / 255`,
/// brings `source` closest to `target` in squared error before rounding.
pub open spec fn best_color_spec(rows: Seq<Row>, alpha: int, source: Image, target: Image) -> Rgb {
    let n = rows_count(rows, source.width as int, source.height as int);
    Rgb {
        r: best_channel(required_total(rows, alpha, source, target, 0), n, alpha) as u8,
        g: best_channel(required_total(rows, alpha, source, target, 1), n, alpha) as u8,
        b: best_channel(required_total(rows, alpha, source, target, 2), n, alpha) as u8,
    }
}

/// The mean colour of the covered pixels of `img`, each channel rounded;
/// black where the rows cover no pixel.
pub open spec fn average_in_rows_spec(rows: Seq<Row>, img: Image) -> Rgb {
    let n = rows_count(rows, img.width as int, img.height as int);
    let p = img.pixels@;
    let (w, h) = (img.width as int, img.height as int);
    if n == 0 {
        Rgb { r: 0, g: 0, b: 0 }
    } else {
        Rgb {
            r: clamp_spec(round_div(rows_total(weighted(p, p, 0, 1, 0), rows, w, h), n), 0, 255) as u8,
            g: clamp_spec(round_div(rows_total(weighted(p, p, 1, 1, 0), rows, w, h), n), 0, 255) as u8,
            b: clamp_spec(round_div(rows_total(weighted(p, p, 2, 1, 0), rows, w, h), n), 0, 255) as u8,
        }
    }
}

/// The sum of channel `c` over the first `n` pixels.
pub open spec fn channel_sum(p: Seq<Rgb>, c: int, n: int) -> int
    decreases n,
{
    if n <= 0 {
        0
    } else {
        channel_sum(p, c, n - 1) + channel(p[n - 1], c)
    }
}

/// The mean of each channel over the whole image, rounded down.
pub open spec fn average_image_spec(img: Image) -> Rgb {
    let p = img.pixels@;
    Rgb {
        r: (channel_sum(p, 0, p.len() as int) / p.len() as int) as u8,
        g: (channel_sum(p, 1, p.len() as int) / p.len() as int) as u8,
        b: (channel_sum(p, 2, p.len() as int) / p.len() as int) as u8,
    }
}

proof fn lemma_line_total_bound(f: spec_fn(int) -> int, base: int, lo: int, hi: int, m: int)
    requires
        lo <= hi + 1,
        forall|i: int| base + lo <= i <= base + hi ==> -m <= #[trigger] f(i) <= m,
    ensures
        -m * (hi - lo + 1) <= line_total(f, base, lo, hi) <= m * (hi - lo + 1),
    decreases hi - lo + 1,
{
    if hi >= lo {
        lemma_line_total_bound(f, base, lo, hi - 1, m);
        let s = line_total(f, base, lo, hi - 1);
        let v = f(base + hi);
        assert(-m <= v <= m);
        assert(line_total(f, base, lo, hi) == s + v);
        assert(-m * (hi - lo + 1) <= s + v <= m * (hi - lo + 1)) by (nonlinear_arith)
            requires
                -m * (hi - 1 - lo + 1) <= s <= m * (hi - 1 - lo + 1),
                -m <= v <= m,
        ;
    } else {
        assert(hi - lo + 1 == 0);
        assert(-m * (hi - lo + 1) == 0 && m * (hi - lo + 1) == 0) by (nonlinear_arith)
            requires
                hi - lo + 1 == 0,
        ;
    }
}

proof fn lemma_weighted_bound(p: Rgb, q: Rgb, wa: int, wb: int)
    requires
        0 <= wa <= 255,
        0 <= wb <= 255,
    ensures
        0 <= wa * p.r <= 65025,
        0 <= wa * p.g <= 65025,
        0 <= wa * p.b <= 65025,
        0 <= wb * q.r <= 65025,
        0 <= wb * q.g <= 65025,
        0 <= wb * q.b <= 65025,
{
    assert(0 <= wa * p.r <= 65025 && 0 <= wa * p.g <= 65025 && 0 <= wa * p.b <= 65025) by (nonlinear_arith)
        requires
            0 <= wa <= 255,
            p.r <= 255,
            p.g <= 255,
            p.b <= 255,
    ;
    assert(0 <= wb * q.r <= 65025 && 0 <= wb * q.g <= 65025 && 0 <= wb * q.b <= 65025) by (nonlinear_arith)
        requires
            0 <= wb <= 255,
            q.r <= 255,
            q.g <= 255,
            q.b <= 255,
    ;
}

/// Channel sums of `wa * a - wb * b` over the rows, and the covered count.
fn weighted_sums(rows: &Vec<Row>, a: &Image, b: &Image, wa: i64, wb: i64) -> (r: (
    i128,
    i128,
    i128,
    u128,
))
    requires
        a.wf(),
        b.wf(),
        a.same_size(b),
        0 <= wa <= 255,
        0 <= wb <= 255,
    ensures
        r.0 == rows_total(weighted(a.pixels@, b.pixels@, 0, wa as int, wb as int), rows@, a.width as int, a.height as int),
        r.1 == rows_total(weighted(a.pixels@, b.pixels@, 1, wa as int, wb as int), rows@, a.width as int, a.height as int),
        r.2 == rows_total(weighted(a.pixels@, b.pixels@, 2, wa as int, wb as int), rows@, a.width as int, a.height as int),
        r.3 == rows_count(rows@, a.width as int, a.height as int),
        r.3 <= rows@.len() * a.width,
        -65025 * r.3 <= r.0 <= 65025 * r.3,
        -65025 * r.3 <= r.1 <= 65025 * r.3,
        -65025 * r.3 <= r.2 <= 65025 * r.3,
{
    let ghost f0 = weighted(a.pixels@, b.pixels@, 0, wa as int, wb as int);
    let ghost f1 = weighted(a.pixels@, b.pixels@, 1, wa as int, wb as int);
    let ghost f2 = weighted(a.pixels@, b.pixels@, 2, wa as int, wb as int);
    let width: i64 = a.width as i64;
    let height: i64 = a.height as i64;
    let mut t0: i128 = 0;
    let mut t1: i128 = 0;
    let mut t2: i128 = 0;
    let mut count: u128 = 0;
    let mut k: usize = 0;
    while k < rows.len()
        invariant
            a.wf(),
            b.wf(),
            a.same_size(b),
            0 <= wa <= 255,
            0 <= wb <= 255,
            f0 == weighted(a.pixels@, b.pixels@, 0, wa as int, wb as int),
            f1 == weighted(a.pixels@, b.pixels@, 1, wa as int, wb as int),
            f2 == weighted(a.pixels@, b.pixels@, 2, wa as int, wb as int),
            width == a.width,
            height == a.height,
            k <= rows@.len(),
            count == rows_count(rows@.subrange(0, k as int), width as int, height as int),
            count <= k * width,
            t0 == rows_total(f0, rows@.subrange(0, k as int), width as int, height as int),
            t1 == rows_total(f1, rows@.subrange(0, k as int), width as int, height as int),
            t2 == rows_total(f2, rows@.subrange(0, k as int), width as int, height as int),
            -65025 * count <= t0 <= 65025 * count,
            -65025 * count <= t1 <= 65025 * count,
            -65025 * count <= t2 <= 65025 * count,
        decreases rows@.len() - k,
    {
        let row = rows[k];
        let ghost sub = rows@.subrange(0, k as int + 1);
        proof {
            assert(sub.drop_last() =~= rows@.subrange(0, k as int));
            assert(sub.last() == row);
            assert(k * width + width == (k + 1) * width) by (nonlinear_arith);
            assert(k * width <= 0xffff_ffff_ffff_ffffu128 * 0x4000_0000u128) by (nonlinear_arith)
                requires
                    k <= 0xffff_ffff_ffff_ffffu128,
                    0 <= width <= 0x4000_0000,
            ;
        }
        if 0 <= row.y && (row.y as i64) < height && width > 0 {
            let lo: i64 = clamp(row.x1, 0, (width - 1) as i32) as i64;
            let hi: i64 = clamp(row.x2, 0, (width - 1) as i32) as i64;
            proof {
                lemma_pixel_index(0, row.y as int, width as int, height as int);
            }
            let base: i64 = row.y as i64 * width;
            let ghost c0 = count;
            let ghost (s0, s1, s2) = (t0, t1, t2);
            let mut x: i64 = lo;
            while x <= hi
                invariant
                    a.wf(),
                    b.wf(),
                    a.same_size(b),
                    0 <= wa <= 255,
                    0 <= wb <= 255,
                    f0 == weighted(a.pixels@, b.pixels@, 0, wa as int, wb as int),
                    f1 == weighted(a.pixels@, b.pixels@, 1, wa as int, wb as int),
                    f2 == weighted(a.pixels@, b.pixels@, 2, wa as int, wb as int),
                    width == a.width,
                    height == a.height,
                    0 <= row.y < height,
                    base == row.y * width,
                    base + width <= width * height,
                    0 <= lo,
                    hi < width,
                    lo == clipped_lo(row, width as int),
                    hi == clipped_hi(row, width as int),
                    lo <= x <= hi + 1 || (x == lo && hi < lo),
                    c0 <= k * width,
                    count == c0 + (x - lo),
                    t0 == s0 + line_total(f0, base as int, lo as int, x - 1),
                    t1 == s1 + line_total(f1, base as int, lo as int, x - 1),
                    t2 == s2 + line_total(f2, base as int, lo as int, x - 1),
                    -65025 * c0 <= s0 <= 65025 * c0,
                    -65025 * c0 <= s1 <= 65025 * c0,
                    -65025 * c0 <= s2 <= 65025 * c0,
                    -65025 * count <= t0 <= 65025 * count,
                    -65025 * count <= t1 <= 65025 * count,
                    -65025 * count <= t2 <= 65025 * count,
                    k * width <= 0xffff_ffff_ffff_ffffu128 * 0x4000_0000u128,
                decreases hi + 1 - x,
            {
                let idx: usize = (base + x) as usize;
                let p = a.pixels[idx];
                let q = b.pixels[idx];
                proof {
                    lemma_weighted_bound(p, q, wa as int, wb as int);
                }
                let v0: i64 = wa * p.r as i64 - wb * q.r as i64;
                let v1: i64 = wa * p.g as i64 - wb * q.g as i64;
                let v2: i64 = wa * p.b as i64 - wb * q.b as i64;
                proof {
                    let j = base + x;
                    assert(p == a.pixels@[j] && q == b.pixels@[j]);
                    assert(f0(j) == wa * channel(a.pixels@[j], 0) - wb * channel(b.pixels@[j], 0));
                    assert(f1(j) == wa * channel(a.pixels@[j], 1) - wb * channel(b.pixels@[j], 1));
                    assert(f2(j) == wa * channel(a.pixels@[j], 2) - wb * channel(b.pixels@[j], 2));
                    assert(v0 == f0(j) && v1 == f1(j) && v2 == f2(j));
                }
                t0 = t0 + v0 as i128;
                t1 = t1 + v1 as i128;
                t2 = t2 + v2 as i128;
                count = count + 1;
                x = x + 1;
            }
        }
        k = k + 1;
    }
    proof {
        assert(rows@.subrange(0, rows@.len() as int) =~= rows@);
    }
    (t0, t1, t2, count)
}

proof fn lemma_mul_le(a: int, b: int, c: int, d: int)
    requires
        0 <= a <= c,
        0 <= b <= d,
    ensures
        a * b <= c * d,
{
    assert(a * b <= c * d) by (nonlinear_arith)
        requires
            0 <= a <= c,
            0 <= b <= d,
    ;
}

/// `n / d` rounded half away from zero, then clamped to `[0, 255]`.
fn rounded_channel(n: i128, d: u128) -> (r: u8)
    requires
        0 < d <= 0x100_0000_0000_0000_0000_0000_0000,
        -0x1_0000_0000_0000_0000_0000_0000_0000 <= n <= 0x1_0000_0000_0000_0000_0000_0000_0000,
    ensures
        r == clamp_spec(round_div(n as int, d as int), 0, 255),
{
    let dd: i128 = d as i128;
    let q: i128 = if n >= 0 {
        (2 * n + dd) / (2 * dd)
    } else {
        -((2 * (-n) + dd) / (2 * dd))
    };
    if q < 0 {
        0
    } else if q > 255 {
        255
    } else {
        q as u8
    }
}

/// The uniform colour that, painted at opacity `alpha / 255` over the pixels
/// of `source` that the rows cover, comes closest to `target` there: for each
/// pixel the colour that would reproduce the target exactly,
/// `(target - (1 - alpha) * source) / alpha`, averaged over all covered
/// pixels, rounded and clamped to `[0, 255]`.
pub fn best_color_in_rows(rows: &Vec<Row>, alpha: u8, source: &Image, target: &Image) -> (r: Rgb)
    requires
        source.wf(),
        target.wf(),
        source.same_size(target),
        alpha > 0,
        rows_count(rows@, source.width as int, source.height as int) > 0,
    ensures
        r == best_color_spec(rows@, alpha as int, *source, *target),
{
    let len: usize = rows.len();
    let (t0, t1, t2, n) = weighted_sums(rows, target, source, 255, 255 - alpha as i64);
    proof {
        lemma_mul_le(len as int, source.width as int, 0xffff_ffff_ffff_ffff, 0x4000_0000);
        lemma_mul_le(65025, n as int, 65025, 0xffff_ffff_ffff_ffff as int * 0x4000_0000);
        lemma_mul_le(alpha as int, n as int, 255, 0xffff_ffff_ffff_ffff as int * 0x4000_0000);
        assert(alpha * n > 0) by (nonlinear_arith)
            requires
                n > 0,
                alpha > 0,
        ;
    }
    let d: u128 = alpha as u128 * n;
    assert(d == alpha as int * n as int);
    assert(255 * (0xffff_ffff_ffff_ffff as int * 0x4000_0000) <= 0x100_0000_0000_0000_0000_0000_0000);
    Rgb { r: rounded_channel(t0, d), g: rounded_channel(t1, d), b: rounded_channel(t2, d) }
}

/// The best colour (see `best_color_in_rows`) for the rows of `shape` at
/// opacity `alpha / 255`.
pub fn best_color_in_shape(shape: &Ellipse, alpha: u8, source: &Image, target: &Image) -> (r: Rgb)
    requires
        source.wf(),
        target.wf(),
        source.same_size(target),
        alpha > 0,
        placeable(shape@, source.width as int, source.height as int),
    ensures
        r == best_color_spec(ellipse_rows(shape@), alpha as int, *source, *target),
{
    proof {
        lemma_covers_center(shape@, source.width as int, source.height as int);
    }
    let rows = shape.rasterize();
    best_color_in_rows(&rows, alpha, source, target)
}

/// The mean colour of the pixels of `img` that the rows cover (a pixel once
/// for each row over it), each channel rounded; black where none is covered.
pub fn average_color_in_lines(rows: &Vec<Row>, img: &Image) -> (r: Rgb)
    requires
        img.wf(),
    ensures
        r == average_in_rows_spec(rows@, *img),
{
    let len: usize = rows.len();
    let (t0, t1, t2, n) = weighted_sums(rows, img, img, 1, 0);
    if n == 0 {
        return Rgb { r: 0, g: 0, b: 0 };
    }
    proof {
        lemma_mul_le(len as int, img.width as int, 0xffff_ffff_ffff_ffff, 0x4000_0000);
        lemma_mul_le(65025, n as int, 65025, 0xffff_ffff_ffff_ffff as int * 0x4000_0000);
    }
    Rgb { r: rounded_channel(t0, n), g: rounded_channel(t1, n), b: rounded_channel(t2, n) }
}

/// The mean colour of the whole image, each channel rounded down.
pub fn average_image_color(img: &Image) -> (r: Rgb)
    requires
        img.wf(),
        img.pixels@.len() > 0,
    ensures
        r == average_image_spec(*img),
{
    let n: usize = img.pixels.len();
    let ghost p = img.pixels@;
    let mut s0: u64 = 0;
    let mut s1: u64 = 0;
    let mut s2: u64 = 0;
    let mut i: usize = 0;
    while i < n
        invariant
            img.wf(),
            p == img.pixels@,
            n == p.len(),
            n <= MAX_PIXELS,
            i <= n,
            s0 == channel_sum(p, 0, i as int),
            s1 == channel_sum(p, 1, i as int),
            s2 == channel_sum(p, 2, i as int),
            s0 <= 255 * i,
            s1 <= 255 * i,
            s2 <= 255 * i,
        decreases n - i,
    {
        let q = img.pixels[i];
        s0 = s0 + q.r as u64;
        s1 = s1 + q.g as u64;
        s2 = s2 + q.b as u64;
        i = i + 1;
    }
    let (a0, a1, a2) = (s0 / n as u64, s1 / n as u64, s2 / n as u64);
    proof {
        assert(s0 / n as u64 <= 255 && s1 / n as u64 <= 255 && s2 / n as u64 <= 255) by (nonlinear_arith)
            requires
                s0 <= 255 * n,
                s1 <= 255 * n,
                s2 <= 255 * n,
                n > 0,
        ;
    }
    Rgb { r: a0 as u8, g: a1 as u8, b: a2 as u8 }
}

/// A list of rows covers at least as many pixels as its first row does.
pub proof fn lemma_rows_count_first(rows: Seq<Row>, width: int, height: int)
    requires
        rows.len() > 0,
    ensures
        rows_count(rows, width, height) >= row_count(rows[0], width, height),
    decreases rows.len(),
{
    if rows.len() > 1 {
        lemma_rows_count_first(rows.drop_last(), width, height);
        assert(rows.drop_last()[0] == rows[0]);
        assert(row_count(rows.last(), width, height) >= 0);
    } else {
        assert(rows.drop_last().len() == 0);
        assert(rows_count(rows.drop_last(), width, height) == 0);
        assert(rows.last() == rows[0]);
    }
}

/// Painting channel value `c` at opacity `alpha / 255` over `s`, then
/// estimating the best colour from that one pixel (target the painted value,
/// source `s`), gives `c` back up to rounding: the two differ by at most
/// `1/2 + 127 / alpha`, and not at all at full opacity.
pub proof fn lemma_color_round_trip(c: int, s: int, alpha: int)
    requires
        0 <= c <= 255,
        0 <= s <= 255,
        1 <= alpha <= 255,
    ensures
        ({
            let t = blend_channel(c, s, alpha);
            let r = best_channel(255 * t - (255 - alpha) * s, 1, alpha);
            &&& 2 * alpha * (r - c) <= alpha + 254
            &&& 2 * alpha * (c - r) <= alpha + 254
            &&& (alpha == 255 ==> r == c)
        }),
{
    let v = c * alpha + s * (255 - alpha);
    lemma_blend_in_range(c, s, alpha);
    let t = blend_channel(c, s, alpha);
    assert(t == (2 * v + 255) / 510);
    assert(510 * t <= 2 * v + 255 < 510 * t + 510);
    let e = 255 * t - v;
    assert(-127 <= e <= 127);
    let n = 255 * t - (255 - alpha) * s;
    assert(n == c * alpha + e);
    let q = round_div(n, alpha * 1);
    assert(alpha * 1 == alpha);
    if n >= 0 {
        assert(q == (2 * n + alpha) / (2 * alpha));
        assert(2 * alpha * q <= 2 * n + alpha < 2 * alpha * q + 2 * alpha) by (nonlinear_arith)
            requires
                q == (2 * n + alpha) / (2 * alpha),
                alpha >= 1,
                n >= 0,
        ;
        assert(2 * alpha * q - alpha <= 2 * n <= 2 * alpha * q + alpha);
    } else {
        let m = (2 * (-n) + alpha) / (2 * alpha);
        assert(q == -m);
        assert(2 * alpha * m <= 2 * (-n) + alpha < 2 * alpha * m + 2 * alpha) by (nonlinear_arith)
            requires
                m == (2 * (-n) + alpha) / (2 * alpha),
                alpha >= 1,
                n < 0,
        ;
        assert(2 * alpha * q == -(2 * alpha * m)) by (nonlinear_arith)
            requires
                q == -m,
        ;
        assert(2 * alpha * q - alpha <= 2 * n <= 2 * alpha * q + alpha);
    }
    assert(2 * alpha * (q - c) <= alpha + 254 && 2 * alpha * (c - q) <= alpha + 254) by (nonlinear_arith)
        requires
            n == c * alpha + e,
            -127 <= e <= 127,
            alpha >= 1,
            2 * alpha * q - alpha <= 2 * n <= 2 * alpha * q + alpha,
    ;
    let r = clamp_spec(q, 0, 255);
    assert(2 * alpha * (r - c) <= alpha + 254 && 2 * alpha * (c - r) <= alpha + 254) by (nonlinear_arith)
        requires
            r == clamp_spec(q, 0, 255),
            0 <= c <= 255,
            alpha >= 1,
            2 * alpha * (q - c) <= alpha + 254,
            2 * alpha * (c - q) <= alpha + 254,
    ;
}

/// On a one-pixel image, a colour painted at opacity `alpha / 255` over the
/// source pixel is what the best-colour estimate recovers from the painted
/// pixel, up to rounding: each channel within `1/2 + 127 / alpha`, and
/// exactly at full opacity.
pub proof fn lemma_best_color_round_trip(color: Rgb, source: Image, target: Image, alpha: int)
    requires
        source.wf(),
        target.wf(),
        source.width == 1,
        source.height == 1,
        target.same_size(&source),
        1 <= alpha <= 255,
        target.pixels@[0] == blend_pixel(color, source.pixels@[0], alpha),
    ensures
        ({
            let r = best_color_spec(seq![Row { x1: 0, x2: 0, y: 0 }], alpha, source, target);
            &&& forall|c: int|
                0 <= c < 3 ==> 2 * alpha * (channel(r, c) - channel(color, c)) <= alpha + 254
                    && 2 * alpha * (channel(color, c) - channel(r, c)) <= alpha + 254
            &&& (alpha == 255 ==> r == color)
        }),
{
    let rows = seq![Row { x1: 0, x2: 0, y: 0 }];
    let row = Row { x1: 0, x2: 0, y: 0 };
    let s = source.pixels@[0];
    assert(rows.drop_last() =~= Seq::<Row>::empty());
    assert(rows.last() == row);
    assert(rows_count(rows.drop_last(), 1, 1) == 0);
    assert(row_count(row, 1, 1) == 1);
    assert(rows_count(rows, 1, 1) == 1);
    assert forall|c: int| 0 <= c < 3 implies required_total(rows, alpha, source, target, c) == 255 * channel(
        target.pixels@[0],
        c,
    ) - (255 - alpha) * channel(s, c) by {
        let f = weighted(target.pixels@, source.pixels@, c, 255, 255 - alpha);
        assert(line_total(f, 0, 0, -1) == 0);
        assert(line_total(f, 0, 0, 0) == f(0));
        assert(row_total(f, row, 1, 1) == f(0));
        assert(rows_total(f, rows.drop_last(), 1, 1) == 0);
        assert(rows_total(f, rows, 1, 1) == f(0));
    }
    let r = best_color_spec(rows, alpha, source, target);
    assert(alpha * 1 == alpha);
    lemma_blend_in_range(color.r as int, s.r as int, alpha);
    lemma_blend_in_range(color.g as int, s.g as int, alpha);
    lemma_blend_in_range(color.b as int, s.b as int, alpha);
    lemma_color_round_trip(color.r as int, s.r as int, alpha);
    lemma_color_round_trip(color.g as int, s.g as int, alpha);
    lemma_color_round_trip(color.b as int, s.b as int, alpha);
    assert(channel(r, 0) == best_channel(required_total(rows, alpha, source, target, 0), 1, alpha));
    assert(channel(r, 1) == best_channel(required_total(rows, alpha, source, target, 1), 1, alpha));
    assert(channel(r, 2) == best_channel(required_total(rows, alpha, source, target, 2), 1, alpha));
}

} // verus!
