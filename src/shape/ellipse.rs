use vstd::prelude::*;

use crate::color::{best_color_in_rows, best_color_spec, lemma_rows_count_first, row_count, rows_count};
use crate::metric::{squared_error, squared_error_spec};
use crate::paint::{draw_rows, paint_rows};
use crate::random::RandomSource;
use crate::raster::{Image, Rgb, MAX_SIDE};
use crate::shape::{Rasterizable, Row};
use crate::util::clamp_spec;

verus! {

/// Opacity of a freshly drawn random ellipse, out of 255.
pub const DEFAULT_ALPHA: u8 = 128;

/// Standard deviation of the step that a mutation adds to a parameter.
pub const MUTATION_RATE: u32 = 4;

/// The parameters of an axis-aligned filled ellipse.
pub struct EllipseParams {
    pub cx: int,
    pub cy: int,
    pub rx: int,
    pub ry: int,
    pub alpha: int,
}

/// `c - r` and `c + r` are both `i32` values.
pub open spec fn fits_i32(c: int, r: int) -> bool {
    &&& i32::MIN <= c - r <= i32::MAX
    &&& i32::MIN <= c + r <= i32::MAX
}

/// `k` is `a * sqrt(b^2 - d^2) / b` rounded to the nearest integer, halves up:
/// `k - 1/2 <= a * sqrt(b^2 - d^2) / b < k + 1/2`, squared.
pub open spec fn rounds_half_width(k: int, a: int, b: int, d: int) -> bool {
    &&& 0 <= k
    &&& (k == 0 || (2 * k - 1) * (2 * k - 1) * (b * b) <= 4 * (a * a) * (b * b - d * d))
    &&& 4 * (a * a) * (b * b - d * d) < (2 * k + 1) * (2 * k + 1) * (b * b)
}

/// Half the width of the ellipse with radii `a` and `b` at `d` lines from its
/// centre: `round(sqrt(b^2 - d^2) * a / b)`, rounding halves away from zero.
pub open spec fn half_width(a: int, b: int, d: int) -> int {
    if a >= 0 {
        choose|k: int| #[trigger] rounds_half_width(k, a, b, d)
    } else {
        -(choose|k: int| #[trigger] rounds_half_width(k, -a, b, d))
    }
}

/// The number of rows of an ellipse with vertical radius `ry`.
pub open spec fn span_count(ry: int) -> int {
    if ry <= 0 {
        1
    } else {
        2 * ry - 1
    }
}

/// Row `i` of the ellipse: first the centre line, then for each offset
/// `d = 1 .. ry - 1` the line `d` above the centre and the line `d` below.
pub open spec fn ellipse_row(e: EllipseParams, i: int) -> Row {
    if i == 0 {
        Row { x1: (e.cx - e.rx) as i32, x2: (e.cx + e.rx) as i32, y: e.cy as i32 }
    } else {
        let d = (i + 1) / 2;
        let w = half_width(e.rx, e.ry, d);
        Row {
            x1: (e.cx - w) as i32,
            x2: (e.cx + w) as i32,
            y: (if i % 2 == 1 {
                e.cy - d
            } else {
                e.cy + d
            }) as i32,
        }
    }
}

/// The rows of the ellipse, `2 * ry - 1` of them, or one where `ry <= 0`.
pub open spec fn ellipse_rows(e: EllipseParams) -> Seq<Row> {
    Seq::new(span_count(e.ry) as nat, |i: int| ellipse_row(e, i))
}

/// The ellipse lies within a `width` by `height` image as the search keeps
/// it: centre inside the image, radii in `[0, width - 1]` and
/// `[0, height - 1]`, and an opacity above zero.
pub open spec fn placeable(e: EllipseParams, width: int, height: int) -> bool {
    &&& 1 <= width <= MAX_SIDE
    &&& 1 <= height <= MAX_SIDE
    &&& 0 <= e.cx < width
    &&& 0 <= e.cy < height
    &&& 0 <= e.rx < width
    &&& 0 <= e.ry < height
    &&& 0 < e.alpha <= 255
}

/// The ellipse after one mutation: `choice` 0 to 3 picks the centre's x, its
/// y, the horizontal or the vertical radius, which moves by `delta` and is
/// clamped to `[0, width - 1]` or `[0, height - 1]`; any other `choice`
/// leaves the ellipse as it is.
pub open spec fn mutation(e: EllipseParams, width: int, height: int, choice: int, delta: int) -> EllipseParams {
    if choice == 0 {
        EllipseParams { cx: clamp_spec(e.cx + delta, 0, width - 1), ..e }
    } else if choice == 1 {
        EllipseParams { cy: clamp_spec(e.cy + delta, 0, height - 1), ..e }
    } else if choice == 2 {
        EllipseParams { rx: clamp_spec(e.rx + delta, 0, width - 1), ..e }
    } else if choice == 3 {
        EllipseParams { ry: clamp_spec(e.ry + delta, 0, height - 1), ..e }
    } else {
        e
    }
}

/// The squared error against `target` once the ellipse is painted over
/// `source` in its best colour.
pub open spec fn fit_error(e: EllipseParams, source: Image, target: Image) -> int {
    let rows = ellipse_rows(e);
    squared_error_spec(
        paint_rows(
            source.pixels@,
            source.width as int,
            source.height as int,
            rows,
            best_color_spec(rows, e.alpha, source, target),
            e.alpha,
        ),
        target.pixels@,
    )
}

/// An axis-aligned filled ellipse with its rows kept up to date.
#[derive(Debug)]
pub struct Ellipse {
    raster: Vec<Row>,
    x: i32,
    y: i32,
    x_radius: i32,
    y_radius: i32,
    alpha: u8,
}

impl View for Ellipse {
    type V = EllipseParams;

    closed spec fn view(&self) -> EllipseParams {
        EllipseParams {
            cx: self.x as int,
            cy: self.y as int,
            rx: self.x_radius as int,
            ry: self.y_radius as int,
            alpha: self.alpha as int,
        }
    }
}

proof fn lemma_rounds_unique(k1: int, k2: int, a: int, b: int, d: int)
    requires
        b > 0,
        rounds_half_width(k1, a, b, d),
        rounds_half_width(k2, a, b, d),
    ensures
        k1 == k2,
{
    let n = 4 * (a * a) * (b * b - d * d);
    let bb = b * b;
    assert(b * b > 0) by (nonlinear_arith)
        requires
            b > 0,
    ;
    if k1 < k2 {
        assert((2 * k2 - 1) * (2 * k2 - 1) * bb < (2 * k1 + 1) * (2 * k1 + 1) * bb);
        assert(false) by (nonlinear_arith)
            requires
                (2 * k2 - 1) * (2 * k2 - 1) * bb < (2 * k1 + 1) * (2 * k1 + 1) * bb,
                bb > 0,
                0 <= k1 < k2,
        ;
    } else if k2 < k1 {
        assert((2 * k1 - 1) * (2 * k1 - 1) * bb < (2 * k2 + 1) * (2 * k2 + 1) * bb);
        assert(false) by (nonlinear_arith)
            requires
                (2 * k1 - 1) * (2 * k1 - 1) * bb < (2 * k2 + 1) * (2 * k2 + 1) * bb,
                bb > 0,
                0 <= k2 < k1,
        ;
    }
}

proof fn lemma_half_width(a: int, b: int, d: int, k: int)
    requires
        b > 0,
        rounds_half_width(k, if a >= 0 { a } else { -a }, b, d),
    ensures
        half_width(a, b, d) == if a >= 0 { k } else { -k },
{
    let aa = if a >= 0 { a } else { -a };
    let c = choose|j: int| rounds_half_width(j, aa, b, d);
    lemma_rounds_unique(c, k, aa, b, d);
}

/// The next half-width, scanning down from `k`, which was the rounded
/// half-width one line closer to the centre.
fn next_half_width(k: i128, a: i128, b: i128, d: i128) -> (r: i128)
    requires
        0 <= a < 0x8000_0000,
        0 < b < 0x8000_0000,
        1 <= d < b,
        0 <= k <= a,
        4 * (a * a) * (b * b - d * d) < (2 * k + 1) * (2 * k + 1) * (b * b),
    ensures
        rounds_half_width(r as int, a as int, b as int, d as int),
        0 <= r <= k,
{
    assert(0 <= a * a < 0x4000_0000_0000_0000 && 0 < b * b < 0x4000_0000_0000_0000) by (nonlinear_arith)
        requires
            0 <= a < 0x8000_0000,
            0 < b < 0x8000_0000,
    ;
    assert(0 <= d * d < b * b) by (nonlinear_arith)
        requires
            1 <= d < b,
    ;
    let bb: i128 = b * b;
    let aa: i128 = a * a;
    assert(0 <= 4 * aa * (bb - d * d) <= 4 * 0x4000_0000_0000_0000 * 0x4000_0000_0000_0000) by (nonlinear_arith)
        requires
            0 <= aa < 0x4000_0000_0000_0000,
            0 <= d * d < bb < 0x4000_0000_0000_0000,
    ;
    let n: i128 = 4 * aa * (bb - d * d);
    let mut j: i128 = k;
    loop
        invariant
            0 <= j <= k <= a < 0x8000_0000,
            0 < b < 0x8000_0000,
            1 <= d < b,
            bb == b * b,
            0 < bb < 0x4000_0000_0000_0000,
            n == 4 * (a * a) * (b * b - d * d),
            0 <= n,
            n < (2 * j + 1) * (2 * j + 1) * bb,
        decreases j,
    {
        if j == 0 {
            return 0;
        }
        let t: i128 = 2 * j - 1;
        assert(0 < t * t <= 0x1_0000_0000_0000_0000 && t * t * bb <= 0x1_0000_0000_0000_0000 * 0x4000_0000_0000_0000) by (nonlinear_arith)
            requires
                t == 2 * j - 1,
                1 <= j < 0x8000_0000,
                0 < bb < 0x4000_0000_0000_0000,
        ;
        if t * t * bb <= n {
            return j;
        }
        j = j - 1;
    }
}

/// The rows of the ellipse with centre `(cx, cy)` and radii `a` and `b`.
fn build_rows(cx: i32, cy: i32, a: i32, b: i32) -> (r: Vec<Row>)
    requires
        fits_i32(cx as int, a as int),
        fits_i32(cy as int, b as int),
    ensures
        r@ == ellipse_rows(EllipseParams { cx: cx as int, cy: cy as int, rx: a as int, ry: b as int, alpha: 0 }),
{
    let ghost e = EllipseParams { cx: cx as int, cy: cy as int, rx: a as int, ry: b as int, alpha: 0 };
    let mut rows: Vec<Row> = Vec::new();
    rows.push(Row::new(cx - a, cx + a, cy));
    if b > 1 {
        let ab: i128 = if a >= 0 { a as i128 } else { -(a as i128) };
        let bb: i128 = b as i128;
        let mut k: i128 = ab;
        let mut d: i128 = 1;
        assert(4 * (ab * ab) * (bb * bb - 0 * 0) < (2 * ab + 1) * (2 * ab + 1) * (bb * bb)) by (nonlinear_arith)
            requires
                0 <= ab,
                0 < bb,
        ;
        while d < bb
            invariant
                0 <= ab < 0x8000_0000,
                ab == if a >= 0 { a as int } else { -a },
                bb == b,
                1 < bb < 0x8000_0000,
                1 <= d <= bb,
                0 <= k <= ab,
                4 * (ab * ab) * (bb * bb - (d - 1) * (d - 1)) < (2 * k + 1) * (2 * k + 1) * (bb * bb),
                fits_i32(cx as int, a as int),
                fits_i32(cy as int, b as int),
                e == (EllipseParams { cx: cx as int, cy: cy as int, rx: a as int, ry: b as int, alpha: 0 }),
                rows@.len() == 2 * d - 1,
                forall|i: int| 0 <= i < rows@.len() ==> #[trigger] rows@[i] == ellipse_row(e, i),
            decreases bb - d,
        {
            assert(4 * (ab * ab) * (bb * bb - d * d) <= 4 * (ab * ab) * (bb * bb - (d - 1) * (d - 1))) by (nonlinear_arith)
                requires
                    1 <= d,
                    0 <= ab,
            ;
            let w: i128 = next_half_width(k, ab, bb, d);
            proof {
                lemma_half_width(a as int, b as int, d as int, w as int);
            }
            let hw: i128 = if a >= 0 { w } else { -w };
            let x1: i32 = (cx as i128 - hw) as i32;
            let x2: i32 = (cx as i128 + hw) as i32;
            rows.push(Row::new(x1, x2, (cy as i128 - d) as i32));
            rows.push(Row::new(x1, x2, (cy as i128 + d) as i32));
            proof {
                let i1 = 2 * d - 1;
                let i2 = 2 * d;
                assert((i1 + 1) / 2 == d && i1 % 2 == 1);
                assert((i2 + 1) / 2 == d && i2 % 2 == 0);
                assert(half_width(a as int, b as int, d as int) == hw);
                assert(rows@[i1] == ellipse_row(e, i1));
                assert(rows@[i2] == ellipse_row(e, i2));
            }
            k = w;
            d = d + 1;
        }
    }
    proof {
        assert(rows@ =~= ellipse_rows(e));
    }
    rows
}

impl Ellipse {
    #[verifier::type_invariant]
    spec fn inv(&self) -> bool {
        &&& fits_i32(self.x as int, self.x_radius as int)
        &&& fits_i32(self.y as int, self.y_radius as int)
        &&& self.raster@ == ellipse_rows(self@)
    }

    /// An ellipse centred at `(x, y)` with the given radii and an opacity of
    /// `alpha / 255`.
    pub fn new(x: i32, y: i32, x_radius: i32, y_radius: i32, alpha: u8) -> (r: Ellipse)
        requires
            fits_i32(x as int, x_radius as int),
            fits_i32(y as int, y_radius as int),
        ensures
            r@ == (EllipseParams {
                cx: x as int,
                cy: y as int,
                rx: x_radius as int,
                ry: y_radius as int,
                alpha: alpha as int,
            }),
    {
        let raster = build_rows(x, y, x_radius, y_radius);
        proof {
            let e = EllipseParams { cx: x as int, cy: y as int, rx: x_radius as int, ry: y_radius as int, alpha: alpha as int };
            let e0 = EllipseParams { alpha: 0, ..e };
            assert(ellipse_rows(e0) =~= ellipse_rows(e));
        }
        Ellipse { raster, x, y, x_radius, y_radius, alpha }
    }

    /// A random ellipse within a `width` by `height` image: centre and radii
    /// drawn uniformly from `[0, width)` and `[0, height)`, opacity
    /// `DEFAULT_ALPHA`.
    pub fn random<R: RandomSource>(dimensions: (u32, u32), rng: &mut R) -> (r: Ellipse)
        requires
            1 <= dimensions.0 <= MAX_SIDE,
            1 <= dimensions.1 <= MAX_SIDE,
        ensures
            placeable(r@, dimensions.0 as int, dimensions.1 as int),
            r@.alpha == DEFAULT_ALPHA,
    {
        let (width, height) = dimensions;
        let x = rng.below(width) % width;
        let y = rng.below(height) % height;
        let x_radius = rng.below(width) % width;
        let y_radius = rng.below(height) % height;
        Ellipse::new(x as i32, y as i32, x_radius as i32, y_radius as i32, DEFAULT_ALPHA)
    }

    /// A separate ellipse with the same parameters.
    pub fn copy(&self) -> (r: Ellipse)
        ensures
            r@ == self@,
    {
        proof {
            use_type_invariant(self);
        }
        let raster = self.rasterize();
        Ellipse {
            raster,
            x: self.x,
            y: self.y,
            x_radius: self.x_radius,
            y_radius: self.y_radius,
            alpha: self.alpha,
        }
    }

    /// The x coordinate of the centre.
    pub fn x(&self) -> (r: i32)
        ensures
            r == self@.cx,
    {
        self.x
    }

    /// The y coordinate of the centre.
    pub fn y(&self) -> (r: i32)
        ensures
            r == self@.cy,
    {
        self.y
    }

    /// The horizontal radius.
    pub fn x_radius(&self) -> (r: i32)
        ensures
            r == self@.rx,
    {
        self.x_radius
    }

    /// The vertical radius.
    pub fn y_radius(&self) -> (r: i32)
        ensures
            r == self@.ry,
    {
        self.y_radius
    }

    /// The opacity, out of 255.
    pub fn alpha(&self) -> (r: u8)
        ensures
            r == self@.alpha,
    {
        self.alpha
    }

    /// This ellipse after the mutation that `choice` and `delta` select
    /// (see `mutation`).
    pub fn mutated(&self, dimensions: (u32, u32), choice: u32, delta: i32) -> (r: Ellipse)
        requires
            placeable(self@, dimensions.0 as int, dimensions.1 as int),
        ensures
            r@ == mutation(self@, dimensions.0 as int, dimensions.1 as int, choice as int, delta as int),
            placeable(r@, dimensions.0 as int, dimensions.1 as int),
    {
        let (w, h) = (dimensions.0 as i64, dimensions.1 as i64);
        let (mut x, mut y, mut rx, mut ry) = (self.x, self.y, self.x_radius, self.y_radius);
        if choice == 0 {
            x = clamp_wide(x as i64 + delta as i64, w - 1) as i32;
        } else if choice == 1 {
            y = clamp_wide(y as i64 + delta as i64, h - 1) as i32;
        } else if choice == 2 {
            rx = clamp_wide(rx as i64 + delta as i64, w - 1) as i32;
        } else if choice == 3 {
            ry = clamp_wide(ry as i64 + delta as i64, h - 1) as i32;
        }
        Ellipse::new(x, y, rx, ry, self.alpha)
    }

    /// Moves one parameter by a random step: which one is drawn uniformly
    /// from the four, the step from a normal distribution of standard
    /// deviation `MUTATION_RATE`, rounded; the result is clamped into the image.
    pub fn mutate<R: RandomSource>(&mut self, dimensions: (u32, u32), rng: &mut R)
        requires
            placeable(old(self)@, dimensions.0 as int, dimensions.1 as int),
        ensures
            placeable(final(self)@, dimensions.0 as int, dimensions.1 as int),
            exists|choice: int, delta: int|
                0 <= choice < 4 && i32::MIN <= delta <= i32::MAX && final(self)@ == mutation(
                    old(self)@,
                    dimensions.0 as int,
                    dimensions.1 as int,
                    choice,
                    delta,
                ),
    {
        let choice = rng.below(4) % 4;
        let delta = rng.gaussian(MUTATION_RATE);
        let next = self.mutated(dimensions, choice, delta);
        *self = next;
        assert(0 <= choice < 4 && i32::MIN <= delta <= i32::MAX);
    }

    /// The colour that best brings `source` towards `target` where this
    /// ellipse is painted (see `best_color_in_rows`).
    pub fn best_color(&self, source: &Image, target: &Image) -> (r: Rgb)
        requires
            source.wf(),
            target.wf(),
            source.same_size(target),
            placeable(self@, source.width as int, source.height as int),
        ensures
            r == best_color_spec(ellipse_rows(self@), self@.alpha, *source, *target),
    {
        proof {
            use_type_invariant(self);
            lemma_covers_center(self@, source.width as int, source.height as int);
        }
        best_color_in_rows(&self.raster, self.alpha, source, target)
    }

    /// Paints the ellipse in `color` at opacity `alpha / 255` onto `img`.
    pub fn draw_to_image(&self, img: &mut Image, color: Rgb, alpha: u8)
        requires
            old(img).wf(),
        ensures
            final(img).wf(),
            final(img).same_size(old(img)),
            final(img).pixels@ == paint_rows(
                old(img).pixels@,
                old(img).width as int,
                old(img).height as int,
                ellipse_rows(self@),
                color,
                alpha as int,
            ),
    {
        proof {
            use_type_invariant(self);
        }
        draw_rows(img, &self.raster, color, alpha)
    }

    /// Paints the ellipse onto `img` in its best colour against `target`, at
    /// its own opacity.
    pub fn draw_best_color(&self, img: &mut Image, target: &Image)
        requires
            old(img).wf(),
            target.wf(),
            old(img).same_size(target),
            placeable(self@, old(img).width as int, old(img).height as int),
        ensures
            final(img).wf(),
            final(img).same_size(old(img)),
            final(img).pixels@ == paint_rows(
                old(img).pixels@,
                old(img).width as int,
                old(img).height as int,
                ellipse_rows(self@),
                best_color_spec(ellipse_rows(self@), self@.alpha, *old(img), *target),
                self@.alpha,
            ),
    {
        let color = self.best_color(img, target);
        self.draw_to_image(img, color, self.alpha);
    }

    /// The fit error: the squared error against `target` of a copy of
    /// `source` with the ellipse painted on it in its best colour.
    pub fn error(&self, source: &Image, target: &Image) -> (r: u64)
        requires
            source.wf(),
            target.wf(),
            source.same_size(target),
            placeable(self@, source.width as int, source.height as int),
        ensures
            r == fit_error(self@, *source, *target),
    {
        let mut canvas = source.copy();
        self.draw_best_color(&mut canvas, target);
        squared_error(&canvas, target)
    }
}

/// `v` clamped to `[0, hi]`.
fn clamp_wide(v: i64, hi: i64) -> (r: i64)
    requires
        0 <= hi,
    ensures
        r == clamp_spec(v as int, 0, hi as int),
{
    if v < 0 {
        0
    } else if v > hi {
        hi
    } else {
        v
    }
}

/// A placeable ellipse covers its centre, so at least one pixel.
pub proof fn lemma_covers_center(e: EllipseParams, width: int, height: int)
    requires
        placeable(e, width, height),
    ensures
        rows_count(ellipse_rows(e), width, height) > 0,
{
    let rows = ellipse_rows(e);
    assert(rows[0] == ellipse_row(e, 0));
    assert(row_count(rows[0], width, height) >= 1);
    lemma_rows_count_first(rows, width, height);
}

impl Rasterizable for Ellipse {
    open spec fn spans(&self) -> Seq<Row> {
        ellipse_rows(self@)
    }

    fn rasterize(&self) -> (r: Vec<Row>) {
        proof {
            use_type_invariant(self);
        }
        let rows = self.raster.clone();
        assert(rows@ =~= self.raster@);
        rows
    }

    fn new_raster(&self) -> (r: Vec<Row>) {
        proof {
            use_type_invariant(self);
            let e0 = EllipseParams { alpha: 0, ..self@ };
            assert(ellipse_rows(e0) =~= ellipse_rows(self@));
        }
        build_rows(self.x, self.y, self.x_radius, self.y_radius)
    }
}

/// An ellipse with vertical radius `b` has `2 * b - 1` rows (the centre line
/// and two per offset `1 .. b - 1`), or a single row where `b <= 0`.
pub proof fn lemma_span_count(e: EllipseParams)
    ensures
        e.ry >= 1 ==> ellipse_rows(e).len() == 2 * e.ry - 1,
        e.ry <= 0 ==> ellipse_rows(e).len() == 1,
        ellipse_rows(e)[0] == (Row { x1: (e.cx - e.rx) as i32, x2: (e.cx + e.rx) as i32, y: e.cy as i32 }),
{
}

} // verus!
