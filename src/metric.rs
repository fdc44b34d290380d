use vstd::prelude::*;

use crate::raster::{channel, Image, Rgb, MAX_PIXELS};

verus! {

/// The squared distance of two pixels, summed over the three channels.
pub open spec fn pixel_distance(p: Rgb, q: Rgb) -> int {
    (channel(p, 0) - channel(q, 0)) * (channel(p, 0) - channel(q, 0)) + (channel(p, 1) - channel(
        q,
        1,
    )) * (channel(p, 1) - channel(q, 1)) + (channel(p, 2) - channel(q, 2)) * (channel(p, 2)
        - channel(q, 2))
}

/// The summed pixel distance over the first `n` pixels of `a` and `b`.
pub open spec fn distance_prefix(a: Seq<Rgb>, b: Seq<Rgb>, n: int) -> int
    decreases n,
{
    if n <= 0 {
        0
    } else {
        distance_prefix(a, b, n - 1) + pixel_distance(a[n - 1], b[n - 1])
    }
}

/// The sum over all pixels and channels of the squared channel difference.
/// The root-mean-square error of two images is the square root of this sum
/// divided by three times the pixel count.
pub open spec fn squared_error_spec(a: Seq<Rgb>, b: Seq<Rgb>) -> int {
    distance_prefix(a, b, a.len() as int)
}

/// Largest distance of two pixels.
pub const MAX_PIXEL_DISTANCE: u64 = 195075;

pub proof fn lemma_pixel_distance_bounds(p: Rgb, q: Rgb)
    ensures
        0 <= pixel_distance(p, q) <= MAX_PIXEL_DISTANCE,
        pixel_distance(p, q) == pixel_distance(q, p),
        pixel_distance(p, p) == 0,
{
    let (dr, dg, db) = (channel(p, 0) - channel(q, 0), channel(p, 1) - channel(q, 1), channel(p, 2) - channel(q, 2));
    assert(0 <= dr * dr <= 65025) by (nonlinear_arith)
        requires
            -255 <= dr <= 255,
    ;
    assert(0 <= dg * dg <= 65025) by (nonlinear_arith)
        requires
            -255 <= dg <= 255,
    ;
    assert(0 <= db * db <= 65025) by (nonlinear_arith)
        requires
            -255 <= db <= 255,
    ;
    assert(dr * dr == (-dr) * (-dr)) by (nonlinear_arith);
    assert(dg * dg == (-dg) * (-dg)) by (nonlinear_arith);
    assert(db * db == (-db) * (-db)) by (nonlinear_arith);
}

pub proof fn lemma_distance_prefix_bounds(a: Seq<Rgb>, b: Seq<Rgb>, n: int)
    requires
        0 <= n <= a.len(),
        n <= b.len(),
    ensures
        0 <= distance_prefix(a, b, n) <= MAX_PIXEL_DISTANCE * n,
    decreases n,
{
    if n > 0 {
        lemma_distance_prefix_bounds(a, b, n - 1);
        lemma_pixel_distance_bounds(a[n - 1], b[n - 1]);
    }
}

/// The squared error of an image against itself is zero.
pub proof fn lemma_squared_error_identity(a: Seq<Rgb>)
    ensures
        squared_error_spec(a, a) == 0,
{
    lemma_identity_prefix(a, a.len() as int);
}

proof fn lemma_identity_prefix(a: Seq<Rgb>, n: int)
    requires
        0 <= n <= a.len(),
    ensures
        distance_prefix(a, a, n) == 0,
    decreases n,
{
    if n > 0 {
        lemma_identity_prefix(a, n - 1);
        lemma_pixel_distance_bounds(a[n - 1], a[n - 1]);
    }
}

/// The squared error does not depend on the order of the two images.
pub proof fn lemma_squared_error_symmetric(a: Seq<Rgb>, b: Seq<Rgb>)
    requires
        a.len() == b.len(),
    ensures
        squared_error_spec(a, b) == squared_error_spec(b, a),
{
    lemma_symmetric_prefix(a, b, a.len() as int);
}

proof fn lemma_symmetric_prefix(a: Seq<Rgb>, b: Seq<Rgb>, n: int)
    requires
        0 <= n <= a.len(),
        a.len() == b.len(),
    ensures
        distance_prefix(a, b, n) == distance_prefix(b, a, n),
    decreases n,
{
    if n > 0 {
        lemma_symmetric_prefix(a, b, n - 1);
        lemma_pixel_distance_bounds(a[n - 1], b[n - 1]);
    }
}

/// The squared distance of two pixels.
pub fn pixel_distance_of(p: Rgb, q: Rgb) -> (r: u64)
    ensures
        r == pixel_distance(p, q),
{
    proof {
        lemma_pixel_distance_bounds(p, q);
    }
    let dr: i64 = p.r as i64 - q.r as i64;
    let dg: i64 = p.g as i64 - q.g as i64;
    let db: i64 = p.b as i64 - q.b as i64;
    assert(0 <= dr * dr <= 65025 && 0 <= dg * dg <= 65025 && 0 <= db * db <= 65025) by (nonlinear_arith)
        requires
            -255 <= dr <= 255,
            -255 <= dg <= 255,
            -255 <= db <= 255,
    ;
    (dr * dr + dg * dg + db * db) as u64
}

/// The sum over every pixel and channel of the squared difference of two
/// images of the same size. Zero exactly where the images are equal; its
/// square root over three times the pixel count is the root-mean-square error.
pub fn squared_error(img1: &Image, img2: &Image) -> (r: u64)
    requires
        img1.wf(),
        img2.wf(),
        img1.same_size(img2),
    ensures
        r == squared_error_spec(img1.pixels@, img2.pixels@),
{
    let n: usize = img1.pixels.len();
    let mut total: u64 = 0;
    let mut i: usize = 0;
    while i < n
        invariant
            img1.wf(),
            img2.wf(),
            img1.same_size(img2),
            n == img1.pixels@.len(),
            n == img2.pixels@.len(),
            n <= MAX_PIXELS,
            i <= n,
            total == distance_prefix(img1.pixels@, img2.pixels@, i as int),
        decreases n - i,
    {
        proof {
            lemma_distance_prefix_bounds(img1.pixels@, img2.pixels@, i as int + 1);
        }
        total = total + pixel_distance_of(img1.pixels[i], img2.pixels[i]);
        i = i + 1;
    }
    total
}

/// Updates a squared error after a change of the canvas: `error`, the squared
/// error that includes `before`, less the share of `before` plus the share of
/// `after`, both against `target`. Where `error` is exactly the squared error
/// of `before`, the result is that of `after`.
pub fn partial_square_error(error: u64, before: &Image, after: &Image, target: &Image) -> (r: u64)
    requires
        before.wf(),
        after.wf(),
        target.wf(),
        before.same_size(after),
        after.same_size(target),
        squared_error_spec(before.pixels@, target.pixels@) <= error,
        error - squared_error_spec(before.pixels@, target.pixels@) + squared_error_spec(
            after.pixels@,
            target.pixels@,
        ) <= u64::MAX,
    ensures
        r == error - squared_error_spec(before.pixels@, target.pixels@) + squared_error_spec(
            after.pixels@,
            target.pixels@,
        ),
{
    let n: usize = target.pixels.len();
    let mut total: i128 = error as i128;
    let mut i: usize = 0;
    while i < n
        invariant
            before.wf(),
            after.wf(),
            target.wf(),
            before.same_size(after),
            after.same_size(target),
            n == target.pixels@.len(),
            n == before.pixels@.len(),
            n == after.pixels@.len(),
            n <= MAX_PIXELS,
            i <= n,
            total == error - distance_prefix(target.pixels@, before.pixels@, i as int)
                + distance_prefix(target.pixels@, after.pixels@, i as int),
            0 <= distance_prefix(target.pixels@, before.pixels@, i as int) <= MAX_PIXEL_DISTANCE * i,
            0 <= distance_prefix(target.pixels@, after.pixels@, i as int) <= MAX_PIXEL_DISTANCE * i,
        decreases n - i,
    {
        proof {
            lemma_distance_prefix_bounds(target.pixels@, before.pixels@, i as int + 1);
            lemma_distance_prefix_bounds(target.pixels@, after.pixels@, i as int + 1);
        }
        let t = target.pixels[i];
        total = total - pixel_distance_of(t, before.pixels[i]) as i128;
        total = total + pixel_distance_of(t, after.pixels[i]) as i128;
        i = i + 1;
    }
    proof {
        lemma_symmetric_prefix(target.pixels@, before.pixels@, n as int);
        lemma_symmetric_prefix(target.pixels@, after.pixels@, n as int);
    }
    total as u64
}

} // verus!
