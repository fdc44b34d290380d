use vstd::prelude::*;

use crate::raster::{lemma_pixel_index, Image, Rgb};
use crate::shape::Row;
use crate::util::{clamp, clamp_spec};

verus! {

/// Pixel `i` of a `width` by `height` image lies in `row` once both ends of
/// the row are clipped to `[0, width - 1]`. A row on a line outside the image
/// covers nothing.
pub open spec fn covers(row: Row, width: int, height: int, i: int) -> bool {
    let x = i - row.y * width;
    &&& 0 <= row.y < height
    &&& 0 <= x < width
    &&& clamp_spec(row.x1 as int, 0, width - 1) <= x <= clamp_spec(row.x2 as int, 0, width - 1)
}

/// One channel after painting `c` at opacity `alpha / 255` over `o`:
/// `c * alpha + o * (1 - alpha)`, rounded half up and kept in `[0, 255]`.
pub open spec fn blend_channel(c: int, o: int, alpha: int) -> int {
    clamp_spec((2 * (c * alpha + o * (255 - alpha)) + 255) / 510, 0, 255)
}

/// A pixel after painting `color` at opacity `alpha / 255` over `old`.
pub open spec fn blend_pixel(color: Rgb, old: Rgb, alpha: int) -> Rgb {
    Rgb {
        r: blend_channel(color.r as int, old.r as int, alpha) as u8,
        g: blend_channel(color.g as int, old.g as int, alpha) as u8,
        b: blend_channel(color.b as int, old.b as int, alpha) as u8,
    }
}

/// The pixels after painting one row.
pub open spec fn paint_row(
    pixels: Seq<Rgb>,
    width: int,
    height: int,
    row: Row,
    color: Rgb,
    alpha: int,
) -> Seq<Rgb> {
    Seq::new(
        pixels.len(),
        |i: int|
            if covers(row, width, height, i) {
                blend_pixel(color, pixels[i], alpha)
            } else {
                pixels[i]
            },
    )
}

/// The pixels after painting the rows one after the other, in order.
pub open spec fn paint_rows(
    pixels: Seq<Rgb>,
    width: int,
    height: int,
    rows: Seq<Row>,
    color: Rgb,
    alpha: int,
) -> Seq<Rgb>
    decreases rows.len(),
{
    if rows.len() == 0 {
        pixels
    } else {
        paint_row(
            paint_rows(pixels, width, height, rows.drop_last(), color, alpha),
            width,
            height,
            rows.last(),
            color,
            alpha,
        )
    }
}

/// One channel of the blend, computed exactly.
pub fn blend(c: u8, o: u8, alpha: u8) -> (r: u8)
    ensures
        r == blend_channel(c as int, o as int, alpha as int),
{
    let a: u32 = alpha as u32;
    assert(c as u32 * a + o as u32 * (255 - a) <= 65025) by (nonlinear_arith)
        requires
            c <= 255,
            o <= 255,
            a <= 255,
    ;
    let v: u32 = c as u32 * a + o as u32 * (255 - a);
    ((2 * v + 255) / 510) as u8
}

/// Paints `color` at opacity `alpha / 255` over every pixel of `img` that
/// lies in one of `rows`, the rows taken in order. Rows outside the image
/// are skipped; the ends of a row are clipped to the image.
pub fn draw_rows(img: &mut Image, rows: &Vec<Row>, color: Rgb, alpha: u8)
    requires
        old(img).wf(),
    ensures
        final(img).wf(),
        final(img).same_size(old(img)),
        final(img).pixels@ == paint_rows(
            old(img).pixels@,
            old(img).width as int,
            old(img).height as int,
            rows@,
            color,
            alpha as int,
        ),
{
    let ghost start = img.pixels@;
    let width: i64 = img.width as i64;
    let height: i64 = img.height as i64;
    let mut k: usize = 0;
    while k < rows.len()
        invariant
            img.wf(),
            img.width == width,
            img.height == height,
            k <= rows@.len(),
            img.pixels@ == paint_rows(start, width as int, height as int, rows@.subrange(0, k as int), color, alpha as int),
        decreases rows@.len() - k,
    {
        let row = rows[k];
        let ghost before = img.pixels@;
        if 0 <= row.y && (row.y as i64) < height && width > 0 {
            let lo: i64 = clamp(row.x1, 0, (width - 1) as i32) as i64;
            let hi: i64 = clamp(row.x2, 0, (width - 1) as i32) as i64;
            proof {
                lemma_pixel_index(0, row.y as int, width as int, height as int);
            }
            let base: i64 = row.y as i64 * width;
            let mut x: i64 = lo;
            while x <= hi
                invariant
                    img.wf(),
                    img.width == width,
                    img.height == height,
                    0 <= row.y < height,
                    base == row.y * width,
                    base + width <= width * height,
                    0 <= lo,
                    hi < width,
                    lo == clamp_spec(row.x1 as int, 0, width - 1),
                    hi == clamp_spec(row.x2 as int, 0, width - 1),
                    lo <= x <= hi + 1 || (x == lo && hi < lo),
                    img.pixels@.len() == before.len(),
                    forall|i: int|
                        0 <= i < before.len() ==> #[trigger] img.pixels@[i] == if covers(
                            row,
                            width as int,
                            height as int,
                            i,
                        ) && i - base < x {
                            blend_pixel(color, before[i], alpha as int)
                        } else {
                            before[i]
                        },
                decreases hi + 1 - x,
            {
                let idx: usize = (base + x) as usize;
                let p = img.pixels[idx];
                let q = Rgb {
                    r: blend(color.r, p.r, alpha),
                    g: blend(color.g, p.g, alpha),
                    b: blend(color.b, p.b, alpha),
                };
                img.pixels.set(idx, q);
                x = x + 1;
            }
        }
        proof {
            assert(rows@.subrange(0, k as int + 1).drop_last() =~= rows@.subrange(0, k as int));
            assert(rows@.subrange(0, k as int + 1).last() == row);
            assert(img.pixels@ =~= paint_row(before, width as int, height as int, row, color, alpha as int));
        }
        k = k + 1;
    }
    proof {
        assert(rows@.subrange(0, rows@.len() as int) =~= rows@);
    }
}

/// White painted at full opacity gives white, whatever the pixel held.
pub proof fn lemma_opaque_white(old: Rgb)
    ensures
        blend_pixel(Rgb { r: 255, g: 255, b: 255 }, old, 255) == (Rgb { r: 255, g: 255, b: 255 }),
{
}

/// A blended channel always lies in `[0, 255]` before clamping.
pub proof fn lemma_blend_in_range(c: int, o: int, alpha: int)
    requires
        0 <= c <= 255,
        0 <= o <= 255,
        0 <= alpha <= 255,
    ensures
        0 <= (2 * (c * alpha + o * (255 - alpha)) + 255) / 510 <= 255,
        blend_channel(c, o, alpha) == (2 * (c * alpha + o * (255 - alpha)) + 255) / 510,
{
    assert(0 <= c * alpha + o * (255 - alpha) <= 65025) by (nonlinear_arith)
        requires
            0 <= c <= 255,
            0 <= o <= 255,
            0 <= alpha <= 255,
    ;
}

} // verus!
