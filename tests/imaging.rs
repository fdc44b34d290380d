use shapefit::color::{average_color_in_lines, average_image_color, best_color_in_rows, best_color_in_shape};
use shapefit::metric::{partial_square_error, squared_error};
use shapefit::paint::{blend, draw_rows};
use shapefit::raster::{Image, Rgb};
use shapefit::shape::{Ellipse, Row};

fn rgb(r: u8, g: u8, b: u8) -> Rgb {
    Rgb { r, g, b }
}

fn image_of(width: u32, height: u32, pixels: Vec<Rgb>) -> Image {
    assert_eq!(pixels.len(), (width * height) as usize);
    Image { width, height, pixels }
}

fn rms(sum: u64, pixels: u64) -> f64 {
    (sum as f64 / (3 * pixels) as f64).sqrt()
}

#[test]
fn filled_image_and_pixels() {
    let img = Image::filled(3, 2, rgb(1, 2, 3));
    assert_eq!(img.dimensions(), (3, 2));
    assert_eq!(img.pixels.len(), 6);
    assert_eq!(img.get_pixel(2, 1), rgb(1, 2, 3));
    let c = img.copy();
    assert_eq!(c.pixels, img.pixels);
}

#[test]
fn blend_rounds_half_up() {
    assert_eq!(blend(200, 0, 128), 100);
    assert_eq!(blend(0, 200, 128), 100);
    assert_eq!(blend(10, 250, 0), 250);
    assert_eq!(blend(10, 250, 255), 10);
    assert_eq!(blend(1, 0, 128), 1);
}

#[test]
fn white_at_full_opacity_gives_white() {
    let mut img = image_of(3, 1, vec![rgb(0, 0, 0), rgb(12, 200, 99), rgb(255, 255, 255)]);
    let rows = Row::full_image(3, 1);
    draw_rows(&mut img, &rows, rgb(255, 255, 255), 255);
    assert!(img.pixels.iter().all(|p| *p == rgb(255, 255, 255)));
    for o in 0..=255u8 {
        assert_eq!(blend(255, o, 255), 255);
    }
}

#[test]
fn draw_clips_and_skips_rows() {
    let mut img = Image::filled(4, 2, rgb(0, 0, 0));
    let rows = vec![Row::new(-3, 1, 0), Row::new(0, 3, 5), Row::new(0, 3, -1), Row::new(6, 9, 1)];
    draw_rows(&mut img, &rows, rgb(255, 255, 255), 255);
    let white = rgb(255, 255, 255);
    let black = rgb(0, 0, 0);
    assert_eq!(img.pixels, vec![white, white, black, black, black, black, black, white]);
}

#[test]
fn draw_overlapping_rows_blends_twice() {
    let mut img = Image::filled(1, 1, rgb(0, 0, 0));
    let rows = vec![Row::new(0, 0, 0), Row::new(0, 0, 0)];
    draw_rows(&mut img, &rows, rgb(200, 200, 200), 128);
    // 0 -> 100 -> round((200 * 128 + 100 * 127) / 255) = 150
    assert_eq!(img.pixels[0], rgb(150, 150, 150));
}

#[test]
fn squared_error_identity_and_symmetry() {
    let a = image_of(2, 1, vec![rgb(1, 2, 3), rgb(40, 50, 60)]);
    let b = image_of(2, 1, vec![rgb(4, 0, 3), rgb(40, 52, 61)]);
    assert_eq!(squared_error(&a, &a), 0);
    assert_eq!(squared_error(&a, &b), 9 + 4 + 0 + 0 + 4 + 1);
    assert_eq!(squared_error(&a, &b), squared_error(&b, &a));
}

#[test]
fn white_against_black_is_255() {
    let target = Image::filled(4, 4, rgb(0, 0, 0));
    let canvas = Image::filled(4, 4, rgb(255, 255, 255));
    let sum = squared_error(&canvas, &target);
    assert_eq!(sum, 16 * 3 * 255 * 255);
    assert_eq!(rms(sum, 16), 255.0);
}

#[test]
fn end_to_end_full_cover_reaches_target() {
    let target = Image::filled(4, 4, rgb(0, 0, 0));
    let mut canvas = Image::filled(4, 4, rgb(255, 255, 255));
    assert_eq!(rms(squared_error(&canvas, &target), 16), 255.0);
    let e = Ellipse::new(2, 2, 3, 3, 255);
    assert_eq!(e.best_color(&canvas, &target), rgb(0, 0, 0));
    assert_eq!(e.error(&canvas, &target), 0);
    e.draw_best_color(&mut canvas, &target);
    assert_eq!(canvas.pixels, target.pixels);
    assert_eq!(squared_error(&canvas, &target), 0);
    assert_eq!(rms(0, 16), 0.0);
}

#[test]
fn best_color_is_mean_required_color() {
    let source = Image::filled(4, 4, rgb(0, 0, 0));
    let target = Image::filled(4, 4, rgb(100, 100, 80));
    let rows = Row::full_image(4, 4);
    // 255 * 100 / 128 = 199.2 and 255 * 80 / 128 = 159.4
    assert_eq!(best_color_in_rows(&rows, 128, &source, &target), rgb(199, 199, 159));
}

#[test]
fn best_color_clamps_both_ways() {
    let source = image_of(2, 1, vec![rgb(0, 255, 10), rgb(0, 255, 10)]);
    let target = image_of(2, 1, vec![rgb(255, 0, 10), rgb(255, 0, 10)]);
    let rows = Row::full_image(2, 1);
    assert_eq!(best_color_in_rows(&rows, 64, &source, &target), rgb(255, 0, 10));
}

#[test]
fn best_color_round_trip_one_pixel() {
    for &alpha in &[1u8, 37, 128, 200, 255] {
        for &c in &[0u8, 17, 128, 254, 255] {
            for &s in &[0u8, 90, 255] {
                let source = image_of(1, 1, vec![rgb(s, s, s)]);
                let t = blend(c, s, alpha);
                let target = image_of(1, 1, vec![rgb(t, t, t)]);
                let r = best_color_in_rows(&vec![Row::new(0, 0, 0)], alpha, &source, &target).r;
                let diff = (r as i64 - c as i64).abs();
                assert!(2 * alpha as i64 * diff <= alpha as i64 + 254);
                if alpha == 255 {
                    assert_eq!(r, c);
                }
            }
        }
    }
}

#[test]
fn best_color_ignores_rows_off_the_image() {
    let source = image_of(2, 1, vec![rgb(0, 0, 0), rgb(0, 0, 0)]);
    let target = image_of(2, 1, vec![rgb(255, 255, 255), rgb(0, 0, 0)]);
    let rows = vec![Row::new(0, 0, 0), Row::new(0, 1, 3)];
    assert_eq!(best_color_in_rows(&rows, 255, &source, &target), rgb(255, 255, 255));
}

#[test]
fn best_color_in_shape_uses_rows() {
    let source = Image::filled(4, 4, rgb(0, 0, 0));
    let target = Image::filled(4, 4, rgb(100, 100, 80));
    let e = Ellipse::new(2, 2, 3, 3, 128);
    assert_eq!(best_color_in_shape(&e, 128, &source, &target), rgb(199, 199, 159));
    assert_eq!(best_color_in_shape(&e, 255, &source, &target), rgb(100, 100, 80));
}

#[test]
fn average_image_color_rounds_down() {
    let img = image_of(2, 1, vec![rgb(0, 10, 255), rgb(3, 11, 254)]);
    assert_eq!(average_image_color(&img), rgb(1, 10, 254));
}

#[test]
fn average_color_in_lines_rounds() {
    let img = image_of(3, 1, vec![rgb(0, 10, 255), rgb(3, 11, 254), rgb(100, 100, 100)]);
    let rows = vec![Row::new(0, 1, 0)];
    assert_eq!(average_color_in_lines(&rows, &img), rgb(2, 11, 255));
    assert_eq!(average_color_in_lines(&vec![Row::new(0, 1, 9)], &img), rgb(0, 0, 0));
}

#[test]
fn partial_error_tracks_change() {
    let target = image_of(2, 1, vec![rgb(10, 10, 10), rgb(0, 0, 0)]);
    let before = image_of(2, 1, vec![rgb(0, 0, 0), rgb(0, 0, 0)]);
    let after = image_of(2, 1, vec![rgb(10, 10, 10), rgb(1, 0, 0)]);
    let e = squared_error(&before, &target);
    assert_eq!(e, 300);
    assert_eq!(partial_square_error(e, &before, &after, &target), 1);
    assert_eq!(partial_square_error(e + 5, &before, &after, &target), 6);
}
