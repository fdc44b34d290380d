use shapefit::shape::{Ellipse, Rasterizable, Row};
use shapefit::util::clamp;

fn ys(rows: &[Row]) -> Vec<i32> {
    rows.iter().map(|r| r.y).collect()
}

#[test]
fn clamp_limits_to_range() {
    assert_eq!(clamp(-5, 0, 10), 0);
    assert_eq!(clamp(15, 0, 10), 10);
    assert_eq!(clamp(7, 0, 10), 7);
    assert_eq!(clamp(0, 0, 10), 0);
    assert_eq!(clamp(10, 0, 10), 10);
}

#[test]
fn row_new_and_parts() {
    let r = Row::new(1, 4, 7);
    assert_eq!((r.x1, r.x2, r.y), (1, 4, 7));
    assert_eq!(r.parts(), (1, 4, 7));
    let t: (i32, i32, i32) = r.into();
    assert_eq!(t, (1, 4, 7));
}

#[test]
fn rows_compare_by_line_only() {
    let a = Row::new(0, 3, 2);
    let b = Row::new(5, 9, 2);
    let c = Row::new(0, 3, 4);
    assert!(a == b);
    assert!(a != c);
    assert!(a < c);
    assert!(c > b);
}

#[test]
fn full_image_rows() {
    let rows = Row::full_image(5, 3);
    assert_eq!(rows.len(), 3);
    for (i, r) in rows.iter().enumerate() {
        assert_eq!((r.x1, r.x2, r.y), (0, 4, i as i32));
    }
    assert!(Row::full_image(5, 0).is_empty());
}

#[test]
fn span_count_is_two_b_minus_one() {
    for b in 1..12 {
        let e = Ellipse::new(50, 50, 7, b, 128);
        assert_eq!(e.rasterize().len(), (2 * b - 1) as usize);
        assert_eq!(e.new_raster().len(), (2 * b - 1) as usize);
    }
}

#[test]
fn zero_vertical_radius_gives_one_row() {
    let e = Ellipse::new(10, 20, 4, 0, 128);
    let rows = e.rasterize();
    assert_eq!(rows.len(), 1);
    assert_eq!(rows[0].parts(), (6, 14, 20));
}

#[test]
fn wide_flat_ellipse_row_count_ignores_width() {
    let e = Ellipse::new(0, 0, 100000, 2, 128);
    let rows = e.rasterize();
    assert_eq!(rows.len(), 3);
    assert_eq!(rows[0].parts(), (-100000, 100000, 0));
}

#[test]
fn ellipse_rows_in_order_centre_then_pairs() {
    let e = Ellipse::new(2, 2, 3, 3, 255);
    let rows = e.rasterize();
    assert_eq!(ys(&rows), vec![2, 1, 3, 0, 4]);
    // sqrt(9 - 1) = 2.83 rounds to 3, sqrt(9 - 4) = 2.24 rounds to 2
    assert_eq!(rows[0].parts(), (-1, 5, 2));
    assert_eq!(rows[1].parts(), (-1, 5, 1));
    assert_eq!(rows[2].parts(), (-1, 5, 3));
    assert_eq!(rows[3].parts(), (0, 4, 0));
    assert_eq!(rows[4].parts(), (0, 4, 4));
}

#[test]
fn ellipse_half_widths_scale_with_ratio() {
    // a / b = 2: offsets 3 and 4 give 2 * 4 = 8 and 2 * 3 = 6 exactly
    let e = Ellipse::new(0, 0, 10, 5, 128);
    let rows = e.rasterize();
    assert_eq!(rows.len(), 9);
    assert_eq!(rows[5].parts(), (-8, 8, -3));
    assert_eq!(rows[6].parts(), (-8, 8, 3));
    assert_eq!(rows[7].parts(), (-6, 6, -4));
    assert_eq!(rows[8].parts(), (-6, 6, 4));
    // offset 1: 2 * sqrt(24) = 9.80 rounds to 10
    assert_eq!(rows[1].parts(), (-10, 10, -1));
}

#[test]
fn rows_above_the_image_are_kept() {
    let e = Ellipse::new(0, 0, 2, 3, 128);
    let rows = e.rasterize();
    assert_eq!(rows.len(), 5);
    assert!(rows.iter().any(|r| r.y == -2));
}

#[test]
fn rasterize_matches_new_raster() {
    let e = Ellipse::new(40, 17, 13, 9, 90);
    let a: Vec<(i32, i32, i32)> = e.rasterize().iter().map(|r| r.parts()).collect();
    let b: Vec<(i32, i32, i32)> = e.new_raster().iter().map(|r| r.parts()).collect();
    assert_eq!(a, b);
}

#[test]
fn ellipse_accessors() {
    let e = Ellipse::new(3, 4, 5, 6, 7);
    assert_eq!((e.x(), e.y(), e.x_radius(), e.y_radius(), e.alpha()), (3, 4, 5, 6, 7));
    let c = e.copy();
    assert_eq!((c.x(), c.y(), c.x_radius(), c.y_radius(), c.alpha()), (3, 4, 5, 6, 7));
}

#[test]
fn mutation_moves_one_parameter_and_clamps() {
    let e = Ellipse::new(5, 5, 2, 2, 128);
    let m = e.mutated((10, 8), 0, 100);
    assert_eq!((m.x(), m.y(), m.x_radius(), m.y_radius()), (9, 5, 2, 2));
    let m = e.mutated((10, 8), 1, -100);
    assert_eq!((m.x(), m.y(), m.x_radius(), m.y_radius()), (5, 0, 2, 2));
    let m = e.mutated((10, 8), 2, 3);
    assert_eq!((m.x(), m.y(), m.x_radius(), m.y_radius()), (5, 5, 5, 2));
    let m = e.mutated((10, 8), 3, 9);
    assert_eq!((m.x(), m.y(), m.x_radius(), m.y_radius()), (5, 5, 2, 7));
    let m = e.mutated((10, 8), 4, 9);
    assert_eq!((m.x(), m.y(), m.x_radius(), m.y_radius()), (5, 5, 2, 2));
    assert_eq!(m.rasterize().len(), 3);
    let m = e.mutated((10, 8), 3, 9);
    assert_eq!(m.rasterize().len(), 13);
}
