use shapefit::error::Error;
use shapefit::metric::squared_error;
use shapefit::model::Model;
use shapefit::optimize::{best_hill_climb, best_random_hill_climb, best_random_shape, climb_step, hill_climb};
use shapefit::random::RandomSource;
use shapefit::raster::{Image, Rgb};
use shapefit::shape::{Ellipse, Rasterizable, ShapeKind};

/// Replays fixed values in a cycle.
struct Script {
    values: Vec<u32>,
    steps: Vec<i32>,
    i: usize,
    j: usize,
}

impl Script {
    fn new(values: Vec<u32>, steps: Vec<i32>) -> Script {
        Script { values, steps, i: 0, j: 0 }
    }
}

impl RandomSource for Script {
    fn below(&mut self, bound: u32) -> u32 {
        let v = self.values[self.i % self.values.len()];
        self.i += 1;
        v % bound
    }

    fn gaussian(&mut self, _scale: u32) -> i32 {
        let v = self.steps[self.j % self.steps.len()];
        self.j += 1;
        v
    }
}

fn rgb(r: u8, g: u8, b: u8) -> Rgb {
    Rgb { r, g, b }
}

fn gradient(width: u32, height: u32) -> Image {
    let mut pixels = Vec::new();
    for y in 0..height {
        for x in 0..width {
            pixels.push(rgb((x * 20) as u8, (y * 20) as u8, ((x + y) * 10) as u8));
        }
    }
    Image { width, height, pixels }
}

#[test]
fn random_ellipse_lies_in_image() {
    let mut rng = Script::new(vec![3, 99, 7, 12], vec![0]);
    let e = Ellipse::random((10, 8), &mut rng);
    assert_eq!((e.x(), e.y(), e.x_radius(), e.y_radius(), e.alpha()), (3, 3, 7, 4, 128));
    let k = ShapeKind::Ellipse.random((10, 8), &mut rng);
    assert_eq!((k.x(), k.y(), k.x_radius(), k.y_radius()), (3, 3, 7, 4));
}

#[test]
fn mutate_applies_drawn_step() {
    let mut rng = Script::new(vec![2], vec![-3]);
    let mut e = Ellipse::new(5, 5, 4, 2, 128);
    e.mutate((10, 8), &mut rng);
    assert_eq!((e.x(), e.y(), e.x_radius(), e.y_radius()), (5, 5, 1, 2));
    let mut rng = Script::new(vec![3], vec![-30]);
    e.mutate((10, 8), &mut rng);
    assert_eq!((e.x(), e.y(), e.x_radius(), e.y_radius()), (5, 5, 1, 0));
    assert_eq!(e.rasterize().len(), 1);
}

#[test]
fn single_random_shape_keeps_its_error() {
    let source = Image::filled(6, 5, rgb(128, 128, 128));
    let target = gradient(6, 5);
    let mut rng = Script::new(vec![2, 3, 1, 4], vec![0]);
    let (shape, error) = best_random_shape(&ShapeKind::Ellipse, 1, &source, &target, &mut rng);
    assert_eq!((shape.x(), shape.y(), shape.x_radius(), shape.y_radius()), (2, 3, 1, 4));
    assert_eq!(error, shape.error(&source, &target));
}

#[test]
fn random_search_keeps_lowest() {
    let source = Image::filled(6, 5, rgb(128, 128, 128));
    let target = gradient(6, 5);
    let mut rng = Script::new(vec![2, 3, 1, 4, 0, 0, 5, 4, 5, 4, 0, 0], vec![0]);
    let (shape, error) = best_random_shape(&ShapeKind::Ellipse, 3, &source, &target, &mut rng);
    let a = Ellipse::new(2, 3, 1, 4, 128).error(&source, &target);
    let b = Ellipse::new(0, 0, 5, 4, 128).error(&source, &target);
    let c = Ellipse::new(5, 4, 0, 0, 128).error(&source, &target);
    assert_eq!(error, a.min(b).min(c));
    assert_eq!(error, shape.error(&source, &target));
}

#[test]
fn climb_step_accepts_only_improvement() {
    let source = Image::filled(6, 5, rgb(255, 255, 255));
    let target = Image::filled(6, 5, rgb(0, 0, 0));
    let mut shape = Ellipse::new(0, 0, 0, 0, 128);
    let mut error = shape.error(&source, &target);
    // grow the horizontal radius: more pixels darkened, lower error
    let mut rng = Script::new(vec![2], vec![2]);
    let before = error;
    assert!(climb_step(&mut shape, &mut error, &source, &target, &mut rng));
    assert!(error < before);
    assert_eq!(shape.x_radius(), 2);
    assert_eq!(error, shape.error(&source, &target));
    // shrinking it back is rejected
    let mut rng = Script::new(vec![2], vec![-2]);
    let before = error;
    assert!(!climb_step(&mut shape, &mut error, &source, &target, &mut rng));
    assert_eq!(error, before);
    assert_eq!(shape.x_radius(), 2);
}

#[test]
fn hill_climb_never_raises_error() {
    let source = Image::filled(6, 5, rgb(255, 255, 255));
    let target = Image::filled(6, 5, rgb(0, 0, 0));
    let init = Ellipse::new(2, 2, 0, 0, 128);
    let init_error = init.error(&source, &target);
    let mut rng = Script::new(vec![2, 3, 0, 1], vec![1, 2, -1, 3]);
    let (shape, error) = hill_climb(init, init_error, 10, &source, &target, &mut rng);
    assert!(error < init_error);
    assert_eq!(error, shape.error(&source, &target));
}

#[test]
fn hill_climb_with_zero_age_returns_start() {
    let source = Image::filled(6, 5, rgb(255, 255, 255));
    let target = Image::filled(6, 5, rgb(0, 0, 0));
    let init = Ellipse::new(2, 2, 1, 1, 128);
    let mut rng = Script::new(vec![2], vec![1]);
    let (shape, error) = hill_climb(init, 77, 0, &source, &target, &mut rng);
    assert_eq!(error, 77);
    assert_eq!((shape.x(), shape.y(), shape.x_radius(), shape.y_radius()), (2, 2, 1, 1));
}

#[test]
fn best_hill_climb_improves_on_start() {
    let source = Image::filled(6, 5, rgb(255, 255, 255));
    let target = Image::filled(6, 5, rgb(0, 0, 0));
    let init = Ellipse::new(2, 2, 0, 0, 128);
    let init_error = init.error(&source, &target);
    let mut rng = Script::new(vec![2, 3], vec![1, 1, -1]);
    let (shape, error) = best_hill_climb(init, init_error, 3, 5, &source, &target, &mut rng);
    assert!(error < init_error);
    assert_eq!(error, shape.error(&source, &target));
}

#[test]
fn restarts_return_fit_error() {
    let source = Image::filled(6, 5, rgb(128, 128, 128));
    let target = gradient(6, 5);
    let mut rng = Script::new(vec![2, 3, 1, 4, 5, 0, 3, 2, 1], vec![1, -2, 3]);
    let (shape, error) = best_random_hill_climb(&ShapeKind::Ellipse, 3, 6, 4, &source, &target, &mut rng);
    assert_eq!(error, shape.error(&source, &target));
    assert_eq!(shape.alpha(), 128);
}

#[test]
fn model_starts_from_mean_colour() {
    let target = Image { width: 2, height: 1, pixels: vec![rgb(0, 10, 20), rgb(4, 11, 20)] };
    let model = Model::new(target.copy());
    assert_eq!(model.background, rgb(2, 10, 20));
    assert_eq!(model.size, (2, 1));
    assert_eq!(model.current_img().pixels, vec![rgb(2, 10, 20), rgb(2, 10, 20)]);
    assert_eq!(model.errors, vec![squared_error(model.current_img(), &target)]);
    assert!(model.shapes.is_empty());
}

#[test]
fn model_step_commits_one_shape() {
    let target = gradient(6, 5);
    let mut model = Model::new(target.copy());
    let mut rng = Script::new(vec![1, 2, 3, 4, 0, 5, 2], vec![1, -1, 2]);
    for n in 1..4 {
        let before = model.current_img().copy();
        model.step(&ShapeKind::Ellipse, 2, 5, 3, &mut rng);
        assert_eq!(model.shapes.len(), n);
        assert_eq!(model.errors.len(), n + 1);
        let last = *model.errors.last().unwrap();
        assert_eq!(last, squared_error(model.current_img(), &target));
        assert_eq!(last, model.shapes[n - 1].error(&before, &target));
    }
}

#[test]
fn error_messages() {
    assert_eq!(Error::ModelError.message(), "Model Error");
    assert_eq!(Error::WriteError.message(), "Write Error");
}
