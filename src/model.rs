use vstd::prelude::*;

use crate::color::{average_image_color, average_image_spec, best_color_spec};
use crate::metric::{squared_error, squared_error_spec};
use crate::optimize::{best_random_hill_climb, searchable};
use crate::paint::paint_rows;
use crate::random::RandomSource;
use crate::raster::{Image, Rgb};
use crate::shape::ellipse::{ellipse_rows, fit_error, placeable};
use crate::shape::{Ellipse, ShapeKind};

verus! {

/// A session: the image being built, the image it approximates, and the
/// shapes committed so far with the error after each.
pub struct Model {
    /// The mean colour of the target, which the canvas started from.
    pub background: Rgb,
    /// The canvas, one committed shape after another.
    pub current_img: Image,
    /// The image to approximate.
    pub target_img: Image,
    /// Width and height of both images.
    pub size: (u32, u32),
    /// The committed shapes, in order.
    pub shapes: Vec<Ellipse>,
    /// The squared error of the blank canvas, then the error after each commit.
    pub errors: Vec<u64>,
}

impl Model {
    /// Both images have one size; there is one error more than shapes; the
    /// last error is that of the canvas as it stands.
    pub open spec fn wf(&self) -> bool {
        &&& searchable(&self.current_img, &self.target_img)
        &&& self.size == (self.target_img.width, self.target_img.height)
        &&& self.errors@.len() == self.shapes@.len() + 1
        &&& self.errors@.last() == squared_error_spec(self.current_img.pixels@, self.target_img.pixels@)
    }

    /// A session on `target`: the canvas is filled with the target's mean
    /// colour, no shape is committed, and the one error is the canvas's.
    pub fn new(target: Image) -> (r: Model)
        requires
            target.wf(),
            target.width >= 1,
            target.height >= 1,
        ensures
            r.wf(),
            r.target_img == target,
            r.background == average_image_spec(target),
            r.current_img.width == target.width,
            r.current_img.height == target.height,
            forall|i: int|
                0 <= i < r.current_img.pixels@.len() ==> r.current_img.pixels@[i] == r.background,
            r.shapes@.len() == 0,
    {
        proof {
            assert(target.pixels@.len() > 0) by (nonlinear_arith)
                requires
                    target.pixels@.len() == target.width * target.height,
                    target.width >= 1,
                    target.height >= 1,
            ;
        }
        let size = target.dimensions();
        let background = average_image_color(&target);
        let current_img = Image::filled(size.0, size.1, background);
        let error = squared_error(&current_img, &target);
        let shapes: Vec<Ellipse> = Vec::new();
        let mut errors: Vec<u64> = Vec::new();
        errors.push(error);
        Model { background, current_img, target_img: target, size, shapes, errors }
    }

    /// Finds the next shape by `best_random_hill_climb`, paints it onto the
    /// canvas in its best colour, and appends it and the canvas's new error.
    pub fn step<R: RandomSource>(
        &mut self,
        kind: &ShapeKind,
        num_climbs: u32,
        max_age: u32,
        num_rand: u32,
        rng: &mut R,
    )
        requires
            old(self).wf(),
        ensures
            final(self).wf(),
            final(self).target_img == old(self).target_img,
            final(self).background == old(self).background,
            final(self).shapes@.len() == old(self).shapes@.len() + 1,
            final(self).errors@ == old(self).errors@.push(final(self).errors@.last()),
            forall|i: int|
                0 <= i < old(self).shapes@.len() ==> #[trigger] final(self).shapes@[i]@ == old(
                    self,
                ).shapes@[i]@,
            ({
                let shape = final(self).shapes@.last()@;
                let (cur, tgt) = (old(self).current_img, old(self).target_img);
                &&& placeable(shape, cur.width as int, cur.height as int)
                &&& final(self).errors@.last() == fit_error(shape, cur, tgt)
                &&& final(self).current_img.pixels@ == paint_rows(
                    cur.pixels@,
                    cur.width as int,
                    cur.height as int,
                    ellipse_rows(shape),
                    best_color_spec(ellipse_rows(shape), shape.alpha, cur, tgt),
                    shape.alpha,
                )
            }),
    {
        let (shape, error) = self.next_shape(kind, num_climbs, max_age, num_rand, rng);
        shape.draw_best_color(&mut self.current_img, &self.target_img);
        self.shapes.push(shape);
        self.errors.push(error);
    }

    fn next_shape<R: RandomSource>(
        &self,
        kind: &ShapeKind,
        num_climbs: u32,
        max_age: u32,
        num_rand: u32,
        rng: &mut R,
    ) -> (r: (Ellipse, u64))
        requires
            self.wf(),
        ensures
            placeable(r.0@, self.current_img.width as int, self.current_img.height as int),
            r.1 == fit_error(r.0@, self.current_img, self.target_img),
    {
        best_random_hill_climb(kind, num_climbs, max_age, num_rand, &self.current_img, &self.target_img, rng)
    }

    /// The canvas as it stands.
    pub fn current_img(&self) -> (r: &Image)
        ensures
            r == &self.current_img,
    {
        &self.current_img
    }
}

} // verus!
