use vstd::prelude::*;

use crate::random::RandomSource;
use crate::raster::Image;
use crate::shape::ellipse::{fit_error, mutation, placeable, DEFAULT_ALPHA};
use crate::shape::{Ellipse, ShapeKind};

verus! {

/// Source and target can be searched on: well formed, of one size, not empty.
pub open spec fn searchable(source: &Image, target: &Image) -> bool {
    &&& source.wf()
    &&& target.wf()
    &&& source.same_size(target)
    &&& source.width >= 1
    &&& source.height >= 1
}

/// Draws `num_rand` random shapes (at least one) and keeps the one with the
/// lowest fit error, the first of equals. Returns it with its fit error.
pub fn best_random_shape<R: RandomSource>(
    kind: &ShapeKind,
    num_rand: u32,
    source: &Image,
    target: &Image,
    rng: &mut R,
) -> (r: (Ellipse, u64))
    requires
        searchable(source, target),
    ensures
        placeable(r.0@, source.width as int, source.height as int),
        r.0@.alpha == DEFAULT_ALPHA,
        r.1 == fit_error(r.0@, *source, *target),
{
    let dimensions = source.dimensions();
    let mut shape = kind.random(dimensions, rng);
    let mut error = shape.error(source, target);
    let mut i: u32 = 1;
    while i < num_rand
        invariant
            searchable(source, target),
            dimensions == (source.width, source.height),
            placeable(shape@, source.width as int, source.height as int),
            shape@.alpha == DEFAULT_ALPHA,
            error == fit_error(shape@, *source, *target),
        decreases num_rand - i,
    {
        let new_shape = kind.random(dimensions, rng);
        let new_error = new_shape.error(source, target);
        if new_error < error {
            shape = new_shape;
            error = new_error;
        }
        i = i + 1;
    }
    (shape, error)
}

/// One step of hill climbing: a copy of `shape` gets one random mutation and
/// replaces `shape` only if its fit error is strictly below `error`. Returns
/// whether it did. An accepted step thus always lowers the error.
pub fn climb_step<R: RandomSource>(
    shape: &mut Ellipse,
    error: &mut u64,
    source: &Image,
    target: &Image,
    rng: &mut R,
) -> (accepted: bool)
    requires
        searchable(source, target),
        placeable(old(shape)@, source.width as int, source.height as int),
    ensures
        placeable(final(shape)@, source.width as int, source.height as int),
        accepted ==> *final(error) < *old(error),
        accepted ==> *final(error) == fit_error(final(shape)@, *source, *target),
        accepted ==> exists|choice: int, delta: int|
            final(shape)@ == mutation(
                old(shape)@,
                source.width as int,
                source.height as int,
                choice,
                delta,
            ),
        !accepted ==> final(shape)@ == old(shape)@ && *final(error) == *old(error),
{
    let mut candidate = shape.copy();
    candidate.mutate(source.dimensions(), rng);
    let candidate_error = candidate.error(source, target);
    if candidate_error < *error {
        *shape = candidate;
        *error = candidate_error;
        true
    } else {
        false
    }
}

/// Hill climbing from `init_shape`, whose error is taken to be `init_error`:
/// repeats `climb_step`, counting the rejected steps since the last accepted
/// one, and stops when that count reaches `max_age`. The result is the
/// starting shape and error where no step was accepted, else the last
/// accepted shape with its fit error, which is below `init_error`.
pub fn hill_climb<R: RandomSource>(
    init_shape: Ellipse,
    init_error: u64,
    max_age: u32,
    source: &Image,
    target: &Image,
    rng: &mut R,
) -> (r: (Ellipse, u64))
    requires
        searchable(source, target),
        placeable(init_shape@, source.width as int, source.height as int),
    ensures
        placeable(r.0@, source.width as int, source.height as int),
        r.0@.alpha == init_shape@.alpha,
        r.1 <= init_error,
        (r.0@ == init_shape@ && r.1 == init_error) || (r.1 < init_error && r.1 == fit_error(
            r.0@,
            *source,
            *target,
        )),
{
    let ghost start = init_shape@;
    let mut shape = init_shape;
    let mut error = init_error;
    let mut age: u32 = 0;
    while age < max_age
        invariant
            searchable(source, target),
            placeable(shape@, source.width as int, source.height as int),
            shape@.alpha == start.alpha,
            error <= init_error,
            (shape@ == start && error == init_error) || (error < init_error && error == fit_error(
                shape@,
                *source,
                *target,
            )),
        decreases error, max_age - age,
    {
        let ghost before = shape@;
        if climb_step(&mut shape, &mut error, source, target, rng) {
            proof {
                let (c, d) = choose|c: int, d: int|
                    shape@ == mutation(before, source.width as int, source.height as int, c, d);
                assert(shape@.alpha == before.alpha);
            }
            age = 0;
        } else {
            age = age + 1;
        }
    }
    (shape, error)
}

/// Runs `num_climbs` hill climbs, each from `init_shape` and `init_error`,
/// and keeps the result with the lowest error, the first of equals; the
/// starting shape where none went below `init_error`.
pub fn best_hill_climb<R: RandomSource>(
    init_shape: Ellipse,
    init_error: u64,
    num_climbs: u32,
    max_age: u32,
    source: &Image,
    target: &Image,
    rng: &mut R,
) -> (r: (Ellipse, u64))
    requires
        searchable(source, target),
        placeable(init_shape@, source.width as int, source.height as int),
    ensures
        placeable(r.0@, source.width as int, source.height as int),
        r.1 <= init_error,
        (r.0@ == init_shape@ && r.1 == init_error) || (r.1 < init_error && r.1 == fit_error(
            r.0@,
            *source,
            *target,
        )),
{
    let mut shape = init_shape.copy();
    let mut error = init_error;
    let mut i: u32 = 0;
    while i < num_climbs
        invariant
            searchable(source, target),
            placeable(init_shape@, source.width as int, source.height as int),
            placeable(shape@, source.width as int, source.height as int),
            error <= init_error,
            (shape@ == init_shape@ && error == init_error) || (error < init_error && error == fit_error(
                shape@,
                *source,
                *target,
            )),
        decreases num_climbs - i,
    {
        let (new_shape, new_error) = hill_climb(init_shape.copy(), init_error, max_age, source, target, rng);
        if new_error < error {
            shape = new_shape;
            error = new_error;
        }
        i = i + 1;
    }
    (shape, error)
}

/// Multi-restart search: `num_climbs` times (at least once), a random search
/// over `num_rand` shapes followed by a hill climb from its winner; keeps the
/// result with the lowest fit error, the first of equals. Each restart starts
/// from its own random search.
pub fn best_random_hill_climb<R: RandomSource>(
    kind: &ShapeKind,
    num_climbs: u32,
    max_age: u32,
    num_rand: u32,
    source: &Image,
    target: &Image,
    rng: &mut R,
) -> (r: (Ellipse, u64))
    requires
        searchable(source, target),
    ensures
        placeable(r.0@, source.width as int, source.height as int),
        r.0@.alpha == DEFAULT_ALPHA,
        r.1 == fit_error(r.0@, *source, *target),
{
    let (init_shape, init_error) = best_random_shape(kind, num_rand, source, target, rng);
    let (mut shape, mut error) = hill_climb(init_shape, init_error, max_age, source, target, rng);
    let mut i: u32 = 1;
    while i < num_climbs
        invariant
            searchable(source, target),
            placeable(shape@, source.width as int, source.height as int),
            shape@.alpha == DEFAULT_ALPHA,
            error == fit_error(shape@, *source, *target),
        decreases num_climbs - i,
    {
        let (init_shape, init_error) = best_random_shape(kind, num_rand, source, target, rng);
        let (new_shape, new_error) = hill_climb(init_shape, init_error, max_age, source, target, rng);
        if new_error < error {
            shape = new_shape;
            error = new_error;
        }
        i = i + 1;
    }
    (shape, error)
}

} // verus!
