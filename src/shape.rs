use vstd::prelude::*;

pub mod ellipse;
pub mod row;

pub use ellipse::Ellipse;
pub use row::Row;

use crate::random::RandomSource;

verus! {

/// A shape that covers a list of rows of pixels.
pub trait Rasterizable {
    /// The rows that the shape covers.
    spec fn spans(&self) -> Seq<Row>;

    /// The rows that the shape covers, as last computed.
    fn rasterize(&self) -> (r: Vec<Row>)
        ensures
            r@ == self.spans(),
    ;

    /// The rows that the shape covers, computed afresh from its parameters.
    fn new_raster(&self) -> (r: Vec<Row>)
        ensures
            r@ == self.spans(),
    ;
}

/// The kinds of shape that a search can place.
#[derive(Clone, Copy, Debug, PartialEq, Eq, Structural)]
pub enum ShapeKind {
    Ellipse,
}

impl ShapeKind {
    /// A random shape of this kind that lies within a `width` by `height` image.
    pub fn random<R: RandomSource>(&self, dimensions: (u32, u32), rng: &mut R) -> (r: Ellipse)
        requires
            1 <= dimensions.0 <= crate::raster::MAX_SIDE,
            1 <= dimensions.1 <= crate::raster::MAX_SIDE,
        ensures
            ellipse::placeable(r@, dimensions.0 as int, dimensions.1 as int),
            r@.alpha == ellipse::DEFAULT_ALPHA,
    {
        match self {
            ShapeKind::Ellipse => Ellipse::random(dimensions, rng),
        }
    }
}

} // verus!
