use vstd::prelude::*;

verus! {

/// Largest width or height of an image, so that every coordinate, and a
/// coordinate plus or minus a radius below it, fits in an `i32`.
pub const MAX_SIDE: u32 = 0x4000_0000;

/// Largest number of pixels of an image.
pub const MAX_PIXELS: u64 = 0x1_0000_0000;

/// One pixel: three 8-bit channels.
#[derive(Clone, Copy, Debug, PartialEq, Eq, Structural)]
pub struct Rgb {
    pub r: u8,
    pub g: u8,
    pub b: u8,
}

/// Channel `c` of a pixel: 0 is red, 1 green, anything else blue.
pub open spec fn channel(p: Rgb, c: int) -> int {
    if c == 0 {
        p.r as int
    } else if c == 1 {
        p.g as int
    } else {
        p.b as int
    }
}

/// A raster image stored row by row: pixel `(x, y)` is `pixels[y * width + x]`.
#[derive(Debug)]
pub struct Image {
    pub width: u32,
    pub height: u32,
    pub pixels: Vec<Rgb>,
}

/// Sizes that an image may have.
pub open spec fn valid_size(width: int, height: int) -> bool {
    &&& 0 <= width <= MAX_SIDE
    &&& 0 <= height <= MAX_SIDE
    &&& width * height <= MAX_PIXELS
}

impl Image {
    /// The pixel buffer holds exactly one pixel per position.
    pub open spec fn wf(&self) -> bool {
        &&& valid_size(self.width as int, self.height as int)
        &&& self.pixels@.len() == self.width * self.height
    }

    /// The two images have the same width and height.
    pub open spec fn same_size(&self, other: &Image) -> bool {
        self.width == other.width && self.height == other.height
    }

    /// An image of the given size with every pixel set to `color`.
    pub fn filled(width: u32, height: u32, color: Rgb) -> (r: Image)
        requires
            valid_size(width as int, height as int),
        ensures
            r.wf(),
            r.width == width,
            r.height == height,
            forall|i: int| 0 <= i < r.pixels@.len() ==> r.pixels@[i] == color,
    {
        let n: u64 = width as u64 * height as u64;
        let mut pixels: Vec<Rgb> = Vec::new();
        let mut i: u64 = 0;
        while i < n
            invariant
                n == width * height,
                n <= MAX_PIXELS,
                i <= n,
                pixels@.len() == i,
                forall|j: int| 0 <= j < pixels@.len() ==> pixels@[j] == color,
            decreases n - i,
        {
            pixels.push(color);
            i = i + 1;
        }
        Image { width, height, pixels }
    }

    /// A separate image with the same size and pixels.
    pub fn copy(&self) -> (r: Image)
        ensures
            r.width == self.width,
            r.height == self.height,
            r.pixels@ == self.pixels@,
    {
        let pixels = self.pixels.clone();
        assert(pixels@ =~= self.pixels@);
        Image { width: self.width, height: self.height, pixels }
    }

    /// The width and the height.
    pub fn dimensions(&self) -> (r: (u32, u32))
        ensures
            r == (self.width, self.height),
    {
        (self.width, self.height)
    }

    /// The pixel at column `x` of row `y`.
    pub fn get_pixel(&self, x: u32, y: u32) -> (r: Rgb)
        requires
            self.wf(),
            x < self.width,
            y < self.height,
        ensures
            r == self.pixels@[y * self.width + x],
    {
        proof {
            lemma_pixel_index(x as int, y as int, self.width as int, self.height as int);
        }
        self.pixels[(y as u64 * self.width as u64 + x as u64) as usize]
    }
}

/// A position inside a `width` by `height` image has its index inside the buffer.
pub proof fn lemma_pixel_index(x: int, y: int, width: int, height: int)
    requires
        0 <= x < width,
        0 <= y < height,
    ensures
        0 <= y * width + x < width * height,
        y * width + x <= y * width + width - 1,
        y * width + width <= width * height,
{
    assert(y * width + width <= width * height) by (nonlinear_arith)
        requires
            0 <= y < height,
            0 <= width,
    ;
    assert(0 <= y * width) by (nonlinear_arith)
        requires
            0 <= y,
            0 <= width,
    ;
}

} // verus!
