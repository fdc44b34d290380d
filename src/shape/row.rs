use vstd::prelude::*;

verus! {

/// A horizontal run of pixels: every `(x, y)` with `x1 <= x <= x2`.
/// Rows are compared by `y` alone, so that they can be grouped by line.
#[derive(Clone, Copy, Debug, Eq)]
pub struct Row {
    pub x1: i32,
    pub x2: i32,
    pub y: i32,
}

impl Row {
    pub fn new(x1: i32, x2: i32, y: i32) -> (r: Row)
        ensures
            r.x1 == x1,
            r.x2 == x2,
            r.y == y,
    {
        Row { x1, x2, y }
    }

    /// One row per line of a `width` by `height` image, each spanning the
    /// whole line, from the top line down.
    pub fn full_image(width: u32, height: u32) -> (r: Vec<Row>)
        requires
            width <= i32::MAX,
            height <= i32::MAX,
        ensures
            r@.len() == height,
            forall|i: int|
                0 <= i < height ==> #[trigger] r@[i] == (Row { x1: 0, x2: (width - 1) as i32, y: i as i32 }),
    {
        let (w, h) = (width as i32, height as i32);
        let mut rows: Vec<Row> = Vec::new();
        let mut y: i32 = 0;
        while y < h
            invariant
                0 <= y <= h,
                h == height,
                w == width,
                rows@.len() == y,
                forall|i: int|
                    0 <= i < y ==> #[trigger] rows@[i] == (Row { x1: 0, x2: (width - 1) as i32, y: i as i32 }),
            decreases h - y,
        {
            rows.push(Row::new(0, w - 1, y));
            y = y + 1;
        }
        rows
    }

    /// The three coordinates `(x1, x2, y)`.
    pub fn parts(self) -> (r: (i32, i32, i32))
        ensures
            r == (self.x1, self.x2, self.y),
    {
        (self.x1, self.x2, self.y)
    }
}

impl From<Row> for (i32, i32, i32) {
    fn from(row: Row) -> (r: (i32, i32, i32)) {
        (row.x1, row.x2, row.y)
    }
}

impl vstd::std_specs::convert::FromSpecImpl<Row> for (i32, i32, i32) {
    open spec fn obeys_from_spec() -> bool {
        true
    }

    open spec fn from_spec(row: Row) -> (i32, i32, i32) {
        (row.x1, row.x2, row.y)
    }
}

impl PartialEq for Row {
    fn eq(&self, other: &Row) -> (r: bool) {
        self.y == other.y
    }
}

impl vstd::std_specs::cmp::PartialEqSpecImpl for Row {
    open spec fn obeys_eq_spec() -> bool {
        true
    }

    open spec fn eq_spec(&self, other: &Row) -> bool {
        self.y == other.y
    }
}

impl PartialOrd for Row {
    fn partial_cmp(&self, other: &Row) -> (r: Option<core::cmp::Ordering>) {
        if self.y < other.y {
            Some(core::cmp::Ordering::Less)
        } else if self.y > other.y {
            Some(core::cmp::Ordering::Greater)
        } else {
            Some(core::cmp::Ordering::Equal)
        }
    }
}

impl vstd::std_specs::cmp::PartialOrdSpecImpl for Row {
    open spec fn obeys_partial_cmp_spec() -> bool {
        true
    }

    open spec fn partial_cmp_spec(&self, other: &Row) -> Option<core::cmp::Ordering> {
        if self.y < other.y {
            Some(core::cmp::Ordering::Less)
        } else if self.y > other.y {
            Some(core::cmp::Ordering::Greater)
        } else {
            Some(core::cmp::Ordering::Equal)
        }
    }
}

} // verus!
