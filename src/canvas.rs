//! A canvas of lit and blank pixels, with line and triangle outlines, and its
//! rendering into an RGBA frame.

use vstd::prelude::*;

verus! {

/// A point of the canvas's plane, in pixels.
pub type Point = (isize, isize);

/// The largest absolute coordinate a line may be drawn between.
pub const COORD_LIMIT: isize = 0x1000_0000;

/// Whether both coordinates of a point are within `COORD_LIMIT`.
pub open spec fn in_range(p: Point) -> bool {
    -COORD_LIMIT <= p.0 <= COORD_LIMIT && -COORD_LIMIT <= p.1 <= COORD_LIMIT
}

/// The points that Bresenham's algorithm yields from `start` towards `end`.
pub uninterp spec fn bresenham_points(start: Point, end: Point) -> Seq<Point>;

/// Relies on `bresenham::Bresenham`: the points of the line from `start` to
/// `end`, the first of which is `start`, and none at all when the two are
/// equal. Coordinates within `COORD_LIMIT` keep its arithmetic from
/// overflowing.
#[verifier::external_body]
fn bresenham_line(start: Point, end: Point) -> (r: Vec<Point>)
    requires
        in_range(start),
        in_range(end),
    ensures
        r@ == bresenham_points(start, end),
        start == end ==> r@.len() == 0,
        start != end ==> r@.len() > 0 && r@[0] == start,
{
    bresenham::Bresenham::new(start, end).collect()
}

/// Whether one of `points` is the pixel `(x, y)`.
pub open spec fn covers(points: Seq<Point>, x: int, y: int) -> bool {
    exists|i: int| 0 <= i < points.len() && points[i].0 == x && points[i].1 == y
}

/// The pixels of the line from `start` to `end`: Bresenham's points, and `end`.
pub open spec fn on_line(start: Point, end: Point, x: int, y: int) -> bool {
    covers(bresenham_points(start, end), x, y) || (end.0 == x && end.1 == y)
}

/// Twice the signed area of the triangle `a`, `b`, `(x, y)`: positive when
/// `(x, y)` lies to the left of the edge from `a` to `b`.
pub open spec fn edge(a: Point, b: Point, x: int, y: int) -> int {
    (b.0 - a.0) * (y - a.1) - (b.1 - a.1) * (x - a.0)
}

/// The least of three integers.
pub open spec fn min3(a: int, b: int, c: int) -> int {
    if a <= b && a <= c {
        a
    } else if b <= c {
        b
    } else {
        c
    }
}

/// The greatest of three integers.
pub open spec fn max3(a: int, b: int, c: int) -> int {
    if a >= b && a >= c {
        a
    } else if b >= c {
        b
    } else {
        c
    }
}

/// Whether the pixel `(x, y)` lies in the triangle `a`, `b`, `c`, edges
/// included: within its bounding box, and on the same side of its three
/// edges. A triangle of no area covers the segment between its corners.
pub open spec fn in_triangle(a: Point, b: Point, c: Point, x: int, y: int) -> bool {
    &&& min3(a.0 as int, b.0 as int, c.0 as int) <= x <= max3(a.0 as int, b.0 as int, c.0 as int)
    &&& min3(a.1 as int, b.1 as int, c.1 as int) <= y <= max3(a.1 as int, b.1 as int, c.1 as int)
    &&& {
        ||| edge(a, b, x, y) >= 0 && edge(b, c, x, y) >= 0 && edge(c, a, x, y) >= 0
        ||| edge(a, b, x, y) <= 0 && edge(b, c, x, y) <= 0 && edge(c, a, x, y) <= 0
    }
}

/// `edge(a, b, x, y)`, for a pixel `(x, y)` of a canvas.
fn edge_at(a: Point, b: Point, x: usize, y: usize) -> (r: i128)
    requires
        in_range(a),
        in_range(b),
    ensures
        r == edge(a, b, x as int, y as int),
{
    let dx = b.0 as i128 - a.0 as i128;
    let dy = b.1 as i128 - a.1 as i128;
    let px = x as i128 - a.0 as i128;
    let py = y as i128 - a.1 as i128;
    assert(-0x10_0000_0000_0000_0000_0000_0000 <= dx * py <= 0x10_0000_0000_0000_0000_0000_0000)
        by (nonlinear_arith)
        requires
            -0x2000_0000 <= dx <= 0x2000_0000,
            -0x2_0000_0000_0000_0000 <= py <= 0x2_0000_0000_0000_0000,
    ;
    assert(-0x10_0000_0000_0000_0000_0000_0000 <= dy * px <= 0x10_0000_0000_0000_0000_0000_0000)
        by (nonlinear_arith)
        requires
            -0x2000_0000 <= dy <= 0x2000_0000,
            -0x2_0000_0000_0000_0000 <= px <= 0x2_0000_0000_0000_0000,
    ;
    dx * py - dy * px
}

fn min_of(a: isize, b: isize, c: isize) -> (r: isize)
    ensures
        r == min3(a as int, b as int, c as int),
{
    if a <= b && a <= c {
        a
    } else if b <= c {
        b
    } else {
        c
    }
}

fn max_of(a: isize, b: isize, c: isize) -> (r: isize)
    ensures
        r == max3(a as int, b as int, c as int),
{
    if a >= b && a >= c {
        a
    } else if b >= c {
        b
    } else {
        c
    }
}

/// Whether `v` is one of `lo..hi`.
pub open spec fn in_span(v: int, lo: int, hi: int) -> bool {
    lo <= v < hi
}

/// The cells `lo..hi` of an axis `size` cells long that lie within `low..=high`.
fn clip(low: isize, high: isize, size: usize) -> (r: (usize, usize))
    ensures
        r.0 <= r.1 <= size,
        forall|v: int| #[trigger] in_span(v, r.0 as int, r.1 as int) <==> low <= v <= high && 0 <= v < size,
{
    if high < 0 || size == 0 {
        return (0, 0);
    }
    let lo: usize = if low < 0 {
        0
    } else {
        low as usize
    };
    let hi: usize = if high as usize >= size {
        size
    } else {
        high as usize + 1
    };
    if lo >= hi {
        (0, 0)
    } else {
        (lo, hi)
    }
}

/// The state of a pixel.
#[derive(Debug, Clone, Copy, PartialEq, Eq, Structural)]
pub enum Pixel {
    Blank,
    White,
}

/// A `width` by `height` grid of pixels, held row after row.
pub struct EngineCanvas {
    canvas: Vec<Pixel>,
    width: usize,
    height: usize,
}

proof fn lemma_cell(width: int, height: int, x: int, y: int)
    requires
        0 <= x < width,
        0 <= y < height,
    ensures
        0 <= y * width + x < width * height,
{
    assert(y * width + x < width * height) by (nonlinear_arith)
        requires
            0 <= x < width,
            0 <= y < height,
    ;
    assert(0 <= y * width) by (nonlinear_arith)
        requires
            0 <= x < width,
            0 <= y < height,
    ;
}

proof fn lemma_cell_distinct(width: int, x: int, y: int, x2: int, y2: int)
    requires
        0 <= x < width,
        0 <= x2 < width,
        0 <= y,
        0 <= y2,
        x != x2 || y != y2,
    ensures
        y * width + x != y2 * width + x2,
{
    if y == y2 {
    } else if y < y2 {
        assert(y * width + x < y2 * width + x2) by (nonlinear_arith)
            requires
                0 <= x < width,
                0 <= x2,
                y < y2,
        ;
    } else {
        assert(y2 * width + x2 < y * width + x) by (nonlinear_arith)
            requires
                0 <= x2 < width,
                0 <= x,
                y2 < y,
        ;
    }
}

impl EngineCanvas {
    /// The grid holds one pixel per cell.
    pub closed spec fn wf(&self) -> bool {
        &&& self.width * self.height <= usize::MAX
        &&& self.canvas@.len() == self.width * self.height
    }

    /// Width of the canvas, in pixels.
    pub closed spec fn spec_width(&self) -> nat {
        self.width as nat
    }

    /// Height of the canvas, in pixels.
    pub closed spec fn spec_height(&self) -> nat {
        self.height as nat
    }

    /// Whether the pixel `(x, y)` is within the canvas and lit.
    pub closed spec fn lit(&self, x: int, y: int) -> bool {
        0 <= x < self.width && 0 <= y < self.height && self.canvas@[y * self.width + x]
            == Pixel::White
    }

    /// A blank canvas of the given size.
    pub fn new(width: usize, height: usize) -> (r: EngineCanvas)
        requires
            width * height <= usize::MAX,
        ensures
            r.wf(),
            r.spec_width() == width,
            r.spec_height() == height,
            forall|x: int, y: int| !#[trigger] r.lit(x, y),
    {
        let r = EngineCanvas { canvas: blank_cells(width * height), width, height };
        assert forall|x: int, y: int| !#[trigger] r.lit(x, y) by {
            if 0 <= x < width && 0 <= y < height {
                lemma_cell(width as int, height as int, x, y);
            }
        }
        r
    }

    /// Width of the canvas.
    pub fn width(&self) -> (r: usize)
        ensures
            r == self.spec_width(),
    {
        self.width
    }

    /// Height of the canvas.
    pub fn height(&self) -> (r: usize)
        ensures
            r == self.spec_height(),
    {
        self.height
    }

    /// Whether the pixel `(x, y)` is lit; false outside the canvas.
    pub fn is_lit(&self, x: usize, y: usize) -> (r: bool)
        requires
            self.wf(),
        ensures
            r == self.lit(x as int, y as int),
    {
        if x < self.width && y < self.height {
            proof {
                lemma_cell(self.width as int, self.height as int, x as int, y as int);
            }
            self.canvas[y * self.width + x] == Pixel::White
        } else {
            false
        }
    }

    /// Blanks every pixel.
    pub fn clear(&mut self)
        requires
            old(self).wf(),
        ensures
            final(self).wf(),
            final(self).spec_width() == old(self).spec_width(),
            final(self).spec_height() == old(self).spec_height(),
            forall|x: int, y: int| !#[trigger] final(self).lit(x, y),
    {
        self.canvas = blank_cells(self.width * self.height);
        assert forall|x: int, y: int| !#[trigger] self.lit(x, y) by {
            if 0 <= x < self.width && 0 <= y < self.height {
                lemma_cell(self.width as int, self.height as int, x, y);
            }
        }
    }

    /// Lights the pixel `(x, y)`; a pixel outside the canvas is ignored.
    pub fn push_pixel(&mut self, x: usize, y: usize)
        requires
            old(self).wf(),
        ensures
            final(self).wf(),
            final(self).spec_width() == old(self).spec_width(),
            final(self).spec_height() == old(self).spec_height(),
            forall|a: int, b: int| #[trigger]
                final(self).lit(a, b) == (old(self).lit(a, b) || (a == x && b == y && x
                    < old(self).spec_width() && y < old(self).spec_height())),
    {
        if x < self.width && y < self.height {
            proof {
                lemma_cell(self.width as int, self.height as int, x as int, y as int);
            }
            let ghost before = *self;
            self.canvas.set(y * self.width + x, Pixel::White);
            assert forall|a: int, b: int| #[trigger]
                self.lit(a, b) == (before.lit(a, b) || (a == x && b == y)) by {
                if 0 <= a < self.width && 0 <= b < self.height && (a != x || b != y) {
                    lemma_cell_distinct(self.width as int, a, b, x as int, y as int);
                    lemma_cell(self.width as int, self.height as int, a, b);
                }
            }
        }
    }

    /// Lights every pixel of `points` that lies within the canvas.
    pub fn plot_points(&mut self, points: &Vec<Point>)
        requires
            old(self).wf(),
        ensures
            final(self).wf(),
            final(self).spec_width() == old(self).spec_width(),
            final(self).spec_height() == old(self).spec_height(),
            forall|x: int, y: int| #[trigger]
                final(self).lit(x, y) == (old(self).lit(x, y) || (0 <= x < old(
                    self,
                ).spec_width() && 0 <= y < old(self).spec_height() && covers(points@, x, y))),
    {
        let ghost start = *self;
        let mut i: usize = 0;
        while i < points.len()
            invariant
                i <= points@.len(),
                self.wf(),
                self.spec_width() == start.spec_width(),
                self.spec_height() == start.spec_height(),
                forall|x: int, y: int| #[trigger]
                    self.lit(x, y) == (start.lit(x, y) || (0 <= x < start.spec_width() && 0 <= y
                        < start.spec_height() && covers(points@.subrange(0, i as int), x, y))),
            decreases points@.len() - i,
        {
            let (px, py) = points[i];
            let ghost before = *self;
            if px >= 0 && py >= 0 {
                self.push_pixel(px as usize, py as usize);
            }
            assert forall|x: int, y: int| #[trigger]
                self.lit(x, y) == (start.lit(x, y) || (0 <= x < start.spec_width() && 0 <= y
                    < start.spec_height() && covers(points@.subrange(0, i + 1), x, y))) by {
                let old_pts = points@.subrange(0, i as int);
                let new_pts = points@.subrange(0, i + 1);
                if covers(old_pts, x, y) {
                    let j = choose|j: int|
                        0 <= j < old_pts.len() && old_pts[j].0 == x && old_pts[j].1 == y;
                    assert(new_pts[j] == old_pts[j]);
                }
                if covers(new_pts, x, y) && !covers(old_pts, x, y) {
                    let j = choose|j: int|
                        0 <= j < new_pts.len() && new_pts[j].0 == x && new_pts[j].1 == y;
                    if j < i {
                        assert(old_pts[j] == new_pts[j]);
                    }
                }
                if px == x && py == y {
                    assert(new_pts[i as int] == points@[i as int]);
                }
            }
            i = i + 1;
        }
        assert(points@.subrange(0, points@.len() as int) =~= points@);
    }

    /// Draws the line from `start` to `end`, both included.
    pub fn draw_line(&mut self, start: Point, end: Point)
        requires
            old(self).wf(),
            in_range(start),
            in_range(end),
        ensures
            final(self).wf(),
            final(self).spec_width() == old(self).spec_width(),
            final(self).spec_height() == old(self).spec_height(),
            forall|x: int, y: int| #[trigger]
                final(self).lit(x, y) == (old(self).lit(x, y) || (0 <= x < old(
                    self,
                ).spec_width() && 0 <= y < old(self).spec_height() && on_line(start, end, x, y))),
            0 <= start.0 < old(self).spec_width() && 0 <= start.1 < old(self).spec_height()
                ==> final(self).lit(start.0 as int, start.1 as int),
            0 <= end.0 < old(self).spec_width() && 0 <= end.1 < old(self).spec_height()
                ==> final(self).lit(end.0 as int, end.1 as int),
    {
        let mut points = bresenham_line(start, end);
        let ghost line = points@;
        points.push(end);
        self.plot_points(&points);
        assert forall|x: int, y: int|
            covers(points@, x, y) == on_line(start, end, x, y) by {
            if covers(points@, x, y) {
                let j = choose|j: int|
                    0 <= j < points@.len() && points@[j].0 == x && points@[j].1 == y;
                if j < line.len() {
                    assert(points@[j] == line[j]);
                }
            }
            if covers(line, x, y) {
                let j = choose|j: int| 0 <= j < line.len() && line[j].0 == x && line[j].1 == y;
                assert(points@[j] == line[j]);
            }
            if end.0 == x && end.1 == y {
                assert(points@[line.len() as int] == end);
            }
        }
        proof {
            assert(on_line(start, end, end.0 as int, end.1 as int));
            if start != end {
                assert(line[0] == start);
                assert(covers(line, start.0 as int, start.1 as int));
            }
        }
    }

    /// Copies the canvas into `frame`, an RGBA frame of the same size, and
    /// blanks the canvas for the next frame.
    pub fn render(&mut self, frame: &mut [u8])
        requires
            old(self).wf(),
            old(frame)@.len() == 4 * old(self).spec_width() * old(self).spec_height(),
        ensures
            final(self).wf(),
            final(self).spec_width() == old(self).spec_width(),
            final(self).spec_height() == old(self).spec_height(),
            forall|x: int, y: int| !#[trigger] final(self).lit(x, y),
            final(frame)@.len() == old(frame)@.len(),
            forall|x: int, y: int|
                0 <= x < old(self).spec_width() && 0 <= y < old(self).spec_height() ==> #[trigger]
                frame_pixel(final(frame)@, old(self).spec_width() as int, x, y) == pixel_rgba(
                    old(self).lit(x, y),
                ),
    {
        let n = frame.len();
        let cells = self.width * self.height;
        assert(4 * (self.width * self.height) == 4 * self.width * self.height) by (nonlinear_arith);
        let mut i: usize = 0;
        while i < cells
            invariant
                i <= cells,
                cells == self.width * self.height,
                self.wf(),
                n == frame@.len(),
                n == 4 * cells,
                forall|j: int|
                    0 <= j < i ==> #[trigger] cell_bytes(frame@, j) == pixel_rgba(
                        self.canvas@[j] == Pixel::White,
                    ),
            decreases cells - i,
        {
            let value: u8 = if self.canvas[i] == Pixel::White {
                0xff
            } else {
                0
            };
            let ghost before = frame@;
            let k = 4 * i;
            frame[k] = value;
            frame[k + 1] = value;
            frame[k + 2] = value;
            frame[k + 3] = value;
            assert forall|j: int|
                0 <= j < i + 1 implies #[trigger] cell_bytes(frame@, j) == pixel_rgba(
                    self.canvas@[j] == Pixel::White,
                ) by {
                if j < i {
                    assert(cell_bytes(frame@, j) =~= cell_bytes(before, j));
                } else {
                    assert(cell_bytes(frame@, j) =~= pixel_rgba(self.canvas@[j] == Pixel::White));
                }
            }
            i = i + 1;
        }
        let ghost rendered = *self;
        assert forall|x: int, y: int|
            0 <= x < rendered.spec_width() && 0 <= y < rendered.spec_height() implies #[trigger]
            frame_pixel(frame@, rendered.spec_width() as int, x, y) == pixel_rgba(
                rendered.lit(x, y),
            ) by {
            lemma_cell(self.width as int, self.height as int, x, y);
        }
        self.clear();
    }

    /// Gives the canvas a new size, with every pixel blank.
    pub fn resize(&mut self, width: usize, height: usize)
        requires
            width * height <= usize::MAX,
        ensures
            final(self).wf(),
            final(self).spec_width() == width,
            final(self).spec_height() == height,
            forall|x: int, y: int| !#[trigger] final(self).lit(x, y),
    {
        *self = EngineCanvas::new(width, height);
    }

    /// Fills the triangle `a`, `b`, `c`: lights every pixel of the canvas
    /// that lies in it.
    pub fn fill_triangle(&mut self, a: Point, b: Point, c: Point)
        requires
            old(self).wf(),
            in_range(a),
            in_range(b),
            in_range(c),
        ensures
            final(self).wf(),
            final(self).spec_width() == old(self).spec_width(),
            final(self).spec_height() == old(self).spec_height(),
            forall|x: int, y: int| #[trigger]
                final(self).lit(x, y) == (old(self).lit(x, y) || (0 <= x < old(
                    self,
                ).spec_width() && 0 <= y < old(self).spec_height() && in_triangle(a, b, c, x, y))),
    {
        let ghost start = *self;
        let (x_lo, x_hi) = clip(min_of(a.0, b.0, c.0), max_of(a.0, b.0, c.0), self.width);
        let (y_lo, y_hi) = clip(min_of(a.1, b.1, c.1), max_of(a.1, b.1, c.1), self.height);
        let mut py: usize = y_lo;
        assert forall|x: int, y: int| #[trigger]
            self.lit(x, y) == (start.lit(x, y) || (0 <= x < start.spec_width() && 0 <= y
                < start.spec_height() && in_triangle(a, b, c, x, y) && y < py)) by {
            if 0 <= y < start.spec_height() && in_triangle(a, b, c, x, y) {
                assert(in_span(y, y_lo as int, y_hi as int));
            }
        }
        while py < y_hi
            invariant
                in_range(a),
                in_range(b),
                in_range(c),
                y_lo <= py <= y_hi,
                x_lo <= x_hi <= start.spec_width(),
                y_hi <= start.spec_height(),
                forall|v: int| #[trigger]
                    in_span(v, x_lo as int, x_hi as int) <==> min3(a.0 as int, b.0 as int, c.0 as int)
                        <= v <= max3(a.0 as int, b.0 as int, c.0 as int) && 0 <= v
                        < start.spec_width(),
                forall|v: int| #[trigger]
                    in_span(v, y_lo as int, y_hi as int) <==> min3(a.1 as int, b.1 as int, c.1 as int)
                        <= v <= max3(a.1 as int, b.1 as int, c.1 as int) && 0 <= v
                        < start.spec_height(),
                self.wf(),
                self.spec_width() == start.spec_width(),
                self.spec_height() == start.spec_height(),
                forall|x: int, y: int| #[trigger]
                    self.lit(x, y) == (start.lit(x, y) || (0 <= x < start.spec_width() && 0 <= y
                        < start.spec_height() && in_triangle(a, b, c, x, y) && y < py)),
            decreases y_hi - py,
        {
            let mut px: usize = x_lo;
            assert forall|x: int, y: int| #[trigger]
                self.lit(x, y) == (start.lit(x, y) || (0 <= x < start.spec_width() && 0 <= y
                    < start.spec_height() && in_triangle(a, b, c, x, y) && (y < py || (y == py
                    && x < px)))) by {
                if 0 <= x < start.spec_width() && in_triangle(a, b, c, x, y) {
                    assert(in_span(x, x_lo as int, x_hi as int));
                }
            }
            while px < x_hi
                invariant
                    in_range(a),
                    in_range(b),
                    in_range(c),
                    y_lo <= py < y_hi,
                    x_lo <= px <= x_hi,
                forall|v: int| #[trigger]
                        in_span(v, x_lo as int, x_hi as int) <==> min3(a.0 as int, b.0 as int, c.0 as int)
                            <= v <= max3(a.0 as int, b.0 as int, c.0 as int) && 0 <= v
                            < start.spec_width(),
                    forall|v: int| #[trigger]
                        in_span(v, y_lo as int, y_hi as int) <==> min3(a.1 as int, b.1 as int, c.1 as int)
                            <= v <= max3(a.1 as int, b.1 as int, c.1 as int) && 0 <= v
                            < start.spec_height(),
                    x_hi <= start.spec_width(),
                    y_hi <= start.spec_height(),
                    self.wf(),
                    self.spec_width() == start.spec_width(),
                    self.spec_height() == start.spec_height(),
                    forall|x: int, y: int| #[trigger]
                        self.lit(x, y) == (start.lit(x, y) || (0 <= x < start.spec_width() && 0
                            <= y < start.spec_height() && in_triangle(a, b, c, x, y) && (y < py || (
                        y == py && x < px)))),
                decreases x_hi - px,
            {
                let e0 = edge_at(a, b, px, py);
                let e1 = edge_at(b, c, px, py);
                let e2 = edge_at(c, a, px, py);
                assert(in_span(px as int, x_lo as int, x_hi as int));
                assert(in_span(py as int, y_lo as int, y_hi as int));
                if (e0 >= 0 && e1 >= 0 && e2 >= 0) || (e0 <= 0 && e1 <= 0 && e2 <= 0) {
                    self.push_pixel(px, py);
                }
                px = px + 1;
            }
            assert forall|x: int, y: int| #[trigger]
                self.lit(x, y) == (start.lit(x, y) || (0 <= x < start.spec_width() && 0 <= y
                    < start.spec_height() && in_triangle(a, b, c, x, y) && y < py + 1)) by {
                if 0 <= x < start.spec_width() && in_triangle(a, b, c, x, y) {
                    assert(in_span(x, x_lo as int, x_hi as int));
                }
            }
            py = py + 1;
        }
        assert forall|x: int, y: int| #[trigger]
            self.lit(x, y) == (start.lit(x, y) || (0 <= x < start.spec_width() && 0 <= y
                < start.spec_height() && in_triangle(a, b, c, x, y))) by {
            if 0 <= y < start.spec_height() && in_triangle(a, b, c, x, y) {
                assert(in_span(y, y_lo as int, y_hi as int));
            }
        }
    }

    /// Draws the outline of the triangle `a`, `b`, `c`: its three edges.
    pub fn draw_triangle(&mut self, a: Point, b: Point, c: Point)
        requires
            old(self).wf(),
            in_range(a),
            in_range(b),
            in_range(c),
        ensures
            final(self).wf(),
            final(self).spec_width() == old(self).spec_width(),
            final(self).spec_height() == old(self).spec_height(),
            forall|x: int, y: int| #[trigger]
                final(self).lit(x, y) == (old(self).lit(x, y) || (0 <= x < old(
                    self,
                ).spec_width() && 0 <= y < old(self).spec_height() && (on_line(a, b, x, y)
                    || on_line(b, c, x, y) || on_line(c, a, x, y)))),
    {
        self.draw_line(a, b);
        self.draw_line(b, c);
        self.draw_line(c, a);
    }
}

/// The four bytes of the `j`-th pixel of an RGBA frame.
pub open spec fn cell_bytes(frame: Seq<u8>, j: int) -> Seq<u8> {
    frame.subrange(4 * j, 4 * j + 4)
}

/// The four bytes of the pixel `(x, y)` of an RGBA frame `width` pixels wide.
pub open spec fn frame_pixel(frame: Seq<u8>, width: int, x: int, y: int) -> Seq<u8> {
    cell_bytes(frame, y * width + x)
}

/// The colour of a pixel in a rendered frame: opaque white when lit,
/// transparent black when blank.
pub open spec fn pixel_rgba(lit: bool) -> Seq<u8> {
    if lit {
        seq![0xffu8, 0xffu8, 0xffu8, 0xffu8]
    } else {
        seq![0u8, 0u8, 0u8, 0u8]
    }
}

/// `n` blank cells.
fn blank_cells(n: usize) -> (r: Vec<Pixel>)
    ensures
        r@.len() == n,
        forall|i: int| 0 <= i < n ==> #[trigger] r@[i] == Pixel::Blank,
{
    let mut cells: Vec<Pixel> = Vec::new();
    let mut i: usize = 0;
    while i < n
        invariant
            i <= n,
            cells@.len() == i,
            forall|j: int| 0 <= j < i ==> #[trigger] cells@[j] == Pixel::Blank,
        decreases n - i,
    {
        cells.push(Pixel::Blank);
        i = i + 1;
    }
    cells
}

} // verus!
