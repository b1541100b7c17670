//! The framebuffer: a rectangle of pixels that text and graphics are drawn
//! into. Its mathematical model is a picture, a sequence of rows of colours.

use crate::geometry::{abs, direction, Point};
use crate::palette::Colour;
use vstd::prelude::*;

verus! {

/// A picture: rows from top to bottom, each a sequence of pixels from left
/// to right.
pub type Picture = Seq<Seq<Colour>>;

/// The picture has `height` rows of `width` pixels each.
pub open spec fn sized(p: Picture, width: int, height: int) -> bool {
    &&& p.len() == height
    &&& forall|y: int| 0 <= y < height ==> (#[trigger] p[y]).len() == width
}

/// The pixel at column `x` of row `y` exists.
pub open spec fn inside(p: Picture, x: int, y: int) -> bool {
    0 <= y < p.len() && 0 <= x < p[y].len()
}

/// A picture of one colour.
pub open spec fn blank(width: int, height: int, colour: Colour) -> Picture {
    Seq::new(height as nat, |y: int| Seq::new(width as nat, |x: int| colour))
}

/// The picture with one pixel set; a pixel outside the picture is dropped.
pub open spec fn with_pixel(p: Picture, x: int, y: int, colour: Colour) -> Picture {
    if inside(p, x, y) {
        p.update(y, p[y].update(x, colour))
    } else {
        p
    }
}

/// Whether `(x, y)` lies in the rectangle with the given top left corner
/// and size.
pub open spec fn in_rect(left: int, top: int, width: int, height: int, x: int, y: int) -> bool {
    left <= x < left + width && top <= y < top + height
}

/// The picture with a rectangle filled, as far as it lies in the picture.
pub open spec fn with_rect(
    p: Picture,
    left: int,
    top: int,
    width: int,
    height: int,
    colour: Colour,
) -> Picture {
    Seq::new(
        p.len(),
        |y: int|
            Seq::new(
                p[y].len(),
                |x: int|
                    if in_rect(left, top, width, height, x, y) {
                        colour
                    } else {
                        p[y][x]
                    },
            ),
    )
}

/// Whether `(x, y)` lies on row `row` between the two columns, both
/// included, whichever of them is the left one.
pub open spec fn in_span(x1: int, x2: int, row: int, x: int, y: int) -> bool {
    y == row && ((x1 <= x <= x2) || (x2 <= x <= x1))
}

/// The picture with a horizontal run of pixels drawn between two columns of
/// a row.
pub open spec fn with_span(p: Picture, x1: int, x2: int, row: int, colour: Colour) -> Picture {
    Seq::new(
        p.len(),
        |y: int|
            Seq::new(
                p[y].len(),
                |x: int|
                    if in_span(x1, x2, row, x, y) {
                        colour
                    } else {
                        p[y][x]
                    },
            ),
    )
}

/// The picture moved up by `lines` rows; the rows that come in at the
/// bottom have the given colour.
pub open spec fn scrolled(p: Picture, lines: int, colour: Colour) -> Picture {
    Seq::new(
        p.len(),
        |y: int|
            if y + lines < p.len() {
                p[y + lines]
            } else {
                Seq::new(p[y].len(), |x: int| colour)
            },
    )
}

/// Number of steps from one end of a line to the other: the larger of its
/// extents along the two axes.
pub open spec fn line_steps(a: Point, b: Point) -> int {
    let across = abs(b.x - a.x);
    let down = abs(b.y - a.y);
    if across >= down {
        across
    } else {
        down
    }
}

/// How far a line that covers `extent` pixels along one axis in `steps`
/// steps has come along that axis after `k` of them: `k * extent / steps`,
/// rounded to the nearest whole pixel, a half upwards.
pub open spec fn line_advance(extent: int, steps: int, k: int) -> int {
    (2 * k * extent + steps) / (2 * steps)
}

/// The pixel of the line from `a` to `b` after `k` steps.
pub open spec fn line_point(a: Point, b: Point, k: int) -> (int, int) {
    let steps = line_steps(a, b);
    if steps == 0 {
        (a.x as int, a.y as int)
    } else {
        (
            a.x + direction(b.x - a.x) * line_advance(abs(b.x - a.x), steps, k),
            a.y + direction(b.y - a.y) * line_advance(abs(b.y - a.y), steps, k),
        )
    }
}

/// Whether `(x, y)` is one of the first `count` pixels of the line from `a`
/// to `b`.
pub open spec fn on_line_start(a: Point, b: Point, count: int, x: int, y: int) -> bool {
    exists|k: int| 0 <= k < count && #[trigger] line_point(a, b, k) == (x, y)
}

/// Whether `(x, y)` is a pixel of the line from `a` to `b`, ends included.
pub open spec fn on_line(a: Point, b: Point, x: int, y: int) -> bool {
    on_line_start(a, b, line_steps(a, b) + 1, x, y)
}

/// The picture with a line drawn from `a` to `b`.
pub open spec fn with_line(p: Picture, a: Point, b: Point, colour: Colour) -> Picture {
    Seq::new(
        p.len(),
        |y: int|
            Seq::new(
                p[y].len(),
                |x: int|
                    if on_line(a, b, x, y) {
                        colour
                    } else {
                        p[y][x]
                    },
            ),
    )
}

/// A line starts at its first point and ends at its second.
pub proof fn lemma_line_ends(a: Point, b: Point)
    ensures
        line_point(a, b, 0) == (a.x as int, a.y as int),
        line_point(a, b, line_steps(a, b)) == (b.x as int, b.y as int),
        on_line(a, b, a.x as int, a.y as int),
        on_line(a, b, b.x as int, b.y as int),
{
    let n = line_steps(a, b);
    if n > 0 {
        lemma_advance_bounds(abs(b.x - a.x), n, 0);
        lemma_advance_bounds(abs(b.y - a.y), n, 0);
        lemma_advance_bounds(abs(b.x - a.x), n, n);
        lemma_advance_bounds(abs(b.y - a.y), n, n);
    }
    assert(line_point(a, b, 0) == (a.x as int, a.y as int));
    assert(direction(b.x - a.x) * abs(b.x - a.x) == b.x - a.x);
    assert(direction(b.y - a.y) * abs(b.y - a.y) == b.y - a.y);
    assert(line_point(a, b, n) == (b.x as int, b.y as int));
}

/// A line never advances beyond its extent, starts at nothing and ends at
/// the whole of it.
pub proof fn lemma_advance_bounds(extent: int, steps: int, k: int)
    requires
        0 <= extent <= steps,
        0 < steps,
        0 <= k <= steps,
    ensures
        0 <= line_advance(extent, steps, k) <= extent,
        k == 0 ==> line_advance(extent, steps, k) == 0,
        k == steps ==> line_advance(extent, steps, k) == extent,
{
    let top = 2 * k * extent + steps;
    assert(0 <= 2 * k * extent <= 2 * steps * extent) by (nonlinear_arith)
        requires
            0 <= extent,
            0 <= k <= steps,
    ;
    if k == 0 {
        assert(2 * k * extent == 0) by (nonlinear_arith)
            requires
                k == 0,
        ;
        vstd::arithmetic::div_mod::lemma_fundamental_div_mod_converse(top, 2 * steps, 0, steps);
    } else if k == steps {
        assert(top == extent * (2 * steps) + steps) by (nonlinear_arith)
            requires
                top == 2 * k * extent + steps,
                k == steps,
        ;
        vstd::arithmetic::div_mod::lemma_fundamental_div_mod_converse(
            top,
            2 * steps,
            extent,
            steps,
        );
    } else {
        assert(0 <= top / (2 * steps) <= extent) by (nonlinear_arith)
            requires
                0 <= top <= 2 * steps * extent + steps,
                0 < steps,
        ;
    }
}

/// Two pictures of one size with the same colour at every pixel are the same
/// picture.
pub proof fn lemma_pictures_equal(p: Picture, q: Picture, width: int, height: int)
    requires
        sized(p, width, height),
        sized(q, width, height),
        forall|x: int, y: int| 0 <= x < width && 0 <= y < height ==> p[y][x] == q[y][x],
    ensures
        p == q,
{
    assert forall|y: int| 0 <= y < height implies p[y] == q[y] by {
        assert(p[y].len() == q[y].len());
        assert(p[y] =~= q[y]);
    }
    assert(p =~= q);
}

/// Setting a pixel keeps the size of a picture and changes no other pixel.
pub proof fn lemma_with_pixel(p: Picture, x: int, y: int, colour: Colour, width: int, height: int)
    requires
        sized(p, width, height),
    ensures
        sized(with_pixel(p, x, y, colour), width, height),
        forall|i: int, j: int|
            0 <= i < width && 0 <= j < height ==> #[trigger] with_pixel(p, x, y, colour)[j][i]
                == if i == x && j == y {
                colour
            } else {
                p[j][i]
            },
{
    let q = with_pixel(p, x, y, colour);
    assert forall|j: int| 0 <= j < height implies (#[trigger] q[j]).len() == width by {
        assert(p[j].len() == width);
    }
    assert forall|i: int, j: int| 0 <= i < width && 0 <= j < height implies #[trigger] q[j][i]
        == if i == x && j == y {
        colour
    } else {
        p[j][i]
    } by {
        assert(p[j].len() == width);
    }
}

proof fn lemma_cell_index(x: int, y: int, width: int, height: int)
    requires
        0 <= x < width,
        0 <= y < height,
    ensures
        0 <= y * width + x < width * height,
        y * width + x < (y + 1) * width,
        y * width >= 0,
{
    assert(y * width + x < width * height && y * width >= 0 && (y + 1) * width == y * width
        + width) by (nonlinear_arith)
        requires
            0 <= x < width,
            0 <= y < height,
    ;
}

proof fn lemma_cell_index_unique(x1: int, y1: int, x2: int, y2: int, width: int)
    requires
        0 <= x1 < width,
        0 <= x2 < width,
        0 <= y1,
        0 <= y2,
        y1 * width + x1 == y2 * width + x2,
    ensures
        x1 == x2,
        y1 == y2,
{
    assert(y1 == y2) by (nonlinear_arith)
        requires
            0 <= x1 < width,
            0 <= x2 < width,
            0 <= y1,
            0 <= y2,
            y1 * width + x1 == y2 * width + x2,
    ;
}

/// The pixels of the display, stored row after row.
pub struct Framebuffer {
    width: usize,
    height: usize,
    pixels: Vec<Colour>,
}

impl View for Framebuffer {
    type V = Picture;

    closed spec fn view(&self) -> Picture {
        Seq::new(
            self.height as nat,
            |y: int| Seq::new(self.width as nat, |x: int| self.pixels@[y * self.width + x]),
        )
    }
}

impl Framebuffer {
    /// The buffer holds one pixel for each position and its sides can be
    /// used as 32-bit coordinates.
    pub closed spec fn wf(&self) -> bool {
        &&& self.pixels@.len() == self.width * self.height
        &&& self.width * self.height <= usize::MAX
        &&& self.width <= i32::MAX
        &&& self.height <= i32::MAX
    }

    /// Width in pixels.
    pub closed spec fn cols(&self) -> int {
        self.width as int
    }

    /// Height in pixels.
    pub closed spec fn rows(&self) -> int {
        self.height as int
    }

    /// The picture of a well-formed buffer has the buffer's size.
    pub proof fn lemma_sized(&self)
        requires
            self.wf(),
        ensures
            sized(self@, self.cols(), self.rows()),
            0 <= self.cols() <= i32::MAX,
            0 <= self.rows() <= i32::MAX,
    {
    }

    /// A buffer of the given size, filled with one colour.
    pub fn new(width: usize, height: usize, colour: Colour) -> (frame: Framebuffer)
        requires
            width <= i32::MAX,
            height <= i32::MAX,
            width * height <= usize::MAX,
        ensures
            frame.wf(),
            frame.cols() == width,
            frame.rows() == height,
            frame@ == blank(width as int, height as int, colour),
    {
        let count: usize = width * height;
        let mut pixels: Vec<Colour> = Vec::new();
        let mut i: usize = 0;
        while i < count
            invariant
                i <= count,
                pixels@.len() == i,
                forall|j: int| 0 <= j < i ==> pixels@[j] == colour,
            decreases count - i,
        {
            pixels.push(colour);
            i += 1;
        }
        let frame = Framebuffer { width, height, pixels };
        proof {
            assert forall|x: int, y: int| 0 <= x < width && 0 <= y < height implies frame@[y][x]
                == colour by {
                lemma_cell_index(x, y, width as int, height as int);
            }
            lemma_pictures_equal(
                frame@,
                blank(width as int, height as int, colour),
                width as int,
                height as int,
            );
        }
        frame
    }

    /// Width in pixels.
    pub fn width(&self) -> (width: usize)
        ensures
            width == self.cols(),
    {
        self.width
    }

    /// Height in pixels.
    pub fn height(&self) -> (height: usize)
        ensures
            height == self.rows(),
    {
        self.height
    }

    /// The colour of a pixel of the buffer.
    pub fn pixel(&self, x: usize, y: usize) -> (colour: Colour)
        requires
            self.wf(),
            x < self.cols(),
            y < self.rows(),
        ensures
            colour == self@[y as int][x as int],
    {
        proof {
            lemma_cell_index(x as int, y as int, self.width as int, self.height as int);
        }
        self.pixels[y * self.width + x]
    }

    /// The colour at a position, if the position is in the buffer.
    pub fn get(&self, x: i32, y: i32) -> (colour: Option<Colour>)
        requires
            self.wf(),
        ensures
            colour == if inside(self@, x as int, y as int) {
                Some(self@[y as int][x as int])
            } else {
                None
            },
    {
        if x < 0 || y < 0 || x as usize >= self.width || y as usize >= self.height {
            None
        } else {
            Some(self.pixel(x as usize, y as usize))
        }
    }

    /// Sets one pixel; a position outside the buffer is ignored.
    pub fn set_pixel(&mut self, x: i32, y: i32, colour: Colour)
        requires
            old(self).wf(),
        ensures
            final(self).wf(),
            final(self).cols() == old(self).cols(),
            final(self).rows() == old(self).rows(),
            final(self)@ == with_pixel(old(self)@, x as int, y as int, colour),
    {
        if x < 0 || y < 0 || x as usize >= self.width || y as usize >= self.height {
            return ;
        }
        let ghost before = self@;
        let ghost w = self.width as int;
        proof {
            lemma_cell_index(x as int, y as int, w, self.height as int);
        }
        let index: usize = y as usize * self.width + x as usize;
        self.pixels[index] = colour;
        proof {
            let after = with_pixel(before, x as int, y as int, colour);
            assert forall|i: int, j: int| 0 <= i < w && 0 <= j < self.height implies self@[j][i]
                == after[j][i] by {
                lemma_cell_index(i, j, w, self.height as int);
                if j * w + i == y * w + x {
                    lemma_cell_index_unique(i, j, x as int, y as int, w);
                }
            }
            lemma_pictures_equal(self@, after, w, self.height as int);
        }
    }

    /// Fills the whole buffer with one colour.
    pub fn clear(&mut self, colour: Colour)
        requires
            old(self).wf(),
        ensures
            final(self).wf(),
            final(self).cols() == old(self).cols(),
            final(self).rows() == old(self).rows(),
            final(self)@ == blank(old(self).cols(), old(self).rows(), colour),
    {
        let count: usize = self.pixels.len();
        let mut i: usize = 0;
        while i < count
            invariant
                i <= count,
                count == self.pixels@.len(),
                self.width == old(self).width,
                self.height == old(self).height,
                self.wf(),
                forall|j: int| 0 <= j < i ==> self.pixels@[j] == colour,
            decreases count - i,
        {
            self.pixels[i] = colour;
            i += 1;
        }
        proof {
            let w = self.width as int;
            let h = self.height as int;
            assert forall|x: int, y: int| 0 <= x < w && 0 <= y < h implies self@[y][x]
                == colour by {
                lemma_cell_index(x, y, w, h);
            }
            lemma_pictures_equal(self@, blank(w, h, colour), w, h);
        }
    }

    /// Moves the content up by `lines` rows and fills what comes in at the
    /// bottom with one colour.
    pub fn scroll_up(&mut self, lines: usize, colour: Colour)
        requires
            old(self).wf(),
        ensures
            final(self).wf(),
            final(self).cols() == old(self).cols(),
            final(self).rows() == old(self).rows(),
            final(self)@ == scrolled(old(self)@, lines as int, colour),
    {
        let count: usize = self.pixels.len();
        let ghost before = self.pixels@;
        let ghost w = self.width as int;
        let ghost h = self.height as int;
        if lines >= self.height {
            self.clear(colour);
            proof {
                lemma_pictures_equal(self@, scrolled(old(self)@, lines as int, colour), w, h);
            }
            return ;
        }
        proof {
            assert(lines * w <= w * h && lines * w >= 0) by (nonlinear_arith)
                requires
                    0 <= lines < h,
                    0 <= w,
            ;
        }
        let shift: usize = lines * self.width;
        let mut i: usize = 0;
        while i < count
            invariant
                i <= count,
                count == self.pixels@.len(),
                count == before.len(),
                shift <= count,
                self.width == old(self).width,
                self.height == old(self).height,
                self.wf(),
                forall|j: int|
                    0 <= j < i ==> self.pixels@[j] == if j + shift < count {
                        before[j + shift]
                    } else {
                        colour
                    },
                forall|j: int| i <= j < count ==> self.pixels@[j] == before[j],
            decreases count - i,
        {
            if i < count - shift {
                let moved = self.pixels[i + shift];
                self.pixels[i] = moved;
            } else {
                self.pixels[i] = colour;
            }
            i += 1;
        }
        proof {
            let target = scrolled(old(self)@, lines as int, colour);
            assert forall|x: int, y: int| 0 <= x < w && 0 <= y < h implies self@[y][x]
                == target[y][x] by {
                lemma_cell_index(x, y, w, h);
                assert((y + lines) * w + x == y * w + x + lines * w) by (nonlinear_arith);
                if y + lines < h {
                    lemma_cell_index(x, y + lines, w, h);
                } else {
                    assert((y + lines) * w + x >= w * h) by (nonlinear_arith)
                        requires
                            y + lines >= h,
                            0 <= x,
                            0 <= w,
                    ;
                }
            }
            lemma_pictures_equal(self@, target, w, h);
        }
    }

    /// Sets one pixel given by coordinates of any size.
    pub(crate) fn put(&mut self, x: i128, y: i128, colour: Colour)
        requires
            old(self).wf(),
        ensures
            final(self).wf(),
            final(self).cols() == old(self).cols(),
            final(self).rows() == old(self).rows(),
            final(self)@ == with_pixel(old(self)@, x as int, y as int, colour),
    {
        if 0 <= x && x < self.width as i128 && 0 <= y && y < self.height as i128 {
            self.set_pixel(x as i32, y as i32, colour);
        }
    }

    /// Draws the pixels of row `row` from column `x1` to column `x2`, both
    /// included, in either order.
    pub fn draw_span(&mut self, x1: i32, x2: i32, row: i32, colour: Colour)
        requires
            old(self).wf(),
        ensures
            final(self).wf(),
            final(self).cols() == old(self).cols(),
            final(self).rows() == old(self).rows(),
            final(self)@ == with_span(old(self)@, x1 as int, x2 as int, row as int, colour),
    {
        let ghost before = self@;
        let ghost w = self.width as int;
        let ghost h = self.height as int;
        let low: i32 = if x1 <= x2 { x1 } else { x2 };
        let high: i32 = if x1 <= x2 { x2 } else { x1 };
        let first: i32 = if low < 0 { 0 } else { low };
        let mut x: i32 = first;
        if 0 <= row && (row as usize) < self.height {
            while x <= high && (x as usize) < self.width
                invariant
                    self.wf(),
                    self.cols() == w,
                    self.rows() == h,
                    w == old(self).cols(),
                    h == old(self).rows(),
                    sized(before, w, h),
                    sized(self@, w, h),
                    0 <= first <= x,
                    x <= high + 1 || x == first,
                    first == if low < 0 { 0 } else { low },
                    forall|i: int, j: int|
                        0 <= i < w && 0 <= j < h ==> #[trigger] self@[j][i] == if j == row && first
                            <= i < x {
                            colour
                        } else {
                            before[j][i]
                        },
                decreases high + 1 - x,
            {
                proof {
                    lemma_with_pixel(self@, x as int, row as int, colour, w, h);
                }
                self.set_pixel(x, row, colour);
                x += 1;
            }
        }
        proof {
            let target = with_span(before, x1 as int, x2 as int, row as int, colour);
            assert forall|i: int, j: int| 0 <= i < w && 0 <= j < h implies self@[j][i]
                == target[j][i] by {
                assert(before[j].len() == w);
            }
            assert forall|j: int| 0 <= j < h implies (#[trigger] target[j]).len() == w by {
                assert(before[j].len() == w);
            }
            lemma_pictures_equal(self@, target, w, h);
        }
    }

    /// Fills a rectangle given by its top left corner and size, as far as
    /// it lies in the buffer.
    pub fn fill_rect(&mut self, left: i32, top: i32, width: u32, height: u32, colour: Colour)
        requires
            old(self).wf(),
        ensures
            final(self).wf(),
            final(self).cols() == old(self).cols(),
            final(self).rows() == old(self).rows(),
            final(self)@ == with_rect(
                old(self)@,
                left as int,
                top as int,
                width as int,
                height as int,
                colour,
            ),
    {
        let ghost before = self@;
        let ghost w = self.width as int;
        let ghost h = self.height as int;
        let x_end: i64 = left as i64 + width as i64;
        let y_end: i64 = top as i64 + height as i64;
        let x_first: i64 = if left < 0 { 0 } else { left as i64 };
        let x_last: i64 = if x_end > self.width as i64 { self.width as i64 } else { x_end };
        let y_first: i64 = if top < 0 { 0 } else { top as i64 };
        let y_last: i64 = if y_end > self.height as i64 { self.height as i64 } else { y_end };
        let mut y: i64 = y_first;
        if width > 0 && x_first < x_last {
            while y < y_last
                invariant
                    self.wf(),
                    self.cols() == w,
                    self.rows() == h,
                    w == old(self).cols(),
                    h == old(self).rows(),
                    sized(before, w, h),
                    sized(self@, w, h),
                    0 <= y_first <= y,
                    y <= y_last || y == y_first,
                    y_last <= h,
                    0 <= x_first < x_last <= w,
                    x_first == if left < 0 { 0 } else { left as int },
                    x_last == if left + width > w { w } else { left + width },
                    forall|i: int, j: int|
                        0 <= i < w && 0 <= j < h ==> #[trigger] self@[j][i] == if y_first <= j < y
                            && x_first <= i < x_last {
                            colour
                        } else {
                            before[j][i]
                        },
                decreases y_last - y,
            {
                let ghost above = self@;
                self.draw_span(x_first as i32, (x_last - 1) as i32, y as i32, colour);
                proof {
                    assert forall|i: int, j: int| 0 <= i < w && 0 <= j < h implies #[trigger] self@[j][i]
                        == if y_first <= j < y + 1 && x_first <= i < x_last {
                        colour
                    } else {
                        before[j][i]
                    } by {
                        assert(above[j].len() == w);
                        assert(self@[j][i] == if in_span(
                            x_first as int,
                            x_last - 1,
                            y as int,
                            i,
                            j,
                        ) {
                            colour
                        } else {
                            above[j][i]
                        });
                    }
                    assert forall|j: int| 0 <= j < h implies (#[trigger] self@[j]).len() == w by {
                        assert(above[j].len() == w);
                    }
                }
                y += 1;
            }
        }
        proof {
            let target = with_rect(
                before,
                left as int,
                top as int,
                width as int,
                height as int,
                colour,
            );
            assert forall|i: int, j: int| 0 <= i < w && 0 <= j < h implies self@[j][i]
                == target[j][i] by {
                assert(before[j].len() == w);
            }
            assert forall|j: int| 0 <= j < h implies (#[trigger] target[j]).len() == w by {
                assert(before[j].len() == w);
            }
            lemma_pictures_equal(self@, target, w, h);
        }
    }

    /// Draws a line from `a` to `b`, ends included, as far as it lies in
    /// the buffer.
    pub fn draw_line(&mut self, a: Point, b: Point, colour: Colour)
        requires
            old(self).wf(),
        ensures
            final(self).wf(),
            final(self).cols() == old(self).cols(),
            final(self).rows() == old(self).rows(),
            final(self)@ == with_line(old(self)@, a, b, colour),
    {
        let ghost before = self@;
        let ghost w = self.width as int;
        let ghost h = self.height as int;
        let across: i128 = if b.x >= a.x { b.x as i128 - a.x as i128 } else { a.x as i128 - b.x as i128 };
        let down: i128 = if b.y >= a.y { b.y as i128 - a.y as i128 } else { a.y as i128 - b.y as i128 };
        let x_step: i128 = if b.x >= a.x { 1 } else { -1 };
        let y_step: i128 = if b.y >= a.y { 1 } else { -1 };
        let steps: i128 = if across >= down { across } else { down };
        let mut k: i128 = 0;
        while k <= steps
            invariant
                self.wf(),
                self.cols() == w,
                self.rows() == h,
                w == old(self).cols(),
                h == old(self).rows(),
                sized(before, w, h),
                sized(self@, w, h),
                0 <= k <= steps + 1,
                steps == line_steps(a, b),
                across == abs(b.x - a.x),
                down == abs(b.y - a.y),
                x_step == direction(b.x - a.x),
                y_step == direction(b.y - a.y),
                0 <= across <= steps,
                0 <= down <= steps,
                steps <= 0xffff_ffff,
                forall|i: int, j: int|
                    0 <= i < w && 0 <= j < h ==> #[trigger] self@[j][i] == if on_line_start(
                        a,
                        b,
                        k as int,
                        i,
                        j,
                    ) {
                        colour
                    } else {
                        before[j][i]
                    },
            decreases steps + 1 - k,
        {
            let ghost so_far = self@;
            let x: i128;
            let y: i128;
            if steps == 0 {
                x = a.x as i128;
                y = a.y as i128;
            } else {
                proof {
                    lemma_advance_bounds(across as int, steps as int, k as int);
                    lemma_advance_bounds(down as int, steps as int, k as int);
                    assert(0 <= 2 * k * across <= 2 * steps * steps && 0 <= 2 * k * down <= 2
                        * steps * steps && 2 * steps * steps <= 2 * 0xffff_ffff * 0xffff_ffff)
                        by (nonlinear_arith)
                        requires
                            0 <= k <= steps,
                            0 <= across <= steps,
                            0 <= down <= steps,
                            steps <= 0xffff_ffff,
                    ;
                    assert(2 * k >= 0 && 2 * k <= 2 * 0xffff_ffff);
                }
                x = a.x as i128 + x_step * ((2 * k * across + steps) / (2 * steps));
                y = a.y as i128 + y_step * ((2 * k * down + steps) / (2 * steps));
            }
            assert((x as int, y as int) == line_point(a, b, k as int));
            proof {
                lemma_with_pixel(so_far, x as int, y as int, colour, w, h);
            }
            self.put(x, y, colour);
            proof {
                assert forall|i: int, j: int| 0 <= i < w && 0 <= j < h implies #[trigger] self@[j][i]
                    == if on_line_start(a, b, k + 1, i, j) {
                    colour
                } else {
                    before[j][i]
                } by {
                    if on_line_start(a, b, k + 1, i, j) {
                        let m = choose|m: int|
                            0 <= m < k + 1 && #[trigger] line_point(a, b, m) == (i, j);
                        if m < k {
                            assert(on_line_start(a, b, k as int, i, j));
                        }
                    } else {
                        if on_line_start(a, b, k as int, i, j) {
                            let m = choose|m: int|
                                0 <= m < k && #[trigger] line_point(a, b, m) == (i, j);
                            assert(0 <= m < k + 1 && line_point(a, b, m) == (i, j));
                        }
                        assert(line_point(a, b, k as int) != (i, j));
                    }
                }
            }
            k += 1;
        }
        proof {
            let target = with_line(before, a, b, colour);
            assert forall|i: int, j: int| 0 <= i < w && 0 <= j < h implies self@[j][i]
                == target[j][i] by {
                assert(before[j].len() == w);
            }
            assert forall|j: int| 0 <= j < h implies (#[trigger] target[j]).len() == w by {
                assert(before[j].len() == w);
            }
            lemma_pictures_equal(self@, target, w, h);
        }
    }
}

} // verus!
