//! Filled triangles: the three corners are put in order from top to bottom
//! and every row between the first and the last is filled between the long
//! edge and the two short edges.

use crate::edge::{edge_x, lemma_edge_ends};
use crate::frame::{in_span, lemma_pictures_equal, sized, Framebuffer, Picture};
use crate::geometry::Point;
use crate::palette::Colour;
use crate::vdp::VDP;
use vstd::prelude::*;

verus! {

/// Three points in order of their rows: the first is moved below the second
/// when it starts lower, then below the third, and last the second below the
/// third. Points that share a row keep the order they are left in.
pub open spec fn ordered_by_row(p1: Point, p2: Point, p3: Point) -> (Point, Point, Point) {
    let (top, mid) = if p1.y > p2.y {
        (p2, p1)
    } else {
        (p1, p2)
    };
    let (top, bot) = if top.y > p3.y {
        (p3, top)
    } else {
        (top, p3)
    };
    let (mid, bot) = if mid.y > bot.y {
        (bot, mid)
    } else {
        (mid, bot)
    };
    (top, mid, bot)
}

/// The column of the long edge, from `top` to `bot`, on the row `row` rows
/// below `top`.
pub open spec fn long_edge_x(top: Point, bot: Point, row: int) -> int {
    edge_x(top.x as int, bot.x as int, bot.y - top.y, row)
}

/// The column of the short edges on the row `row` rows below `top`: down to
/// the row of `mid` that of the edge from `top` to `mid`, below it that of
/// the edge from `mid` to `bot`.
pub open spec fn short_edge_x(top: Point, mid: Point, bot: Point, row: int) -> int {
    if row <= mid.y - top.y {
        edge_x(top.x as int, mid.x as int, mid.y - top.y, row)
    } else {
        edge_x(mid.x as int, bot.x as int, bot.y - mid.y, row - (mid.y - top.y))
    }
}

/// Whether the triangle with corners `top`, `mid` and `bot`, given in order
/// of their rows, covers the pixel `(x, y)`.
pub open spec fn covered(top: Point, mid: Point, bot: Point, x: int, y: int) -> bool {
    &&& top.y <= y <= bot.y
    &&& in_span(long_edge_x(top, bot, y - top.y), short_edge_x(top, mid, bot, y - top.y), y, x, y)
}

/// Whether the filled triangle with the given corners, in any order, covers
/// the pixel `(x, y)`.
pub open spec fn in_triangle(p1: Point, p2: Point, p3: Point, x: int, y: int) -> bool {
    let (top, mid, bot) = ordered_by_row(p1, p2, p3);
    covered(top, mid, bot, x, y)
}

/// The picture with a filled triangle drawn.
pub open spec fn with_triangle(p: Picture, p1: Point, p2: Point, p3: Point, colour: Colour) -> Picture {
    Seq::new(
        p.len(),
        |y: int|
            Seq::new(
                p[y].len(),
                |x: int|
                    if in_triangle(p1, p2, p3, x, y) {
                        colour
                    } else {
                        p[y][x]
                    },
            ),
    )
}

/// The first and the last column of a row of a filled triangle, in the
/// order long edge, short edge.
pub open spec fn triangle_row(p1: Point, p2: Point, p3: Point, row: int) -> (int, int) {
    let (top, mid, bot) = ordered_by_row(p1, p2, p3);
    (long_edge_x(top, bot, row), short_edge_x(top, mid, bot, row))
}

/// Puts three points in order of their rows.
pub fn order_by_row(p1: Point, p2: Point, p3: Point) -> (ordered: (Point, Point, Point))
    ensures
        ordered == ordered_by_row(p1, p2, p3),
        ordered.0.y <= ordered.1.y <= ordered.2.y,
{
    let mut top = p1;
    let mut mid = p2;
    let mut bot = p3;
    if top.y > mid.y {
        let lower = top;
        top = mid;
        mid = lower;
    }
    if top.y > bot.y {
        let lower = top;
        top = bot;
        bot = lower;
    }
    if mid.y > bot.y {
        let lower = mid;
        mid = bot;
        bot = lower;
    }
    (top, mid, bot)
}

/// A filled triangle covers the same pixels in whichever order its corners
/// are given, unless all three lie in one row.
pub proof fn lemma_triangle_any_order(p1: Point, p2: Point, p3: Point, x: int, y: int)
    requires
        !(p1.y == p2.y && p2.y == p3.y),
    ensures
        in_triangle(p1, p3, p2, x, y) == in_triangle(p1, p2, p3, x, y),
        in_triangle(p2, p1, p3, x, y) == in_triangle(p1, p2, p3, x, y),
        in_triangle(p2, p3, p1, x, y) == in_triangle(p1, p2, p3, x, y),
        in_triangle(p3, p1, p2, x, y) == in_triangle(p1, p2, p3, x, y),
        in_triangle(p3, p2, p1, x, y) == in_triangle(p1, p2, p3, x, y),
{
    let (top, mid, bot) = ordered_by_row(p1, p2, p3);
    lemma_tied_corners(top, mid, bot, x, y);
}

/// Filling a triangle gives the same picture in whichever order its corners
/// are given, unless all three lie in one row.
pub proof fn lemma_fill_any_order(p: Picture, p1: Point, p2: Point, p3: Point, colour: Colour)
    requires
        !(p1.y == p2.y && p2.y == p3.y),
    ensures
        with_triangle(p, p1, p3, p2, colour) == with_triangle(p, p1, p2, p3, colour),
        with_triangle(p, p2, p1, p3, colour) == with_triangle(p, p1, p2, p3, colour),
        with_triangle(p, p2, p3, p1, colour) == with_triangle(p, p1, p2, p3, colour),
        with_triangle(p, p3, p1, p2, colour) == with_triangle(p, p1, p2, p3, colour),
        with_triangle(p, p3, p2, p1, colour) == with_triangle(p, p1, p2, p3, colour),
{
    assert forall|x: int, y: int|
        in_triangle(p1, p3, p2, x, y) == in_triangle(p1, p2, p3, x, y) && in_triangle(
            p2,
            p1,
            p3,
            x,
            y,
        ) == in_triangle(p1, p2, p3, x, y) && in_triangle(p2, p3, p1, x, y) == in_triangle(
            p1,
            p2,
            p3,
            x,
            y,
        ) && in_triangle(p3, p1, p2, x, y) == in_triangle(p1, p2, p3, x, y) && in_triangle(
            p3,
            p2,
            p1,
            x,
            y,
        ) == in_triangle(p1, p2, p3, x, y) by {
        lemma_triangle_any_order(p1, p2, p3, x, y);
    }
    assert(with_triangle(p, p1, p3, p2, colour) =~~= with_triangle(p, p1, p2, p3, colour));
    assert(with_triangle(p, p2, p1, p3, colour) =~~= with_triangle(p, p1, p2, p3, colour));
    assert(with_triangle(p, p2, p3, p1, colour) =~~= with_triangle(p, p1, p2, p3, colour));
    assert(with_triangle(p, p3, p1, p2, colour) =~~= with_triangle(p, p1, p2, p3, colour));
    assert(with_triangle(p, p3, p2, p1, colour) =~~= with_triangle(p, p1, p2, p3, colour));
}

/// Two corners in one row can change places without changing what the
/// triangle covers, as long as the third corner lies in another row.
proof fn lemma_tied_corners(top: Point, mid: Point, bot: Point, x: int, y: int)
    requires
        top.y <= mid.y <= bot.y,
        top.y < bot.y,
    ensures
        top.y == mid.y ==> covered(mid, top, bot, x, y) == covered(top, mid, bot, x, y),
        mid.y == bot.y ==> covered(top, bot, mid, x, y) == covered(top, mid, bot, x, y),
{
    lemma_edge_ends(top.x as int, bot.x as int, bot.y - top.y);
    lemma_edge_ends(mid.x as int, bot.x as int, bot.y - mid.y);
    lemma_edge_ends(top.x as int, mid.x as int, mid.y - top.y);
}

impl Framebuffer {
    /// Fills the triangle with the given corners: each row from the highest
    /// corner to the lowest is drawn from the column of the long edge to
    /// the column of the short edges.
    pub fn fill_triangle(&mut self, p1: Point, p2: Point, p3: Point, colour: Colour)
        requires
            old(self).wf(),
        ensures
            final(self).wf(),
            final(self).cols() == old(self).cols(),
            final(self).rows() == old(self).rows(),
            final(self)@ == with_triangle(old(self)@, p1, p2, p3, colour),
    {
        let ghost before = self@;
        let ghost w = self.cols();
        let ghost h = self.rows();
        proof {
            self.lemma_sized();
        }
        let (top, mid, bot) = order_by_row(p1, p2, p3);
        let long_side = VDP::line_xcoords(top, bot);
        let mut short_side = VDP::line_xcoords(top, mid);
        let lower_side = VDP::line_xcoords(mid, bot);
        let ghost upper_rows = mid.y - top.y;
        let mut n: usize = 1;
        while n < lower_side.len()
            invariant
                1 <= n <= lower_side@.len(),
                top.y <= mid.y <= bot.y,
                upper_rows == mid.y - top.y,
                lower_side@.len() == bot.y - mid.y + 1,
                short_side@.len() == upper_rows + n,
                forall|k: int|
                    0 <= k < lower_side@.len() ==> #[trigger] lower_side@[k] == edge_x(
                        mid.x as int,
                        bot.x as int,
                        bot.y - mid.y,
                        k,
                    ),
                forall|r: int|
                    0 <= r < short_side@.len() ==> #[trigger] short_side@[r] == short_edge_x(
                        top,
                        mid,
                        bot,
                        r,
                    ),
            decreases lower_side@.len() - n,
        {
            short_side.push(lower_side[n]);
            n += 1;
        }
        let mut i: usize = 0;
        while i < long_side.len()
            invariant
                self.wf(),
                self.cols() == w,
                self.rows() == h,
                sized(before, w, h),
                sized(self@, w, h),
                top.y <= mid.y <= bot.y,
                0 <= i <= long_side@.len(),
                long_side@.len() == bot.y - top.y + 1,
                short_side@.len() == long_side@.len(),
                forall|r: int|
                    0 <= r < long_side@.len() ==> #[trigger] long_side@[r] == long_edge_x(
                        top,
                        bot,
                        r,
                    ),
                forall|r: int|
                    0 <= r < short_side@.len() ==> #[trigger] short_side@[r] == short_edge_x(
                        top,
                        mid,
                        bot,
                        r,
                    ),
                forall|x: int, y: int|
                    0 <= x < w && 0 <= y < h ==> #[trigger] self@[y][x] == if y < top.y + i
                        && covered(top, mid, bot, x, y) {
                        colour
                    } else {
                        before[y][x]
                    },
            decreases long_side@.len() - i,
        {
            let ghost above = self@;
            let row: i64 = top.y as i64 + i as i64;
            self.draw_span(long_side[i], short_side[i], row as i32, colour);
            proof {
                self.lemma_sized();
                assert forall|x: int, y: int| 0 <= x < w && 0 <= y < h implies #[trigger] self@[y][x]
                    == if y < top.y + i + 1 && covered(top, mid, bot, x, y) {
                    colour
                } else {
                    before[y][x]
                } by {
                    assert(above[y].len() == w);
                    assert(self@[y][x] == if in_span(
                        long_side@[i as int] as int,
                        short_side@[i as int] as int,
                        row as int,
                        x,
                        y,
                    ) {
                        colour
                    } else {
                        above[y][x]
                    });
                }
            }
            i += 1;
        }
        proof {
            let target = with_triangle(before, p1, p2, p3, colour);
            assert forall|x: int, y: int| 0 <= x < w && 0 <= y < h implies self@[y][x]
                == target[y][x] by {
                assert(before[y].len() == w);
            }
            assert forall|y: int| 0 <= y < h implies (#[trigger] target[y]).len() == w by {
                assert(before[y].len() == w);
            }
            lemma_pictures_equal(self@, target, w, h);
        }
    }
}

} // verus!
