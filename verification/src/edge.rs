//! The edge walk of the triangle filler: for each row that an edge crosses,
//! the column at which the edge is drawn.

use crate::geometry::{abs, direction, lemma_quotient, Point};
use crate::vdp::VDP;
use vstd::prelude::*;

verus! {

/// The column of an edge on the `k`-th of the rows it crosses. The edge
/// runs from column `x0` to column `x1` and goes down by `rows` rows, so
/// `k` counts from 0 to `rows`.
///
/// An edge within one row has the single column `x1`. An edge that is at
/// least as high as it is wide has, on row `k`, the column `k * width /
/// rows` away from `x0`, rounded to the nearest column and a half towards
/// `x0`. A wider edge starts at `x0` and ends at `x1`; on a row between them
/// it has the last column that the edge reaches before it leaves the row.
pub open spec fn edge_x(x0: int, x1: int, rows: int, k: int) -> int {
    let width = abs(x1 - x0);
    let step = direction(x1 - x0);
    if rows == 0 {
        x1
    } else if width > rows {
        if k == 0 {
            x0
        } else if k == rows {
            x1
        } else {
            x0 + step * ((k * width + width / 2) / rows)
        }
    } else {
        x0 + step * ((k * width + rows - 1 - rows / 2) / rows)
    }
}

/// The columns of an edge on all the rows it crosses, from the row of its
/// first point to the row of its second.
pub open spec fn edge_xs(x0: int, x1: int, rows: int) -> Seq<int> {
    Seq::new((rows + 1) as nat, |k: int| edge_x(x0, x1, rows, k))
}

/// An edge ends at the column of its second point and, unless it lies
/// within one row, starts at the column of its first.
pub proof fn lemma_edge_ends(x0: int, x1: int, rows: int)
    requires
        0 <= rows,
    ensures
        edge_x(x0, x1, rows, rows) == x1,
        rows > 0 || x0 == x1 ==> edge_x(x0, x1, rows, 0) == x0,
{
    let width = abs(x1 - x0);
    let step = direction(x1 - x0);
    if rows > 0 && width <= rows {
        assert(0 * width == 0);
        lemma_quotient(0 * width + rows - 1 - rows / 2, rows, 0);
        assert(rows * width + rows - 1 - rows / 2 < width * rows + rows && width * rows <= rows
            * width + rows - 1 - rows / 2) by (nonlinear_arith)
            requires
                0 < rows,
                0 <= width,
        ;
        lemma_quotient(rows * width + rows - 1 - rows / 2, rows, width);
        assert(step * width == x1 - x0);
        assert(step * 0 == 0);
    }
}

/// Every column of an edge lies between the columns of its two points.
pub proof fn lemma_edge_between(x0: int, x1: int, rows: int, k: int)
    requires
        0 <= k <= rows,
    ensures
        x0 <= edge_x(x0, x1, rows, k) <= x1 || x1 <= edge_x(x0, x1, rows, k) <= x0,
{
    let width = abs(x1 - x0);
    let step = direction(x1 - x0);
    if rows > 0 {
        let q = if width > rows {
            (k * width + width / 2) / rows
        } else {
            (k * width + rows - 1 - rows / 2) / rows
        };
        if width > rows {
            if 0 < k < rows {
                assert(0 <= (k * width + width / 2) / rows <= width) by (nonlinear_arith)
                    requires
                        0 < k < rows,
                        0 < rows < width,
                ;
            }
        } else {
            assert(0 <= (k * width + rows - 1 - rows / 2) / rows <= width) by (nonlinear_arith)
                requires
                    0 <= k <= rows,
                    0 <= width <= rows,
                    0 < rows,
            ;
        }
        assert(0 <= q <= width ==> (step * q == q || step * q == -q)) by (nonlinear_arith)
            requires
                step == 1 || step == -1,
        ;
    }
}

impl VDP {
/// Walks along the edge from `top` to `bot` and returns its column on each
/// row, from the row of `top` to the row of `bot`. The walk keeps an error
/// term: each step along the longer side adds the shorter side to it, and
/// when it turns positive the walk moves one pixel along the shorter side
/// and takes the longer side off again.
pub fn line_xcoords(top: Point, bot: Point) -> (xs: Vec<i32>)
    ensures
        xs@.len() == abs(bot.y - top.y) + 1,
        forall|k: int|
            0 <= k < xs@.len() ==> #[trigger] xs@[k] == edge_x(
                top.x as int,
                bot.x as int,
                abs(bot.y - top.y),
                k,
            ),
        xs@[xs@.len() - 1] == bot.x,
        top.y != bot.y || top.x == bot.x ==> xs@[0] == top.x,
{
    let mut xc: Vec<i32> = Vec::new();
    let dy: i64 = if bot.y >= top.y { bot.y as i64 - top.y as i64 } else { top.y as i64 - bot.y as i64 };
    let dx: i64 = if bot.x >= top.x { bot.x as i64 - top.x as i64 } else { top.x as i64 - bot.x as i64 };
    let step: i64 = if top.x > bot.x { -1 } else { 1 };
    let ghost x0 = top.x as int;
    let ghost x1 = bot.x as int;
    proof {
        lemma_edge_ends(x0, x1, dy as int);
    }
    if dy == 0 {
        xc.push(bot.x);
    } else if dx > dy {
        // More columns than rows: walk along the columns.
        let mut t: i64 = -(dx / 2);
        let mut j: i64 = 0;
        let mut i: i64 = 0;
        xc.push(top.x);
        while i <= dx
            invariant
                0 < dy < dx <= 0xffff_ffff,
                step == direction(x1 - x0),
                dx == abs(x1 - x0),
                x0 == top.x,
                x1 == bot.x,
                0 <= i <= dx + 1,
                0 <= j <= dy + 1,
                i <= dx ==> j <= dy,
                t == i * dy - dx / 2 - j * dx,
                -dx < t <= 0,
                xc@.len() == if j == 0 { 1 } else if j <= dy { j as int } else { dy as int },
                xc@[0] == top.x,
                forall|m: int|
                    1 <= m < xc@.len() ==> #[trigger] xc@[m] == x0 + step * ((m * dx + dx / 2)
                        / (dy as int)),
            decreases dx + 1 - i,
        {
            t = t + dy;
            if t > 0 {
                t = t - dx;
                proof {
                    if 1 <= j <= dy - 1 {
                        assert(i * dy <= j * dx + dx / 2 < i * dy + dy);
                        lemma_quotient(j * dx + dx / 2, dy as int, i as int);
                        assert(i != 0) by (nonlinear_arith)
                            requires
                                j * dx + dx / 2 < i * dy + dy,
                                1 <= j,
                                0 < dy < dx,
                                0 <= i,
                        ;
                        assert(i != dx) by (nonlinear_arith)
                            requires
                                i * dy <= j * dx + dx / 2,
                                1 <= j <= dy - 1,
                                2 <= dx,
                                0 < dy,
                        ;
                    }
                }
                if i != 0 && i != dx && j != dy && j != 0 {
                    xc.push((top.x as i64 + step * i) as i32);
                }
                j = j + 1;
                proof {
                    assert((j - 1) * dx + dx == j * dx) by (nonlinear_arith);
                }
            }
            i += 1;
            proof {
                assert((i - 1) * dy + dy == i * dy) by (nonlinear_arith);
                assert(i <= dx ==> j <= dy) by (nonlinear_arith)
                    requires
                        t == i * dy - dx / 2 - j * dx,
                        -dx < t,
                        0 < dy < dx,
                        0 <= i,
                        0 <= j,
                ;
                assert(j <= dy + 1) by (nonlinear_arith)
                    requires
                        t == i * dy - dx / 2 - j * dx,
                        -dx < t,
                        0 < dy < dx,
                        0 <= i <= dx + 1,
                        0 <= j,
                ;
            }
        }
        proof {
            assert(j >= dy) by (nonlinear_arith)
                requires
                    t == i * dy - dx / 2 - j * dx,
                    t <= 0,
                    i == dx + 1,
                    0 < dy < dx,
                    0 <= j,
            ;
        }
        xc.push(bot.x);
    } else {
        // At least as many rows as columns: walk along the rows.
        let mut t: i64 = -(dy / 2);
        let mut x: i64 = top.x as i64;
        let mut k: i64 = 0;
        let ghost mut c: int = 0;
        while k <= dy
            invariant
                0 <= dx <= dy <= 0xffff_ffff,
                0 < dy,
                step == direction(x1 - x0),
                dx == abs(x1 - x0),
                x0 == top.x,
                x1 == bot.x,
                0 <= k <= dy + 1,
                xc@.len() == k,
                x == x0 + step * c,
                0 <= c <= dx + 1,
                k <= dy ==> c <= dx,
                t == k * dx - dy / 2 - c * dy,
                -dy < t <= 0,
                forall|m: int|
                    0 <= m < k ==> #[trigger] xc@[m] == x0 + step * ((m * dx + dy - 1 - dy / 2)
                        / (dy as int)),
            decreases dy + 1 - k,
        {
            proof {
                assert(c * dy <= k * dx + dy - 1 - dy / 2 < c * dy + dy);
                lemma_quotient(k * dx + dy - 1 - dy / 2, dy as int, c);
                assert(step * c == c || step * c == -c) by (nonlinear_arith)
                    requires
                        step == 1 || step == -1,
                ;
            }
            xc.push(x as i32);
            t += dx;
            if t > 0 {
                x += step;
                t = t - dy;
                proof {
                    assert(step * (c + 1) == step * c + step) by (nonlinear_arith);
                    assert((c + 1) * dy == c * dy + dy) by (nonlinear_arith);
                    c = c + 1;
                }
            }
            k += 1;
            proof {
                assert((k - 1) * dx + dx == k * dx) by (nonlinear_arith);
                assert(c >= 0 && (k <= dy ==> c <= dx) && c <= dx + 1) by (nonlinear_arith)
                    requires
                        t == k * dx - dy / 2 - c * dy,
                        -dy < t <= 0,
                        0 <= dx <= dy,
                        0 < dy,
                        0 <= k <= dy + 1,
                ;
            }
        }
    }
    xc
}

}

} // verus!
