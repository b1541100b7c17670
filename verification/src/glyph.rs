//! Glyphs: eight rows of eight pixels, one byte per row with the highest
//! bit as the leftmost pixel, and the font that holds one glyph for each
//! character code from 32 to 255.

use crate::frame::{in_rect, lemma_pictures_equal, lemma_with_pixel, sized, Framebuffer, Picture};
use crate::geometry::Point;
use crate::palette::Colour;
use vstd::prelude::*;

verus! {

/// Rows, and pixels in a row, of a glyph.
pub const GLYPH_SIZE: usize = 8;

/// The lowest character code that has a glyph.
pub const FIRST_GLYPH: u8 = 32;

/// Bytes of a font: eight for each of the codes 32 to 255.
pub const FONT_LENGTH: usize = 1792;

/// Whether bit `bit` of a row of a glyph is set, bit 0 being the lowest.
pub open spec fn bit_set(byte: u8, bit: int) -> bool {
    byte & (1u8 << (bit as u8)) != 0
}

/// Whether the pixel in column `col` of row `row` of a glyph is lit. Column
/// 0 is the leftmost and belongs to the highest bit.
pub open spec fn lit(rows: Seq<u8>, col: int, row: int) -> bool {
    0 <= row < rows.len() && 0 <= col < 8 && bit_set(rows[row], 7 - col)
}

/// The points of the lowest `bits` bits of one row of a glyph, from the
/// lowest bit up.
pub open spec fn row_points(byte: u8, y: int, bits: int) -> Seq<Point>
    decreases bits,
{
    if bits <= 0 {
        Seq::empty()
    } else {
        let below = row_points(byte, y, bits - 1);
        if bit_set(byte, bits - 1) {
            below.push(Point { x: (7 - (bits - 1)) as i32, y: y as i32 })
        } else {
            below
        }
    }
}

/// The lit points of a glyph relative to its top left corner, row after
/// row and within a row from the lowest bit up, that is from right to left.
pub open spec fn glyph_points(rows: Seq<u8>) -> Seq<Point>
    decreases rows.len(),
{
    if rows.len() == 0 {
        Seq::empty()
    } else {
        glyph_points(rows.drop_last()) + row_points(rows.last(), rows.len() - 1, 8)
    }
}

/// Whether a list of points holds the point `(col, row)`.
pub open spec fn listed(points: Seq<Point>, col: int, row: int) -> bool {
    exists|m: int| 0 <= m < points.len() && (#[trigger] points[m]).x == col && points[m].y == row
}

proof fn lemma_listed_push(points: Seq<Point>, p: Point, col: int, row: int)
    ensures
        listed(points.push(p), col, row) <==> listed(points, col, row) || (p.x == col && p.y
            == row),
{
    let longer = points.push(p);
    if listed(points, col, row) {
        let m = choose|m: int|
            0 <= m < points.len() && (#[trigger] points[m]).x == col && points[m].y == row;
        assert(longer[m] == points[m]);
    }
    if p.x == col && p.y == row {
        assert(longer[points.len() as int] == p);
    }
    if listed(longer, col, row) {
        let m = choose|m: int|
            0 <= m < longer.len() && (#[trigger] longer[m]).x == col && longer[m].y == row;
        if m < points.len() {
            assert(points[m] == longer[m]);
        }
    }
}

proof fn lemma_listed_add(first: Seq<Point>, second: Seq<Point>, col: int, row: int)
    ensures
        listed(first + second, col, row) <==> listed(first, col, row) || listed(second, col, row),
{
    let both = first + second;
    if listed(first, col, row) {
        let m = choose|m: int|
            0 <= m < first.len() && (#[trigger] first[m]).x == col && first[m].y == row;
        assert(both[m] == first[m]);
    }
    if listed(second, col, row) {
        let m = choose|m: int|
            0 <= m < second.len() && (#[trigger] second[m]).x == col && second[m].y == row;
        assert(both[first.len() + m] == second[m]);
    }
    if listed(both, col, row) {
        let m = choose|m: int|
            0 <= m < both.len() && (#[trigger] both[m]).x == col && both[m].y == row;
        if m < first.len() {
            assert(first[m] == both[m]);
        } else {
            assert(second[m - first.len()] == both[m]);
        }
    }
}

/// The points of a row are the lit pixels of that row.
proof fn lemma_row_points(byte: u8, y: int, bits: int, col: int, row: int)
    requires
        0 <= bits <= 8,
        0 <= y <= i32::MAX,
    ensures
        listed(row_points(byte, y, bits), col, row) <==> row == y && 0 <= 7 - col < bits
            && bit_set(byte, 7 - col),
    decreases bits,
{
    if bits > 0 {
        lemma_row_points(byte, y, bits - 1, col, row);
        if bit_set(byte, bits - 1) {
            lemma_listed_push(
                row_points(byte, y, bits - 1),
                Point { x: (7 - (bits - 1)) as i32, y: y as i32 },
                col,
                row,
            );
        }
    }
}

/// The list of points of a glyph holds exactly its lit pixels.
pub proof fn lemma_glyph_points(rows: Seq<u8>, col: int, row: int)
    requires
        rows.len() <= i32::MAX,
    ensures
        listed(glyph_points(rows), col, row) <==> lit(rows, col, row),
    decreases rows.len(),
{
    if rows.len() > 0 {
        lemma_glyph_points(rows.drop_last(), col, row);
        lemma_row_points(rows.last(), rows.len() - 1, 8, col, row);
        lemma_listed_add(
            glyph_points(rows.drop_last()),
            row_points(rows.last(), rows.len() - 1, 8),
            col,
            row,
        );
    }
}

/// A glyph whose rows are all zero has no lit pixel.
pub proof fn lemma_blank_glyph(rows: Seq<u8>, col: int, row: int)
    requires
        forall|r: int| 0 <= r < rows.len() ==> rows[r] == 0,
    ensures
        !lit(rows, col, row),
{
    if 0 <= row < rows.len() && 0 <= col < 8 {
        let bit = (7 - col) as u8;
        assert(0u8 & (1u8 << bit) == 0) by (bit_vector);
    }
}

/// The picture with a glyph drawn into the cell with the given top left
/// corner: its lit pixels in the foreground colour, the rest of the cell in
/// the background colour.
pub open spec fn with_glyph(
    p: Picture,
    rows: Seq<u8>,
    left: int,
    top: int,
    foreground: Colour,
    background: Colour,
) -> Picture {
    Seq::new(
        p.len(),
        |y: int|
            Seq::new(
                p[y].len(),
                |x: int|
                    if lit(rows, x - left, y - top) {
                        foreground
                    } else if in_rect(left, top, 8, 8, x, y) {
                        background
                    } else {
                        p[y][x]
                    },
            ),
    )
}

/// Lists the lit pixels of a glyph as points relative to its top left
/// corner.
pub fn get_points_from_font(bytes: &Vec<u8>) -> (points: Vec<Point>)
    requires
        bytes@.len() <= i32::MAX,
    ensures
        points@ == glyph_points(bytes@),
        forall|col: int, row: int| listed(points@, col, row) <==> lit(bytes@, col, row),
{
    let mut points: Vec<Point> = Vec::new();
    let mut y: usize = 0;
    while y < bytes.len()
        invariant
            0 <= y <= bytes@.len() <= i32::MAX,
            points@ == glyph_points(bytes@.take(y as int)),
        decreases bytes@.len() - y,
    {
        let byte = bytes[y];
        let ghost above = points@;
        let mut bit: u8 = 0;
        while bit < 8
            invariant
                0 <= bit <= 8,
                y < bytes@.len() <= i32::MAX,
                byte == bytes@[y as int],
                points@ == above + row_points(byte, y as int, bit as int),
            decreases 8 - bit,
        {
            if byte & (1u8 << bit) != 0 {
                points.push(Point::new(7 - bit as i32, y as i32));
            }
            bit += 1;
            assert(points@ =~= above + row_points(byte, y as int, bit as int));
        }
        proof {
            let upto = bytes@.take(y as int + 1);
            assert(upto.drop_last() =~= bytes@.take(y as int));
            assert(upto.last() == byte);
        }
        y += 1;
    }
    proof {
        assert(bytes@.take(y as int) =~= bytes@);
        assert forall|col: int, row: int| listed(points@, col, row) <==> lit(
            bytes@,
            col,
            row,
        ) by {
            lemma_glyph_points(bytes@, col, row);
        }
    }
    points
}

impl Framebuffer {
    /// Draws a glyph into the cell of eight by eight pixels with the given
    /// top left corner: the cell is filled with the background colour, then
    /// the lit pixels are set to the foreground colour.
    pub fn draw_glyph(
        &mut self,
        rows: &Vec<u8>,
        left: i32,
        top: i32,
        foreground: Colour,
        background: Colour,
    )
        requires
            old(self).wf(),
            rows@.len() == GLYPH_SIZE,
        ensures
            final(self).wf(),
            final(self).cols() == old(self).cols(),
            final(self).rows() == old(self).rows(),
            final(self)@ == with_glyph(
                old(self)@,
                rows@,
                left as int,
                top as int,
                foreground,
                background,
            ),
    {
        let ghost before = self@;
        let ghost w = self.cols();
        let ghost h = self.rows();
        proof {
            self.lemma_sized();
        }
        self.fill_rect(left, top, GLYPH_SIZE as u32, GLYPH_SIZE as u32, background);
        let ghost cleared = self@;
        proof {
            self.lemma_sized();
        }
        let points = get_points_from_font(rows);
        let mut n: usize = 0;
        while n < points.len()
            invariant
                self.wf(),
                self.cols() == w,
                self.rows() == h,
                sized(cleared, w, h),
                sized(self@, w, h),
                0 <= n <= points@.len(),
                forall|x: int, y: int|
                    0 <= x < w && 0 <= y < h ==> #[trigger] self@[y][x] == if listed(
                        points@.take(n as int),
                        x - left,
                        y - top,
                    ) {
                        foreground
                    } else {
                        cleared[y][x]
                    },
            decreases points@.len() - n,
        {
            let point = points[n];
            let ghost so_far = self@;
            let x: i128 = point.x as i128 + left as i128;
            let y: i128 = point.y as i128 + top as i128;
            proof {
                lemma_with_pixel(so_far, x as int, y as int, foreground, w, h);
            }
            self.put(x, y, foreground);
            proof {
                assert(points@.take(n as int + 1) =~= points@.take(n as int).push(point));
                assert forall|i: int, j: int| 0 <= i < w && 0 <= j < h implies #[trigger] self@[j][i]
                    == if listed(points@.take(n as int + 1), i - left, j - top) {
                    foreground
                } else {
                    cleared[j][i]
                } by {
                    lemma_listed_push(points@.take(n as int), point, i - left, j - top);
                }
            }
            n += 1;
        }
        proof {
            assert(points@.take(n as int) =~= points@);
            let target = with_glyph(
                before,
                rows@,
                left as int,
                top as int,
                foreground,
                background,
            );
            assert forall|x: int, y: int| 0 <= x < w && 0 <= y < h implies self@[y][x]
                == target[y][x] by {
                assert(before[y].len() == w);
            }
            assert forall|y: int| 0 <= y < h implies (#[trigger] target[y]).len() == w by {
                assert(before[y].len() == w);
            }
            lemma_pictures_equal(self@, target, w, h);
        }
    }
}

} // verus!
