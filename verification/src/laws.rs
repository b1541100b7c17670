//! Laws of the display processor that relate several of its operations.

use crate::command::Command;
use crate::frame::{blank, lemma_pictures_equal, sized, with_rect, Picture};
use crate::geometry::{lemma_scaled_bound, Point, LOGICAL_HEIGHT, LOGICAL_WIDTH};
use crate::glyph::lemma_blank_glyph;
use crate::palette::{lemma_listed_mode_bounds, mode_table, VIDEO_MODES};
use crate::state::{in_reach, VdpState};
use vstd::prelude::*;

verus! {

/// The glyph of the space character has no lit pixel.
pub open spec fn space_is_blank(s: VdpState) -> bool {
    forall|row: int| 0 <= row < 8 ==> #[trigger] s.glyph_rows(0x20)[row] == 0
}

/// A space drawn over a character leaves the cell in the background colour
/// and the rest of the screen as it was before the character was drawn.
pub proof fn lemma_space_blanks_cell(s: VdpState, code: u8)
    requires
        s.valid(),
        space_is_blank(s),
    ensures
        s.rendered(code).rendered(0x20).picture == with_rect(
            s.picture,
            s.cursor.position_x as int,
            s.cursor.position_y as int,
            8,
            8,
            s.background,
        ),
{
    let w = s.mode.screen_width as int;
    let h = s.mode.screen_height as int;
    let drawn = s.rendered(code);
    let end = drawn.rendered(0x20);
    let target = with_rect(
        s.picture,
        s.cursor.position_x as int,
        s.cursor.position_y as int,
        8,
        8,
        s.background,
    );
    assert(s.glyph_rows(0x20).len() == 8);
    assert forall|y: int| 0 <= y < h implies (#[trigger] drawn.picture[y]).len() == w by {
        assert(s.picture[y].len() == w);
    }
    assert forall|y: int| 0 <= y < h implies (#[trigger] end.picture[y]).len() == w by {
        assert(drawn.picture[y].len() == w);
    }
    assert forall|y: int| 0 <= y < h implies (#[trigger] target[y]).len() == w by {
        assert(s.picture[y].len() == w);
    }
    assert forall|x: int, y: int| 0 <= x < w && 0 <= y < h implies end.picture[y][x]
        == target[y][x] by {
        assert(s.picture[y].len() == w);
        assert(drawn.picture[y].len() == w);
        lemma_blank_glyph(
            s.glyph_rows(0x20),
            x - s.cursor.position_x,
            y - s.cursor.position_y,
        );
    }
    lemma_pictures_equal(end.picture, target, w, h);
}

/// A character that is put on the screen and rubbed out again leaves no
/// trace: after the character has been drawn and the cursor has moved on,
/// a backspace and a space drawn at the cursor bring the cursor back to the
/// cell and leave the cell in the background colour, as on a screen that
/// was never written to there. This needs a blank glyph for the space and a
/// cell that is not the last of its row.
pub proof fn lemma_rubbed_out(s: VdpState, code: u8)
    requires
        s.valid(),
        space_is_blank(s),
        !s.cursor.wraps(),
    ensures
        s.stamped(code).backspaced().rendered(0x20).cursor == s.cursor,
        s.stamped(code).backspaced().rendered(0x20).picture == with_rect(
            s.picture,
            s.cursor.position_x as int,
            s.cursor.position_y as int,
            8,
            8,
            s.background,
        ),
        s.picture == blank(
            s.mode.screen_width as int,
            s.mode.screen_height as int,
            s.background,
        ) ==> s.stamped(code).backspaced().rendered(0x20).picture == s.picture,
{
    let w = s.mode.screen_width as int;
    let h = s.mode.screen_height as int;
    let drawn = s.rendered(code);
    let advanced = s.stamped(code);
    let back = advanced.with_cursor(advanced.cursor.moved_left());
    assert(back.cursor == s.cursor);
    assert(back == drawn);
    lemma_space_blanks_cell(s, code);
    let blanked = drawn.rendered(0x20);
    let target = with_rect(
        s.picture,
        s.cursor.position_x as int,
        s.cursor.position_y as int,
        8,
        8,
        s.background,
    );
    let end = advanced.backspaced().rendered(0x20);
    assert(advanced.backspaced() == blanked);
    assert forall|y: int| 0 <= y < h implies (#[trigger] target[y]).len() == w by {
        assert(s.picture[y].len() == w);
    }
    assert(blanked.picture == target);
    assert(end == blanked.rendered(0x20));
    assert(blanked.glyph_rows(0x20) == s.glyph_rows(0x20));
    assert forall|y: int| 0 <= y < h implies (#[trigger] end.picture[y]).len() == w by {
        assert(target[y].len() == w);
    }
    assert forall|x: int, y: int| 0 <= x < w && 0 <= y < h implies end.picture[y][x]
        == target[y][x] by {
        assert(s.picture[y].len() == w);
        assert(target[y].len() == w);
        lemma_blank_glyph(
            s.glyph_rows(0x20),
            x - s.cursor.position_x,
            y - s.cursor.position_y,
        );
    }
    lemma_pictures_equal(end.picture, target, w, h);
    if s.picture == blank(w, h, s.background) {
        assert forall|x: int, y: int| 0 <= x < w && 0 <= y < h implies target[y][x]
            == s.picture[y][x] by {
            assert(s.picture[y].len() == w);
        }
        lemma_pictures_equal(target, s.picture, w, h);
    }
}

/// A switch of mode puts the last three points and the graphics origin at
/// zero and leaves a screen of the size of the new mode in the background
/// colour.
pub proof fn lemma_mode_switch_resets(s: VdpState, index: u8)
    requires
        index < VIDEO_MODES,
    ensures
        s.in_mode(mode_table(index as int)).p1 == (Point { x: 0, y: 0 }),
        s.in_mode(mode_table(index as int)).p2 == (Point { x: 0, y: 0 }),
        s.in_mode(mode_table(index as int)).p3 == (Point { x: 0, y: 0 }),
        s.in_mode(mode_table(index as int)).origin == (Point { x: 0, y: 0 }),
        s.in_mode(mode_table(index as int)).picture == blank(
            mode_table(index as int).screen_width as int,
            mode_table(index as int).screen_height as int,
            s.background,
        ),
        forall|x: int, y: int|
            0 <= x < mode_table(index as int).screen_width && 0 <= y < mode_table(
                index as int,
            ).screen_height ==> s.in_mode(mode_table(index as int)).picture[y][x] == s.background,
{
}

/// The screen is cleared without a change to the graphics state.
pub proof fn lemma_clear_keeps_graphics(s: VdpState)
    ensures
        s.cleared().p1 == s.p1,
        s.cleared().p2 == s.p2,
        s.cleared().p3 == s.p3,
        s.cleared().origin == s.origin,
        s.cleared().logical_coords == s.logical_coords,
        s.cleared().graphics == s.graphics,
{
}

/// After the look at the bottom of the screen the cell at the cursor does
/// not reach below the screen, and a cursor whose cell was on the screen
/// before has not moved.
pub proof fn lemma_scroll_check_keeps_cursor_on_screen(s: VdpState)
    requires
        s.before_scroll(),
    ensures
        s.scroll_checked().cursor.within_screen(),
        s.scroll_checked().cursor.valid(),
        s.overdraw() <= 0 ==> s.scroll_checked() == s,
        s.overdraw() > 0 ==> s.scroll_checked().cursor.position_y == s.mode.screen_height - 8,
        s.scroll_checked().cursor.position_x == s.cursor.position_x,
{
    lemma_listed_mode_bounds(s.mode);
}

/// A character printed leaves the cursor on the screen: the cell at the
/// cursor starts on the screen and does not reach below it.
pub proof fn lemma_printing_stays_on_screen(s: VdpState, code: u8)
    requires
        s.valid(),
    ensures
        s.printed(code).cursor.valid(),
        s.printed(code).cursor.within_screen(),
{
    lemma_listed_mode_bounds(s.mode);
    let moved = s.stamped(code);
    assert(moved.cursor == s.cursor.moved_right());
}

/// A picture whose rows are as long as those of a picture of a known size
/// has that size.
proof fn lemma_same_rows(p: Picture, q: Picture, width: int, height: int)
    requires
        sized(p, width, height),
        q.len() == p.len(),
        forall|y: int| 0 <= y < p.len() ==> (#[trigger] q[y]).len() == p[y].len(),
    ensures
        sized(q, width, height),
{
    assert forall|y: int| 0 <= y < height implies (#[trigger] q[y]).len() == width by {
        assert(p[y].len() == width);
    }
}

/// The device pixel of a plot command is never far from the screen.
pub proof fn lemma_device_point_in_reach(s: VdpState, x: i16, y: i16)
    requires
        s.valid(),
    ensures
        in_reach(s.device_point(x, y)),
        in_reach(s.scaled(Point { x: x as i32, y: y as i32 })),
        x >= 0 && y >= 0 ==> 0 <= s.scaled(Point { x: x as i32, y: y as i32 }).x <= 0x7fff && 0
            <= s.scaled(Point { x: x as i32, y: y as i32 }).y <= 0x7fff,
{
    lemma_listed_mode_bounds(s.mode);
    lemma_scaled_bound(x as int, s.cursor.screen_width as int, LOGICAL_WIDTH as int);
    lemma_scaled_bound(y as int, s.cursor.screen_height as int, LOGICAL_HEIGHT as int);
}

/// Every command that is permitted leads from a valid state to a valid
/// state. In particular the cursor keeps its invariant: it stays in a column
/// of the screen and in a row that is neither above the top edge nor beyond
/// the bottom edge.
pub proof fn lemma_commands_keep_state_valid(s: VdpState, command: Command)
    requires
        s.valid(),
        s.permits(command),
    ensures
        s.after(command).valid(),
        0 <= s.after(command).cursor.position_x < s.after(command).cursor.screen_width,
        0 <= s.after(command).cursor.position_y <= s.after(command).cursor.screen_height,
{
    let w = s.mode.screen_width as int;
    let h = s.mode.screen_height as int;
    lemma_listed_mode_bounds(s.mode);
    match command {
        Command::Glyph(code) => {
            let drawn = s.rendered(code);
            lemma_same_rows(s.picture, drawn.picture, w, h);
            let moved = s.stamped(code);
            lemma_same_rows(moved.picture, moved.scroll_checked().picture, w, h);
        },
        Command::CursorRight => {
            let moved = s.with_cursor(s.cursor.moved_right());
            lemma_same_rows(s.picture, moved.scroll_checked().picture, w, h);
        },
        Command::CursorDown => {
            let moved = s.with_cursor(s.cursor.moved_down());
            lemma_same_rows(s.picture, moved.scroll_checked().picture, w, h);
        },
        Command::Mode(index) => {
            lemma_listed_mode_bounds(mode_table(index as int));
        },
        Command::RedefineGlyph { code, bitmap } => {
            assert(bitmap.rows().len() == 8);
        },
        Command::Plot { mode, x, y } => {
            lemma_device_point_in_reach(s, x, y);
            lemma_same_rows(s.picture, s.plotted(mode, x, y).picture, w, h);
        },
        Command::GraphicsOrigin { x, y } => {
            lemma_device_point_in_reach(s, x, y);
        },
        Command::Tab { column, row } => {
            assert(column * 8 >= 0 && row * 8 >= 0);
        },
        Command::Backspace => {
            lemma_same_rows(s.picture, s.backspaced().picture, w, h);
        },
        _ => {},
    }
}

/// A step to the right is carried out in every state, the state below the
/// last cell of the screen too: there it ends at the start of the lowest
/// row, with the screen moved up by one row of cells.
pub proof fn lemma_step_right_stays_on_screen(s: VdpState)
    requires
        s.valid(),
    ensures
        s.permits(Command::CursorRight),
        s.after(Command::CursorRight).cursor.within_screen(),
        0 <= s.after(Command::CursorRight).cursor.position_x < s.mode.screen_width,
        s.cursor.wraps() && s.cursor.position_y == s.mode.screen_height ==> s.after(
            Command::CursorRight,
        ).cursor.position_y == s.mode.screen_height - 8 && s.after(
            Command::CursorRight,
        ).cursor.position_x == 0,
{
    lemma_listed_mode_bounds(s.mode);
}

} // verus!
