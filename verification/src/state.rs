//! The mathematical model of the display processor: its state as plain
//! values, and what each operation makes of a state.

use crate::command::{partial, Bitmap, Command};
use crate::cursor::Cursor;
use crate::frame::{blank, scrolled, sized, with_line, with_pixel, Picture};
use crate::geometry::{scaled, translated, Point};
use crate::glyph::{with_glyph, FIRST_GLYPH, FONT_LENGTH};
use crate::packet::{
    cursor_payload, framed, mode_payload, PACKET_CURSOR, PACKET_GENERAL, PACKET_MODE,
};
use crate::palette::{mode_table, resolved, Colour, VideoMode, VIDEO_MODES};
use crate::triangle::with_triangle;
use vstd::prelude::*;

verus! {

/// No coordinate of a plotted point is further from zero than this.
pub const POINT_LIMIT: i32 = 0x1_0000;

/// No coordinate of the graphics origin is larger than this.
pub const ORIGIN_LIMIT: i32 = 0x7fff;

/// Why a command was not carried out.
#[derive(Clone, Copy, Debug, PartialEq, Eq, Structural)]
pub enum VdpError {
    /// The font does not hold eight bytes for each code from 32 to 255.
    FontLength,
    /// There is no video mode with the index that was asked for.
    UnknownMode,
}

/// What is left to do after a command: the model of `Action`.
pub enum ActionModel {
    Wait,
    Done,
    Send(Seq<u8>),
    Circle { centre: Point, radius_squared: int },
    Ignored(Command),
}

/// The state of the display processor.
pub struct VdpState {
    pub cursor: Cursor,
    pub picture: Picture,
    pub mode: VideoMode,
    pub foreground: Colour,
    pub background: Colour,
    pub graphics: Colour,
    pub cursor_active: bool,
    pub logical_coords: bool,
    pub p1: Point,
    pub p2: Point,
    pub p3: Point,
    pub origin: Point,
    pub font: Seq<u8>,
    pub pending: Seq<u8>,
}

/// The point is near enough to the screen to have come from a plot command.
pub open spec fn in_reach(p: Point) -> bool {
    -POINT_LIMIT <= p.x <= POINT_LIMIT && -POINT_LIMIT <= p.y <= POINT_LIMIT
}

/// The plot code draws a line to the new point.
pub open spec fn plots_line(mode: u8) -> bool {
    mode == 5
}

/// The plot code draws the new point.
pub open spec fn plots_dot(mode: u8) -> bool {
    64 <= mode <= 71
}

/// The plot code fills the triangle of the last three points.
pub open spec fn plots_triangle(mode: u8) -> bool {
    80 <= mode <= 87
}

/// The plot code asks for a circle.
pub open spec fn plots_circle(mode: u8) -> bool {
    144 <= mode <= 151
}

/// The plot code only moves to the new point.
pub open spec fn plots_move(mode: u8) -> bool {
    mode == 4
}

/// The picture with the lines from each of the first `count` points of a
/// path to the next one.
pub open spec fn with_path(p: Picture, points: Seq<Point>, count: int, colour: Colour) -> Picture
    decreases count,
{
    if count <= 0 {
        p
    } else {
        with_line(with_path(p, points, count - 1, colour), points[count - 1], points[count], colour)
    }
}

/// The picture with a closed outline drawn through the given points: a line
/// from each point to the next and one from the last back to the first.
pub open spec fn with_outline(p: Picture, points: Seq<Point>, colour: Colour) -> Picture {
    if points.len() == 0 {
        p
    } else {
        with_line(
            with_path(p, points, points.len() - 1, colour),
            points.last(),
            points[0],
            colour,
        )
    }
}

/// The text that is shown when the processor starts: "Agon Quark VDP
/// Version 1.03".
pub open spec fn boot_message() -> Seq<u8> {
    seq![
        0x41u8, 0x67, 0x6F, 0x6E, 0x20, 0x51, 0x75, 0x61, 0x72, 0x6B, 0x20, 0x56, 0x44, 0x50,
        0x20, 0x56, 0x65, 0x72, 0x73, 0x69, 0x6F, 0x6E, 0x20, 0x31, 0x2E, 0x30, 0x33,
    ]
}

impl VdpState {
    /// What holds of every state that the processor can be in: one mode of
    /// the catalogue is in use, the screen and the cursor have its size, the
    /// cursor is in a column of the screen and in a row not beyond its bottom
    /// edge, the font is whole, and the graphics state is near the screen.
    pub open spec fn valid(self) -> bool {
        &&& self.consistent()
        &&& self.cursor.valid()
    }

    /// What holds between a step of the cursor and the look at the bottom of
    /// the screen that follows it: all of `valid`, but the cursor may lie up
    /// to one cell beyond the bottom edge.
    pub open spec fn before_scroll(self) -> bool {
        &&& self.consistent()
        &&& self.cursor.valid_before_scroll()
    }

    /// What holds of a state whatever the row of the cursor is.
    pub open spec fn consistent(self) -> bool {
        &&& self.mode.listed()
        &&& self.cursor.in_a_column()
        &&& self.cursor.screen_width == self.mode.screen_width
        &&& self.cursor.screen_height == self.mode.screen_height
        &&& self.cursor.font_width == 8
        &&& self.cursor.font_height == 8
        &&& sized(self.picture, self.mode.screen_width as int, self.mode.screen_height as int)
        &&& self.font.len() == FONT_LENGTH
        &&& in_reach(self.p1)
        &&& in_reach(self.p2)
        &&& in_reach(self.p3)
        &&& 0 <= self.origin.x <= ORIGIN_LIMIT
        &&& 0 <= self.origin.y <= ORIGIN_LIMIT
        &&& partial(self.pending)
    }

    /// The state in which a processor with the given font starts: mode 1,
    /// white on black, logical coordinates on, a black screen.
    pub open spec fn initial(font: Seq<u8>) -> VdpState {
        VdpState {
            cursor: Cursor {
                position_x: 0,
                position_y: 0,
                screen_width: 512,
                screen_height: 384,
                font_width: 8,
                font_height: 8,
            },
            picture: blank(512, 384, Colour { r: 0, g: 0, b: 0 }),
            mode: mode_table(1),
            foreground: Colour { r: 255, g: 255, b: 255 },
            background: Colour { r: 0, g: 0, b: 0 },
            graphics: Colour { r: 255, g: 255, b: 255 },
            cursor_active: false,
            logical_coords: true,
            p1: Point { x: 0, y: 0 },
            p2: Point { x: 0, y: 0 },
            p3: Point { x: 0, y: 0 },
            origin: Point { x: 0, y: 0 },
            font,
            pending: Seq::empty(),
        }
    }

    /// The screen filled with the background colour and the cursor in the
    /// top left corner. The graphics state stays as it is.
    pub open spec fn cleared(self) -> VdpState {
        VdpState {
            picture: blank(
                self.mode.screen_width as int,
                self.mode.screen_height as int,
                self.background,
            ),
            cursor: Cursor { position_x: 0, position_y: 0, ..self.cursor },
            ..self
        }
    }

    /// The screen filled with the background colour.
    pub open spec fn graphics_cleared(self) -> VdpState {
        VdpState {
            picture: blank(
                self.mode.screen_width as int,
                self.mode.screen_height as int,
                self.background,
            ),
            ..self
        }
    }

    /// The state after a switch to the given mode: a cleared screen of the
    /// mode's size, the cursor in the top left corner, and the last three
    /// points and the graphics origin at zero.
    pub open spec fn in_mode(self, mode: VideoMode) -> VdpState {
        VdpState {
            mode,
            picture: blank(mode.screen_width as int, mode.screen_height as int, self.background),
            cursor: Cursor {
                position_x: 0,
                position_y: 0,
                screen_width: mode.screen_width as i32,
                screen_height: mode.screen_height as i32,
                ..self.cursor
            },
            p1: Point { x: 0, y: 0 },
            p2: Point { x: 0, y: 0 },
            p3: Point { x: 0, y: 0 },
            origin: Point { x: 0, y: 0 },
            ..self
        }
    }

    /// The eight rows of the glyph of a character code from 32 up.
    pub open spec fn glyph_rows(self, code: u8) -> Seq<u8> {
        self.font.subrange(8 * (code - FIRST_GLYPH), 8 * (code - FIRST_GLYPH) + 8)
    }

    /// The glyph of a character drawn into the cell at the cursor. A code
    /// below 32 has no glyph and draws nothing.
    pub open spec fn rendered(self, code: u8) -> VdpState {
        if code >= FIRST_GLYPH {
            VdpState {
                picture: with_glyph(
                    self.picture,
                    self.glyph_rows(code),
                    self.cursor.position_x as int,
                    self.cursor.position_y as int,
                    self.foreground,
                    self.background,
                ),
                ..self
            }
        } else {
            self
        }
    }

    /// By how many pixels the cell at the cursor reaches below the screen.
    pub open spec fn overdraw(self) -> int {
        self.cursor.position_y - self.mode.screen_height + self.cursor.font_height
    }

    /// The screen scrolled up, and the cursor with it, by as many pixels as
    /// the cell at the cursor reaches below the screen.
    pub open spec fn scroll_checked(self) -> VdpState {
        if self.overdraw() > 0 {
            VdpState {
                picture: scrolled(self.picture, self.overdraw(), self.background),
                cursor: Cursor {
                    position_y: (self.cursor.position_y - self.overdraw()) as i32,
                    ..self.cursor
                },
                ..self
            }
        } else {
            self
        }
    }

    /// The state with the cursor replaced.
    pub open spec fn with_cursor(self, cursor: Cursor) -> VdpState {
        VdpState { cursor, ..self }
    }

    /// A character drawn at the cursor and the cursor moved on one cell,
    /// without a look at the bottom of the screen.
    pub open spec fn stamped(self, code: u8) -> VdpState {
        let drawn = self.rendered(code);
        drawn.with_cursor(drawn.cursor.moved_right())
    }

    /// A character printed: drawn at the cursor, the cursor moved on, and
    /// the screen scrolled if the cursor went below it.
    pub open spec fn printed(self, code: u8) -> VdpState {
        self.stamped(code).scroll_checked()
    }

    /// A text stamped character by character.
    pub open spec fn stamped_all(self, text: Seq<u8>) -> VdpState
        decreases text.len(),
    {
        if text.len() == 0 {
            self
        } else {
            self.stamped_all(text.drop_last()).stamped(text.last())
        }
    }

    /// The boot message shown and the cursor at the start of the next row.
    pub open spec fn booted(self) -> VdpState {
        let shown = self.stamped_all(boot_message());
        shown.with_cursor(shown.cursor.moved_down().at_home())
    }

    /// The cursor moved one cell to the left and that cell blanked.
    pub open spec fn backspaced(self) -> VdpState {
        self.with_cursor(self.cursor.moved_left()).rendered(0x20)
    }

    /// The text colour selected: a number below 128 sets the foreground,
    /// any other the background.
    pub open spec fn text_coloured(self, c: u8) -> VdpState {
        if c < 128 {
            VdpState { foreground: resolved(self.mode.palette(), c as int), ..self }
        } else {
            VdpState { background: resolved(self.mode.palette(), c as int), ..self }
        }
    }

    /// The graphics colour selected.
    pub open spec fn graphics_coloured(self, c: u8) -> VdpState {
        VdpState { graphics: resolved(self.mode.palette(), c as int), ..self }
    }

    /// A point scaled to the device.
    pub open spec fn scaled(self, p: Point) -> Point {
        scaled(
            self.logical_coords,
            self.cursor.screen_width as int,
            self.cursor.screen_height as int,
            p,
        )
    }

    /// A point moved by the graphics origin.
    pub open spec fn translated(self, p: Point) -> Point {
        translated(self.logical_coords, self.cursor.screen_height as int, self.origin, p)
    }

    /// The device pixel that the coordinates of a plot command stand for.
    pub open spec fn device_point(self, x: i16, y: i16) -> Point {
        self.translated(self.scaled(Point { x: x as i32, y: y as i32 }))
    }

    /// The state with a new point at the head of the last three.
    pub open spec fn moved_to(self, p: Point) -> VdpState {
        VdpState { p3: self.p2, p2: self.p1, p1: p, ..self }
    }

    /// A plot command carried out: the new point joins the last three, then
    /// the plot code decides what is drawn in the graphics colour. The
    /// outline of a circle is not drawn here.
    pub open spec fn plotted(self, mode: u8, x: i16, y: i16) -> VdpState {
        let moved = self.moved_to(self.device_point(x, y));
        if plots_line(mode) {
            VdpState {
                picture: with_line(moved.picture, moved.p1, moved.p2, moved.graphics),
                ..moved
            }
        } else if plots_dot(mode) {
            VdpState {
                picture: with_pixel(
                    moved.picture,
                    moved.p1.x as int,
                    moved.p1.y as int,
                    moved.graphics,
                ),
                ..moved
            }
        } else if plots_triangle(mode) {
            VdpState {
                picture: with_triangle(moved.picture, moved.p1, moved.p2, moved.p3, moved.graphics),
                ..moved
            }
        } else {
            moved
        }
    }

    /// The square of the radius of the circle that a plot code asks for,
    /// once the new point has joined the last three: codes below 148 take
    /// the distance of the new point from the top left corner of the screen,
    /// the others its distance from the point before it.
    pub open spec fn radius_squared(self, mode: u8) -> int {
        if mode < 148 {
            self.p1.x * self.p1.x + self.p1.y * self.p1.y
        } else {
            (self.p1.x - self.p2.x) * (self.p1.x - self.p2.x) + (self.p1.y - self.p2.y) * (
            self.p1.y - self.p2.y)
        }
    }

    /// What is left to do after a plot command.
    pub open spec fn plot_outcome(self, mode: u8, x: i16, y: i16) -> ActionModel {
        let moved = self.moved_to(self.device_point(x, y));
        if plots_circle(mode) {
            ActionModel::Circle { centre: moved.p2, radius_squared: moved.radius_squared(mode) }
        } else if plots_move(mode) || plots_line(mode) || plots_dot(mode) || plots_triangle(mode) {
            ActionModel::Done
        } else {
            ActionModel::Ignored(Command::Plot { mode, x, y })
        }
    }

    /// A closed outline drawn through the given points in the graphics
    /// colour.
    pub open spec fn outlined(self, points: Seq<Point>) -> VdpState {
        VdpState { picture: with_outline(self.picture, points, self.graphics), ..self }
    }

    /// The graphics origin set; coordinates of which one is negative leave
    /// it as it is.
    pub open spec fn origin_set(self, x: i16, y: i16) -> VdpState {
        if x >= 0 && y >= 0 {
            VdpState { origin: self.scaled(Point { x: x as i32, y: y as i32 }), ..self }
        } else {
            self
        }
    }

    /// The cursor moved to a column and a row of character cells; a cell
    /// that does not start on the screen leaves it where it is.
    pub open spec fn tabbed(self, column: u8, row: u8) -> VdpState {
        if column * self.cursor.font_width < self.cursor.screen_width && row
            * self.cursor.font_height < self.cursor.screen_height {
            self.with_cursor(
                Cursor {
                    position_x: (column * self.cursor.font_width) as i32,
                    position_y: (row * self.cursor.font_height) as i32,
                    ..self.cursor
                },
            )
        } else {
            self
        }
    }

    /// The font with the glyph of one character code replaced. A code below
    /// 32 has no glyph and leaves the font as it is.
    pub open spec fn glyph_redefined(self, code: u8, bitmap: Bitmap) -> VdpState {
        let start = 8 * (code - FIRST_GLYPH);
        if code >= FIRST_GLYPH {
            VdpState {
                font: self.font.subrange(0, start) + bitmap.rows() + self.font.subrange(
                    start + 8,
                    self.font.len() as int,
                ),
                ..self
            }
        } else {
            self
        }
    }

    /// Whether a command can be carried out: a mode switch needs a mode of
    /// the catalogue, every other command is carried out always. A command
    /// that is not permitted is refused with `VdpError::UnknownMode`.
    pub open spec fn permits(self, command: Command) -> bool {
        match command {
            Command::Mode(index) => index < VIDEO_MODES,
            _ => true,
        }
    }

    /// The state after a command that is permitted.
    pub open spec fn after(self, command: Command) -> VdpState {
        match command {
            Command::Glyph(code) => self.printed(code),
            Command::CursorLeft => self.with_cursor(self.cursor.moved_left()),
            Command::CursorRight => self.with_cursor(self.cursor.moved_right()).scroll_checked(),
            Command::CursorDown => self.with_cursor(self.cursor.moved_down()).scroll_checked(),
            Command::CursorUp => self.with_cursor(self.cursor.moved_up()),
            Command::ClearScreen => self.cleared(),
            Command::CarriageReturn => self.with_cursor(self.cursor.at_home()),
            Command::ClearGraphics => self.graphics_cleared(),
            Command::TextColour(c) => self.text_coloured(c),
            Command::GraphicsColour { mode, colour } => self.graphics_coloured(colour),
            Command::Mode(index) => self.in_mode(mode_table(index as int)),
            Command::LogicalCoords(on) => VdpState { logical_coords: on, ..self },
            Command::RedefineGlyph { code, bitmap } => self.glyph_redefined(code, bitmap),
            Command::Plot { mode, x, y } => self.plotted(mode, x, y),
            Command::GraphicsOrigin { x, y } => self.origin_set(x, y),
            Command::Home => self.with_cursor(self.cursor.at_home()),
            Command::Tab { column, row } => self.tabbed(column, row),
            Command::Backspace => self.backspaced(),
            _ => self,
        }
    }

    /// What is left to do after a command that is permitted: a reply to
    /// send, a circle to work out, or nothing; a command that stands for
    /// nothing is handed back.
    pub open spec fn outcome(self, command: Command) -> ActionModel {
        match command {
            Command::Mode(index) => {
                let switched = self.in_mode(mode_table(index as int));
                ActionModel::Send(
                    framed(PACKET_MODE, mode_payload(switched.cursor, switched.mode)),
                )
            },
            Command::Echo(byte) => ActionModel::Send(framed(PACKET_GENERAL, seq![byte])),
            Command::CursorPosition => ActionModel::Send(
                framed(PACKET_CURSOR, cursor_payload(self.cursor)),
            ),
            Command::ModeInformation => ActionModel::Send(
                framed(PACKET_MODE, mode_payload(self.cursor, self.mode)),
            ),
            Command::Plot { mode, x, y } => self.plot_outcome(mode, x, y),
            Command::UnknownSystem(_) => ActionModel::Ignored(command),
            Command::UnknownExtended(_) => ActionModel::Ignored(command),
            Command::Unknown(_) => ActionModel::Ignored(command),
            _ => ActionModel::Done,
        }
    }

    /// The state with no command under way.
    pub open spec fn idle(self) -> VdpState {
        VdpState { pending: Seq::empty(), ..self }
    }
}

} // verus!
