//! The display processor: text and graphics state around a framebuffer,
//! and the operations that the command stream is made of.

use crate::command::{Bitmap, Command};
use crate::cursor::Cursor;
use crate::frame::Framebuffer;
use crate::geometry::{abs, scale_point, translatable, translate_point, Point};
use crate::glyph::{FIRST_GLYPH, FONT_LENGTH, GLYPH_SIZE};
use crate::packet::{cursor_packet, frame_packet, key_packet, mode_packet, PACKET_GENERAL};
use crate::palette::{
    lemma_listed_mode_bounds, palette_for, palette_in_order, resolve, video_mode, Colour,
    VideoMode, VIDEO_MODES,
};
use crate::state::{ActionModel, VdpError, VdpState};
use vstd::prelude::*;

verus! {

/// What is left to do after a byte or a command has been taken in.
#[derive(Debug, PartialEq, Eq)]
pub enum Action {
    /// The command needs more bytes: the next one is to be waited for.
    Wait,
    /// The command has been carried out and nothing is left to do.
    Done,
    /// The command has been carried out and these bytes answer it.
    Send(Vec<u8>),
    /// The command asks for a circle round `centre`; its outline is drawn
    /// once the points on it have been worked out.
    Circle { centre: Point, radius_squared: u64 },
    /// The command, or its plot code, stands for nothing: it is handed back
    /// to be reported.
    Ignored(Command),
}

impl View for Action {
    type V = ActionModel;

    open spec fn view(&self) -> ActionModel {
        match *self {
            Action::Wait => ActionModel::Wait,
            Action::Done => ActionModel::Done,
            Action::Send(bytes) => ActionModel::Send(bytes@),
            Action::Circle { centre, radius_squared } => ActionModel::Circle {
                centre,
                radius_squared: radius_squared as int,
            },
            Action::Ignored(command) => ActionModel::Ignored(command),
        }
    }
}

/// The display processor.
pub struct VDP {
    cursor: Cursor,
    frame: Framebuffer,
    current_video_mode: VideoMode,
    /// The palette of the mode in use; the mode decides it, so the model
    /// does not hold it.
    palette: Vec<u8>,
    foreground_color: Colour,
    background_color: Colour,
    graph_color: Colour,
    cursor_active: bool,
    logical_coords: bool,
    p1: Point,
    p2: Point,
    p3: Point,
    graph_origin: Point,
    font_data: Vec<u8>,
    pending: Vec<u8>,
}

impl View for VDP {
    type V = VdpState;

    closed spec fn view(&self) -> VdpState {
        VdpState {
            cursor: self.cursor,
            picture: self.frame@,
            mode: self.current_video_mode,
            foreground: self.foreground_color,
            background: self.background_color,
            graphics: self.graph_color,
            cursor_active: self.cursor_active,
            logical_coords: self.logical_coords,
            p1: self.p1,
            p2: self.p2,
            p3: self.p3,
            origin: self.graph_origin,
            font: self.font_data@,
            pending: self.pending@,
        }
    }
}

impl VDP {
    /// The state is valid, the framebuffer has the size of the mode and the
    /// palette is that of the mode.
    pub closed spec fn wf(&self) -> bool {
        &&& self@.valid()
        &&& self.frame.wf()
        &&& self.frame.cols() == self.current_video_mode.screen_width
        &&& self.frame.rows() == self.current_video_mode.screen_height
        &&& self.palette@ == self.current_video_mode.palette()
        &&& palette_in_order(self.palette@)
    }

    /// As `wf`, between a step of the cursor and the look at the bottom of
    /// the screen that follows it.
    closed spec fn wf_before_scroll(&self) -> bool {
        &&& self@.before_scroll()
        &&& self.frame.wf()
        &&& self.frame.cols() == self.current_video_mode.screen_width
        &&& self.frame.rows() == self.current_video_mode.screen_height
        &&& self.palette@ == self.current_video_mode.palette()
        &&& palette_in_order(self.palette@)
    }

    /// The state of a well-formed processor is valid.
    pub proof fn lemma_valid(&self)
        requires
            self.wf(),
        ensures
            self@.valid(),
    {
    }

    /// A processor in mode 1 with the given font, which must hold eight
    /// bytes for each character code from 32 to 255.
    pub fn new(font: Vec<u8>) -> (made: Result<VDP, VdpError>)
        ensures
            match made {
                Ok(vdp) => font@.len() == FONT_LENGTH && vdp.wf() && vdp@ == VdpState::initial(
                    font@,
                ),
                Err(error) => font@.len() != FONT_LENGTH && error == VdpError::FontLength,
            },
    {
        if font.len() != FONT_LENGTH {
            return Err(VdpError::FontLength);
        }
        let mode = VideoMode { colors: 16, screen_width: 512, screen_height: 384, refresh_rate: 60 };
        let black = Colour { r: 0, g: 0, b: 0 };
        let white = Colour { r: 255, g: 255, b: 255 };
        let vdp = VDP {
            cursor: Cursor::new(512, 384, 8, 8),
            frame: Framebuffer::new(512, 384, black),
            current_video_mode: mode,
            palette: palette_for(16),
            foreground_color: white,
            background_color: black,
            graph_color: white,
            cursor_active: false,
            logical_coords: true,
            p1: Point::new(0, 0),
            p2: Point::new(0, 0),
            p3: Point::new(0, 0),
            graph_origin: Point::new(0, 0),
            font_data: font,
            pending: Vec::new(),
        };
        proof {
            vdp.frame.lemma_sized();
            assert(vdp@.pending =~= Seq::<u8>::empty());
        }
        Ok(vdp)
    }

    /// The text cursor.
    pub fn cursor(&self) -> (cursor: Cursor)
        ensures
            cursor == self@.cursor,
    {
        self.cursor
    }

    /// The framebuffer.
    pub fn frame(&self) -> (frame: &Framebuffer)
        requires
            self.wf(),
        ensures
            frame@ == self@.picture,
            frame.wf(),
            frame.cols() == self@.mode.screen_width,
            frame.rows() == self@.mode.screen_height,
    {
        &self.frame
    }

    /// The mode in use.
    pub fn video_mode(&self) -> (mode: VideoMode)
        ensures
            mode == self@.mode,
    {
        self.current_video_mode
    }

    /// The colour of text.
    pub fn foreground_color(&self) -> (colour: Colour)
        ensures
            colour == self@.foreground,
    {
        self.foreground_color
    }

    /// The colour behind text and of a cleared screen.
    pub fn background_color(&self) -> (colour: Colour)
        ensures
            colour == self@.background,
    {
        self.background_color
    }

    /// The colour of graphics.
    pub fn graph_color(&self) -> (colour: Colour)
        ensures
            colour == self@.graphics,
    {
        self.graph_color
    }

    /// Whether plot coordinates are taken from the logical canvas.
    pub fn logical_coords(&self) -> (on: bool)
        ensures
            on == self@.logical_coords,
    {
        self.logical_coords
    }

    /// The last three plotted points, the latest first.
    pub fn points(&self) -> (points: (Point, Point, Point))
        ensures
            points == (self@.p1, self@.p2, self@.p3),
    {
        (self.p1, self.p2, self.p3)
    }

    /// The graphics origin in pixels.
    pub fn graph_origin(&self) -> (origin: Point)
        ensures
            origin == self@.origin,
    {
        self.graph_origin
    }

    /// The font: eight bytes for each character code from 32 to 255.
    pub fn font_data(&self) -> (font: &Vec<u8>)
        ensures
            font@ == self@.font,
    {
        &self.font_data
    }

    /// Whether a command is under way, so that its next byte is to be
    /// waited for.
    pub fn awaiting(&self) -> (waiting: bool)
        ensures
            waiting == (self@.pending.len() > 0),
    {
        self.pending.len() > 0
    }

    /// Clears the screen to the background colour and moves the cursor to
    /// the top left corner.
    pub fn cls(&mut self)
        requires
            old(self).wf(),
        ensures
            final(self).wf(),
            final(self)@ == old(self)@.cleared(),
    {
        self.frame.clear(self.background_color);
        self.cursor.position_x = 0;
        self.cursor.position_y = 0;
        proof {
            self.frame.lemma_sized();
        }
    }

    /// Clears the screen to the background colour.
    pub fn clg(&mut self)
        requires
            old(self).wf(),
        ensures
            final(self).wf(),
            final(self)@ == old(self)@.graphics_cleared(),
    {
        self.frame.clear(self.background_color);
        proof {
            self.frame.lemma_sized();
        }
    }

    /// Selects the text colour: a number below 128 sets the foreground, any
    /// other the background, each to the colour that the number stands for
    /// in the palette of the mode.
    pub fn color(&mut self, c: u8)
        requires
            old(self).wf(),
        ensures
            final(self).wf(),
            final(self)@ == old(self)@.text_coloured(c),
    {
        let colour = resolve(&self.palette, c);
        if c < 128 {
            self.foreground_color = colour;
        } else {
            self.background_color = colour;
        }
    }

    /// Selects the colour that graphics are drawn in.
    pub fn gcolor(&mut self, m: u8, c: u8)
        requires
            old(self).wf(),
        ensures
            final(self).wf(),
            final(self)@ == old(self)@.graphics_coloured(c),
    {
        self.graph_color = resolve(&self.palette, c);
    }

    /// Scales a point of the logical canvas to the screen; with logical
    /// coordinates switched off the point is handed back as it is.
    pub fn scale(&self, p: Point) -> (q: Point)
        requires
            self.wf(),
        ensures
            q == self@.scaled(p),
            !self@.logical_coords ==> q == p,
            abs(q.x as int) <= abs(p.x as int),
            abs(q.y as int) <= abs(p.y as int),
            p.x >= 0 ==> q.x >= 0,
            p.y >= 0 ==> q.y >= 0,
    {
        proof {
            lemma_listed_mode_bounds(self.current_video_mode);
        }
        scale_point(self.logical_coords, self.cursor.screen_width, self.cursor.screen_height, p)
    }

    /// Moves a point by the graphics origin; with logical coordinates the y
    /// axis is turned to point upwards from the bottom of the screen.
    pub fn translate(&self, p: Point) -> (q: Point)
        requires
            self.wf(),
            translatable(
                self@.logical_coords,
                self@.cursor.screen_height as int,
                self@.origin,
                p,
            ),
        ensures
            q == self@.translated(p),
    {
        translate_point(self.logical_coords, self.cursor.screen_height, self.graph_origin, p)
    }

    /// Switches to the mode with the given index: the screen gets the size
    /// of the mode and is cleared to the background colour, the cursor goes
    /// to the top left corner, and the last three points and the graphics
    /// origin go to zero.
    pub fn change_mode(&mut self, mode: u8)
        requires
            old(self).wf(),
            mode < VIDEO_MODES,
        ensures
            final(self).wf(),
            final(self)@ == old(self)@.in_mode(crate::palette::mode_table(mode as int)),
    {
        match video_mode(mode) {
            Some(selected) => {
                proof {
                    lemma_listed_mode_bounds(selected);
                }
                self.current_video_mode = selected;
                self.palette = palette_for(selected.colors);
                self.cursor.screen_height = selected.screen_height as i32;
                self.cursor.screen_width = selected.screen_width as i32;
                self.frame = Framebuffer::new(
                    selected.screen_width as usize,
                    selected.screen_height as usize,
                    self.background_color,
                );
                self.cursor.position_x = 0;
                self.cursor.position_y = 0;
                self.p1 = Point::new(0, 0);
                self.p2 = Point::new(0, 0);
                self.p3 = Point::new(0, 0);
                self.graph_origin = Point::new(0, 0);
                proof {
                    self.frame.lemma_sized();
                }
            },
            None => {},
        }
    }

    /// The eight rows of the glyph of a character code.
    fn glyph(&self, code: u8) -> (rows: Vec<u8>)
        requires
            self.wf(),
            code >= FIRST_GLYPH,
        ensures
            rows@ == self@.glyph_rows(code),
            rows@.len() == GLYPH_SIZE,
    {
        let start: usize = 8 * (code - FIRST_GLYPH) as usize;
        let mut rows: Vec<u8> = Vec::new();
        let mut i: usize = 0;
        while i < 8
            invariant
                0 <= i <= 8,
                start == 8 * (code - FIRST_GLYPH),
                start + 8 <= self.font_data@.len(),
                rows@ == self.font_data@.subrange(start as int, start + i),
            decreases 8 - i,
        {
            rows.push(self.font_data[start + i]);
            i += 1;
            assert(rows@ =~= self.font_data@.subrange(start as int, start + i));
        }
        rows
    }

    /// Draws the glyph of a character into the cell at the cursor: the cell
    /// is cleared to the background colour and the lit pixels of the glyph
    /// are set to the foreground colour. A code below 32 draws nothing.
    pub fn render_char(&mut self, ascii: u8)
        requires
            old(self).wf(),
        ensures
            final(self).wf(),
            final(self)@ == old(self)@.rendered(ascii),
    {
        if ascii >= FIRST_GLYPH {
            let rows = self.glyph(ascii);
            self.frame.draw_glyph(
                &rows,
                self.cursor.position_x,
                self.cursor.position_y,
                self.foreground_color,
                self.background_color,
            );
            proof {
                self.frame.lemma_sized();
            }
        }
    }

    /// Scrolls the screen when the cell at the cursor reaches below it: the
    /// screen moves up by as many pixels as the cell is too low, the rows
    /// that come in are cleared to the background colour, and the cursor
    /// moves up with the screen.
    pub fn check_scrolling_needed(&mut self)
        requires
            old(self).wf(),
        ensures
            final(self).wf(),
            final(self)@ == old(self)@.scroll_checked(),
            final(self)@.cursor.within_screen(),
    {
        self.scroll_if_below();
    }

    /// The look at the bottom of the screen after a step of the cursor.
    fn scroll_if_below(&mut self)
        requires
            old(self).wf_before_scroll(),
        ensures
            final(self).wf(),
            final(self)@ == old(self)@.scroll_checked(),
            final(self)@.cursor.within_screen(),
    {
        proof {
            lemma_listed_mode_bounds(self.current_video_mode);
        }
        let overdraw: i32 = self.cursor.position_y - self.current_video_mode.screen_height as i32
            + self.cursor.font_height;
        if overdraw > 0 {
            self.frame.scroll_up(overdraw as usize, self.background_color);
            self.cursor.position_y -= overdraw;
            proof {
                self.frame.lemma_sized();
            }
        }
    }

    /// Moves the cursor one cell to the left and blanks that cell.
    pub fn backspace(&mut self)
        requires
            old(self).wf(),
        ensures
            final(self).wf(),
            final(self)@ == old(self)@.backspaced(),
    {
        self.cursor.left();
        self.render_char(0x20);
    }

    /// Carries out a plot command. The point is scaled, moved by the
    /// graphics origin and put at the head of the last three points; then
    /// the plot code decides what is drawn in the graphics colour: nothing
    /// for a move, a line to the point before, the point itself, or the
    /// filled triangle of the last three points. For a circle nothing is
    /// drawn yet: the centre and the square of the radius are handed back.
    /// A plot code that stands for nothing is handed back with the command.
    pub fn plot(&mut self, mode: u8, x: i16, y: i16) -> (action: Action)
        requires
            old(self).wf(),
        ensures
            final(self).wf(),
            final(self)@ == old(self)@.plotted(mode, x, y),
            action@ == old(self)@.plot_outcome(mode, x, y),
    {
        proof {
            lemma_listed_mode_bounds(self.current_video_mode);
        }
        let scaled = self.scale(Point::new(x as i32, y as i32));
        let p = self.translate(scaled);
        self.p3 = self.p2;
        self.p2 = self.p1;
        self.p1 = p;
        if mode == 4 {
            Action::Done
        } else if mode == 5 {
            self.frame.draw_line(self.p1, self.p2, self.graph_color);
            proof {
                self.frame.lemma_sized();
            }
            Action::Done
        } else if 64 <= mode && mode <= 71 {
            self.frame.set_pixel(self.p1.x, self.p1.y, self.graph_color);
            proof {
                self.frame.lemma_sized();
            }
            Action::Done
        } else if 80 <= mode && mode <= 87 {
            self.frame.fill_triangle(self.p1, self.p2, self.p3, self.graph_color);
            proof {
                self.frame.lemma_sized();
            }
            Action::Done
        } else if 144 <= mode && mode <= 151 {
            let across: i64 = if mode < 148 {
                self.p1.x as i64
            } else {
                self.p1.x as i64 - self.p2.x as i64
            };
            let down: i64 = if mode < 148 {
                self.p1.y as i64
            } else {
                self.p1.y as i64 - self.p2.y as i64
            };
            proof {
                assert(0 <= across * across <= 0x2_0000 * 0x2_0000) by (nonlinear_arith)
                    requires
                        -0x2_0000 <= across <= 0x2_0000,
                ;
                assert(0 <= down * down <= 0x2_0000 * 0x2_0000) by (nonlinear_arith)
                    requires
                        -0x2_0000 <= down <= 0x2_0000,
                ;
            }
            let radius_squared: i64 = across * across + down * down;
            Action::Circle { centre: self.p2, radius_squared: radius_squared as u64 }
        } else {
            Action::Ignored(Command::Plot { mode, x, y })
        }
    }

    /// Draws a closed outline in the graphics colour: a line from each of
    /// the points to the next and one from the last back to the first.
    pub fn outline(&mut self, points: &Vec<Point>)
        requires
            old(self).wf(),
        ensures
            final(self).wf(),
            final(self)@ == old(self)@.outlined(points@),
    {
        if points.len() == 0 {
            return ;
        }
        let ghost before = self@;
        let last: usize = points.len() - 1;
        let mut i: usize = 0;
        while i < last
            invariant
                0 <= i <= last,
                last == points@.len() - 1,
                before == old(self)@,
                before.valid(),
                self.frame.wf(),
                self.frame.cols() == before.mode.screen_width,
                self.frame.rows() == before.mode.screen_height,
                self.palette@ == before.mode.palette(),
                palette_in_order(self.palette@),
                self@ == (VdpState {
                    picture: crate::state::with_path(
                        before.picture,
                        points@,
                        i as int,
                        before.graphics,
                    ),
                    ..before
                }),
            decreases last - i,
        {
            self.frame.draw_line(points[i], points[i + 1], self.graph_color);
            i += 1;
        }
        self.frame.draw_line(points[last], points[0], self.graph_color);
        proof {
            self.frame.lemma_sized();
        }
    }

    /// The packet that tells the other side of a key event: the key code,
    /// two zero bytes, and whether the key went down.
    pub fn send_key(&self, keycode: u8, down: bool) -> (bytes: Vec<u8>)
        ensures
            bytes@ == crate::packet::framed(
                crate::packet::PACKET_KEYCODE,
                crate::packet::key_payload(keycode, down),
            ),
    {
        key_packet(keycode, down)
    }

    /// The packet that tells the other side where the cursor is, in
    /// character cells.
    pub fn send_cursor_position(&self) -> (bytes: Vec<u8>)
        requires
            self.wf(),
        ensures
            bytes@ == crate::packet::framed(
                crate::packet::PACKET_CURSOR,
                crate::packet::cursor_payload(self@.cursor),
            ),
    {
        cursor_packet(&self.cursor)
    }

    /// The packet that describes the mode in use.
    pub fn send_mode_information(&self) -> (bytes: Vec<u8>)
        requires
            self.wf(),
        ensures
            bytes@ == crate::packet::framed(
                crate::packet::PACKET_MODE,
                crate::packet::mode_payload(self@.cursor, self@.mode),
            ),
    {
        mode_packet(&self.cursor, &self.current_video_mode)
    }

    /// Sets the graphics origin to a point of the logical canvas; a point
    /// with a negative coordinate leaves the origin as it is.
    pub fn set_graph_origin(&mut self, x: i16, y: i16)
        requires
            old(self).wf(),
        ensures
            final(self).wf(),
            final(self)@ == old(self)@.origin_set(x, y),
    {
        if x >= 0 && y >= 0 {
            self.graph_origin = self.scale(Point::new(x as i32, y as i32));
        }
    }

    /// Moves the cursor to a column and a row of character cells; the
    /// cursor stays where it is if the cell does not start on the screen.
    pub fn tab(&mut self, column: u8, row: u8)
        requires
            old(self).wf(),
        ensures
            final(self).wf(),
            final(self)@ == old(self)@.tabbed(column, row),
    {
        let x: i32 = column as i32 * self.cursor.font_width;
        let y: i32 = row as i32 * self.cursor.font_height;
        if x < self.cursor.screen_width && y < self.cursor.screen_height {
            self.cursor.position_x = x;
            self.cursor.position_y = y;
        }
    }

    /// Puts the cursor at a pixel position. The position is taken if its
    /// column is on the screen and its row is neither above the top edge of
    /// the screen nor beyond its bottom edge.
    pub fn place_cursor(&mut self, x: i32, y: i32) -> (placed: bool)
        requires
            old(self).wf(),
        ensures
            final(self).wf(),
            placed == (0 <= x < old(self)@.cursor.screen_width && 0 <= y
                <= old(self)@.cursor.screen_height),
            final(self)@ == if placed {
                old(self)@.with_cursor(
                    Cursor { position_x: x, position_y: y, ..old(self)@.cursor },
                )
            } else {
                old(self)@
            },
    {
        if 0 <= x && x < self.cursor.screen_width && 0 <= y && y <= self.cursor.screen_height {
            self.cursor.position_x = x;
            self.cursor.position_y = y;
            true
        } else {
            false
        }
    }

    /// Gives a character code from 32 up a new glyph.
    pub fn redefine_glyph(&mut self, code: u8, bitmap: Bitmap)
        requires
            old(self).wf(),
            code >= FIRST_GLYPH,
        ensures
            final(self).wf(),
            final(self)@ == old(self)@.glyph_redefined(code, bitmap),
    {
        let start: usize = 8 * (code - FIRST_GLYPH) as usize;
        self.font_data[start] = bitmap.row0;
        self.font_data[start + 1] = bitmap.row1;
        self.font_data[start + 2] = bitmap.row2;
        self.font_data[start + 3] = bitmap.row3;
        self.font_data[start + 4] = bitmap.row4;
        self.font_data[start + 5] = bitmap.row5;
        self.font_data[start + 6] = bitmap.row6;
        self.font_data[start + 7] = bitmap.row7;
        assert(self@.font =~= old(self)@.glyph_redefined(code, bitmap).font);
    }

    /// The bytes of the boot message.
    fn boot_text() -> (text: Vec<u8>)
        ensures
            text@ == crate::state::boot_message(),
    {
        let text: Vec<u8> = vec![
            0x41u8, 0x67, 0x6F, 0x6E, 0x20, 0x51, 0x75, 0x61, 0x72, 0x6B, 0x20, 0x56, 0x44, 0x50,
            0x20, 0x56, 0x65, 0x72, 0x73, 0x69, 0x6F, 0x6E, 0x20, 0x31, 0x2E, 0x30, 0x33,
        ];
        assert(text@ =~= crate::state::boot_message());
        text
    }

    /// Shows the boot message at the cursor and moves the cursor to the
    /// start of the next row.
    fn bootscreen(&mut self)
        requires
            old(self).wf(),
            old(self)@.cursor.position_x == 0,
            old(self)@.cursor.position_y == 0,
        ensures
            final(self).wf(),
            final(self)@ == old(self)@.booted(),
    {
        let text = Self::boot_text();
        let ghost before = self@;
        let mut i: usize = 0;
        while i < text.len()
            invariant
                0 <= i <= text@.len(),
                text@.len() == 27,
                self.wf(),
                self@ == before.stamped_all(text@.take(i as int)),
                self@.cursor.position_x == 8 * i,
                self@.cursor.position_y == 0,
            decreases text@.len() - i,
        {
            proof {
                lemma_listed_mode_bounds(self.current_video_mode);
            }
            self.render_char(text[i]);
            self.cursor.right();
            proof {
                let upto = text@.take(i as int + 1);
                assert(upto.drop_last() =~= text@.take(i as int));
                assert(upto.last() == text@[i as int]);
            }
            i += 1;
        }
        proof {
            assert(text@.take(i as int) =~= text@);
        }
        self.cursor.down();
        self.cursor.home();
    }

    /// Starts the processor: switches to mode 1 and shows the boot message.
    pub fn start(&mut self)
        requires
            old(self).wf(),
        ensures
            final(self).wf(),
            final(self)@ == old(self)@.in_mode(crate::palette::mode_table(1)).booted(),
    {
        self.change_mode(1);
        self.bootscreen();
    }

    /// Carries out one command. A mode switch to a mode that the catalogue
    /// does not hold is refused, and the state stays as it was.
    pub fn execute(&mut self, command: Command) -> (result: Result<Action, VdpError>)
        requires
            old(self).wf(),
        ensures
            final(self).wf(),
            final(self)@.valid(),
            match result {
                Ok(action) => {
                    &&& old(self)@.permits(command)
                    &&& final(self)@ == old(self)@.after(command)
                    &&& action@ == old(self)@.outcome(command)
                },
                Err(error) => {
                    &&& !old(self)@.permits(command)
                    &&& final(self)@ == old(self)@
                    &&& error == VdpError::UnknownMode
                },
            },
    {
        proof {
            lemma_listed_mode_bounds(self.current_video_mode);
        }
        match command {
            Command::Glyph(code) => {
                self.render_char(code);
                self.cursor.right();
                self.scroll_if_below();
                Ok(Action::Done)
            },
            Command::CursorLeft => {
                self.cursor.left();
                Ok(Action::Done)
            },
            Command::CursorRight => {
                self.cursor.right();
                self.scroll_if_below();
                Ok(Action::Done)
            },
            Command::CursorDown => {
                self.cursor.down();
                self.scroll_if_below();
                Ok(Action::Done)
            },
            Command::CursorUp => {
                self.cursor.up();
                Ok(Action::Done)
            },
            Command::ClearScreen => {
                self.cls();
                Ok(Action::Done)
            },
            Command::CarriageReturn => {
                self.cursor.home();
                Ok(Action::Done)
            },
            Command::ClearGraphics => {
                self.clg();
                Ok(Action::Done)
            },
            Command::TextColour(c) => {
                self.color(c);
                Ok(Action::Done)
            },
            Command::GraphicsColour { mode, colour } => {
                self.gcolor(mode, colour);
                Ok(Action::Done)
            },
            Command::LogicalColour { .. } => Ok(Action::Done),
            Command::Mode(index) => {
                if index >= VIDEO_MODES {
                    return Err(VdpError::UnknownMode);
                }
                self.change_mode(index);
                Ok(Action::Send(self.send_mode_information()))
            },
            Command::Echo(byte) => {
                let payload: Vec<u8> = vec![byte];
                assert(payload@ =~= seq![byte]);
                Ok(Action::Send(frame_packet(PACKET_GENERAL, &payload)))
            },
            Command::Keycode => Ok(Action::Done),
            Command::CursorPosition => Ok(Action::Send(self.send_cursor_position())),
            Command::Audio { .. } => Ok(Action::Done),
            Command::ModeInformation => Ok(Action::Send(self.send_mode_information())),
            Command::LogicalCoords(on) => {
                self.logical_coords = on;
                Ok(Action::Done)
            },
            Command::UnknownSystem(_) => Ok(Action::Ignored(command)),
            Command::RedefineGlyph { code, bitmap } => {
                if code >= FIRST_GLYPH {
                    self.redefine_glyph(code, bitmap);
                }
                Ok(Action::Done)
            },
            Command::UnknownExtended(_) => Ok(Action::Ignored(command)),
            Command::Plot { mode, x, y } => Ok(self.plot(mode, x, y)),
            Command::GraphicsOrigin { x, y } => {
                self.set_graph_origin(x, y);
                Ok(Action::Done)
            },
            Command::Home => {
                self.cursor.home();
                Ok(Action::Done)
            },
            Command::Tab { column, row } => {
                self.tab(column, row);
                Ok(Action::Done)
            },
            Command::Backspace => {
                self.backspace();
                Ok(Action::Done)
            },
            Command::Unknown(_) => Ok(Action::Ignored(command)),
        }
    }

    /// Takes in one byte of the command stream. While the command that the
    /// byte belongs to is not complete the byte is kept and `Action::Wait`
    /// is handed back: the next byte is to be waited for. The byte that
    /// completes a command has it carried out. A refused command is dropped
    /// and leaves the rest of the state as it was.
    pub fn feed(&mut self, byte: u8) -> (result: Result<Action, VdpError>)
        requires
            old(self).wf(),
        ensures
            final(self).wf(),
            final(self)@.valid(),
            ({
                let bytes = old(self)@.pending.push(byte);
                let before = old(self)@.idle();
                let command = crate::command::decoded(bytes);
                if crate::command::complete(bytes) {
                    match result {
                        Ok(action) => {
                            &&& before.permits(command)
                            &&& final(self)@ == before.after(command)
                            &&& action@ == before.outcome(command)
                        },
                        Err(error) => {
                            &&& !before.permits(command)
                            &&& final(self)@ == before
                            &&& error == VdpError::UnknownMode
                        },
                    }
                } else {
                    &&& result matches Ok(action)
                    &&& action@ == ActionModel::Wait
                    &&& final(self)@ == (VdpState { pending: bytes, ..old(self)@ })
                }
            }),
    {
        proof {
            crate::command::lemma_one_byte_more(self.pending@, byte);
        }
        self.pending.push(byte);
        if self.pending.len() < crate::command::expected_length(&self.pending) {
            return Ok(Action::Wait);
        }
        let command = crate::command::decode(&self.pending);
        self.pending.clear();
        assert(self@.pending =~= Seq::<u8>::empty());
        self.execute(command)
    }

    /// The time between two frames in microseconds.
    pub fn refresh_interval(&self) -> (micros: u32)
        requires
            self.wf(),
        ensures
            micros == 1_000_000int / (self@.mode.refresh_rate as int),
    {
        proof {
            lemma_listed_mode_bounds(self.current_video_mode);
        }
        1_000_000u32 / self.current_video_mode.refresh_rate as u32
    }

    /// Whether the next frame is to be shown, given the microseconds since
    /// the last one: when more than the time between two frames has gone by.
    pub fn frame_due(&self, elapsed_micros: u128) -> (due: bool)
        requires
            self.wf(),
        ensures
            due == (elapsed_micros > 1_000_000int / (self@.mode.refresh_rate as int)),
    {
        elapsed_micros > self.refresh_interval() as u128
    }

    /// Lets the cursor blink, given the milliseconds since it last changed:
    /// after more than 500 it changes between shown and hidden. Hands back
    /// whether it changed and the colour to draw its cell in: the
    /// foreground colour while it is shown, the background colour while it
    /// is hidden.
    pub fn blink_cursor(&mut self, elapsed_millis: u128) -> (blink: (bool, Colour))
        requires
            old(self).wf(),
        ensures
            final(self).wf(),
            blink.0 == (elapsed_millis > 500),
            final(self)@ == (VdpState {
                cursor_active: if elapsed_millis > 500 {
                    !old(self)@.cursor_active
                } else {
                    old(self)@.cursor_active
                },
                ..old(self)@
            }),
            blink.1 == if final(self)@.cursor_active {
                old(self)@.foreground
            } else {
                old(self)@.background
            },
    {
        let changed = elapsed_millis > 500;
        if changed {
            self.cursor_active = !self.cursor_active;
        }
        if self.cursor_active {
            (changed, self.foreground_color)
        } else {
            (changed, self.background_color)
        }
    }
}

} // verus!
