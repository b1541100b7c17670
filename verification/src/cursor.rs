//! The text cursor: a pixel position that moves in steps of one character
//! cell over a screen of fixed size.

use vstd::prelude::*;

verus! {

/// Position of the text cursor in pixels, with the screen and cell sizes
/// that govern how it moves.
#[derive(Clone, Copy, Debug, PartialEq, Eq, Structural)]
pub struct Cursor {
    pub position_x: i32,
    pub position_y: i32,
    pub screen_width: i32,
    pub screen_height: i32,
    pub font_width: i32,
    pub font_height: i32,
}

impl Cursor {
    /// Positive screen and cell sizes and the column on the screen.
    pub open spec fn in_a_column(self) -> bool {
        &&& 0 < self.font_width
        &&& 0 < self.font_height
        &&& 0 < self.screen_width
        &&& 0 < self.screen_height
        &&& 0 <= self.position_x < self.screen_width
    }

    /// The invariant of the cursor: positive screen and cell sizes, the
    /// column on the screen, and the row neither above the top edge of the
    /// screen nor beyond its bottom edge.
    pub open spec fn valid(self) -> bool {
        &&& self.in_a_column()
        &&& 0 <= self.position_y <= self.screen_height
    }

    /// What holds of the cursor between a step down and the look at the
    /// bottom of the screen that follows it: the row may lie up to one cell
    /// beyond the bottom edge.
    pub open spec fn valid_before_scroll(self) -> bool {
        &&& self.in_a_column()
        &&& 0 <= self.position_y <= self.screen_height + self.font_height
    }

    /// The cell at the cursor does not reach below the screen.
    pub open spec fn within_screen(self) -> bool {
        self.position_y + self.font_height <= self.screen_height
    }

    /// The cursor with its column set to the left edge.
    pub open spec fn at_home(self) -> Cursor {
        Cursor { position_x: 0, ..self }
    }

    /// The cursor one cell further down.
    pub open spec fn moved_down(self) -> Cursor {
        Cursor { position_y: (self.position_y + self.font_height) as i32, ..self }
    }

    /// The cursor one cell further up, stopping at the top edge.
    pub open spec fn moved_up(self) -> Cursor {
        if self.position_y - self.font_height < 0 {
            Cursor { position_y: 0, ..self }
        } else {
            Cursor { position_y: (self.position_y - self.font_height) as i32, ..self }
        }
    }

    /// The cursor one cell further left, stopping at the left edge.
    pub open spec fn moved_left(self) -> Cursor {
        if self.position_x - self.font_width < 0 {
            Cursor { position_x: 0, ..self }
        } else {
            Cursor { position_x: (self.position_x - self.font_width) as i32, ..self }
        }
    }

    /// Whether a step to the right leaves the current row.
    pub open spec fn wraps(self) -> bool {
        self.position_x + self.font_width >= self.screen_width
    }

    /// The cursor one cell further right; at the right edge it goes to the
    /// start of the next row.
    pub open spec fn moved_right(self) -> Cursor {
        if self.wraps() {
            self.at_home().moved_down()
        } else {
            Cursor { position_x: (self.position_x + self.font_width) as i32, ..self }
        }
    }

    /// The cursor after `n` steps to the right.
    pub open spec fn moved_right_by(self, n: nat) -> Cursor
        decreases n,
    {
        if n == 0 {
            self
        } else {
            self.moved_right_by((n - 1) as nat).moved_right()
        }
    }

    /// A cursor in the top left corner of a screen of the given size.
    pub fn new(screen_width: i32, screen_height: i32, font_width: i32, font_height: i32) -> (cursor: Cursor)
        ensures
            cursor == (Cursor {
                position_x: 0,
                position_y: 0,
                screen_width,
                screen_height,
                font_width,
                font_height,
            }),
    {
        Cursor {
            position_x: 0,
            position_y: 0,
            screen_width,
            screen_height,
            font_width,
            font_height,
        }
    }

    /// Moves the cursor to the left edge of its row.
    pub fn home(&mut self)
        ensures
            *final(self) == old(self).at_home(),
    {
        self.position_x = 0;
    }

    /// Moves the cursor one cell down.
    pub fn down(&mut self)
        requires
            i32::MIN <= old(self).position_y + old(self).font_height <= i32::MAX,
        ensures
            *final(self) == old(self).moved_down(),
    {
        self.position_y += self.font_height;
    }

    /// Moves the cursor one cell up; at the top edge it stays.
    pub fn up(&mut self)
        requires
            i32::MIN <= old(self).position_y - old(self).font_height <= i32::MAX,
        ensures
            *final(self) == old(self).moved_up(),
    {
        self.position_y -= self.font_height;
        if self.position_y < 0 {
            self.position_y = 0;
        }
    }

    /// Moves the cursor one cell to the left; at the left edge it stays.
    pub fn left(&mut self)
        requires
            i32::MIN <= old(self).position_x - old(self).font_width <= i32::MAX,
        ensures
            *final(self) == old(self).moved_left(),
    {
        self.position_x -= self.font_width;
        if self.position_x < 0 {
            self.position_x = 0;
        }
    }

    /// Moves the cursor one cell to the right; from the last cell of a row
    /// it goes to the start of the next row.
    pub fn right(&mut self)
        requires
            i32::MIN <= old(self).position_x + old(self).font_width <= i32::MAX,
            old(self).wraps() ==> i32::MIN <= old(self).position_y + old(self).font_height
                <= i32::MAX,
        ensures
            *final(self) == old(self).moved_right(),
    {
        self.position_x += self.font_width;
        if self.position_x >= self.screen_width {
            self.home();
            self.down();
        }
    }
}

/// Starting at the left edge of a row whose width is a whole number of
/// cells, as many steps to the right as the row has cells end at the start
/// of the next row, and no earlier step leaves the row.
pub proof fn lemma_full_row_wraps_once(c: Cursor)
    requires
        c.valid(),
        c.position_x == 0,
        c.screen_width % c.font_width == 0,
        c.position_y + c.font_height <= i32::MAX,
    ensures
        forall|k: nat|
            k < c.screen_width / c.font_width ==> #[trigger] c.moved_right_by(k) == (Cursor {
                position_x: (k * c.font_width) as i32,
                ..c
            }),
        c.moved_right_by((c.screen_width / c.font_width) as nat) == (Cursor {
            position_x: 0,
            position_y: (c.position_y + c.font_height) as i32,
            ..c
        }),
{
    let n = (c.screen_width / c.font_width) as nat;
    assert(n * c.font_width == c.screen_width && n >= 1) by (nonlinear_arith)
        requires
            n == c.screen_width / c.font_width,
            c.screen_width % c.font_width == 0,
            0 < c.font_width,
            0 < c.screen_width,
    ;
    assert forall|k: nat| k < n implies #[trigger] c.moved_right_by(k) == (Cursor {
        position_x: (k * c.font_width) as i32,
        ..c
    }) by {
        lemma_row_prefix(c, k);
    }
    lemma_row_prefix(c, (n - 1) as nat);
    let last = c.moved_right_by((n - 1) as nat);
    assert((n - 1) * c.font_width + c.font_width == c.screen_width) by (nonlinear_arith)
        requires
            n * c.font_width == c.screen_width,
    ;
    assert(last.wraps());
}

proof fn lemma_row_prefix(c: Cursor, k: nat)
    requires
        c.valid(),
        c.position_x == 0,
        c.screen_width % c.font_width == 0,
        k < c.screen_width / c.font_width,
    ensures
        c.moved_right_by(k) == (Cursor { position_x: (k * c.font_width) as i32, ..c }),
        0 <= k * c.font_width <= c.screen_width - c.font_width,
    decreases k,
{
    let n = c.screen_width / c.font_width;
    assert(0 <= k * c.font_width <= c.screen_width - c.font_width) by (nonlinear_arith)
        requires
            n == c.screen_width / c.font_width,
            c.screen_width % c.font_width == 0,
            0 < c.font_width,
            0 <= k < n,
    ;
    if k > 0 {
        lemma_row_prefix(c, (k - 1) as nat);
        assert((k - 1) * c.font_width + c.font_width == k * c.font_width) by (nonlinear_arith);
        let before = c.moved_right_by((k - 1) as nat);
        assert(!before.wraps());
        assert(c.moved_right_by(k) == before.moved_right());
    } else {
        assert(k * c.font_width == 0) by (nonlinear_arith)
            requires
                k == 0,
        ;
    }
}

} // verus!
