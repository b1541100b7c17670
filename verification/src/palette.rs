//! Colours: the fixed master table of 64 colours, the palettes that select
//! from it, and the catalogue of video modes.

use vstd::prelude::*;

verus! {

/// An RGB colour as it is stored in the framebuffer.
#[derive(Clone, Copy, Debug, PartialEq, Eq, Structural)]
pub struct Colour {
    pub r: u8,
    pub g: u8,
    pub b: u8,
}

/// Number of entries of the master colour table.
pub const MASTER_COLOURS: u8 = 64;

/// Entry `index` of the master table. An index holds two bits per channel,
/// red in the highest pair and blue in the lowest, and the four values of a
/// channel are spread evenly over 0 to 255.
pub open spec fn master_colour(index: int) -> Colour {
    Colour {
        r: (0x55 * (index / 16 % 4)) as u8,
        g: (0x55 * (index / 4 % 4)) as u8,
        b: (0x55 * (index % 4)) as u8,
    }
}

/// Looks an index up in the master colour table.
pub fn colour_lookup(index: u8) -> (colour: Colour)
    requires
        index < MASTER_COLOURS,
    ensures
        colour == master_colour(index as int),
{
    Colour { r: 0x55 * (index / 16 % 4), g: 0x55 * (index / 4 % 4), b: 0x55 * (index % 4) }
}

/// The palette of the two-colour modes: black and white.
pub open spec fn palette_2() -> Seq<u8> {
    seq![0x00u8, 0x3F]
}

/// The palette of the sixteen-colour modes.
pub open spec fn palette_16() -> Seq<u8> {
    seq![
        0x00u8, 0x20, 0x08, 0x28, 0x02, 0x22, 0x0A, 0x2A,
        0x15, 0x30, 0x0C, 0x3C, 0x03, 0x33, 0x0F, 0x3F,
    ]
}

/// What the palette of the sixty-four-colour mode holds after the sixteen
/// entries it shares with `palette_16`: the rest of the master table in
/// rising order.
pub open spec fn palette_64_tail() -> Seq<u8> {
    seq![
        0x01u8, 0x04, 0x05, 0x06, 0x07, 0x09, 0x0B, 0x0D,
        0x0E, 0x10, 0x11, 0x12, 0x13, 0x14, 0x16, 0x17,
        0x18, 0x19, 0x1A, 0x1B, 0x1C, 0x1D, 0x1E, 0x1F,
        0x21, 0x23, 0x24, 0x25, 0x26, 0x27, 0x29, 0x2B,
        0x2C, 0x2D, 0x2E, 0x2F, 0x31, 0x32, 0x34, 0x35,
        0x36, 0x37, 0x38, 0x39, 0x3A, 0x3B, 0x3D, 0x3E,
    ]
}

/// The palette of the sixty-four-colour mode.
pub open spec fn palette_64() -> Seq<u8> {
    palette_16() + palette_64_tail()
}

/// The palette of a mode with the given number of colours.
pub open spec fn palette_of(colors: int) -> Seq<u8> {
    if colors == 2 {
        palette_2()
    } else if colors == 16 {
        palette_16()
    } else {
        palette_64()
    }
}

/// A palette is in order when it is not empty and each entry is an index
/// into the master table.
pub open spec fn palette_in_order(palette: Seq<u8>) -> bool {
    &&& 0 < palette.len()
    &&& forall|i: int| 0 <= i < palette.len() ==> #[trigger] palette[i] < MASTER_COLOURS
}

/// The colour that a logical colour number stands for under a palette: the
/// number is taken modulo the palette's length.
pub open spec fn resolved(palette: Seq<u8>, logical: int) -> Colour {
    master_colour(palette[logical % (palette.len() as int)] as int)
}

/// Resolves a logical colour number to a colour.
pub fn resolve(palette: &Vec<u8>, logical: u8) -> (colour: Colour)
    requires
        palette_in_order(palette@),
    ensures
        colour == resolved(palette@, logical as int),
{
    let slot: usize = logical as usize % palette.len();
    colour_lookup(palette[slot])
}

/// Builds the palette of a mode with the given number of colours.
pub fn palette_for(colors: u8) -> (palette: Vec<u8>)
    ensures
        palette@ == palette_of(colors as int),
        palette_in_order(palette@),
{
    let mut palette: Vec<u8> = if colors == 2 {
        vec![0x00u8, 0x3F]
    } else {
        vec![
            0x00u8, 0x20, 0x08, 0x28, 0x02, 0x22, 0x0A, 0x2A,
            0x15, 0x30, 0x0C, 0x3C, 0x03, 0x33, 0x0F, 0x3F,
        ]
    };
    if colors != 2 && colors != 16 {
        let mut tail: Vec<u8> = vec![
            0x01u8, 0x04, 0x05, 0x06, 0x07, 0x09, 0x0B, 0x0D,
            0x0E, 0x10, 0x11, 0x12, 0x13, 0x14, 0x16, 0x17,
            0x18, 0x19, 0x1A, 0x1B, 0x1C, 0x1D, 0x1E, 0x1F,
            0x21, 0x23, 0x24, 0x25, 0x26, 0x27, 0x29, 0x2B,
            0x2C, 0x2D, 0x2E, 0x2F, 0x31, 0x32, 0x34, 0x35,
            0x36, 0x37, 0x38, 0x39, 0x3A, 0x3B, 0x3D, 0x3E,
        ];
        palette.append(&mut tail);
    }
    assert(palette@ =~= palette_of(colors as int));
    palette
}

/// A display mode: colour depth, resolution in pixels and refresh rate in
/// hertz. Its palette follows from the number of colours.
#[derive(Clone, Copy, Debug, PartialEq, Eq, Structural)]
pub struct VideoMode {
    pub colors: u8,
    pub screen_width: u32,
    pub screen_height: u32,
    pub refresh_rate: u8,
}

/// Number of modes in the catalogue.
pub const VIDEO_MODES: u8 = 4;

/// The catalogue of video modes.
pub open spec fn mode_table(index: int) -> VideoMode {
    if index == 0 {
        VideoMode { colors: 2, screen_width: 1024, screen_height: 768, refresh_rate: 60 }
    } else if index == 1 {
        VideoMode { colors: 16, screen_width: 512, screen_height: 384, refresh_rate: 60 }
    } else if index == 2 {
        VideoMode { colors: 64, screen_width: 320, screen_height: 240, refresh_rate: 75 }
    } else {
        VideoMode { colors: 16, screen_width: 640, screen_height: 480, refresh_rate: 60 }
    }
}

impl VideoMode {
    /// The mode is one of the catalogue.
    pub open spec fn listed(self) -> bool {
        self == mode_table(0) || self == mode_table(1) || self == mode_table(2) || self
            == mode_table(3)
    }

    /// The mode's palette of indices into the master table.
    pub open spec fn palette(self) -> Seq<u8> {
        palette_of(self.colors as int)
    }
}

/// Selects a mode of the catalogue; there is none for an index of
/// `VIDEO_MODES` or more.
pub fn video_mode(index: u8) -> (mode: Option<VideoMode>)
    ensures
        mode == if index < VIDEO_MODES {
            Some(mode_table(index as int))
        } else {
            None
        },
        mode matches Some(m) ==> m.listed(),
{
    match index {
        0 => Some(VideoMode { colors: 2, screen_width: 1024, screen_height: 768, refresh_rate: 60 }),
        1 => Some(VideoMode { colors: 16, screen_width: 512, screen_height: 384, refresh_rate: 60 }),
        2 => Some(VideoMode { colors: 64, screen_width: 320, screen_height: 240, refresh_rate: 75 }),
        3 => Some(VideoMode { colors: 16, screen_width: 640, screen_height: 480, refresh_rate: 60 }),
        _ => None,
    }
}

/// In every mode of the catalogue a colour number from 128 up stands for the
/// same colour as the number less 128.
pub proof fn lemma_colour_numbers_repeat(mode: VideoMode, logical: u8)
    requires
        mode.listed(),
        logical >= 128,
    ensures
        resolved(mode.palette(), logical as int) == resolved(mode.palette(), logical - 128),
{
    let number = logical as int;
    if mode.colors == 2 {
        assert(palette_2().len() == 2);
        assert(number % 2 == (number - 128) % 2);
    } else if mode.colors == 16 {
        assert(palette_16().len() == 16);
        assert(number % 16 == (number - 128) % 16);
    } else {
        assert(palette_16().len() == 16);
        assert(palette_64_tail().len() == 48);
        assert(palette_64().len() == 64);
        assert(number % 64 == (number - 128) % 64);
    }
}

/// Every mode of the catalogue has a width and a height that are whole
/// numbers of eight-pixel cells, no larger than the logical canvas, and a
/// refresh rate above zero.
pub proof fn lemma_listed_mode_bounds(mode: VideoMode)
    requires
        mode.listed(),
    ensures
        320 <= mode.screen_width <= 1024,
        240 <= mode.screen_height <= 768,
        mode.screen_width % 8 == 0,
        mode.screen_height % 8 == 0,
        mode.refresh_rate >= 60,
        mode.colors == 2 || mode.colors == 16 || mode.colors == 64,
{
}

} // verus!
