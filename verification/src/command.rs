//! The commands of the byte stream: how many bytes each one takes and what
//! the bytes mean.

use crate::packet::{read_word, word};
use vstd::prelude::*;

verus! {

/// The eight rows of a glyph from top to bottom; in each row the highest
/// bit is the leftmost pixel.
#[derive(Clone, Copy, Debug, PartialEq, Eq, Structural)]
pub struct Bitmap {
    pub row0: u8,
    pub row1: u8,
    pub row2: u8,
    pub row3: u8,
    pub row4: u8,
    pub row5: u8,
    pub row6: u8,
    pub row7: u8,
}

impl Bitmap {
    /// The rows as a sequence.
    pub open spec fn rows(self) -> Seq<u8> {
        seq![
            self.row0,
            self.row1,
            self.row2,
            self.row3,
            self.row4,
            self.row5,
            self.row6,
            self.row7,
        ]
    }
}

/// One command of the byte stream with its arguments.
#[derive(Clone, Copy, Debug, PartialEq, Eq, Structural)]
pub enum Command {
    /// A character to print: a code from 0x20 up, but for 0x7F.
    Glyph(u8),
    /// 0x08: cursor left.
    CursorLeft,
    /// 0x09: cursor right.
    CursorRight,
    /// 0x0A: cursor down, scrolling at the bottom.
    CursorDown,
    /// 0x0B: cursor up.
    CursorUp,
    /// 0x0C: clear the screen.
    ClearScreen,
    /// 0x0D: cursor to the start of the row.
    CarriageReturn,
    /// 0x10: clear the graphics.
    ClearGraphics,
    /// 0x11: select the text colour.
    TextColour(u8),
    /// 0x12: select the graphics colour.
    GraphicsColour { mode: u8, colour: u8 },
    /// 0x13: define a logical colour; accepted without effect.
    LogicalColour { logical: u8, physical: u8, red: u8, green: u8, blue: u8 },
    /// 0x16: switch to another video mode.
    Mode(u8),
    /// 0x17, 0x00, 0x80: general poll, answered with the byte that was sent.
    Echo(u8),
    /// 0x17, 0x00, 0x81: key code; accepted without effect.
    Keycode,
    /// 0x17, 0x00, 0x82: ask for the cursor position.
    CursorPosition,
    /// 0x17, 0x00, 0x85: play a note; only its bytes are taken in.
    Audio { channel: u8, waveform: u8, volume: u8, frequency: i16, duration: i16 },
    /// 0x17, 0x00, 0x86: ask for the mode information.
    ModeInformation,
    /// 0x17, 0x00, 0xC0: switch logical coordinates on or off.
    LogicalCoords(bool),
    /// 0x17, 0x00 and a selector that stands for nothing.
    UnknownSystem(u8),
    /// 0x17 and a character code from 32 up: give the character a new glyph.
    RedefineGlyph { code: u8, bitmap: Bitmap },
    /// 0x17 and a selector from 1 to 31, none of which stands for anything.
    UnknownExtended(u8),
    /// 0x19: plot.
    Plot { mode: u8, x: i16, y: i16 },
    /// 0x1D: set the graphics origin.
    GraphicsOrigin { x: i16, y: i16 },
    /// 0x1E: home.
    Home,
    /// 0x1F: move the text cursor to a column and a row.
    Tab { column: u8, row: u8 },
    /// 0x7F: backspace.
    Backspace,
    /// A control code that stands for nothing.
    Unknown(u8),
}

/// The length of an extended command, as far as the bytes received so far
/// decide it.
pub open spec fn extended_length(bytes: Seq<u8>) -> int {
    if bytes.len() < 2 {
        2
    } else if bytes[1] == 0x00 {
        if bytes.len() < 3 {
            3
        } else if bytes[2] == 0x80 || bytes[2] == 0xC0 {
            4
        } else if bytes[2] == 0x85 {
            10
        } else {
            3
        }
    } else if bytes[1] >= 32 {
        10
    } else {
        2
    }
}

/// The length in bytes of the command that starts with the given bytes, as
/// far as they decide it. While fewer bytes than that have come in, the
/// command waits for the next one.
pub open spec fn command_length(bytes: Seq<u8>) -> int {
    let first = bytes[0];
    if first == 0x11 || first == 0x16 {
        2
    } else if first == 0x12 || first == 0x1F {
        3
    } else if first == 0x13 || first == 0x19 {
        6
    } else if first == 0x1D {
        5
    } else if first == 0x17 {
        extended_length(bytes)
    } else {
        1
    }
}

/// The bytes are the whole of one command.
pub open spec fn complete(bytes: Seq<u8>) -> bool {
    bytes.len() > 0 && bytes.len() == command_length(bytes)
}

/// The bytes are the start of a command that needs more of them, or none at
/// all.
pub open spec fn partial(bytes: Seq<u8>) -> bool {
    bytes.len() == 0 || bytes.len() < command_length(bytes)
}

/// The eight rows that follow the two leading bytes of a glyph definition.
pub open spec fn bitmap_of(bytes: Seq<u8>) -> Bitmap {
    Bitmap {
        row0: bytes[2],
        row1: bytes[3],
        row2: bytes[4],
        row3: bytes[5],
        row4: bytes[6],
        row5: bytes[7],
        row6: bytes[8],
        row7: bytes[9],
    }
}

/// The extended command that the bytes of a complete command spell.
pub open spec fn decoded_extended(bytes: Seq<u8>) -> Command {
    let selector = bytes[1];
    if selector == 0x00 {
        let system = bytes[2];
        if system == 0x80 {
            Command::Echo(bytes[3])
        } else if system == 0x81 {
            Command::Keycode
        } else if system == 0x82 {
            Command::CursorPosition
        } else if system == 0x85 {
            Command::Audio {
                channel: bytes[3],
                waveform: bytes[4],
                volume: bytes[5],
                frequency: word(bytes[6], bytes[7]),
                duration: word(bytes[8], bytes[9]),
            }
        } else if system == 0x86 {
            Command::ModeInformation
        } else if system == 0xC0 {
            Command::LogicalCoords(bytes[3] != 0)
        } else {
            Command::UnknownSystem(system)
        }
    } else if selector >= 32 {
        Command::RedefineGlyph { code: selector, bitmap: bitmap_of(bytes) }
    } else {
        Command::UnknownExtended(selector)
    }
}

/// The command that the bytes of a complete command spell.
pub open spec fn decoded(bytes: Seq<u8>) -> Command {
    let first = bytes[0];
    if first >= 0x20 && first != 0x7F {
        Command::Glyph(first)
    } else if first == 0x08 {
        Command::CursorLeft
    } else if first == 0x09 {
        Command::CursorRight
    } else if first == 0x0A {
        Command::CursorDown
    } else if first == 0x0B {
        Command::CursorUp
    } else if first == 0x0C {
        Command::ClearScreen
    } else if first == 0x0D {
        Command::CarriageReturn
    } else if first == 0x10 {
        Command::ClearGraphics
    } else if first == 0x11 {
        Command::TextColour(bytes[1])
    } else if first == 0x12 {
        Command::GraphicsColour { mode: bytes[1], colour: bytes[2] }
    } else if first == 0x13 {
        Command::LogicalColour {
            logical: bytes[1],
            physical: bytes[2],
            red: bytes[3],
            green: bytes[4],
            blue: bytes[5],
        }
    } else if first == 0x16 {
        Command::Mode(bytes[1])
    } else if first == 0x17 {
        decoded_extended(bytes)
    } else if first == 0x19 {
        Command::Plot { mode: bytes[1], x: word(bytes[2], bytes[3]), y: word(bytes[4], bytes[5]) }
    } else if first == 0x1D {
        Command::GraphicsOrigin { x: word(bytes[1], bytes[2]), y: word(bytes[3], bytes[4]) }
    } else if first == 0x1E {
        Command::Home
    } else if first == 0x1F {
        Command::Tab { column: bytes[1], row: bytes[2] }
    } else if first == 0x7F {
        Command::Backspace
    } else {
        Command::Unknown(first)
    }
}

/// A command that waits for its next byte becomes, with that byte, either
/// complete or a longer command that still waits: no byte is ever left over.
pub proof fn lemma_one_byte_more(bytes: Seq<u8>, byte: u8)
    requires
        partial(bytes),
    ensures
        complete(bytes.push(byte)) || partial(bytes.push(byte)),
        bytes.push(byte).len() <= 10,
{
    let longer = bytes.push(byte);
    if bytes.len() > 0 {
        assert(longer[0] == bytes[0]);
        if bytes.len() > 1 {
            assert(longer[1] == bytes[1]);
        }
        if bytes.len() > 2 {
            assert(longer[2] == bytes[2]);
        }
    }
}

/// Every shorter start of a complete command waits for more bytes: no
/// command is cut short, and none runs into the next.
pub proof fn lemma_starts_wait(bytes: Seq<u8>, count: int)
    requires
        complete(bytes),
        0 <= count < bytes.len(),
    ensures
        partial(bytes.take(count)),
{
    let start = bytes.take(count);
    if count > 0 {
        assert(start[0] == bytes[0]);
        if count > 1 {
            assert(start[1] == bytes[1]);
        }
        if count > 2 {
            assert(start[2] == bytes[2]);
        }
    }
}

/// The length of the command that starts with the given bytes, as far as
/// they decide it.
pub fn expected_length(bytes: &Vec<u8>) -> (length: usize)
    requires
        bytes@.len() > 0,
    ensures
        length == command_length(bytes@),
        1 <= length <= 10,
{
    let first = bytes[0];
    if first == 0x11 || first == 0x16 {
        2
    } else if first == 0x12 || first == 0x1F {
        3
    } else if first == 0x13 || first == 0x19 {
        6
    } else if first == 0x1D {
        5
    } else if first == 0x17 {
        if bytes.len() < 2 {
            2
        } else if bytes[1] == 0x00 {
            if bytes.len() < 3 {
                3
            } else if bytes[2] == 0x80 || bytes[2] == 0xC0 {
                4
            } else if bytes[2] == 0x85 {
                10
            } else {
                3
            }
        } else if bytes[1] >= 32 {
            10
        } else {
            2
        }
    } else {
        1
    }
}

/// Decodes an extended command from all its bytes.
fn decode_extended(bytes: &Vec<u8>) -> (command: Command)
    requires
        complete(bytes@),
        bytes@[0] == 0x17,
    ensures
        command == decoded_extended(bytes@),
{
    let selector = bytes[1];
    if selector == 0x00 {
        match bytes[2] {
            0x80 => Command::Echo(bytes[3]),
            0x81 => Command::Keycode,
            0x82 => Command::CursorPosition,
            0x85 => Command::Audio {
                channel: bytes[3],
                waveform: bytes[4],
                volume: bytes[5],
                frequency: read_word(bytes[6], bytes[7]),
                duration: read_word(bytes[8], bytes[9]),
            },
            0x86 => Command::ModeInformation,
            0xC0 => Command::LogicalCoords(bytes[3] != 0),
            system => Command::UnknownSystem(system),
        }
    } else if selector >= 32 {
        Command::RedefineGlyph {
            code: selector,
            bitmap: Bitmap {
                row0: bytes[2],
                row1: bytes[3],
                row2: bytes[4],
                row3: bytes[5],
                row4: bytes[6],
                row5: bytes[7],
                row6: bytes[8],
                row7: bytes[9],
            },
        }
    } else {
        Command::UnknownExtended(selector)
    }
}

/// Decodes a command from all its bytes.
pub fn decode(bytes: &Vec<u8>) -> (command: Command)
    requires
        complete(bytes@),
    ensures
        command == decoded(bytes@),
{
    let first = bytes[0];
    if first >= 0x20 && first != 0x7F {
        return Command::Glyph(first);
    }
    match first {
        0x08 => Command::CursorLeft,
        0x09 => Command::CursorRight,
        0x0A => Command::CursorDown,
        0x0B => Command::CursorUp,
        0x0C => Command::ClearScreen,
        0x0D => Command::CarriageReturn,
        0x10 => Command::ClearGraphics,
        0x11 => Command::TextColour(bytes[1]),
        0x12 => Command::GraphicsColour { mode: bytes[1], colour: bytes[2] },
        0x13 => Command::LogicalColour {
            logical: bytes[1],
            physical: bytes[2],
            red: bytes[3],
            green: bytes[4],
            blue: bytes[5],
        },
        0x16 => Command::Mode(bytes[1]),
        0x17 => decode_extended(bytes),
        0x19 => Command::Plot {
            mode: bytes[1],
            x: read_word(bytes[2], bytes[3]),
            y: read_word(bytes[4], bytes[5]),
        },
        0x1D => Command::GraphicsOrigin {
            x: read_word(bytes[1], bytes[2]),
            y: read_word(bytes[3], bytes[4]),
        },
        0x1E => Command::Home,
        0x1F => Command::Tab { column: bytes[1], row: bytes[2] },
        0x7F => Command::Backspace,
        other => Command::Unknown(other),
    }
}

} // verus!
