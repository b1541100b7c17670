//! Emulation of the display coprocessor of a retro microcomputer: an
//! interpreter for a byte stream of text and graphics commands that draws
//! into an off-screen framebuffer and answers queries with reply packets.

pub mod command;
pub mod cursor;
pub mod glyph;
pub mod keyboard;
pub mod laws;
pub mod logger;
pub mod edge;
pub mod frame;
pub mod geometry;
pub mod packet;
pub mod palette;
pub mod state;
pub mod triangle;
pub mod vdp;

pub use command::{Bitmap, Command};
pub use cursor::Cursor;
pub use frame::Framebuffer;
pub use geometry::Point;
pub use palette::{Colour, VideoMode};
pub use state::VdpError;
pub use vdp::{Action, VDP};
