//! The wire format of the two byte channels: the framing of reply packets
//! and the decoding of multi-byte arguments.

use crate::cursor::Cursor;
use crate::palette::VideoMode;
use vstd::prelude::*;

verus! {

/// Reply code of the general poll: the byte sent is echoed.
pub const PACKET_GENERAL: u8 = 0x00;

/// Reply code of a key event.
pub const PACKET_KEYCODE: u8 = 0x01;

/// Reply code of the cursor position.
pub const PACKET_CURSOR: u8 = 0x02;

/// Reply code of the mode information.
pub const PACKET_MODE: u8 = 0x06;

/// The longest payload that a packet can announce in its length byte.
pub const MAX_PAYLOAD: usize = 255;

/// A packet on the wire: the code with its highest bit set, the length of
/// the payload, then the payload.
pub open spec fn framed(code: u8, payload: Seq<u8>) -> Seq<u8> {
    seq![code | 0x80u8, payload.len() as u8] + payload
}

/// The 16-bit signed number that two bytes encode, the low byte first.
pub open spec fn word(low: u8, high: u8) -> i16 {
    if low + 256 * high < 0x8000 {
        (low + 256 * high) as i16
    } else {
        (low + 256 * high - 0x1_0000) as i16
    }
}

/// The payload of a key event: the key code, two zero bytes, and 1 for a
/// key that went down or 0 for one that came up.
pub open spec fn key_payload(keycode: u8, down: bool) -> Seq<u8> {
    seq![keycode, 0u8, 0u8, if down { 1u8 } else { 0u8 }]
}

/// The payload of a cursor position reply: the column and the row of the
/// cursor in character cells, each reduced to one byte.
pub open spec fn cursor_payload(cursor: Cursor) -> Seq<u8> {
    seq![
        (cursor.position_x / cursor.font_width % 256) as u8,
        (cursor.position_y / cursor.font_height % 256) as u8,
    ]
}

/// The payload of a mode information reply: width and height of the screen
/// in pixels as 16-bit numbers with the low byte first, the columns and rows
/// of text, and the number of colours.
pub open spec fn mode_payload(cursor: Cursor, mode: VideoMode) -> Seq<u8> {
    seq![
        (cursor.screen_width % 256) as u8,
        (cursor.screen_width / 256 % 256) as u8,
        (cursor.screen_height % 256) as u8,
        (cursor.screen_height / 256 % 256) as u8,
        (cursor.screen_width / cursor.font_width % 256) as u8,
        (cursor.screen_height / cursor.font_height % 256) as u8,
        mode.colors,
    ]
}

/// The reply codes as they appear on the wire.
pub proof fn lemma_wire_codes()
    ensures
        PACKET_GENERAL | 0x80u8 == 0x80,
        PACKET_KEYCODE | 0x80u8 == 0x81,
        PACKET_CURSOR | 0x80u8 == 0x82,
        PACKET_MODE | 0x80u8 == 0x86,
{
    assert(0x00u8 | 0x80u8 == 0x80) by (bit_vector);
    assert(0x01u8 | 0x80u8 == 0x81) by (bit_vector);
    assert(0x02u8 | 0x80u8 == 0x82) by (bit_vector);
    assert(0x06u8 | 0x80u8 == 0x86) by (bit_vector);
}

/// Frames a reply packet.
pub fn frame_packet(code: u8, payload: &Vec<u8>) -> (bytes: Vec<u8>)
    requires
        payload@.len() <= MAX_PAYLOAD,
    ensures
        bytes@ == framed(code, payload@),
{
    let mut output: Vec<u8> = Vec::new();
    output.push(code | 0x80u8);
    output.push(payload.len() as u8);
    let mut i: usize = 0;
    while i < payload.len()
        invariant
            0 <= i <= payload@.len(),
            output@ == seq![code | 0x80u8, payload@.len() as u8] + payload@.take(i as int),
        decreases payload@.len() - i,
    {
        output.push(payload[i]);
        i += 1;
        assert(output@ =~= seq![code | 0x80u8, payload@.len() as u8] + payload@.take(i as int));
    }
    assert(payload@.take(i as int) =~= payload@);
    output
}

/// Decodes a 16-bit signed number from two bytes, the low byte first.
pub fn read_word(low: u8, high: u8) -> (value: i16)
    ensures
        value == word(low, high),
{
    let unsigned: i32 = low as i32 + 256 * (high as i32);
    if unsigned < 0x8000 {
        unsigned as i16
    } else {
        (unsigned - 0x1_0000) as i16
    }
}

/// The packet that reports a key event.
pub fn key_packet(keycode: u8, down: bool) -> (bytes: Vec<u8>)
    ensures
        bytes@ == framed(PACKET_KEYCODE, key_payload(keycode, down)),
{
    let payload: Vec<u8> = vec![keycode, 0u8, 0u8, if down { 1u8 } else { 0u8 }];
    assert(payload@ =~= key_payload(keycode, down));
    frame_packet(PACKET_KEYCODE, &payload)
}

/// The packet that reports where the cursor is.
pub fn cursor_packet(cursor: &Cursor) -> (bytes: Vec<u8>)
    requires
        cursor.valid(),
    ensures
        bytes@ == framed(PACKET_CURSOR, cursor_payload(*cursor)),
{
    let column: i32 = cursor.position_x / cursor.font_width % 256;
    let row: i32 = cursor.position_y / cursor.font_height % 256;
    let payload: Vec<u8> = vec![column as u8, row as u8];
    assert(payload@ =~= cursor_payload(*cursor));
    frame_packet(PACKET_CURSOR, &payload)
}

/// The packet that describes the mode that is in use.
pub fn mode_packet(cursor: &Cursor, mode: &VideoMode) -> (bytes: Vec<u8>)
    requires
        cursor.valid(),
    ensures
        bytes@ == framed(PACKET_MODE, mode_payload(*cursor, *mode)),
{
    let payload: Vec<u8> = vec![
        (cursor.screen_width % 256) as u8,
        (cursor.screen_width / 256 % 256) as u8,
        (cursor.screen_height % 256) as u8,
        (cursor.screen_height / 256 % 256) as u8,
        (cursor.screen_width / cursor.font_width % 256) as u8,
        (cursor.screen_height / cursor.font_height % 256) as u8,
        mode.colors,
    ];
    assert(payload@ =~= mode_payload(*cursor, *mode));
    frame_packet(PACKET_MODE, &payload)
}

} // verus!
