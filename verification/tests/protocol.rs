use agon_light_vdp::command::{decode, expected_length};
use agon_light_vdp::packet::{frame_packet, key_packet, read_word};
use agon_light_vdp::{Action, Bitmap, Colour, Command, VdpError, VDP};

const WHITE: Colour = Colour { r: 255, g: 255, b: 255 };
const BLACK: Colour = Colour { r: 0, g: 0, b: 0 };

fn letter_a() -> [u8; 8] {
    [0x18, 0x3C, 0x66, 0x66, 0x7E, 0x66, 0x66, 0x00]
}

fn protocol_font() -> Vec<u8> {
    let mut font = vec![0u8; 1792];
    let a = 8 * (65 - 32);
    font[a..a + 8].copy_from_slice(&letter_a());
    let block = 8 * (255 - 32);
    font[block..block + 8].copy_from_slice(&[0xFF; 8]);
    font
}

fn protocol_vdp() -> VDP {
    VDP::new(protocol_font()).unwrap()
}

fn send(vdp: &mut VDP, bytes: &[u8]) -> Vec<Action> {
    let mut actions = Vec::new();
    for byte in bytes {
        actions.push(vdp.feed(*byte).unwrap());
    }
    actions
}

fn last_action(vdp: &mut VDP, bytes: &[u8]) -> Action {
    let mut actions = send(vdp, bytes);
    for waiting in &actions[..actions.len() - 1] {
        assert_eq!(*waiting, Action::Wait);
    }
    assert!(!vdp.awaiting());
    actions.pop().unwrap()
}

fn foreground_pixels(vdp: &VDP) -> usize {
    let frame = vdp.frame();
    let mut count = 0;
    for y in 0..frame.height() {
        for x in 0..frame.width() {
            if frame.pixel(x, y) == vdp.foreground_color() {
                count += 1;
            }
        }
    }
    count
}

#[test]
fn mode_switch_replies_with_the_geometry_of_the_mode() {
    let mut vdp = protocol_vdp();
    assert_eq!(vdp.feed(0x16), Ok(Action::Wait));
    assert!(vdp.awaiting());
    assert_eq!(
        vdp.feed(0x01),
        Ok(Action::Send(vec![0x86, 0x07, 0x00, 0x02, 0x80, 0x01, 64, 48, 16]))
    );
    assert!(!vdp.awaiting());
}

#[test]
fn mode_information_of_every_mode() {
    let mut vdp = protocol_vdp();
    assert_eq!(
        last_action(&mut vdp, &[0x16, 0x00]),
        Action::Send(vec![0x86, 0x07, 0x00, 0x04, 0x00, 0x03, 128, 96, 2])
    );
    assert_eq!(
        last_action(&mut vdp, &[0x16, 0x02]),
        Action::Send(vec![0x86, 0x07, 0x40, 0x01, 0xF0, 0x00, 40, 30, 64])
    );
    assert_eq!(
        last_action(&mut vdp, &[0x16, 0x03]),
        Action::Send(vec![0x86, 0x07, 0x80, 0x02, 0xE0, 0x01, 80, 60, 16])
    );
    assert_eq!(
        last_action(&mut vdp, &[0x17, 0x00, 0x86]),
        Action::Send(vec![0x86, 0x07, 0x80, 0x02, 0xE0, 0x01, 80, 60, 16])
    );
}

#[test]
fn cursor_position_query_replies_with_the_cell() {
    let mut vdp = protocol_vdp();
    assert_eq!(last_action(&mut vdp, &[0x1F, 3, 4]), Action::Done);
    assert_eq!(
        last_action(&mut vdp, &[0x17, 0x00, 0x82]),
        Action::Send(vec![0x82, 0x02, 0x03, 0x04])
    );
}

#[test]
fn redefined_blank_glyph_draws_no_foreground_pixel() {
    let mut vdp = protocol_vdp();
    last_action(&mut vdp, &[65]);
    assert_eq!(foreground_pixels(&vdp), 28);
    last_action(&mut vdp, &[0x0C]);
    assert_eq!(foreground_pixels(&vdp), 0);
    assert_eq!(last_action(&mut vdp, &[0x17, 65, 0, 0, 0, 0, 0, 0, 0, 0]), Action::Done);
    assert_eq!(&vdp.font_data()[8 * 33..8 * 34], &[0u8; 8]);
    assert_eq!(last_action(&mut vdp, &[65]), Action::Done);
    assert_eq!(foreground_pixels(&vdp), 0);
    assert_eq!(vdp.cursor().position_x, 8);
}

#[test]
fn glyph_redefinition_changes_one_glyph() {
    let mut vdp = protocol_vdp();
    let before = vdp.font_data().clone();
    last_action(&mut vdp, &[0x17, 32, 1, 2, 3, 4, 5, 6, 7, 8]);
    assert_eq!(&vdp.font_data()[0..8], &[1, 2, 3, 4, 5, 6, 7, 8]);
    assert_eq!(&vdp.font_data()[8..], &before[8..]);
    last_action(&mut vdp, &[0x17, 255, 9, 9, 9, 9, 9, 9, 9, 9]);
    assert_eq!(&vdp.font_data()[1784..1792], &[9; 8]);
    assert_eq!(&vdp.font_data()[8..1784], &before[8..1784]);
    assert_eq!(vdp.font_data().len(), 1792);
}

#[test]
fn echo_replies_with_the_byte() {
    let mut vdp = protocol_vdp();
    assert_eq!(
        last_action(&mut vdp, &[0x17, 0x00, 0x80, 0x5A]),
        Action::Send(vec![0x80, 0x01, 0x5A])
    );
}

#[test]
fn audio_takes_seven_bytes_and_changes_nothing() {
    let mut vdp = protocol_vdp();
    let actions = send(&mut vdp, &[0x17, 0x00, 0x85, 1, 2, 3, 0x34, 0x12, 0xFF, 0xFF]);
    assert_eq!(actions.len(), 10);
    assert_eq!(actions[8], Action::Wait);
    assert_eq!(actions[9], Action::Done);
    assert_eq!(vdp.cursor().position_x, 0);
    assert_eq!(last_action(&mut vdp, &[65]), Action::Done);
    assert_eq!(vdp.cursor().position_x, 8);
}

#[test]
fn commands_without_effect() {
    let mut vdp = protocol_vdp();
    assert_eq!(last_action(&mut vdp, &[0x13, 1, 2, 3, 4, 5]), Action::Done);
    assert_eq!(last_action(&mut vdp, &[0x17, 0x00, 0x81]), Action::Done);
    assert_eq!(vdp.cursor().position_x, 0);
    assert_eq!(vdp.cursor().position_y, 0);
    assert_eq!(foreground_pixels(&vdp), 0);
}

#[test]
fn unknown_codes_are_handed_back_and_the_stream_goes_on() {
    let mut vdp = protocol_vdp();
    for code in [0x00u8, 0x01, 0x07, 0x0E, 0x0F, 0x14, 0x15, 0x18, 0x1A, 0x1B, 0x1C] {
        assert_eq!(vdp.feed(code), Ok(Action::Ignored(Command::Unknown(code))));
        assert!(!vdp.awaiting());
    }
    for selector in [0x01u8, 0x07, 0x1B, 0x1F] {
        assert_eq!(
            last_action(&mut vdp, &[0x17, selector]),
            Action::Ignored(Command::UnknownExtended(selector))
        );
    }
    assert_eq!(
        last_action(&mut vdp, &[0x17, 0x00, 0x99]),
        Action::Ignored(Command::UnknownSystem(0x99))
    );
    assert_eq!(
        last_action(&mut vdp, &[0x17, 0x02]),
        Action::Ignored(Command::UnknownExtended(0x02))
    );
    assert_eq!(
        last_action(&mut vdp, &[0x19, 3, 1, 0, 1, 0]),
        Action::Ignored(Command::Plot { mode: 3, x: 1, y: 1 })
    );
    assert_eq!(vdp.cursor().position_x, 0);
    assert_eq!(foreground_pixels(&vdp), 0);
    assert_eq!(last_action(&mut vdp, &[65]), Action::Done);
    assert_eq!(vdp.cursor().position_x, 8);
}

#[test]
fn unknown_mode_is_refused() {
    let mut vdp = protocol_vdp();
    send(&mut vdp, &[0x1F, 2, 2, 65]);
    assert_eq!(vdp.feed(0x16), Ok(Action::Wait));
    assert_eq!(vdp.feed(4), Err(VdpError::UnknownMode));
    assert!(!vdp.awaiting());
    assert_eq!(vdp.video_mode().screen_width, 512);
    assert_eq!(vdp.cursor().position_x, 24);
    assert_eq!(foreground_pixels(&vdp), 28);
    assert_eq!(vdp.execute(Command::Mode(200)), Err(VdpError::UnknownMode));
}

#[test]
fn cursor_is_placed_on_the_screen_only() {
    let mut vdp = protocol_vdp();
    assert!(vdp.place_cursor(511, 384));
    assert_eq!((vdp.cursor().position_x, vdp.cursor().position_y), (511, 384));
    assert!(vdp.place_cursor(0, 0));
    assert!(!vdp.place_cursor(0, 385));
    assert!(!vdp.place_cursor(0, i32::MAX));
    assert!(!vdp.place_cursor(512, 0));
    assert!(!vdp.place_cursor(-1, 0));
    assert!(!vdp.place_cursor(0, -1));
    assert_eq!((vdp.cursor().position_x, vdp.cursor().position_y), (0, 0));
}

#[test]
fn cursor_right_below_the_last_cell_scrolls() {
    let mut vdp = protocol_vdp();
    send(&mut vdp, &[0x1F, 0, 46, 65, 0x1F, 63, 47]);
    assert_eq!(foreground_pixels(&vdp), 28);
    assert_eq!(vdp.feed(0x09), Ok(Action::Done));
    assert_eq!((vdp.cursor().position_x, vdp.cursor().position_y), (0, 376));
    assert_eq!(foreground_pixels(&vdp), 28);
    assert_eq!(vdp.frame().pixel(3, 360), WHITE);
    assert_eq!(vdp.frame().pixel(3, 368), BLACK);
    for _ in 0..63 {
        assert_eq!(vdp.feed(0x09), Ok(Action::Done));
    }
    assert_eq!((vdp.cursor().position_x, vdp.cursor().position_y), (504, 376));
    assert_eq!(vdp.frame().pixel(3, 360), WHITE);
    assert_eq!(vdp.feed(0x09), Ok(Action::Done));
    assert_eq!((vdp.cursor().position_x, vdp.cursor().position_y), (0, 376));
    assert_eq!(vdp.frame().pixel(3, 352), WHITE);
    assert_eq!(vdp.frame().pixel(3, 360), BLACK);
}

#[test]
fn cursor_keeps_its_invariant_under_every_command() {
    let mut vdp = protocol_vdp();
    let moves = [0x09u8, 0x0A, 0x08, 0x0B, 0x41, 0x7F, 0x0D, 0x1E];
    assert!(vdp.place_cursor(504, 384));
    for round in 0..400usize {
        for step in 0..moves.len() {
            let code = moves[(round + step * 3) % moves.len()];
            assert!(vdp.feed(code).is_ok());
            let cursor = vdp.cursor();
            assert!(0 <= cursor.position_x && cursor.position_x < cursor.screen_width);
            assert!(0 <= cursor.position_y && cursor.position_y <= cursor.screen_height);
        }
        if round % 50 == 0 {
            send(&mut vdp, &[0x1F, 63, 47, 0x09, 0x09]);
            assert!(vdp.cursor().position_y <= 384);
        }
    }
}

#[test]
fn font_of_the_wrong_length_is_refused() {
    assert_eq!(VDP::new(vec![0; 1791]).err(), Some(VdpError::FontLength));
    assert_eq!(VDP::new(vec![0; 1793]).err(), Some(VdpError::FontLength));
    assert_eq!(VDP::new(Vec::new()).err(), Some(VdpError::FontLength));
    assert!(VDP::new(vec![0; 1792]).is_ok());
}

#[test]
fn next_byte_is_waited_for_until_the_command_is_complete() {
    let mut vdp = protocol_vdp();
    assert!(!vdp.awaiting());
    let plot = [0x19u8, 4, 0x10, 0x00, 0x20, 0x00];
    for byte in &plot[..5] {
        assert_eq!(vdp.feed(*byte), Ok(Action::Wait));
        assert!(vdp.awaiting());
    }
    assert_eq!(vdp.feed(plot[5]), Ok(Action::Done));
    assert!(!vdp.awaiting());
}

#[test]
fn lengths_of_commands() {
    assert_eq!(expected_length(&vec![0x41]), 1);
    assert_eq!(expected_length(&vec![0x08]), 1);
    assert_eq!(expected_length(&vec![0x7F]), 1);
    assert_eq!(expected_length(&vec![0x11]), 2);
    assert_eq!(expected_length(&vec![0x12]), 3);
    assert_eq!(expected_length(&vec![0x13]), 6);
    assert_eq!(expected_length(&vec![0x16]), 2);
    assert_eq!(expected_length(&vec![0x19]), 6);
    assert_eq!(expected_length(&vec![0x1D]), 5);
    assert_eq!(expected_length(&vec![0x1F]), 3);
    assert_eq!(expected_length(&vec![0x17]), 2);
    assert_eq!(expected_length(&vec![0x17, 0x00]), 3);
    assert_eq!(expected_length(&vec![0x17, 0x01]), 2);
    assert_eq!(expected_length(&vec![0x17, 0x1F]), 2);
    assert_eq!(expected_length(&vec![0x17, 0x20]), 10);
    assert_eq!(expected_length(&vec![0x17, 0x00, 0x80]), 4);
    assert_eq!(expected_length(&vec![0x17, 0x00, 0x81]), 3);
    assert_eq!(expected_length(&vec![0x17, 0x00, 0x82]), 3);
    assert_eq!(expected_length(&vec![0x17, 0x00, 0x85]), 10);
    assert_eq!(expected_length(&vec![0x17, 0x00, 0x86]), 3);
    assert_eq!(expected_length(&vec![0x17, 0x00, 0xC0]), 4);
    assert_eq!(expected_length(&vec![0x17, 0x00, 0x33]), 3);
}

#[test]
fn decoded_commands() {
    assert_eq!(decode(&vec![0x20]), Command::Glyph(0x20));
    assert_eq!(decode(&vec![0xFF]), Command::Glyph(0xFF));
    assert_eq!(decode(&vec![0x7F]), Command::Backspace);
    assert_eq!(decode(&vec![0x08]), Command::CursorLeft);
    assert_eq!(decode(&vec![0x09]), Command::CursorRight);
    assert_eq!(decode(&vec![0x0A]), Command::CursorDown);
    assert_eq!(decode(&vec![0x0B]), Command::CursorUp);
    assert_eq!(decode(&vec![0x0C]), Command::ClearScreen);
    assert_eq!(decode(&vec![0x0D]), Command::CarriageReturn);
    assert_eq!(decode(&vec![0x10]), Command::ClearGraphics);
    assert_eq!(decode(&vec![0x1E]), Command::Home);
    assert_eq!(decode(&vec![0x11, 0x81]), Command::TextColour(0x81));
    assert_eq!(decode(&vec![0x12, 1, 7]), Command::GraphicsColour { mode: 1, colour: 7 });
    assert_eq!(
        decode(&vec![0x13, 1, 2, 3, 4, 5]),
        Command::LogicalColour { logical: 1, physical: 2, red: 3, green: 4, blue: 5 }
    );
    assert_eq!(
        decode(&vec![0x19, 85, 0x34, 0x12, 0xFE, 0xFF]),
        Command::Plot { mode: 85, x: 0x1234, y: -2 }
    );
    assert_eq!(
        decode(&vec![0x1D, 0x00, 0x80, 0xFF, 0x7F]),
        Command::GraphicsOrigin { x: -32768, y: 32767 }
    );
    assert_eq!(decode(&vec![0x1F, 9, 8]), Command::Tab { column: 9, row: 8 });
    assert_eq!(
        decode(&vec![0x17, 0x00, 0x85, 1, 2, 3, 0x34, 0x12, 0xFF, 0xFF]),
        Command::Audio { channel: 1, waveform: 2, volume: 3, frequency: 0x1234, duration: -1 }
    );
    assert_eq!(decode(&vec![0x17, 0x00, 0xC0, 0]), Command::LogicalCoords(false));
    assert_eq!(decode(&vec![0x17, 0x00, 0xC0, 2]), Command::LogicalCoords(true));
    assert_eq!(
        decode(&vec![0x17, 200, 1, 2, 3, 4, 5, 6, 7, 8]),
        Command::RedefineGlyph {
            code: 200,
            bitmap: Bitmap {
                row0: 1,
                row1: 2,
                row2: 3,
                row3: 4,
                row4: 5,
                row5: 6,
                row6: 7,
                row7: 8
            }
        }
    );
}

#[test]
fn words_have_the_low_byte_first() {
    assert_eq!(read_word(0x00, 0x00), 0);
    assert_eq!(read_word(0x34, 0x12), 0x1234);
    assert_eq!(read_word(0xFF, 0x7F), 32767);
    assert_eq!(read_word(0x00, 0x80), -32768);
    assert_eq!(read_word(0xFF, 0xFF), -1);
    assert_eq!(read_word(0x00, 0xFF), -256);
    for low in [0u8, 1, 0x7F, 0x80, 0xFF] {
        for high in [0u8, 1, 0x7F, 0x80, 0xFF] {
            assert_eq!(read_word(low, high), i16::from_le_bytes([low, high]));
        }
    }
}

#[test]
fn packets_are_framed_with_code_and_length() {
    assert_eq!(frame_packet(0x06, &vec![1, 2, 3]), vec![0x86, 3, 1, 2, 3]);
    assert_eq!(frame_packet(0x00, &vec![]), vec![0x80, 0]);
    assert_eq!(frame_packet(0x7F, &vec![9]), vec![0xFF, 1, 9]);
    assert_eq!(frame_packet(0x82, &vec![9]), vec![0x82, 1, 9]);
    let long = frame_packet(0x01, &vec![7; 255]);
    assert_eq!(long.len(), 257);
    assert_eq!(long[1], 255);
}

#[test]
fn key_events() {
    let vdp = protocol_vdp();
    assert_eq!(vdp.send_key(0x0D, true), vec![0x81, 0x04, 0x0D, 0x00, 0x00, 0x01]);
    assert_eq!(vdp.send_key(0x7F, false), vec![0x81, 0x04, 0x7F, 0x00, 0x00, 0x00]);
    assert_eq!(key_packet(0x41, true), vec![0x81, 0x04, 0x41, 0x00, 0x00, 0x01]);
}

#[test]
fn text_colour_below_128_is_foreground_else_background() {
    let mut vdp = protocol_vdp();
    assert_eq!(vdp.foreground_color(), WHITE);
    assert_eq!(vdp.background_color(), BLACK);
    last_action(&mut vdp, &[0x11, 1]);
    assert_eq!(vdp.foreground_color(), Colour { r: 0xAA, g: 0, b: 0 });
    assert_eq!(vdp.background_color(), BLACK);
    last_action(&mut vdp, &[0x11, 130]);
    assert_eq!(vdp.foreground_color(), Colour { r: 0xAA, g: 0, b: 0 });
    assert_eq!(vdp.background_color(), Colour { r: 0, g: 0xAA, b: 0 });
    last_action(&mut vdp, &[0x11, 127]);
    assert_eq!(vdp.foreground_color(), WHITE);
    last_action(&mut vdp, &[0x11, 128]);
    assert_eq!(vdp.background_color(), BLACK);
    assert_eq!(vdp.graph_color(), WHITE);
    last_action(&mut vdp, &[0x12, 0, 4]);
    assert_eq!(vdp.graph_color(), Colour { r: 0, g: 0, b: 0xAA });
    assert_eq!(vdp.foreground_color(), WHITE);
    last_action(&mut vdp, &[0x16, 0]);
    last_action(&mut vdp, &[0x12, 0, 4]);
    assert_eq!(vdp.graph_color(), BLACK);
    last_action(&mut vdp, &[0x12, 0, 5]);
    assert_eq!(vdp.graph_color(), WHITE);
}
