use agon_light_vdp::{Action, Colour, Command, Framebuffer, Point, VDP};

const LIT: Colour = Colour { r: 255, g: 255, b: 255 };
const DARK: Colour = Colour { r: 0, g: 0, b: 0 };

fn sample_font() -> Vec<u8> {
    let mut font = vec![0u8; 1792];
    for code in 33..=255usize {
        let start = 8 * (code - 32);
        for row in 0..8 {
            font[start + row] = (code as u8).rotate_left(row as u32) | 0x01;
        }
    }
    font
}

fn sample_vdp() -> VDP {
    VDP::new(sample_font()).unwrap()
}

fn run(vdp: &mut VDP, bytes: &[u8]) -> Action {
    let mut last = Action::Wait;
    for byte in bytes {
        last = vdp.feed(*byte).unwrap();
    }
    last
}

fn lit_pixels(frame: &Framebuffer) -> Vec<(usize, usize)> {
    let mut found = Vec::new();
    for y in 0..frame.height() {
        for x in 0..frame.width() {
            if frame.pixel(x, y) == LIT {
                found.push((x, y));
            }
        }
    }
    found
}

fn picture(frame: &Framebuffer) -> Vec<Colour> {
    let mut pixels = Vec::new();
    for y in 0..frame.height() {
        for x in 0..frame.width() {
            pixels.push(frame.pixel(x, y));
        }
    }
    pixels
}

fn plot_bytes(mode: u8, x: i16, y: i16) -> Vec<u8> {
    let x = x.to_le_bytes();
    let y = y.to_le_bytes();
    vec![0x19, mode, x[0], x[1], y[0], y[1]]
}

#[test]
fn new_processor_is_in_mode_one() {
    let vdp = sample_vdp();
    assert_eq!(vdp.video_mode().screen_width, 512);
    assert_eq!(vdp.video_mode().screen_height, 384);
    assert_eq!(vdp.video_mode().colors, 16);
    assert_eq!(vdp.frame().width(), 512);
    assert_eq!(vdp.frame().height(), 384);
    assert_eq!(vdp.cursor().position_x, 0);
    assert_eq!(vdp.cursor().position_y, 0);
    assert_eq!(vdp.cursor().font_width, 8);
    assert_eq!(vdp.cursor().font_height, 8);
    assert_eq!(vdp.foreground_color(), LIT);
    assert_eq!(vdp.background_color(), DARK);
    assert_eq!(vdp.graph_color(), LIT);
    assert!(vdp.logical_coords());
    assert_eq!(vdp.points(), (Point::new(0, 0), Point::new(0, 0), Point::new(0, 0)));
    assert_eq!(vdp.graph_origin(), Point::new(0, 0));
    assert_eq!(lit_pixels(vdp.frame()).len(), 0);
    assert!(!vdp.awaiting());
}

#[test]
fn start_shows_the_boot_message() {
    let mut vdp = sample_vdp();
    run(&mut vdp, &[0x16, 3]);
    vdp.start();
    assert_eq!(vdp.video_mode().screen_width, 512);
    assert_eq!(vdp.cursor().position_x, 0);
    assert_eq!(vdp.cursor().position_y, 8);
    let mut other = sample_vdp();
    for byte in "Agon Quark VDP Version 1.03".bytes() {
        other.render_char(byte);
        assert!(other.place_cursor(other.cursor().position_x + 8, 0));
    }
    assert_eq!(other.cursor().position_x, 27 * 8);
    assert_eq!(picture(vdp.frame()), picture(other.frame()));
    assert!(lit_pixels(vdp.frame()).len() > 27);
    for (x, y) in lit_pixels(vdp.frame()) {
        assert!(x < 27 * 8 && y < 8);
    }
}

#[test]
fn printing_advances_and_wraps() {
    let mut vdp = sample_vdp();
    for _ in 0..63 {
        assert_eq!(vdp.feed(b'x'), Ok(Action::Done));
    }
    assert_eq!((vdp.cursor().position_x, vdp.cursor().position_y), (504, 0));
    vdp.feed(b'x').unwrap();
    assert_eq!((vdp.cursor().position_x, vdp.cursor().position_y), (0, 8));
}

#[test]
fn glyph_is_drawn_at_the_cursor() {
    let mut vdp = sample_vdp();
    run(&mut vdp, &[0x1F, 5, 6]);
    vdp.render_char(0x81);
    assert_eq!(vdp.cursor().position_x, 40);
    let font = sample_font();
    let rows = &font[8 * (0x81 - 32)..8 * (0x81 - 32) + 8];
    for y in 0..384usize {
        for x in 0..512usize {
            let lit = (40..48).contains(&x)
                && (48..56).contains(&y)
                && rows[y - 48] & (0x80 >> (x - 40)) != 0;
            assert_eq!(vdp.frame().pixel(x, y) == LIT, lit);
        }
    }
    vdp.render_char(0x1F);
    vdp.render_char(0x00);
    assert_eq!(vdp.frame().pixel(47, 48), LIT);
}

#[test]
fn rubbed_out_character_leaves_a_cleared_cell() {
    let mut vdp = sample_vdp();
    run(&mut vdp, &[0x1F, 10, 3]);
    let cleared = picture(vdp.frame());
    vdp.render_char(b'Q');
    vdp.execute(Command::CursorRight).unwrap();
    assert_ne!(picture(vdp.frame()), cleared);
    vdp.backspace();
    vdp.render_char(b' ');
    assert_eq!((vdp.cursor().position_x, vdp.cursor().position_y), (80, 24));
    assert_eq!(picture(vdp.frame()), cleared);

    let mut vdp = sample_vdp();
    run(&mut vdp, &[b'A', b'B', b'C']);
    let before = picture(vdp.frame());
    run(&mut vdp, &[b'D', 0x7F]);
    assert_eq!(vdp.cursor().position_x, 24);
    assert_eq!(picture(vdp.frame()), before);
}

#[test]
fn backspace_at_the_left_edge_stays_there() {
    let mut vdp = sample_vdp();
    run(&mut vdp, &[b'A', 0x0D, 0x7F]);
    assert_eq!(vdp.cursor().position_x, 0);
    assert_eq!(lit_pixels(vdp.frame()).len(), 0);
}

#[test]
fn cursor_commands() {
    let mut vdp = sample_vdp();
    run(&mut vdp, &[0x09, 0x09, 0x0A]);
    assert_eq!((vdp.cursor().position_x, vdp.cursor().position_y), (16, 8));
    run(&mut vdp, &[0x08]);
    assert_eq!((vdp.cursor().position_x, vdp.cursor().position_y), (8, 8));
    run(&mut vdp, &[0x0B, 0x0B]);
    assert_eq!((vdp.cursor().position_x, vdp.cursor().position_y), (8, 0));
    run(&mut vdp, &[0x0A, 0x0D]);
    assert_eq!((vdp.cursor().position_x, vdp.cursor().position_y), (0, 8));
    run(&mut vdp, &[0x09, 0x1E]);
    assert_eq!((vdp.cursor().position_x, vdp.cursor().position_y), (0, 8));
    run(&mut vdp, &[0x1F, 63, 47]);
    assert_eq!((vdp.cursor().position_x, vdp.cursor().position_y), (504, 376));
    run(&mut vdp, &[0x1F, 64, 0]);
    assert_eq!((vdp.cursor().position_x, vdp.cursor().position_y), (504, 376));
    run(&mut vdp, &[0x1F, 0, 48]);
    assert_eq!((vdp.cursor().position_x, vdp.cursor().position_y), (504, 376));
    run(&mut vdp, &[0x1F, 255, 255]);
    assert_eq!((vdp.cursor().position_x, vdp.cursor().position_y), (504, 376));
    run(&mut vdp, &[0x09]);
    assert_eq!((vdp.cursor().position_x, vdp.cursor().position_y), (0, 376));
}

#[test]
fn line_feed_at_the_bottom_scrolls_by_the_overflow() {
    let mut vdp = sample_vdp();
    run(&mut vdp, &[b'A']);
    run(&mut vdp, &[0x1F, 0, 46, b'B', 0x1F, 0, 47, b'C']);
    let before = picture(vdp.frame());
    run(&mut vdp, &[0x0A]);
    assert_eq!((vdp.cursor().position_x, vdp.cursor().position_y), (8, 376));
    let after = picture(vdp.frame());
    for y in 0..376usize {
        for x in 0..512usize {
            assert_eq!(after[y * 512 + x], before[(y + 8) * 512 + x]);
        }
    }
    for y in 376..384usize {
        for x in 0..512usize {
            assert_eq!(after[y * 512 + x], DARK);
        }
    }
    assert!(lit_pixels(vdp.frame()).iter().any(|(_, y)| (368..376).contains(y)));
    assert!(lit_pixels(vdp.frame()).iter().any(|(_, y)| (360..368).contains(y)));
}

#[test]
fn scroll_by_a_part_of_a_cell() {
    let mut vdp = sample_vdp();
    vdp.frame();
    run(&mut vdp, &[0x1F, 0, 47, b'C']);
    let before = picture(vdp.frame());
    assert!(vdp.place_cursor(0, 379));
    vdp.check_scrolling_needed();
    assert_eq!(vdp.cursor().position_y, 376);
    let after = picture(vdp.frame());
    for y in 0..381usize {
        for x in 0..512usize {
            assert_eq!(after[y * 512 + x], before[(y + 3) * 512 + x]);
        }
    }
    for x in 0..512usize {
        assert_eq!(after[383 * 512 + x], DARK);
    }
    vdp.check_scrolling_needed();
    assert_eq!(picture(vdp.frame()), after);
}

#[test]
fn printing_in_the_last_cell_scrolls() {
    let mut vdp = sample_vdp();
    run(&mut vdp, &[0x1F, 63, 47, b'Z']);
    assert_eq!((vdp.cursor().position_x, vdp.cursor().position_y), (0, 376));
    let lit = lit_pixels(vdp.frame());
    assert!(!lit.is_empty());
    for (x, y) in lit {
        assert!((504..512).contains(&x) && (368..376).contains(&y));
    }
}

#[test]
fn clear_screen_keeps_the_graphics_state() {
    let mut vdp = sample_vdp();
    run(&mut vdp, &[0x17, 0x00, 0xC0, 0x00]);
    run(&mut vdp, &[0x1D, 5, 0, 6, 0]);
    run(&mut vdp, &plot_bytes(4, 10, 20));
    run(&mut vdp, &plot_bytes(5, 30, 40));
    run(&mut vdp, &[b'A', 0x11, 0x81]);
    assert!(!lit_pixels(vdp.frame()).is_empty());
    let points = vdp.points();
    run(&mut vdp, &[0x0C]);
    assert_eq!(vdp.points(), points);
    assert_eq!(vdp.points().0, Point::new(35, 46));
    assert_eq!(vdp.graph_origin(), Point::new(5, 6));
    assert!(!vdp.logical_coords());
    assert_eq!((vdp.cursor().position_x, vdp.cursor().position_y), (0, 0));
    let red = Colour { r: 0xAA, g: 0, b: 0 };
    assert_eq!(vdp.background_color(), red);
    assert!(picture(vdp.frame()).iter().all(|c| *c == red));
    run(&mut vdp, &[b'A', 0x09, 0x10]);
    assert_eq!(vdp.cursor().position_x, 16);
    assert!(picture(vdp.frame()).iter().all(|c| *c == red));
}

#[test]
fn mode_switch_resets_graphics_and_clears() {
    let mut vdp = sample_vdp();
    run(&mut vdp, &[0x1D, 100, 0, 50, 0]);
    run(&mut vdp, &plot_bytes(5, 300, 300));
    run(&mut vdp, &plot_bytes(85, 600, 100));
    run(&mut vdp, &[b'A', b'B', 0x11, 0x82, 0x11, 3]);
    assert_ne!(vdp.points().0, Point::new(0, 0));
    assert_ne!(vdp.graph_origin(), Point::new(0, 0));
    run(&mut vdp, &[0x16, 2]);
    assert_eq!(vdp.points(), (Point::new(0, 0), Point::new(0, 0), Point::new(0, 0)));
    assert_eq!(vdp.graph_origin(), Point::new(0, 0));
    assert_eq!((vdp.cursor().position_x, vdp.cursor().position_y), (0, 0));
    assert_eq!(vdp.cursor().screen_width, 320);
    assert_eq!(vdp.cursor().screen_height, 240);
    assert_eq!(vdp.frame().width(), 320);
    assert_eq!(vdp.frame().height(), 240);
    let green = Colour { r: 0, g: 0xAA, b: 0 };
    assert_eq!(vdp.background_color(), green);
    assert!(picture(vdp.frame()).iter().all(|c| *c == green));
    assert!(vdp.logical_coords());
    vdp.change_mode(0);
    assert_eq!(vdp.frame().width(), 1024);
    assert_eq!(vdp.frame().height(), 768);
    assert!(picture(vdp.frame()).iter().all(|c| *c == green));
}

#[test]
fn scale_is_the_identity_without_logical_coordinates() {
    let mut vdp = sample_vdp();
    run(&mut vdp, &[0x17, 0x00, 0xC0, 0x00]);
    for p in [
        Point::new(0, 0),
        Point::new(1279, 1023),
        Point::new(-5, 7),
        Point::new(i32::MAX, i32::MIN),
        Point::new(i32::MIN, i32::MAX),
    ] {
        assert_eq!(vdp.scale(p), p);
    }
}

#[test]
fn scale_maps_the_logical_canvas_to_the_screen() {
    let vdp = sample_vdp();
    assert_eq!(vdp.scale(Point::new(1280, 1024)), Point::new(512, 384));
    assert_eq!(vdp.scale(Point::new(640, 512)), Point::new(256, 192));
    assert_eq!(vdp.scale(Point::new(1, 1)), Point::new(0, 0));
    assert_eq!(vdp.scale(Point::new(3, 3)), Point::new(1, 1));
    assert_eq!(vdp.scale(Point::new(-1, -1)), Point::new(0, 0));
    assert_eq!(vdp.scale(Point::new(-3, -8)), Point::new(-1, -3));
    assert_eq!(vdp.scale(Point::new(-1280, -1024)), Point::new(-512, -384));
    assert_eq!(vdp.scale(Point::new(32767, -32768)), Point::new(13106, -12288));
    assert_eq!(
        vdp.scale(Point::new(i32::MAX, i32::MIN)),
        Point::new(858993458, -805306368)
    );
    let mut vdp = sample_vdp();
    vdp.change_mode(2);
    assert_eq!(vdp.scale(Point::new(1280, 1024)), Point::new(320, 240));
    assert_eq!(vdp.scale(Point::new(7, 9)), Point::new(1, 2));
}

#[test]
fn translate_adds_the_origin_and_turns_the_y_axis() {
    let mut vdp = sample_vdp();
    run(&mut vdp, &[0x1D, 0x80, 0x02, 0x00, 0x01]);
    assert_eq!(vdp.graph_origin(), Point::new(256, 96));
    assert_eq!(vdp.translate(Point::new(0, 0)), Point::new(256, 288));
    assert_eq!(vdp.translate(Point::new(10, 20)), Point::new(266, 268));
    assert_eq!(vdp.translate(Point::new(-300, 400)), Point::new(-44, -112));
    run(&mut vdp, &[0x17, 0x00, 0xC0, 0x00]);
    assert_eq!(vdp.translate(Point::new(0, 0)), Point::new(256, 96));
    assert_eq!(vdp.translate(Point::new(10, 20)), Point::new(266, 116));
    assert_eq!(vdp.translate(Point::new(-300, -400)), Point::new(-44, -304));
}

#[test]
fn translate_is_undone_by_taking_the_origin_off() {
    let mut vdp = sample_vdp();
    run(&mut vdp, &[0x17, 0x00, 0xC0, 0x00, 0x1D, 37, 0, 11, 0]);
    let origin = vdp.graph_origin();
    assert_eq!(origin, Point::new(37, 11));
    for p in [Point::new(0, 0), Point::new(-100, 2000), Point::new(65000, -65000)] {
        let moved = vdp.translate(p);
        assert_eq!(Point::new(moved.x - origin.x, moved.y - origin.y), p);
    }
    run(&mut vdp, &[0x17, 0x00, 0xC0, 0x01]);
    for p in [Point::new(0, 0), Point::new(-100, 2000), Point::new(65000, -65000)] {
        let moved = vdp.translate(p);
        assert_eq!(Point::new(moved.x - origin.x, 384 - moved.y - origin.y), p);
    }
}

#[test]
fn origin_with_a_negative_coordinate_is_not_taken() {
    let mut vdp = sample_vdp();
    run(&mut vdp, &[0x1D, 0x80, 0x02, 0x00, 0x01]);
    run(&mut vdp, &[0x1D, 0xFF, 0xFF, 0x10, 0x00]);
    assert_eq!(vdp.graph_origin(), Point::new(256, 96));
    run(&mut vdp, &[0x1D, 0x10, 0x00, 0x00, 0x80]);
    assert_eq!(vdp.graph_origin(), Point::new(256, 96));
    run(&mut vdp, &[0x1D, 0x00, 0x00, 0x00, 0x00]);
    assert_eq!(vdp.graph_origin(), Point::new(0, 0));
    run(&mut vdp, &[0x1D, 0xFF, 0x7F, 0xFF, 0x7F]);
    assert_eq!(vdp.graph_origin(), Point::new(13106, 12287));
}

#[test]
fn plot_keeps_the_last_three_points() {
    let mut vdp = sample_vdp();
    run(&mut vdp, &[0x17, 0x00, 0xC0, 0x00]);
    assert_eq!(vdp.plot(4, 1, 2), Action::Done);
    assert_eq!(vdp.plot(4, 3, 4), Action::Done);
    assert_eq!(vdp.plot(4, 5, 6), Action::Done);
    assert_eq!(vdp.points(), (Point::new(5, 6), Point::new(3, 4), Point::new(1, 2)));
    assert_eq!(
        vdp.plot(200, 7, 8),
        Action::Ignored(Command::Plot { mode: 200, x: 7, y: 8 })
    );
    assert_eq!(vdp.points(), (Point::new(7, 8), Point::new(5, 6), Point::new(3, 4)));
    assert_eq!(lit_pixels(vdp.frame()).len(), 0);
    assert_eq!(vdp.plot(4, -32768, 32767), Action::Done);
    assert_eq!(vdp.points().0, Point::new(-32768, 32767));
}

#[test]
fn plot_in_logical_coordinates() {
    let mut vdp = sample_vdp();
    assert_eq!(vdp.plot(69, 640, 512), Action::Done);
    assert_eq!(vdp.points().0, Point::new(256, 192));
    assert_eq!(lit_pixels(vdp.frame()), vec![(256, 192)]);
    vdp.plot(69, 0, 0);
    assert_eq!(vdp.points().0, Point::new(0, 384));
    assert_eq!(lit_pixels(vdp.frame()), vec![(256, 192)]);
    vdp.plot(69, 0, 3);
    assert_eq!(vdp.points().0, Point::new(0, 383));
    assert_eq!(lit_pixels(vdp.frame()), vec![(256, 192), (0, 383)]);
}

#[test]
fn plot_dot_line_and_triangle() {
    let mut vdp = sample_vdp();
    run(&mut vdp, &[0x17, 0x00, 0xC0, 0x00, 0x12, 0, 15]);
    for mode in 64..=71u8 {
        vdp.plot(mode, mode as i16, 1);
    }
    assert_eq!(
        lit_pixels(vdp.frame()),
        (64..=71usize).map(|x| (x, 1)).collect::<Vec<_>>()
    );
    vdp.clg();
    vdp.plot(4, 3, 1);
    vdp.plot(5, 0, 0);
    assert_eq!(lit_pixels(vdp.frame()), vec![(0, 0), (1, 0), (2, 1), (3, 1)]);
    vdp.clg();
    vdp.plot(4, 0, 0);
    vdp.plot(4, 4, 0);
    assert_eq!(vdp.plot(80, 0, 4), Action::Done);
    let lit = lit_pixels(vdp.frame());
    assert_eq!(lit.len(), 15);
    for row in 0..5usize {
        let run: Vec<usize> = lit.iter().filter(|(_, y)| *y == row).map(|(x, _)| *x).collect();
        assert_eq!(run, (0..5 - row).collect::<Vec<_>>());
    }
    for mode in 81..=87u8 {
        let mut other = sample_vdp();
        run(&mut other, &[0x17, 0x00, 0xC0, 0x00]);
        other.plot(4, 0, 0);
        other.plot(4, 4, 0);
        other.plot(mode, 0, 4);
        assert_eq!(lit_pixels(other.frame()), lit);
    }
}

#[test]
fn plot_uses_the_graphics_colour() {
    let mut vdp = sample_vdp();
    run(&mut vdp, &[0x17, 0x00, 0xC0, 0x00, 0x12, 0, 1, 0x11, 2]);
    vdp.plot(69, 9, 9);
    assert_eq!(vdp.frame().pixel(9, 9), Colour { r: 0xAA, g: 0, b: 0 });
    assert_eq!(vdp.frame().get(9, 9), Some(Colour { r: 0xAA, g: 0, b: 0 }));
}

#[test]
fn circle_is_handed_back_with_centre_and_radius() {
    let mut vdp = sample_vdp();
    run(&mut vdp, &[0x17, 0x00, 0xC0, 0x00]);
    vdp.plot(4, 100, 100);
    assert_eq!(
        vdp.plot(145, 103, 104),
        Action::Circle { centre: Point::new(100, 100), radius_squared: 103 * 103 + 104 * 104 }
    );
    assert_eq!(lit_pixels(vdp.frame()).len(), 0);
    assert_eq!(
        vdp.plot(149, 106, 108),
        Action::Circle { centre: Point::new(103, 104), radius_squared: 25 }
    );
    for mode in 144..=147u8 {
        vdp.plot(4, 1, 1);
        assert_eq!(
            vdp.plot(mode, 3, -4),
            Action::Circle { centre: Point::new(1, 1), radius_squared: 25 }
        );
    }
    for mode in 148..=151u8 {
        vdp.plot(4, 1, 1);
        assert_eq!(
            vdp.plot(mode, 4, 5),
            Action::Circle { centre: Point::new(1, 1), radius_squared: 25 }
        );
    }
    vdp.plot(4, -32768, -32768);
    assert_eq!(
        vdp.plot(151, 32767, 32767),
        Action::Circle {
            centre: Point::new(-32768, -32768),
            radius_squared: 2 * 65535 * 65535
        }
    );
    assert_eq!(
        run(&mut vdp, &plot_bytes(144, 3, 4)),
        Action::Circle { centre: Point::new(32767, 32767), radius_squared: 25 }
    );
}

#[test]
fn outline_is_closed() {
    let mut vdp = sample_vdp();
    vdp.outline(&vec![Point::new(1, 1), Point::new(4, 1), Point::new(4, 3), Point::new(1, 3)]);
    assert_eq!(
        lit_pixels(vdp.frame()),
        vec![
            (1, 1),
            (2, 1),
            (3, 1),
            (4, 1),
            (1, 2),
            (4, 2),
            (1, 3),
            (2, 3),
            (3, 3),
            (4, 3)
        ]
    );
    vdp.clg();
    vdp.outline(&vec![]);
    assert_eq!(lit_pixels(vdp.frame()).len(), 0);
    vdp.outline(&vec![Point::new(7, 7)]);
    assert_eq!(lit_pixels(vdp.frame()), vec![(7, 7)]);
    vdp.clg();
    vdp.outline(&vec![Point::new(0, 0), Point::new(3, 0)]);
    assert_eq!(lit_pixels(vdp.frame()), vec![(0, 0), (1, 0), (2, 0), (3, 0)]);
}

#[test]
fn circle_outline_from_thirty_two_points() {
    let mut vdp = sample_vdp();
    run(&mut vdp, &[0x17, 0x00, 0xC0, 0x00]);
    vdp.plot(4, 100, 100);
    let (centre, radius_squared) = match vdp.plot(149, 100, 120) {
        Action::Circle { centre, radius_squared } => (centre, radius_squared),
        other => panic!("no circle: {:?}", other),
    };
    let r = (radius_squared as f32).sqrt();
    let mut points = vec![Point::new(centre.x + r as i32, centre.y)];
    for i in 1..32 {
        let angle = (i as f32) * 6.28318531 / 32.0;
        points.push(Point::new(
            centre.x + (r * angle.cos()) as i32,
            centre.y + (r * angle.sin()) as i32,
        ));
    }
    vdp.outline(&points);
    let lit = lit_pixels(vdp.frame());
    assert!(lit.contains(&(120, 100)));
    assert!(lit.contains(&(80, 100)));
    assert!(lit.contains(&(100, 120)));
    assert!(lit.contains(&(100, 80)));
    for (x, y) in lit {
        let dx = x as f32 - 100.0;
        let dy = y as f32 - 100.0;
        let d = (dx * dx + dy * dy).sqrt();
        assert!(d > 18.0 && d < 21.0);
    }
}

#[test]
fn frames_are_paced_by_the_refresh_rate() {
    let mut vdp = sample_vdp();
    assert_eq!(vdp.refresh_interval(), 16666);
    assert!(!vdp.frame_due(0));
    assert!(!vdp.frame_due(16666));
    assert!(vdp.frame_due(16667));
    assert!(vdp.frame_due(u128::MAX));
    vdp.change_mode(2);
    assert_eq!(vdp.refresh_interval(), 13333);
    assert!(!vdp.frame_due(13333));
    assert!(vdp.frame_due(13334));
}

#[test]
fn cursor_blinks_after_half_a_second() {
    let mut vdp = sample_vdp();
    run(&mut vdp, &[0x11, 1, 0x11, 130]);
    let ink = vdp.foreground_color();
    let paper = vdp.background_color();
    assert_eq!(vdp.blink_cursor(0), (false, paper));
    assert_eq!(vdp.blink_cursor(500), (false, paper));
    assert_eq!(vdp.blink_cursor(501), (true, ink));
    assert_eq!(vdp.blink_cursor(17), (false, ink));
    assert_eq!(vdp.blink_cursor(100_000), (true, paper));
    assert_eq!(vdp.blink_cursor(501), (true, ink));
    assert_eq!(lit_pixels(vdp.frame()).len(), 0);
}
