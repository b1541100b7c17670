use agon_light_vdp::VDP;

#[test]
fn keys_with_a_code() {
    assert_eq!(VDP::sdl_scancode_to_mos_keycode(80, 0), 0x08);
    assert_eq!(VDP::sdl_scancode_to_mos_keycode(43, 0), 0x09);
    assert_eq!(VDP::sdl_scancode_to_mos_keycode(79, 0), 0x15);
    assert_eq!(VDP::sdl_scancode_to_mos_keycode(81, 0), 0x0A);
    assert_eq!(VDP::sdl_scancode_to_mos_keycode(42, 0), 0x7F);
    assert_eq!(VDP::sdl_scancode_to_mos_keycode(40, 0), 0x0D);
    assert_eq!(VDP::sdl_scancode_to_mos_keycode(41, 0), 0x1B);
}

#[test]
fn keys_without_a_code() {
    assert_eq!(VDP::sdl_scancode_to_mos_keycode(4, 1), 0x00);
    assert_eq!(VDP::sdl_scancode_to_mos_keycode(82, 0), 0x00);
    assert_eq!(VDP::sdl_scancode_to_mos_keycode(0, 0), 0x00);
    assert_eq!(VDP::sdl_scancode_to_mos_keycode(-1, 0x40), 0x00);
}
