use chip8::C8Display;

#[test]
fn c8display_pixelwrite() {
    let mut display = C8Display::new();
    display.write_pixel(5, 7, 1);

    let value = display.display_array[453];
    assert_eq!(value, 1);
}

#[test]
fn c8display_clearscreen() {
    let mut display = C8Display::new();
    display.display_array = [1; 64 * 32];

    display.clear_screen();
    for i in display.display_array {
        assert_eq!(i, 0);
    }
}

#[test]
fn write_pixel_wraps_and_toggles() {
    let mut display = C8Display::new();
    display.write_pixel(64 + 5, 32 + 7, 1);
    assert_eq!(display.pixel(5, 7), 1);
    display.write_pixel(5, 7, 1);
    assert_eq!(display.get_display()[453], 0);
    display.write_pixel(5, 7, 0);
    assert_eq!(display.pixel(5, 7), 0);
}

#[test]
fn draw_sprite_reports_collision() {
    let mut display = C8Display::new();
    let sprite = vec![0b1000_0001u8];
    assert!(!display.draw_sprite(&sprite, 0, 0));
    assert_eq!(display.pixel(0, 0), 1);
    assert_eq!(display.pixel(7, 0), 1);
    assert_eq!(display.pixel(1, 0), 0);
    assert!(display.draw_sprite(&sprite, 7, 0));
    assert_eq!(display.pixel(7, 0), 0);
    assert_eq!(display.pixel(14, 0), 1);
}
