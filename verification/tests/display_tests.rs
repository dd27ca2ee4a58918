use chip8::display::{Display, HEIGHT, WIDTH};

#[test]
fn clear_display() {
    let mut display = Display::new();
    display.pixels = [[true; WIDTH]; HEIGHT];
    display.clear();

    assert_eq!(
        [[false; WIDTH]; HEIGHT],
        display.pixels
    )
}
