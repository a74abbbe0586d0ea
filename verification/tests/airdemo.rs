use airos::airdemo::generate_checkerboard;

#[test]
fn checkerboard_correct_size() {
    let pixels = generate_checkerboard(640, 480, 8);
    assert_eq!(pixels.len(), 640 * 480 * 4);
}

#[test]
fn checkerboard_first_pixel_is_white() {
    let pixels = generate_checkerboard(8, 8, 8);
    assert_eq!(&pixels[0..4], &[255, 255, 255, 255]);
}

#[test]
fn checkerboard_second_tile_is_black() {
    let pixels = generate_checkerboard(16, 8, 8);
    assert_eq!(&pixels[32..36], &[0, 0, 0, 255]);
}

#[test]
fn checkerboard_alpha_always_255() {
    let pixels = generate_checkerboard(16, 16, 8);
    for i in 0..(16 * 16) {
        assert_eq!(pixels[i * 4 + 3], 255, "alpha != 255 at pixel {}", i);
    }
}

#[test]
fn checkerboard_second_row_of_tiles_starts_black() {
    let pixels = generate_checkerboard(2, 2, 1);
    assert_eq!(
        pixels,
        vec![255, 255, 255, 255, 0, 0, 0, 255, 0, 0, 0, 255, 255, 255, 255, 255]
    );
}
