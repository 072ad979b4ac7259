use fermi_term::colors::{ansi_16_color, ansi_256_color};

#[test]
fn base_colours() {
    assert_eq!(ansi_16_color(0), [0, 0, 0]);
    assert_eq!(ansi_16_color(1), [170, 0, 0]);
    assert_eq!(ansi_16_color(7), [170, 170, 170]);
    assert_eq!(ansi_16_color(8), [85, 85, 85]);
    assert_eq!(ansi_16_color(12), [85, 85, 255]);
    assert_eq!(ansi_16_color(15), [255, 255, 255]);
}

#[test]
fn palette_low_entries_are_base_colours() {
    for k in 0..16 {
        assert_eq!(ansi_256_color(k), ansi_16_color(k));
    }
}

#[test]
fn palette_colour_cube() {
    assert_eq!(ansi_256_color(16), [0, 0, 0]);
    assert_eq!(ansi_256_color(21), [0, 0, 255]);
    assert_eq!(ansi_256_color(22), [0, 95, 0]);
    assert_eq!(ansi_256_color(196), [255, 0, 0]);
    assert_eq!(ansi_256_color(16 + 36 * 2 + 6 * 3 + 4), [135, 175, 215]);
    assert_eq!(ansi_256_color(231), [255, 255, 255]);
}

#[test]
fn palette_grayscale_ramp() {
    assert_eq!(ansi_256_color(232), [8, 8, 8]);
    assert_eq!(ansi_256_color(244), [128, 128, 128]);
    assert_eq!(ansi_256_color(255), [238, 238, 238]);
}

#[test]
fn palette_past_the_table_wraps_bytewise() {
    assert_eq!(ansi_256_color(256), [248, 248, 248]);
    // 8 + 10 * 25 = 258, which wraps to 2.
    assert_eq!(ansi_256_color(257), [2, 2, 2]);
    // (300 - 232) = 68; 8 + 680 = 688 = 2 * 256 + 176.
    assert_eq!(ansi_256_color(300), [176, 176, 176]);
}
