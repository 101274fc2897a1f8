use term_video::glyph::get_pixel_char;

const RAMP: [char; 13] = [
    ' ', '.', ',', '-', '~', ':', ';', '=', '!', '*', '#', '$', '@',
];

fn ramp_index(c: char) -> usize {
    RAMP.iter().position(|&r| r == c).expect("glyph not on the ramp")
}

#[test]
fn boundary_values_map_to_specified_glyphs() {
    assert_eq!(get_pixel_char(0), ' ');
    assert_eq!(get_pixel_char(21), '.');
    assert_eq!(get_pixel_char(22), ',');
    assert_eq!(get_pixel_char(241), '$');
    assert_eq!(get_pixel_char(242), '@');
    assert_eq!(get_pixel_char(255), '@');
}

#[test]
fn bucket_table_is_exact() {
    assert_eq!(get_pixel_char(1), '.');
    assert_eq!(get_pixel_char(43), ',');
    assert_eq!(get_pixel_char(44), '-');
    assert_eq!(get_pixel_char(65), '-');
    assert_eq!(get_pixel_char(66), '~');
    assert_eq!(get_pixel_char(87), '~');
    assert_eq!(get_pixel_char(88), ':');
    assert_eq!(get_pixel_char(109), ':');
    assert_eq!(get_pixel_char(110), ';');
    assert_eq!(get_pixel_char(128), ';');
    assert_eq!(get_pixel_char(131), ';');
    assert_eq!(get_pixel_char(132), '=');
    assert_eq!(get_pixel_char(153), '=');
    assert_eq!(get_pixel_char(154), '!');
    assert_eq!(get_pixel_char(175), '!');
    assert_eq!(get_pixel_char(176), '*');
    assert_eq!(get_pixel_char(197), '*');
    assert_eq!(get_pixel_char(198), '#');
    assert_eq!(get_pixel_char(219), '#');
    assert_eq!(get_pixel_char(220), '$');
}

#[test]
fn map_is_total_and_monotonic_in_density() {
    let mut prev = 0;
    for lum in 0..=255u8 {
        let d = ramp_index(get_pixel_char(lum));
        assert!(d >= prev, "density fell at luminance {}", lum);
        prev = d;
    }
    assert_eq!(prev, 12);
}
