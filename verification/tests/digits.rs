use termrender::digits::to_decimal;
use termrender::frame::{get_ascii, Pixel};

#[test]
fn zero_renders_as_one_digit() {
    assert_eq!(to_decimal(0), vec!['0']);
}

#[test]
fn single_digit_renders_as_itself() {
    assert_eq!(to_decimal(7), vec!['7']);
}

#[test]
fn multi_digit_renders_most_significant_first() {
    assert_eq!(to_decimal(1234), vec!['1', '2', '3', '4']);
}

#[test]
fn largest_value_renders_fully() {
    let expected: Vec<char> = "18446744073709551615".chars().collect();
    assert_eq!(to_decimal(u64::MAX), expected);
}

#[test]
fn transparent_pixel_maps_to_space() {
    let p = Pixel { r: 200, g: 100, b: 50, a: 0 };
    assert_eq!(get_ascii(p), ' ');
}

#[test]
fn opaque_pixel_maps_to_visible_glyph() {
    let p = Pixel { r: 0, g: 0, b: 0, a: 255 };
    assert_eq!(get_ascii(p), '0');
}
