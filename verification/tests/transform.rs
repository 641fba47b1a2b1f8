use rgecko::colors::ansicodes::control_chars;
use rgecko::colors::transform::{
    expand_escape_codes, find_nearest_color, split_rgb_int, string_hex_to_rgb,
};

#[test]
fn transform_test_int_to_rgb() {
    let split = split_rgb_int(0x123456);
    assert_eq!(
        split,
        (0x12u8, 0x34u8, 0x56u8),
        "RGB channels did not match expected values."
    );
}

#[test]
fn text_string_to_rgb() {
    let split = string_hex_to_rgb("#33ffaa");
    assert_eq!(
        split,
        (0x33u8, 0xffu8, 0xaau8),
        "RGB channels did not match expected values."
    );
}

#[test]
fn transform_test_nearest_color_search() {
    // Should return 215,95,135, hotpink3_1
    let nearest_color = find_nearest_color([0xd7u8, 0x5fu8, 0x86u8]);
    assert_eq!(
        nearest_color, 0xd75f87,
        "Unexpected nearest color {nearest_color}, expected {}",
        0xd75f87
    );
}

#[test]
fn test_escape_expansion() {
    let table = control_chars();
    let keys: String = table.iter().map(|s| s.0).collect();
    println!("Keys: {}", keys);
    let expanded_string = expand_escape_codes(&keys);

    let values: String = table.iter().map(|s| s.1).collect();
    assert_eq!(expanded_string, values);
}
