use rgecko::colors::transform::{split_rgb_int, MarkupOptions};
use rgecko::colors::ztran::{find_nearest_rgb, markup_text};

#[test]
fn ztran_test_int_to_rgb() {
    const EXPECTED: (u8, u8, u8) = (0x12u8, 0x34u8, 0x56u8);
    let split = split_rgb_int(0x123456);
    assert_eq!(split, EXPECTED);
}

#[test]
fn test_nearest_color_search_passthrough() {
    const EXPECTED: [u8; 3] = [0xd7u8, 0x5fu8, 0x87u8];

    // Should return 215,95,135, hotpink3_1
    let nc = find_nearest_rgb(EXPECTED);
    assert_eq!(nc, EXPECTED,);
}

#[test]
fn ztran_test_nearest_color_search() {
    const EXPECTED: [u8; 3] = [0xffu8, 0x00u8, 0xffu8];

    let nc = find_nearest_rgb([0xffu8 - 2, 0x00u8 + 3, 0xffu8 - 1]);
    assert_eq!(nc, EXPECTED,);
}

#[test]
fn test_markup_rendering() {
    let options = MarkupOptions::default();

    let cases = [
        ("Hello, World!", "Hello, World!"),
        ("[blue]Hello[/]", "\x1b[38;2;0;0;255mHello\x1b[0m"),
        ("[_ on black]Hello[/]", "\x1b[48;2;0;0;0mHello\x1b[0m"),
        ("[blinking dunderlined]Hello[/]", "\x1b[5;21mHello\x1b[0m"),
        (
            "[bold dim italic underlined blinking fblinking swap striked dunderlined overlined]hello[/]",
            "\x1b[1;2;3;4;5;6;7;9;21;53mhello\x1b[0m",
        ),
        (
            "[blue white green red green on white blue black green black]hello[/]",
            "\x1b[48;2;0;0;0;38;2;0;128;0mhello\x1b[0m",
        ),
    ];

    for (input, expected) in cases {
        let result = markup_text(input, &options);
        assert_eq!(result, expected, "Failed for input: {input:?}");
    }
}
