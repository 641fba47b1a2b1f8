use rgecko::argparse::parser::ColorMode;
use rgecko::colors::colorsheet::colors;
use rgecko::colors::transform::{self, MarkupOptions};
use rgecko::colors::ztran::{find_nearest_rgb, markup_text, try_markup_text};
use rgecko::logger::Logger;

fn options(color_mode: ColorMode, handle_escape: bool, readable: bool) -> MarkupOptions {
    MarkupOptions {
        color_mode,
        newline: false,
        handle_escape,
        no_binary_expansion: readable,
        logger: Logger::new(),
    }
}

#[test]
fn plain_text_is_copied() {
    let opt = options(ColorMode::Color256, false, false);
    assert_eq!(markup_text("just words, 42 of them\\n", &opt), "just words, 42 of them\\n");
    assert_eq!(markup_text("", &opt), "");
}

#[test]
fn tag_between_plain_texts() {
    let opt = options(ColorMode::Color256, true, false);
    assert_eq!(markup_text("a[red]b", &opt), "a\x1b[38;2;255;0;0mb");
    assert_eq!(markup_text("x [bold] y", &opt), "x \x1b[1m y");
}

#[test]
fn reset_tag_anywhere() {
    let opt = options(ColorMode::Color256, true, false);
    assert_eq!(markup_text("x[/]y", &opt), "x\x1b[0my");
    let readable = options(ColorMode::Color256, true, true);
    assert_eq!(markup_text("x[/]y", &readable), "x\\x1b[0my");
}

#[test]
fn double_bracket_writes_one() {
    let opt = options(ColorMode::Color256, true, false);
    assert_eq!(markup_text("a[[b", &opt), "a[b");
}

#[test]
fn unnamed_tag_vanishes() {
    let opt = options(ColorMode::Color256, true, false);
    assert_eq!(markup_text("a[nothing here]b", &opt), "ab");
    assert_eq!(markup_text("a[]b", &opt), "ab");
    assert_eq!(markup_text("a[red nothing]b", &opt), "ab");
}

#[test]
fn unnamed_background_tag_leaves_separator() {
    let opt = options(ColorMode::Color256, true, false);
    assert_eq!(markup_text("a[foo on bar]b", &opt), "a\x1b[;mb");
    assert_eq!(markup_text("a[_ on bar]b", &opt), "ab");
}

#[test]
fn colorless_mode_resets_every_tag() {
    let opt = options(ColorMode::NoColor, true, false);
    assert_eq!(markup_text("a[red on blue]b", &opt), "a\x1b[0mb");
}

#[test]
fn short_hex_matches_long_hex() {
    let opt = options(ColorMode::Color256, true, false);
    assert_eq!(
        markup_text("[#f0a]x", &opt),
        markup_text("[#ff00aa]x", &opt)
    );
    assert_eq!(markup_text("[#ff00ff]x", &opt), "\x1b[38;2;255;0;255mx");
}

#[test]
fn unreadable_colour_words_drop_the_tag() {
    let opt = options(ColorMode::Color256, true, false);
    assert_eq!(markup_text("a[#zzz]b", &opt), "ab");
    assert_eq!(markup_text("a[rgb(1,x,3)]b", &opt), "ab");
    let first = options(ColorMode::Color256, false, false);
    assert_eq!(transform::markup_text("a[#zzz]b", first), "ab");
    let first = options(ColorMode::Color256, false, false);
    assert_eq!(transform::markup_text("a[rgb(1,x,3) on red]b", first), "ab");
}

#[test]
fn rgb_and_background_words() {
    let opt = options(ColorMode::Color256, true, false);
    assert_eq!(
        markup_text("[rgb(255,0,0) on white]z", &opt),
        "\x1b[48;2;255;255;255;38;2;255;0;0mz"
    );
    assert_eq!(markup_text("[_ on red]z", &opt), "\x1b[48;2;255;0;0mz");
}

#[test]
fn readable_sequences() {
    let opt = options(ColorMode::Color256, true, true);
    assert_eq!(markup_text("[blue]x", &opt), "\\x1b[38;2;0;0;255mx");
}

#[test]
fn escapes_expanded_when_handled() {
    let opt = options(ColorMode::Color256, true, false);
    assert_eq!(markup_text("a\\tb", &opt), "a\tb");
    assert_eq!(markup_text("go\\nnow\\x1b", &opt), "go\nnow\x1b");
    assert_eq!(markup_text("a\\qb\\", &opt), "a\\qb\\");
    let keep = options(ColorMode::Color256, false, false);
    assert_eq!(markup_text("a\\tb", &keep), "a\\tb");
}

#[test]
fn escape_sequence_swallows_rest_until_long() {
    let opt = options(ColorMode::Color256, false, false);
    assert_eq!(markup_text("ok\x1b[31mred", &opt), "ok");
}

#[test]
fn cut_character_fails_rendering() {
    let opt = options(ColorMode::Color256, false, false);
    let mut text = String::from("\x1b[");
    for _ in 0..30 {
        text.push('1');
    }
    text.push('é');
    assert_eq!(try_markup_text(&text, &opt), None);
    assert_eq!(try_markup_text("fine", &opt), Some(String::from("fine")));
}

#[test]
fn palette_colors_are_their_own_nearest() {
    for (_, hex) in colors() {
        let rgb = [(hex >> 16) as u8, (hex >> 8) as u8, hex as u8];
        assert_eq!(find_nearest_rgb(rgb), rgb);
        assert_eq!(transform::find_nearest_color(rgb), hex);
    }
}

#[test]
fn nearest_is_no_farther_than_any_palette_color() {
    let target = [10u8, 200u8, 77u8];
    let near = find_nearest_rgb(target);
    let d = |c: [u8; 3]| -> i64 {
        (0..3)
            .map(|i| (c[i] as i64 - target[i] as i64) * (c[i] as i64 - target[i] as i64))
            .sum()
    };
    for (_, hex) in colors() {
        let c = [(hex >> 16) as u8, (hex >> 8) as u8, hex as u8];
        assert!(d(near) <= d(c));
    }
}

#[test]
fn first_renderer_copies_plain_text() {
    let mut opt = options(ColorMode::Color256, false, false);
    assert_eq!(transform::markup_text("héllo wörld", opt), "héllo wörld");
    opt = MarkupOptions {
        newline: true,
        ..options(ColorMode::Color256, false, false)
    };
    assert_eq!(transform::markup_text("hi", opt), "hi\n");
    assert_eq!(
        transform::markup_text("", options(ColorMode::Color256, false, false)),
        ""
    );
}

#[test]
fn first_renderer_tags() {
    let opt = options(ColorMode::Color256, false, false);
    assert_eq!(transform::markup_text("[blue]Hi[/]", opt), "\x1b[38;2;0;0;255mHi\x1b[0m");
    let opt = options(ColorMode::Color256, false, false);
    assert_eq!(transform::markup_text("a[[b", opt), "a[b");
}

#[test]
fn palette_names_and_hex_tags_agree() {
    let opt = options(ColorMode::Color256, false, false);
    let table = colors();
    for (i, (name, hex)) in table.iter().enumerate() {
        if table[..i].iter().any(|(n, _)| n == name) {
            continue;
        }
        let by_name = markup_text(&format!("[{name}]x"), &opt);
        let by_hex = markup_text(&format!("[#{:06x}]x", hex), &opt);
        assert_eq!(by_name, by_hex);
        let expected = format!(
            "\x1b[38;2;{};{};{}mx",
            (hex >> 16) & 0xff,
            (hex >> 8) & 0xff,
            hex & 0xff
        );
        assert_eq!(by_name, expected);
    }
}

#[test]
fn style_codes_run_into_colour() {
    let opt = options(ColorMode::Color256, false, false);
    assert_eq!(markup_text("[bold red]x", &opt), "\x1b[138;2;255;0;0mx");
    assert_eq!(
        markup_text("[italic on blue]x", &opt),
        "\x1b[48;2;0;0;255;3mx"
    );
}

#[test]
fn characters_outside_ascii_copied_whole() {
    let opt = options(ColorMode::Color256, false, false);
    assert_eq!(markup_text("héllo [red]wörld ✓ 🦎", &opt), "héllo \x1b[38;2;255;0;0mwörld ✓ 🦎");
}

#[test]
fn first_renderer_tag_and_reset_laws() {
    let opt = options(ColorMode::Color256, false, false);
    assert_eq!(transform::markup_text("a[red]b", opt), "a\x1b[38;2;255;0;0mb");
    let opt = options(ColorMode::Color256, false, false);
    assert_eq!(transform::markup_text("x[/]y", opt), "x\x1b[0my");
    let opt = options(ColorMode::Color256, true, false);
    assert_eq!(transform::markup_text("a\\tb", opt), "a\tb");
}
