use rgecko::argparse::parser::{parse_args, ColorMode, ExtraMode};
use rgecko::colors::ansicodes::{
    format_codes, get_format_code_from_label, AnsiCommand, AnsiConvert, Color, Layer, Style,
    __find_in_map,
};
use rgecko::colors::colorsheet::get_color_by_name;
use rgecko::colors::terms::{ansi_supported, get_color_support, term_color_verdict, Environment};
use rgecko::colors::transform::{expand_escape_codes, split_rgb_int, MarkupOptions};
use rgecko::extras::{handle_cli_extras, help_text, version_text};
use rgecko::{markup_args, markup_string, output_text, try_markup_args};

fn env() -> Environment {
    Environment {
        verbose_log: false,
        no_color: false,
        stdout_is_terminal: false,
        colorterm: false,
        term: None,
        windows_terminal: false,
    }
}

fn terminal(term: Option<&str>) -> Environment {
    Environment {
        stdout_is_terminal: true,
        term: term.map(String::from),
        ..env()
    }
}

#[test]
fn channels_recombine() {
    let (r, g, b) = split_rgb_int(0xabcdef);
    assert_eq!((r, g, b), (0xab, 0xcd, 0xef));
    assert_eq!(((r as u32) << 16) | ((g as u32) << 8) | b as u32, 0xabcdef);
}

#[test]
fn expansion_leaves_text_without_backslash() {
    assert_eq!(expand_escape_codes("nothing to expand"), "nothing to expand");
    assert_eq!(expand_escape_codes("a\\tb\\q"), "a\tb\\q");
}

#[test]
fn expansion_never_grows() {
    for text in ["\\003\\x1b\\n\\r\\t\\a\\b\\f\\v", "plain", "\\q\\", "é\\n"] {
        assert!(expand_escape_codes(text).len() <= text.len());
    }
    assert_eq!(expand_escape_codes("\\x1b").len(), 1);
}

#[test]
fn words_join_into_text() {
    let config = parse_args(&["one", "two", "three"], &env());
    assert_eq!(config.text_input, "one two three");
    assert!(config.newline);
    assert_eq!(config.extras, ExtraMode::NoExtra);
    assert_eq!(config.color_mode, ColorMode::NoColor);
}

#[test]
fn switches_and_literal_text() {
    let config = parse_args(&["-emi", "--nobexp", "a", "--", "-C", "--help"], &env());
    assert!(config.handle_escape && config.no_markup && config.interactive);
    assert!(config.no_binary_expansion);
    assert_eq!(config.text_input, "a -C --help");
    let config = parse_args(&["--help", "-C", "--unknown", "-z"], &env());
    assert_eq!(config.extras, ExtraMode::PrintHelp);
    assert_eq!(config.color_mode, ColorMode::NoColor);
    assert_eq!(config.text_input, "");
}

#[test]
fn no_color_wins() {
    let mut e = terminal(Some("xterm-256color"));
    e.colorterm = true;
    assert_eq!(get_color_support(&e), ColorMode::Color256);
    e.no_color = true;
    assert_eq!(get_color_support(&e), ColorMode::NoColor);
    let mut piped = e;
    piped.no_color = false;
    piped.stdout_is_terminal = false;
    assert_eq!(get_color_support(&piped), ColorMode::NoColor);
}

#[test]
fn term_value_is_lowercased() {
    assert!(ansi_supported(&terminal(Some("XTERM-256COLOR"))));
    assert!(ansi_supported(&terminal(Some("XTerm"))));
    assert!(ansi_supported(&terminal(Some("ANSI"))));
    assert!(!ansi_supported(&terminal(Some("DUMB"))));
    assert!(!ansi_supported(&terminal(Some("vt100"))));
    let mut wt = terminal(Some("vt100"));
    wt.windows_terminal = true;
    assert!(ansi_supported(&wt));
    assert_eq!(term_color_verdict("dumb"), Some(false));
    assert_eq!(term_color_verdict("linux"), None);
    assert_eq!(term_color_verdict("ansi"), Some(true));
}

#[test]
fn no_markup_is_echo() {
    let config = parse_args(&["-m", "[red]raw"], &env());
    assert_eq!(output_text(&config), Some(String::from("[red]raw\n")));
    let config = parse_args(&["-mn", "[red]raw"], &env());
    assert_eq!(output_text(&config), Some(String::from("[red]raw")));
    let config = parse_args(&["-mi", "[red]raw"], &env());
    assert_eq!(output_text(&config), Some(String::from("[red]raw")));
}

#[test]
fn command_line_rendering() {
    assert_eq!(markup_args(&["-c", "[red]hi[/]"], &env()), "\x1b[38;2;255;0;0mhi\x1b[0m");
    assert_eq!(markup_args(&["[red]hi"], &env()), "\x1b[0mhi");
    assert_eq!(try_markup_args(&["-c", "plain"], &env()), Some(String::from("plain")));
    let config = parse_args(&["-c", "[green]go"], &env());
    assert_eq!(
        output_text(&config),
        Some(String::from("\x1b[38;2;0;128;0mgo\n"))
    );
}

#[test]
fn long_switches_match_short_ones() {
    let config = parse_args(
        &["--no-newline", "--handle-escape", "--force-color", "x"],
        &env(),
    );
    assert!(!config.newline);
    assert!(config.handle_escape);
    assert_eq!(config.color_mode, ColorMode::Color256);
    let config = parse_args(&["--force-color", "--no-color", "x"], &env());
    assert_eq!(config.color_mode, ColorMode::NoColor);
}

#[test]
fn escapes_expanded_on_command_line() {
    assert_eq!(markup_args(&["-c", "-e", "a\\tb"], &env()), "a\tb");
    assert_eq!(markup_args(&["-c", "a\\tb"], &env()), "a\\tb");
}

#[test]
fn listing_is_written() {
    let config = parse_args(&["--listc", "-cn"], &env());
    let out = output_text(&config).unwrap();
    let lines: Vec<&str> = out.lines().collect();
    assert_eq!(lines.len(), 256);
    assert_eq!(
        lines[1],
        "(#800000) maroon            \x1b[38;2;128;0;0mHello, World!\x1b[0m"
    );
    let config = parse_args(&["--lists", "-cmn", "Hi"], &env());
    let out = output_text(&config).unwrap();
    assert!(out.starts_with("(ANSI: ;1) bold        [bold]Hi[/]\n"));
    assert_eq!(out.lines().count(), 10);
}

#[test]
fn markup_string_renders() {
    assert_eq!(
        markup_string("[bold]b", &MarkupOptions::default()),
        "\x1b[1mb"
    );
}

#[test]
fn style_codes_in_table_order() {
    let mut style = Style::default();
    assert!(style.is_empty());
    assert_eq!(style.set_flag("overlined"), Some(Style::OVERLINE));
    assert_eq!(style.set_flag("bold"), Some(Style::BOLD));
    assert_eq!(style.set_flag("bold"), Some(Style::BOLD));
    assert_eq!(style.set_flag("shiny"), None);
    assert!(!style.is_empty());
    let mut out = String::from("<");
    assert!(style.build_into(&mut out));
    assert_eq!(out, "<1;53");
    assert_eq!(style.to_string(), "1 | 53");
    assert!(Style::empty().is_empty());
    let empty = Style::default();
    let mut out = String::new();
    assert!(!empty.build_into(&mut out));
    assert_eq!(out, "");
    assert_eq!(empty.to_string(), "empty");
}

#[test]
fn command_and_colour_text() {
    let mut style = Style::default();
    style.set_flag("italic");
    let cmd = AnsiCommand {
        style,
        color: Some(Color { r: 0, g: 128, b: 255 }),
    };
    let mut out = String::new();
    cmd.build_into(Layer::Background, &mut out);
    assert_eq!(out, "348;2;0;128;255");
    assert_eq!(Color { r: 0, g: 128, b: 255 }.debug_string(), "0,128,255");
    assert_eq!(Layer::Foreground.as_str(), "38");
    assert_eq!(Layer::Background.as_str(), "48");
}

#[test]
fn sgr_numbers() {
    assert_eq!(21u8.sgr_str(), "21");
    assert_eq!(1u8.sgr_str(), "1");
    assert_eq!(8u8.sgr_str(), "");
}

#[test]
fn label_lookups() {
    assert_eq!(get_format_code_from_label("dunderlined"), Some(";21"));
    assert_eq!(get_format_code_from_label("Bold"), None);
    let table = format_codes();
    assert_eq!(__find_in_map(&table, "swap"), Some(";7"));
    assert_eq!(get_color_by_name("hotpink3_1"), Some(0xd75f87));
    assert_eq!(get_color_by_name("HotPink3_1"), None);
}

#[test]
fn listings() {
    let config = parse_args(&["--lists", "Hi"], &env());
    let mut out = String::new();
    assert!(handle_cli_extras(&config, &mut out));
    let lines: Vec<&str> = out.lines().collect();
    assert_eq!(lines.len(), 10);
    assert_eq!(lines[0], "(ANSI: ;1) bold        [bold]Hi[/]");
    assert_eq!(lines[8], "(ANSI: ;21) dunderlined [dunderlined]Hi[/]");

    let config = parse_args(&["--listcb"], &env());
    let mut out = String::new();
    assert!(handle_cli_extras(&config, &mut out));
    let lines: Vec<&str> = out.lines().collect();
    assert_eq!(lines.len(), 256);
    assert_eq!(
        lines[1],
        "(#800000) maroon            [_ on #800000]Hello, World![/]"
    );

    let config = parse_args(&["--listc", "x"], &env());
    let mut out = String::new();
    assert!(handle_cli_extras(&config, &mut out));
    assert!(out.starts_with("(#000000) black             [#000000]x[/]\n"));

    let config = parse_args(&["--version"], &env());
    let mut out = String::new();
    assert!(handle_cli_extras(&config, &mut out));
    assert_eq!(out, "");
    let config = parse_args(&["text"], &env());
    assert!(!handle_cli_extras(&config, &mut out));
}

#[test]
fn help_and_version() {
    assert_eq!(version_text(), "rgecko v0.1.0\n");
    let help = help_text();
    assert!(help.starts_with("Usage: gecko [OPTIONS] [TEXT]..."));
    assert!(help.ends_with("rgecko v0.1.0\n"));
}
