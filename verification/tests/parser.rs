use rgecko::argparse::parser::{parse_args, ColorMode, ExtraMode};
use rgecko::colors::terms::Environment;

fn plain_env() -> Environment {
    Environment {
        verbose_log: false,
        no_color: false,
        stdout_is_terminal: false,
        colorterm: false,
        term: None,
        windows_terminal: false,
    }
}

#[test]
fn test_simple_parse() {
    let config = parse_args(
        &["-nc", "Hello,", "--listc", "World!", "--", "--lists", "!"],
        &plain_env(),
    );
    assert_eq!(
        config.text_input, "Hello, World! --lists !",
        "Invalid text scanning."
    );
    assert_eq!(config.newline, false, "Newline flag.");
    assert_eq!(config.color_mode, ColorMode::Color256, "Color mode flag.");
}

#[test]
fn parse_listing_switch_sets_extra_mode() {
    let config = parse_args(&["-nc", "Hello,", "--listc", "World!"], &plain_env());
    assert_eq!(config.extras, ExtraMode::ListColors);
    assert_eq!(config.text_input, "Hello, World!");
}

#[test]
fn parse_no_arguments_keeps_defaults() {
    let config = parse_args(&[], &plain_env());
    assert_eq!(config.text_input, "");
    assert!(config.newline);
    assert_eq!(config.color_mode, ColorMode::Default);
    assert_eq!(config.extras, ExtraMode::NoExtra);
}

#[test]
fn parse_color_from_environment() {
    let mut env = plain_env();
    env.stdout_is_terminal = true;
    env.colorterm = true;
    let config = parse_args(&["hi"], &env);
    assert_eq!(config.color_mode, ColorMode::Color256);
    let config = parse_args(&["hi"], &plain_env());
    assert_eq!(config.color_mode, ColorMode::NoColor);
}
