//! Colour markup for terminal text: `[red on white]`-style tags become ANSI
//! escape sequences, sized to what the terminal supports.
use vstd::prelude::*;
use vstd::string::StringSliceAdditionalSpecFns;
use vstd::utf8::encode_utf8;

use crate::argparse::parser::{arg_views, parse_args, parse_model, CliConfig, ConfigModel, ExtraMode};
use crate::extras::{buffer_estimate, buffer_limit, handle_cli_extras, is_listing, listing};
use crate::colors::terms::Environment;
use crate::colors::transform::MarkupOptions;
use crate::colors::ztran::{markup_text, render, rendered, try_markup_text};
use crate::text::{push_char, utf8_len};

pub mod argparse;
pub mod colors;
pub mod extras;
pub mod logger;
pub mod text;

verus! {

/// The renderer options that a command line sets.
pub open spec fn options_of(m: ConfigModel) -> MarkupOptions {
    MarkupOptions {
        color_mode: m.color_mode,
        newline: false,
        handle_escape: m.handle_escape,
        no_binary_expansion: m.no_binary_expansion,
        logger: m.logger,
    }
}

/// The text a command line produces: its text unchanged under
/// `--no-markup`, else the rendered markup; `None` where rendering panics.
pub open spec fn cli_text(m: ConfigModel) -> Option<Seq<char>> {
    if m.no_markup {
        Some(m.text_input)
    } else {
        render(encode_utf8(m.text_input), options_of(m))
    }
}

/// What a command line shows: for `--listc`, `--listcb` and `--lists` the
/// listing (whose lines are markup), otherwise its text.
pub open spec fn cli_source(m: ConfigModel) -> Seq<char> {
    if is_listing(m.extras) {
        listing(m.text_input, m.extras)
    } else {
        m.text_input
    }
}

/// What a command line writes: what it shows, unchanged under
/// `--no-markup` and otherwise rendered, followed by a newline unless `-n`
/// was given or the text goes to the pager; `None` where rendering panics.
pub open spec fn cli_output(m: ConfigModel) -> Option<Seq<char>> {
    let shown = if m.no_markup {
        Some(cli_source(m))
    } else {
        render(encode_utf8(cli_source(m)), options_of(m))
    };
    match shown {
        Some(t) => Some(
            if m.newline && !m.interactive {
                t.push('\n')
            } else {
                t
            },
        ),
        None => None,
    }
}

/// Under `--no-markup` what is shown is written as it is, like `echo`.
pub proof fn lemma_no_markup_is_echo(m: ConfigModel)
    requires
        m.no_markup,
    ensures
        cli_text(m) == Some(m.text_input),
        cli_output(m) == Some(
            if m.newline && !m.interactive {
                cli_source(m).push('\n')
            } else {
                cli_source(m)
            },
        ),
{
}

/// Renders the markup of `text` with `config`.
pub fn markup_string(text: &str, config: &MarkupOptions) -> (r: String)
    requires
        render(text.spec_bytes(), *config) is Some,
    ensures
        render(text.spec_bytes(), *config) == Some(r@),
        r@ == rendered(text.spec_bytes(), *config),
{
    markup_text(text, config)
}

/// `markup_string` gives what `colors::ztran::markup_text` gives: on every
/// text and options that both accept, their results are the one rendering.
pub proof fn lemma_markup_string_is_markup_text(
    text: &str,
    config: MarkupOptions,
    from_string: Seq<char>,
    from_text: Seq<char>,
)
    requires
        render(text.spec_bytes(), config) is Some,
        from_string == rendered(text.spec_bytes(), config),
        from_text == rendered(text.spec_bytes(), config),
    ensures
        from_string == from_text,
        render(text.spec_bytes(), config) == Some(from_string),
{
}

/// The renderer options of a command line.
fn options_for(config: &CliConfig) -> (o: MarkupOptions)
    ensures
        o == options_of(config@),
{
    MarkupOptions {
        color_mode: config.color_mode,
        newline: false,
        handle_escape: config.handle_escape,
        no_binary_expansion: config.no_binary_expansion,
        logger: config.logger,
    }
}

/// Renders the text of a command line, or gives `None` where rendering
/// panics.
fn process_text(config: &CliConfig) -> (r: Option<String>)
    ensures
        match r {
            Some(s) => render(encode_utf8(config.text_input@), options_of(config@)) == Some(s@),
            None => render(encode_utf8(config.text_input@), options_of(config@)) is None,
        },
{
    let options = options_for(config);
    try_markup_text(config.text_input.as_str(), &options)
}

/// The text of a command line, rendered unless `--no-markup` was given.
fn final_text(config: &CliConfig) -> (r: Option<String>)
    ensures
        match r {
            Some(s) => cli_text(config@) == Some(s@),
            None => cli_text(config@) is None,
        },
{
    if config.no_markup {
        Some(config.text_input.clone())
    } else {
        process_text(config)
    }
}

/// What a command line writes to its output: the listing it asks for, or
/// else its text, rendered unless `--no-markup` was given, then a newline
/// unless `-n` was given or the text goes to the pager. `None` where
/// rendering panics.
pub fn output_text(config: &CliConfig) -> (r: Option<String>)
    requires
        is_listing(config.extras) ==> buffer_estimate(utf8_len(config.text_input@), config.extras)
            < buffer_limit(),
    ensures
        match r {
            Some(s) => cli_output(config@) == Some(s@),
            None => cli_output(config@) is None,
        },
{
    let shown = if is_listing_mode(config.extras) {
        let mut listing_text = String::new();
        handle_cli_extras(config, &mut listing_text);
        if config.no_markup {
            Some(listing_text)
        } else {
            let options = options_for(config);
            try_markup_text(listing_text.as_str(), &options)
        }
    } else {
        final_text(config)
    };
    match shown {
        Some(mut s) => {
            if config.newline && !config.interactive {
                push_char(&mut s, '\n');
            }
            Some(s)
        },
        None => None,
    }
}

/// Whether `mode` lists colours or styles.
fn is_listing_mode(mode: ExtraMode) -> (r: bool)
    ensures
        r == is_listing(mode),
{
    match mode {
        ExtraMode::ListColors | ExtraMode::ListColorsAsBackground | ExtraMode::ListStyles => true,
        _ => false,
    }
}

/// Parses the command line and gives its text, rendered unless
/// `--no-markup` was given; `None` where rendering panics.
pub fn try_markup_args(args: &[&str], env: &Environment) -> (r: Option<String>)
    ensures
        match r {
            Some(s) => cli_text(parse_model(arg_views(args@), *env)) == Some(s@),
            None => cli_text(parse_model(arg_views(args@), *env)) is None,
        },
{
    let config = parse_args(args, env);
    final_text(&config)
}

/// Parses the command line and gives its text, rendered unless
/// `--no-markup` was given. Printing help, version or listings is left to
/// the caller.
pub fn markup_args(args: &[&str], env: &Environment) -> (r: String)
    requires
        cli_text(parse_model(arg_views(args@), *env)) is Some,
    ensures
        cli_text(parse_model(arg_views(args@), *env)) == Some(r@),
{
    match try_markup_args(args, env) {
        Some(s) => s,
        None => String::new(),
    }
}

} // verus!
