//! The informational modes of the command line: the colour and style
//! listings, the help and version texts, and the size check that guards the
//! listings.
use vstd::prelude::*;

use crate::argparse::parser::{CliConfig, ExtraMode};
use crate::colors::ansicodes::{format_code_table, format_codes};
use crate::colors::colorsheet::{color_table, colors};
use crate::text::{
    hex_lower,
    hex_lower_exec,
    pad_left,
    pad_right,
    push_char,
    push_chars,
    push_padded_left,
    push_padded_right,
    to_chars,
    utf8_len,
};

verus! {

// ---------------------------------------------------------------------------
// The lines of a listing

/// The text shown beside each listed item when the user gave none.
pub open spec fn sample_text() -> Seq<char> {
    seq!['H', 'e', 'l', 'l', 'o', ',', ' ', 'W', 'o', 'r', 'l', 'd', '!']
}

/// The user's text, or the default sample where it is empty.
pub open spec fn sample_for(user_text: Seq<char>) -> Seq<char> {
    if user_text.len() == 0 {
        sample_text()
    } else {
        user_text
    }
}

/// One line of a listing: `(code) label [tag]sample[/]` and a newline, the
/// label padded with spaces to `width` characters.
pub open spec fn listing_line(
    code: Seq<char>,
    label: Seq<char>,
    width: nat,
    tag: Seq<char>,
    sample: Seq<char>,
) -> Seq<char> {
    seq!['('] + code + seq![')', ' '] + pad_right(label, width) + seq![' ', '['] + tag + seq![']']
        + sample + seq!['[', '/', ']', '\n']
}

/// `#` and the colour's hexadecimal value, zero-padded to six digits.
pub open spec fn hex_code(code: u32) -> Seq<char> {
    seq!['#'] + pad_left(hex_lower(code as nat), 6, '0')
}

/// What a tag starts with to colour the background only.
pub open spec fn background_prefix(background: bool) -> Seq<char> {
    if background {
        seq!['_', ' ', 'o', 'n', ' ']
    } else {
        Seq::empty()
    }
}

/// The listing line of a palette entry.
pub open spec fn color_line(entry: (&'static str, u32), background: bool, sample: Seq<char>) -> Seq<
    char,
> {
    listing_line(
        hex_code(entry.1),
        entry.0@,
        17,
        background_prefix(background) + hex_code(entry.1),
        sample,
    )
}

/// The listing line of a style: its SGR code, right-aligned in two columns.
pub open spec fn style_line(entry: (&'static str, &'static str), sample: Seq<char>) -> Seq<char> {
    listing_line(
        seq!['A', 'N', 'S', 'I', ':', ' '] + pad_left(entry.1@, 2, ' '),
        entry.0@,
        11,
        entry.0@,
        sample,
    )
}

/// The lines of the first `n` palette entries.
pub open spec fn color_lines(sample: Seq<char>, background: bool, n: nat) -> Seq<char>
    decreases n,
{
    if n == 0 {
        Seq::empty()
    } else {
        color_lines(sample, background, (n - 1) as nat) + color_line(
            color_table()[n - 1],
            background,
            sample,
        )
    }
}

/// The lines of the first `n` styles.
pub open spec fn style_lines(sample: Seq<char>, n: nat) -> Seq<char>
    decreases n,
{
    if n == 0 {
        Seq::empty()
    } else {
        style_lines(sample, (n - 1) as nat) + style_line(format_code_table()[n - 1], sample)
    }
}

/// The mode lists colours or styles.
pub open spec fn is_listing(mode: ExtraMode) -> bool {
    mode == ExtraMode::ListColors || mode == ExtraMode::ListColorsAsBackground || mode
        == ExtraMode::ListStyles
}

/// The listing that `mode` writes, with `user_text` as its sample (nothing
/// for a mode that lists nothing).
pub open spec fn listing(user_text: Seq<char>, mode: ExtraMode) -> Seq<char> {
    let sample = sample_for(user_text);
    match mode {
        ExtraMode::ListColors => color_lines(sample, false, color_table().len()),
        ExtraMode::ListColorsAsBackground => color_lines(sample, true, color_table().len()),
        ExtraMode::ListStyles => style_lines(sample, format_code_table().len()),
        _ => Seq::empty(),
    }
}

// ---------------------------------------------------------------------------
// The size check

/// The number of bytes reserved for a listing of `mode` whose sample is
/// `sample_length` bytes long.
pub open spec fn buffer_estimate(sample_length: nat, mode: ExtraMode) -> nat {
    let tag_padding: nat = match mode {
        ExtraMode::ListColors => 15,
        ExtraMode::ListColorsAsBackground => 30,
        ExtraMode::ListStyles => 10,
        _ => 5,
    };
    let count: nat = match mode {
        ExtraMode::ListColors => 256,
        ExtraMode::ListColorsAsBackground => 256,
        ExtraMode::ListStyles => 10,
        _ => 1,
    };
    (15 + 20 + 10 + tag_padding + sample_length) * count + 1024
}

/// The estimate at which a listing is refused: 500 MiB.
pub open spec fn buffer_limit() -> nat {
    524288000
}

/// The buffer size for a listing, or `None` where the text is too large and
/// the program stops.
pub fn calculate_output_buffer_size(sample_length: usize, mode: ExtraMode) -> (r: Option<usize>)
    ensures
        r == (if buffer_estimate(sample_length as nat, mode) < buffer_limit() {
            Some(buffer_estimate(sample_length as nat, mode) as usize)
        } else {
            None::<usize>
        }),
{
    if sample_length >= 524288000 {
        return None;
    }
    let per_line: u64 = 45 + sample_length as u64;
    let total: u64 = match mode {
        ExtraMode::ListColors => (per_line + 15) * 256 + 1024,
        ExtraMode::ListColorsAsBackground => (per_line + 30) * 256 + 1024,
        ExtraMode::ListStyles => (per_line + 10) * 10 + 1024,
        _ => (per_line + 5) + 1024,
    };
    if total >= 524288000 {
        None
    } else {
        Some(total as usize)
    }
}

// ---------------------------------------------------------------------------
// Writing a listing

/// Appends `#` and the zero-padded hexadecimal value of `code`.
fn push_hex_code(output: &mut String, code: u32)
    ensures
        final(output)@ == old(output)@ + hex_code(code),
{
    let ghost start = output@;
    push_char(output, '#');
    let digits = hex_lower_exec(code);
    push_padded_left(output, &digits, 6, '0');
    assert(output@ =~= start + hex_code(code));
}

/// Appends one listing line.
fn format_listing(
    output: &mut String,
    code: &Vec<char>,
    label: &Vec<char>,
    width: usize,
    tag: &Vec<char>,
    sample: &Vec<char>,
)
    ensures
        final(output)@ == old(output)@ + listing_line(code@, label@, width as nat, tag@, sample@),
{
    let ghost start = output@;
    push_char(output, '(');
    push_chars(output, code);
    push_char(output, ')');
    push_char(output, ' ');
    push_padded_right(output, label, width);
    push_char(output, ' ');
    push_char(output, '[');
    push_chars(output, tag);
    push_char(output, ']');
    push_chars(output, sample);
    push_char(output, '[');
    push_char(output, '/');
    push_char(output, ']');
    push_char(output, '\n');
    assert(output@ =~= start + listing_line(code@, label@, width as nat, tag@, sample@));
}

/// Appends the line of every palette entry.
fn list_colors(sample: &Vec<char>, output: &mut String, as_background: bool)
    ensures
        final(output)@ == old(output)@ + color_lines(sample@, as_background, color_table().len()),
{
    let table = colors();
    let ghost start = output@;
    let mut i: usize = 0;
    while i < table.len()
        invariant
            table@ == color_table(),
            i <= table.len(),
            output@ == start + color_lines(sample@, as_background, i as nat),
        decreases table.len() - i,
    {
        let (name, code) = table[i];
        let mut code_buf = String::new();
        push_hex_code(&mut code_buf, code);
        let mut tag_buf = String::new();
        if as_background {
            push_char(&mut tag_buf, '_');
            push_char(&mut tag_buf, ' ');
            push_char(&mut tag_buf, 'o');
            push_char(&mut tag_buf, 'n');
            push_char(&mut tag_buf, ' ');
        }
        push_hex_code(&mut tag_buf, code);
        assert(tag_buf@ =~= background_prefix(as_background) + hex_code(code));
        let code_chars = to_chars(code_buf.as_str());
        let tag_chars = to_chars(tag_buf.as_str());
        let label = to_chars(name);
        let ghost before = output@;
        format_listing(output, &code_chars, &label, 17, &tag_chars, sample);
        i += 1;
        assert(output@ =~= start + color_lines(sample@, as_background, i as nat));
    }
}

/// Appends the line of every style.
fn list_styles(sample: &Vec<char>, output: &mut String)
    ensures
        final(output)@ == old(output)@ + style_lines(sample@, format_code_table().len()),
{
    let table = format_codes();
    let ghost start = output@;
    let mut i: usize = 0;
    while i < table.len()
        invariant
            table@ == format_code_table(),
            i <= table.len(),
            output@ == start + style_lines(sample@, i as nat),
        decreases table.len() - i,
    {
        let (name, ansi_code) = table[i];
        let mut code_buf = String::new();
        push_char(&mut code_buf, 'A');
        push_char(&mut code_buf, 'N');
        push_char(&mut code_buf, 'S');
        push_char(&mut code_buf, 'I');
        push_char(&mut code_buf, ':');
        push_char(&mut code_buf, ' ');
        let ansi_chars = to_chars(ansi_code);
        push_padded_left(&mut code_buf, &ansi_chars, 2, ' ');
        assert(code_buf@ =~= seq!['A', 'N', 'S', 'I', ':', ' '] + pad_left(ansi_code@, 2, ' '));
        let code_chars = to_chars(code_buf.as_str());
        let label = to_chars(name);
        format_listing(output, &code_chars, &label, 11, &label, sample);
        i += 1;
        assert(output@ =~= start + style_lines(sample@, i as nat));
    }
}

/// The user's text as characters, or the default sample where it is empty.
fn sample_chars(user_text: &str) -> (v: Vec<char>)
    ensures
        v@ == sample_for(user_text@),
{
    if user_text.is_empty() {
        let v = vec!['H', 'e', 'l', 'l', 'o', ',', ' ', 'W', 'o', 'r', 'l', 'd', '!'];
        assert(v@ =~= sample_text());
        v
    } else {
        to_chars(user_text)
    }
}

/// Appends the listing of `mode`, its sample being `user_text` or the
/// default one.
fn list_styling_examples(user_text: &str, output: &mut String, mode: ExtraMode)
    ensures
        final(output)@ == old(output)@ + listing(user_text@, mode),
{
    let sample = sample_chars(user_text);
    match mode {
        ExtraMode::ListColors => list_colors(&sample, output, false),
        ExtraMode::ListColorsAsBackground => list_colors(&sample, output, true),
        ExtraMode::ListStyles => list_styles(&sample, output),
        _ => {
            assert(output@ =~= old(output)@ + listing(user_text@, mode));
        },
    }
}

/// Handles the informational modes. A listing is appended to `output`; for
/// help and version nothing is written here (the caller prints
/// `help_text()` or `version_text()`). The result says whether a mode other
/// than rendering text was asked for.
pub fn handle_cli_extras(config: &CliConfig, output: &mut String) -> (handled: bool)
    requires
        is_listing(config.extras) ==> buffer_estimate(utf8_len(config.text_input@), config.extras)
            < buffer_limit(),
    ensures
        handled == (config.extras != ExtraMode::NoExtra),
        final(output)@ == old(output)@ + listing(config.text_input@, config.extras),
{
    match config.extras {
        ExtraMode::PrintHelp => true,
        ExtraMode::PrintVersion => true,
        ExtraMode::ListColors | ExtraMode::ListStyles | ExtraMode::ListColorsAsBackground => {
            list_styling_examples(config.text_input.as_str(), output, config.extras);
            true
        },
        ExtraMode::NoExtra => false,
    }
}

// ---------------------------------------------------------------------------
// Help and version

/// The program's version.
pub const VERSION: &'static str = "0.1.0";

/// The usage text, up to the version line.
pub const USAGE: &'static str = "Usage: gecko [OPTIONS] [TEXT]...

Arguments:
  [TEXT]...  Text to display with markup (color)

Options:
  -n, --no-newline      Do not print a newline at the end
  -e, --handle-escape   Expand escape sequences
  -c, --force-color     Force color output (256-color) even if not detected
  -C, --no-color        Disable color output even if detected
  -m, --no-markup       Do not resolve markup sequences
  -i, --interactive     Forward output to less
      --listc           List possible colors (Sample text can be appended, defaults to \"Hello, World!)
      --listcb          List possible colors as backgrounds
      --lists           List possible styles and their ANSI codes
      --help            Print help
      --version         Print version
  
";

/// The name the version is shown with.
pub const PROGRAM: &'static str = "rgecko v";

/// The help text: usage, options and version.
pub fn help_text() -> (r: String)
    ensures
        r@ == USAGE@ + PROGRAM@ + VERSION@ + seq!['\n'],
{
    let mut r = String::new();
    r.append(USAGE);
    r.append(PROGRAM);
    r.append(VERSION);
    push_char(&mut r, '\n');
    r
}

/// The version line.
pub fn version_text() -> (r: String)
    ensures
        r@ == PROGRAM@ + VERSION@ + seq!['\n'],
{
    let mut r = String::new();
    r.append(PROGRAM);
    r.append(VERSION);
    push_char(&mut r, '\n');
    r
}

} // verus!
