//! The first markup renderer, which works on characters and builds each SGR
//! sequence in scratch buffers, with the colour helpers it shares with the
//! byte-level renderer.
use vstd::prelude::*;
use vstd::string::StringSliceAdditionalSpecFns;
use vstd::utf8::{is_ascii_chars, is_ascii_chars_encode_utf8};

use crate::argparse::parser::ColorMode;
use crate::colors::colorsheet::{blue, color_table, colors, dist_sq, green, nearest_hex, nearest_index, red};
use crate::logger::{Logger, LoggerMode};
use crate::colors::ansicodes::{
    control_chars, control_escapes, find_in_map_chars, format_code_table, format_codes, map_lookup,
};
use crate::colors::colorsheet::{color_by_name, color_by_name_chars, is_plain_name};
use crate::text::{
    chars_equal, decimal, decimal_chars, find_from, lemma_decimal_reads_back, lemma_encode_utf8_concat,
    lemma_parse_decimal_byte, lemma_split_concat, lemma_split_single, occurs_at, occurs_at_exec, ends_with, ends_with_exec, extend_chars, parse_unsigned,
    parse_unsigned_exec, push_char, slice_chars, slice_text, split_exec, split_once, split_once_exec,
    split_seq, starts_with, starts_with_exec, str_slice, to_chars, trim, trim_exec, utf8_len,
    utf8_len_upto,
};

verus! {

/// The states of the markup scanners.
#[derive(Debug, Default, PartialEq, Eq, Clone, Copy, Structural)]
pub enum MachineState {
    #[default]
    Normal,
    ReadingColor,
    ReadingReset,
    ReadingEscapeCode,
    ReadingAnsiCode,
    Skip,
}

/// How markup is rendered.
pub struct MarkupOptions {
    pub color_mode: ColorMode,
    pub newline: bool,
    pub handle_escape: bool,
    /// Write escape sequences as the readable text `\x1b` instead of the
    /// escape character itself.
    pub no_binary_expansion: bool,
    pub logger: Logger,
}

impl Default for MarkupOptions {
    fn default() -> (o: Self)
        ensures
            o.color_mode == ColorMode::Color256,
            !o.newline,
            o.handle_escape,
            !o.no_binary_expansion,
            o.logger.mode == LoggerMode::Disabled,
    {
        Self {
            color_mode: ColorMode::Color256,
            newline: false,
            handle_escape: true,
            no_binary_expansion: false,
            logger: Logger::new(),
        }
    }
}

// ---------------------------------------------------------------------------
// Escape sequences

/// The sequence that resets all attributes, as escape character or as
/// readable text.
pub open spec fn reset_text(readable: bool) -> Seq<char> {
    if readable {
        seq!['\\', 'x', '1', 'b', '[', '0', 'm']
    } else {
        seq!['\x1b', '[', '0', 'm']
    }
}

/// The introducer of an SGR sequence, as escape character or as readable
/// text.
pub open spec fn esc_prefix(readable: bool) -> Seq<char> {
    if readable {
        seq!['\\', 'x', '1', 'b', '[']
    } else {
        seq!['\x1b', '[']
    }
}

/// Appends the reset sequence.
pub(crate) fn push_reset(output: &mut String, readable: bool)
    ensures
        final(output)@ == old(output)@ + reset_text(readable),
{
    let ghost start = output@;
    if readable {
        push_char(output, '\\');
        push_char(output, 'x');
        push_char(output, '1');
        push_char(output, 'b');
    } else {
        push_char(output, '\x1b');
    }
    push_char(output, '[');
    push_char(output, '0');
    push_char(output, 'm');
    assert(output@ =~= start + reset_text(readable));
}

/// Appends the SGR introducer.
pub(crate) fn push_esc_prefix(output: &mut String, readable: bool)
    ensures
        final(output)@ == old(output)@ + esc_prefix(readable),
{
    let ghost start = output@;
    if readable {
        push_char(output, '\\');
        push_char(output, 'x');
        push_char(output, '1');
        push_char(output, 'b');
    } else {
        push_char(output, '\x1b');
    }
    push_char(output, '[');
    assert(output@ =~= start + esc_prefix(readable));
}

// ---------------------------------------------------------------------------
// Colour values

/// Splits `0xRRGGBB` into its channels.
pub fn split_rgb_int(color: u32) -> (rgb: (u8, u8, u8))
    ensures
        rgb == (red(color), green(color), blue(color)),
{
    let r: u8 = ((color >> 16) & 0xff) as u8;
    let g: u8 = ((color >> 8) & 0xff) as u8;
    let b: u8 = (color & 0xff) as u8;
    (r, g, b)
}

/// A three-digit colour `0xRGB` widened to `0xRRGGBB`.
pub open spec fn expand_short_hex(v: u32) -> u32 {
    let r = (v >> 8u32) & 0xfu32;
    let g = (v >> 4u32) & 0xfu32;
    let b = v & 0xfu32;
    (r << 20u32) | (r << 16u32) | (g << 12u32) | (g << 8u32) | (b << 4u32) | b
}

pub(crate) fn expand_short_hex_exec(v: u32) -> (r: u32)
    ensures
        r == expand_short_hex(v),
{
    let r = (v >> 8) & 0xF;
    let g = (v >> 4) & 0xF;
    let b = v & 0xF;
    (r << 20) | (r << 16) | (g << 12) | (g << 8) | (b << 4) | b
}

/// The channels of `#RRGGBB` written as text, each read as a hexadecimal
/// byte and 0 where it does not read as one.
pub open spec fn hex_channels(bytes: Seq<u8>) -> (u8, u8, u8) {
    (
        parse_unsigned(slice_text(bytes, 1, 3).unwrap(), 16, 255).unwrap_or(0) as u8,
        parse_unsigned(slice_text(bytes, 3, 5).unwrap(), 16, 255).unwrap_or(0) as u8,
        parse_unsigned(slice_text(bytes, 5, 7).unwrap(), 16, 255).unwrap_or(0) as u8,
    )
}

/// The byte ranges 1..3, 3..5 and 5..7 of the text can be taken.
pub open spec fn hex_channels_readable(bytes: Seq<u8>) -> bool {
    &&& slice_text(bytes, 1, 3) is Some
    &&& slice_text(bytes, 3, 5) is Some
    &&& slice_text(bytes, 5, 7) is Some
}

/// Reads the channels of a colour written `#RRGGBB`; a channel that is not
/// hexadecimal reads as 0.
pub fn string_hex_to_rgb(hex_color: &str) -> (rgb: (u8, u8, u8))
    requires
        hex_channels_readable(hex_color.spec_bytes()),
    ensures
        rgb == hex_channels(hex_color.spec_bytes()),
{
    let r = channel_at(hex_color, 1);
    let g = channel_at(hex_color, 3);
    let b = channel_at(hex_color, 5);
    (r, g, b)
}

/// The hexadecimal byte written at bytes `at..at + 2`, or 0.
fn channel_at(s: &str, at: usize) -> (v: u8)
    requires
        at <= 5,
        slice_text(s.spec_bytes(), at as int, at + 2) is Some,
    ensures
        v == parse_unsigned(slice_text(s.spec_bytes(), at as int, at + 2).unwrap(), 16, 255).unwrap_or(
            0,
        ) as u8,
{
    match str_slice(s, at, at + 2) {
        Some(part) => {
            let chars = to_chars(part);
            match parse_unsigned_exec(&chars, 16, 255) {
                Some(v) => v as u8,
                None => 0,
            }
        },
        None => 0,
    }
}

/// The value of the palette colour nearest to an RGB triple.
pub fn find_nearest_color(user_rgb: [u8; 3]) -> (hex: u32)
    ensures
        hex == nearest_hex(user_rgb@[0], user_rgb@[1], user_rgb@[2]),
{
    let table = colors();
    let mut min_distance_sq: u32 = u32::MAX;
    let mut nearest_hex_value: u32 = 0;
    let ur = user_rgb[0];
    let ug = user_rgb[1];
    let ub = user_rgb[2];
    let mut i: usize = 0;
    while i < table.len()
        invariant
            table@ == color_table(),
            i <= table.len(),
            ur == user_rgb@[0],
            ug == user_rgb@[1],
            ub == user_rgb@[2],
            i == 0 ==> min_distance_sq == u32::MAX,
            i > 0 ==> nearest_hex_value == color_table()[nearest_index(ur, ug, ub, i as nat) as int].1
                && min_distance_sq == dist_sq(ur, ug, ub, nearest_hex_value),
        decreases table.len() - i,
    {
        let (_name, hex_color) = table[i];
        let r: u8 = ((hex_color >> 16) & 0xFF) as u8;
        let g: u8 = ((hex_color >> 8) & 0xFF) as u8;
        let b: u8 = (hex_color & 0xFF) as u8;
        let dr: u32 = abs_diff(ur, r);
        let dg: u32 = abs_diff(ug, g);
        let db: u32 = abs_diff(ub, b);
        assert(dr * dr <= 65025 && dg * dg <= 65025 && db * db <= 65025) by (nonlinear_arith)
            requires
                dr <= 255,
                dg <= 255,
                db <= 255,
        ;
        let distance_sq = dr * dr + dg * dg + db * db;
        assert(distance_sq == dist_sq(ur, ug, ub, hex_color)) by (nonlinear_arith)
            requires
                dr * dr == (ur - r) * (ur - r),
                dg * dg == (ug - g) * (ug - g),
                db * db == (ub - b) * (ub - b),
                distance_sq == dr * dr + dg * dg + db * db,
                r == red(hex_color),
                g == green(hex_color),
                b == blue(hex_color),
        ;
        if distance_sq < min_distance_sq {
            min_distance_sq = distance_sq;
            nearest_hex_value = hex_color;
        }
        i += 1;
    }
    nearest_hex_value
}

/// The distance between two channel values, and its square.
fn abs_diff(a: u8, b: u8) -> (d: u32)
    ensures
        d <= 255,
        d == if a >= b {
            a - b
        } else {
            b - a
        },
        d * d == (a - b) * (a - b),
{
    let d: u32 = if a >= b {
        (a - b) as u32
    } else {
        (b - a) as u32
    };
    assert(d * d == (a - b) * (a - b)) by (nonlinear_arith)
        requires
            d == if a >= b {
                a - b
            } else {
                b - a
            },
    ;
    d
}

// ---------------------------------------------------------------------------
// `rgb(R, G, B)`

/// The channels written `rgb(R,G,B)`: the text between `rgb(` and a final
/// `)`, split at commas, whose first three pieces (blanks trimmed) must each
/// read as a decimal byte; further pieces are ignored.
pub open spec fn parse_rgb(s: Seq<char>) -> Option<(u8, u8, u8)> {
    if starts_with(s, seq!['r', 'g', 'b', '(']) && ends_with(s.skip(4), seq![')']) {
        let parts = split_seq(s.skip(4).drop_last(), ',');
        if parts.len() >= 3 {
            match (
                parse_unsigned(trim(parts[0]), 10, 255),
                parse_unsigned(trim(parts[1]), 10, 255),
                parse_unsigned(trim(parts[2]), 10, 255),
            ) {
                (Some(r), Some(g), Some(b)) => Some((r as u8, g as u8, b as u8)),
                _ => None,
            }
        } else {
            None
        }
    } else {
        None
    }
}

/// Reads `rgb(R,G,B)`.
pub(crate) fn parse_rgb_manual(s: &Vec<char>) -> (r: Option<(u8, u8, u8)>)
    ensures
        r == parse_rgb(s@),
{
    let prefix = vec!['r', 'g', 'b', '('];
    let close = vec![')'];
    assert(prefix@ =~= seq!['r', 'g', 'b', '(']);
    assert(close@ =~= seq![')']);
    if !starts_with_exec(s, &prefix) {
        return None;
    }
    let rest = slice_chars(s, 4, s.len());
    assert(rest@ =~= s@.skip(4));
    if !ends_with_exec(&rest, &close) {
        return None;
    }
    let inner = slice_chars(&rest, 0, rest.len() - 1);
    assert(inner@ =~= rest@.drop_last());
    let parts = split_exec(&inner, ',');
    if parts.len() < 3 {
        return None;
    }
    let ghost pieces = split_seq(s@.skip(4).drop_last(), ',');
    assert(parts@[0]@ == pieces[0]);
    assert(parts@[1]@ == pieces[1]);
    assert(parts@[2]@ == pieces[2]);
    let r = parse_unsigned_exec(&trim_exec(&parts[0]), 10, 255);
    let g = parse_unsigned_exec(&trim_exec(&parts[1]), 10, 255);
    let b = parse_unsigned_exec(&trim_exec(&parts[2]), 10, 255);
    match (r, g, b) {
        (Some(r), Some(g), Some(b)) => Some((r as u8, g as u8, b as u8)),
        _ => None,
    }
}

// ---------------------------------------------------------------------------
// Tags

/// The palette colour nearest to an RGB triple, written after its layer
/// selector: `;38;2;R;G;B` or `;48;2;R;G;B`.
#[verifier::opaque]
pub open spec fn code_from_rgb(r: u8, g: u8, b: u8, background: bool) -> Seq<char> {
    let n = nearest_hex(r, g, b);
    seq![';'] + (if background {
        seq!['4', '8']
    } else {
        seq!['3', '8']
    }) + seq![';', '2', ';'] + decimal(red(n) as nat) + seq![';'] + decimal(green(n) as nat)
        + seq![';'] + decimal(blue(n) as nat)
}

/// The palette colour nearest to `0xRRGGBB`, written after its layer
/// selector.
pub open spec fn color_code_text(hex: u32, background: bool) -> Seq<char> {
    code_from_rgb(red(hex), green(hex), blue(hex), background)
}

/// The concatenated codes (each with its leading `;`) of the style words.
pub open spec fn fmt_items_style(items: Seq<Seq<char>>) -> Seq<char>
    decreases items.len(),
{
    if items.len() == 0 {
        Seq::empty()
    } else {
        fmt_items_style(items.drop_last()) + match map_lookup(format_code_table(), items.last(), 0) {
            Some(code) => code@,
            None => Seq::empty(),
        }
    }
}

/// The last word that is not a style label, or the empty word.
pub open spec fn fmt_items_color(items: Seq<Seq<char>>) -> Seq<char>
    decreases items.len(),
{
    if items.len() == 0 {
        Seq::empty()
    } else if map_lookup(format_code_table(), items.last(), 0) is Some {
        fmt_items_color(items.drop_last())
    } else {
        items.last()
    }
}

/// The two pieces that a colour word contributes: the style codes and the
/// colour code. `_` gives no colour code; a word that names no colour (an
/// unknown name, or a hexadecimal or `rgb(...)` word that does not read)
/// gives `None`, which drops the whole tag.
#[verifier::opaque]
pub open spec fn code_parts(primary: Seq<char>, background: bool) -> Option<(Seq<char>, Seq<char>)> {
    let items = split_seq(primary, ' ');
    let style = fmt_items_style(items);
    let ansi = fmt_items_color(items);
    if ansi.len() > 0 && ansi != seq!['_'] {
        match code_parts_color(ansi, background) {
            Some(code) => Some((style, code)),
            None => None,
        }
    } else if ansi == seq!['_'] {
        Some((style, Seq::empty()))
    } else {
        Some((style, ansi))
    }
}

/// The colour code of a colour word that is neither empty nor `_`.
pub open spec fn code_parts_color(ansi: Seq<char>, background: bool) -> Option<Seq<char>> {
    if ansi[0] == '#' && (utf8_len(ansi) == 4 || utf8_len(ansi) == 7) {
        match parse_unsigned(ansi.drop_first(), 16, u32::MAX as nat) {
            Some(v) => Some(
                color_code_text(
                    if utf8_len(ansi.drop_first()) == 3 {
                        expand_short_hex(v as u32)
                    } else {
                        v as u32
                    },
                    background,
                ),
            ),
            None => None,
        }
    } else if starts_with(ansi, seq!['r', 'g', 'b', '(']) {
        match parse_rgb(ansi) {
            Some((r, g, b)) => Some(code_from_rgb(r, g, b, background)),
            None => None,
        }
    } else {
        match color_by_name(ansi) {
            Some(h) => Some(color_code_text(h, background)),
            None => None,
        }
    }
}

/// `s` without one leading `;`.
pub open spec fn strip_semicolon(s: Seq<char>) -> Seq<char> {
    if s.len() > 0 && s[0] == ';' {
        s.drop_first()
    } else {
        s
    }
}

/// What a tag renders to in the first renderer, with what it leaves in the
/// scratch buffer: the reset sequence for an empty tag, `/` and colourless
/// mode; otherwise one SGR sequence built from the background part (after
/// ` on `, which may itself render a reset) and the foreground part.
pub open spec fn resolve_code(text: Seq<char>, background: bool, mode: ColorMode, readable: bool) -> (
    Seq<char>,
    Seq<char>,
)
    decreases (if background {
        0int
    } else {
        1int
    }),
{
    if text.len() == 0 || text == seq!['/'] || mode == ColorMode::NoColor {
        (reset_text(readable), Seq::empty())
    } else {
        let (pre_out, pre_scratch, primary) = if !background {
            match split_once(text, seq![' ', 'o', 'n', ' ']) {
                Some((fg, bg)) => {
                    let (o, sc) = resolve_code(bg, true, mode, readable);
                    (o, sc, fg)
                },
                None => (Seq::empty(), Seq::empty(), text),
            }
        } else {
            (Seq::empty(), Seq::empty(), text)
        };
        finish_code(pre_out, pre_scratch, primary, background, readable)
    }
}

/// The rest of a tag once its background part is done: the style codes and
/// colour code of `primary` added to the scratch codes, and for the
/// foreground the finished SGR sequence; nothing at all (the background's
/// output dropped too) when `primary` names an unknown colour.
pub open spec fn finish_code(
    pre_out: Seq<char>,
    pre_scratch: Seq<char>,
    primary: Seq<char>,
    background: bool,
    readable: bool,
) -> (Seq<char>, Seq<char>) {
    match code_parts(primary, background) {
        None => (Seq::empty(), pre_scratch),
        Some((style, ansi)) => {
            let scratch = pre_scratch + style + ansi;
            if background {
                (pre_out, scratch)
            } else {
                (pre_out + esc_prefix(readable) + strip_semicolon(scratch) + seq!['m'], scratch)
            }
        },
    }
}

/// Scratch buffers for building SGR sequences.
struct VisitorState {
    /// Style codes.
    style_buffer: Vec<char>,
    /// The colour word, then its colour code.
    ansi_buffer: Vec<char>,
    /// The sequence being assembled.
    scratch: Vec<char>,
}

impl VisitorState {
    fn new() -> (v: Self)
        ensures
            v.scratch@ == Seq::<char>::empty(),
    {
        Self { style_buffer: Vec::new(), ansi_buffer: Vec::new(), scratch: Vec::new() }
    }
}

/// Appends `;38;2;R;G;B` (or `;48;...`) for the palette colour nearest to
/// `0xRRGGBB`.
fn get_color_from_hex(color: u32, background: bool, buffer: &mut Vec<char>)
    ensures
        final(buffer)@ == old(buffer)@ + color_code_text(color, background),
{
    let (r, g, b) = split_rgb_int(color);
    get_color_from_rgb([r, g, b], background, buffer);
}

/// Appends `;38;2;R;G;B` (or `;48;...`) for the palette colour nearest to
/// an RGB triple.
fn get_color_from_rgb(colors: [u8; 3], background: bool, buffer: &mut Vec<char>)
    ensures
        final(buffer)@ == old(buffer)@ + code_from_rgb(colors@[0], colors@[1], colors@[2], background),
{
    let ghost start = buffer@;
    let r0 = colors[0];
    let g0 = colors[1];
    let b0 = colors[2];
    let color_type: u32 = if background {
        48
    } else {
        38
    };
    let (r, g, b) = split_rgb_int(find_nearest_color(colors));
    buffer.push(';');
    extend_chars(buffer, &decimal_chars(color_type));
    buffer.push(';');
    buffer.push('2');
    buffer.push(';');
    extend_chars(buffer, &decimal_chars(r as u32));
    buffer.push(';');
    extend_chars(buffer, &decimal_chars(g as u32));
    buffer.push(';');
    extend_chars(buffer, &decimal_chars(b as u32));
    proof {
        reveal_with_fuel(decimal, 3);
        assert(decimal(48) =~= seq!['4', '8']);
        assert(decimal(38) =~= seq!['3', '8']);
    }
    reveal(code_from_rgb);
    assert(buffer@ =~= start + code_from_rgb(r0, g0, b0, background));
}

/// Sorts the words of a colour word into style codes and the colour word.
fn extract_color_information(raw_color: &Vec<char>, style_out: &mut Vec<char>, color_out: &mut Vec<char>)
    ensures
        final(style_out)@ == fmt_items_style(split_seq(raw_color@, ' ')),
        final(color_out)@ == fmt_items_color(split_seq(raw_color@, ' ')),
{
    style_out.clear();
    color_out.clear();
    let items = split_exec(raw_color, ' ');
    let codes = format_codes();
    let ghost words = split_seq(raw_color@, ' ');
    let mut k: usize = 0;
    assert(words.take(0) =~= Seq::<Seq<char>>::empty());
    assert(style_out@ =~= Seq::<char>::empty());
    while k < items.len()
        invariant
            k <= items.len(),
            codes@ == format_code_table(),
            items@.len() == words.len(),
            words == split_seq(raw_color@, ' '),
            forall|j: int| 0 <= j < items@.len() ==> #[trigger] items@[j]@ == words[j],
            style_out@ == fmt_items_style(words.take(k as int)),
            color_out@ == fmt_items_color(words.take(k as int)),
        decreases items.len() - k,
    {
        assert(words.take(k + 1).drop_last() =~= words.take(k as int));
        assert(words.take(k + 1).last() == items@[k as int]@);
        match find_in_map_chars(codes.as_slice(), &items[k]) {
            Some(code) => {
                extend_chars(style_out, &to_chars(code));
            },
            None => {
                color_out.clear();
                extend_chars(color_out, &items[k]);
            },
        }
        k += 1;
    }
    assert(words.take(items.len() as int) =~= words);
}

/// Appends what a tag renders to, and leaves the assembled codes in the
/// scratch buffer.
fn resolve_color_code(
    color_text: &Vec<char>,
    resolving_background: bool,
    color_mode: ColorMode,
    no_binary_expansion: bool,
    visitor_state: &mut VisitorState,
    output: &mut String,
)
    ensures
        final(output)@ == old(output)@ + resolve_code(
            color_text@,
            resolving_background,
            color_mode,
            no_binary_expansion,
        ).0,
        final(visitor_state).scratch@ == resolve_code(
            color_text@,
            resolving_background,
            color_mode,
            no_binary_expansion,
        ).1,
    decreases (if resolving_background {
        0int
    } else {
        1int
    }),
{
    visitor_state.scratch.clear();
    let slash = vec!['/'];
    assert(slash@ =~= seq!['/']);
    if color_text.len() == 0 || chars_equal(color_text, &slash) || color_mode == ColorMode::NoColor {
        push_reset(output, no_binary_expansion);
        return;
    }
    let mut pre_out = String::new();
    let mut primary = slice_chars(color_text, 0, color_text.len());
    assert(primary@ =~= color_text@);
    if !resolving_background {
        let on = vec![' ', 'o', 'n', ' '];
        assert(on@ =~= seq![' ', 'o', 'n', ' ']);
        if let Some((fg, bg)) = split_once_exec(color_text, &on) {
            resolve_color_code(&bg, true, color_mode, no_binary_expansion, visitor_state, &mut pre_out);
            primary = fg;
        }
    }
    finish_color_code(&primary, resolving_background, no_binary_expansion, &pre_out, visitor_state, output);
}

/// Appends the rest of a tag once its background part `pre_out` is done.
fn finish_color_code(
    primary: &Vec<char>,
    resolving_background: bool,
    no_binary_expansion: bool,
    pre_out: &String,
    visitor_state: &mut VisitorState,
    output: &mut String,
)
    ensures
        final(output)@ == old(output)@ + finish_code(
            pre_out@,
            old(visitor_state).scratch@,
            primary@,
            resolving_background,
            no_binary_expansion,
        ).0,
        final(visitor_state).scratch@ == finish_code(
            pre_out@,
            old(visitor_state).scratch@,
            primary@,
            resolving_background,
            no_binary_expansion,
        ).1,
{
    let ghost start = output@;
    let (style_buffer, code) = match color_code_parts(primary, resolving_background, visitor_state) {
        Some(parts) => parts,
        None => {
            return;
        },
    };
    extend_chars(&mut visitor_state.scratch, &style_buffer);
    extend_chars(&mut visitor_state.scratch, &code);
    crate::text::push_chars(output, &string_chars(pre_out));
    if resolving_background {
        return;
    }
    push_esc_prefix(output, no_binary_expansion);
    let scratch = &visitor_state.scratch;
    if scratch.len() > 0 && scratch[0] == ';' {
        let rest = slice_chars(scratch, 1, scratch.len());
        assert(rest@ =~= scratch@.drop_first());
        crate::text::push_chars(output, &rest);
    } else {
        crate::text::push_chars(output, scratch);
    }
    push_char(output, 'm');
    assert(output@ =~= start + finish_code(
        pre_out@,
        old(visitor_state).scratch@,
        primary@,
        resolving_background,
        no_binary_expansion,
    ).0);
}

/// The style codes and the colour code of a colour word, or `None` when it
/// names an unknown colour; the words are sorted in the visitor's buffers.
fn color_code_parts(primary: &Vec<char>, background: bool, visitor_state: &mut VisitorState) -> (r:
    Option<(Vec<char>, Vec<char>)>)
    ensures
        final(visitor_state).scratch == old(visitor_state).scratch,
        match code_parts(primary@, background) {
            Some((style, code)) => r matches Some((s, c)) && s@ == style && c@ == code,
            None => r is None,
        },
{
    reveal(code_parts);
    extract_color_information(
        primary,
        &mut visitor_state.style_buffer,
        &mut visitor_state.ansi_buffer,
    );
    let style_buffer = slice_chars(&visitor_state.style_buffer, 0, visitor_state.style_buffer.len());
    let ansi_buffer = &visitor_state.ansi_buffer;
    assert(style_buffer@ =~= visitor_state.style_buffer@);
    let underscore = vec!['_'];
    assert(underscore@ =~= seq!['_']);
    if ansi_buffer.len() > 0 && !chars_equal(ansi_buffer, &underscore) {
        match color_word_code(ansi_buffer, background) {
            Some(c) => Some((style_buffer, c)),
            None => None,
        }
    } else if chars_equal(ansi_buffer, &underscore) {
        Some((style_buffer, Vec::new()))
    } else {
        let a = slice_chars(ansi_buffer, 0, ansi_buffer.len());
        assert(a@ =~= ansi_buffer@);
        Some((style_buffer, a))
    }
}

/// The colour code of a colour word (neither empty nor `_`): the code of
/// the nearest palette colour, or `None` for a word that names no colour.
fn color_word_code(ansi: &Vec<char>, background: bool) -> (r: Option<Vec<char>>)
    requires
        ansi@.len() > 0,
        ansi@ != seq!['_'],
    ensures
        match code_parts_color(ansi@, background) {
            Some(c) => r matches Some(v) && v@ == c,
            None => r is None,
        },
{
    if ansi[0] == '#' {
        let byte_len = utf8_len_upto(ansi, 8);
        if byte_len == 4 || byte_len == 7 {
            let hex_content = slice_chars(ansi, 1, ansi.len());
            assert(hex_content@ =~= ansi@.drop_first());
            match parse_unsigned_exec(&hex_content, 16, u32::MAX) {
                Some(i_color) => {
                    let final_color = if utf8_len_upto(&hex_content, 4) == 3 {
                        expand_short_hex_exec(i_color)
                    } else {
                        i_color
                    };
                    let mut code = Vec::new();
                    get_color_from_hex(final_color, background, &mut code);
                    return Some(code);
                },
                None => {
                    return None;
                },
            }
        }
    }
    let rgb = vec!['r', 'g', 'b', '('];
    assert(rgb@ =~= seq!['r', 'g', 'b', '(']);
    if starts_with_exec(ansi, &rgb) {
        match parse_rgb_manual(ansi) {
            Some((r, g, b)) => {
                let mut code = Vec::new();
                get_color_from_rgb([r, g, b], background, &mut code);
                Some(code)
            },
            None => None,
        }
    } else {
        match color_by_name_chars(ansi) {
            Some(color) => {
                let mut code = Vec::new();
                get_color_from_hex(color, background, &mut code);
                Some(code)
            },
            None => None,
        }
    }
}

/// The characters of a `String`.
fn string_chars(s: &String) -> (v: Vec<char>)
    ensures
        v@ == s@,
{
    to_chars(s.as_str())
}

// ---------------------------------------------------------------------------
// Backslash escapes

/// The first escape of the table, at or after entry `k`, that `s` starts
/// with.
pub open spec fn escape_at(s: Seq<char>, k: nat) -> Option<nat>
    decreases control_escapes().len() - k,
{
    if k >= control_escapes().len() {
        None
    } else if starts_with(s, control_escapes()[k as int].0) {
        Some(k)
    } else {
        escape_at(s, k + 1)
    }
}

/// Every escape of the table is at least two characters long.
pub proof fn lemma_escape_keys_long(k: int)
    requires
        0 <= k < control_escapes().len(),
    ensures
        control_escapes()[k].0.len() >= 2,
{
}

/// The text with each backslash escape of the table replaced by its
/// control character, scanning left to right and trying the escapes in
/// table order.
pub open spec fn expand_escapes(s: Seq<char>) -> Seq<char>
    decreases s.len(),
{
    if s.len() == 0 {
        Seq::empty()
    } else {
        match escape_at(s, 0) {
            Some(k) => {
                proof {
                    lemma_escape_at_in_range(s, 0);
                    lemma_escape_keys_long(k as int);
                }
                control_escapes()[k as int].1 + expand_escapes(
                    s.skip(control_escapes()[k as int].0.len() as int),
                )
            },
            None => seq![s[0]] + expand_escapes(s.drop_first()),
        }
    }
}

/// A found escape is an entry of the table.
pub proof fn lemma_escape_at_in_range(s: Seq<char>, k: nat)
    ensures
        escape_at(s, k) matches Some(j) ==> k <= j < control_escapes().len() && starts_with(
            s,
            control_escapes()[j as int].0,
        ),
    decreases control_escapes().len() - k,
{
    if k < control_escapes().len() && !starts_with(s, control_escapes()[k as int].0) {
        lemma_escape_at_in_range(s, k + 1);
    }
}

/// Replaces the backslash escapes of `input` with the control characters
/// they stand for.
pub fn expand_escape_codes(input: &str) -> (r: String)
    ensures
        r@ == expand_escapes(input@),
{
    let chars = to_chars(input);
    let table = control_chars();
    let mut result = String::new();
    let mut i: usize = 0;
    assert(chars@.skip(0) =~= chars@);
    while i < chars.len()
        invariant
            i <= chars.len(),
            chars@ == input@,
            table@.len() == control_escapes().len(),
            forall|j: int|
                0 <= j < table@.len() ==> (#[trigger] table@[j]).0@ == control_escapes()[j].0
                    && table@[j].1@ == control_escapes()[j].1,
            expand_escapes(input@) == result@ + expand_escapes(chars@.skip(i as int)),
        decreases chars.len() - i,
    {
        let ghost rest = chars@.skip(i as int);
        let mut k: usize = 0;
        let mut matched = false;
        while k < table.len()
            invariant_except_break
                k <= table.len(),
                !matched,
                escape_at(rest, 0) == escape_at(rest, k as nat),
            invariant
                table@.len() == control_escapes().len(),
                forall|j: int|
                    0 <= j < table@.len() ==> (#[trigger] table@[j]).0@ == control_escapes()[j].0
                        && table@[j].1@ == control_escapes()[j].1,
                i < chars.len(),
                rest == chars@.skip(i as int),
            ensures
                matched ==> k < table.len() && escape_at(rest, 0) == Some(k as nat),
                !matched ==> escape_at(rest, 0) is None,
            decreases table.len() - k,
        {
            let (key, val) = table[k];
            let key_chars = to_chars(key);
            if occurs_at_exec(&chars, &key_chars, i) {
                assert(rest.take(key_chars@.len() as int) =~= chars@.subrange(
                    i as int,
                    i + key_chars@.len(),
                ));
                matched = true;
                break;
            }
            proof {
                if key_chars@.len() <= rest.len() {
                    assert(rest.take(key_chars@.len() as int) =~= chars@.subrange(
                        i as int,
                        i + key_chars@.len(),
                    ));
                }
            }
            k += 1;
        }
        if matched {
            let (key, val) = table[k];
            let key_len = to_chars(key).len();
            let v = to_chars(val);
            crate::text::push_chars(&mut result, &v);
            proof {
                lemma_escape_at_in_range(rest, 0);
                assert(rest.skip(key_len as int) =~= chars@.skip(i + key_len));
            }
            i += key_len;
        } else {
            push_char(&mut result, chars[i]);
            assert(rest.drop_first() =~= chars@.skip(i + 1));
            i += 1;
        }
    }
    assert(chars@.skip(chars.len() as int) =~= Seq::<char>::empty());
    result
}

// ---------------------------------------------------------------------------
// The character scanner

/// The character scanner's state.
pub struct CharScan {
    pub state: MachineState,
    /// The pending tag or escape sequence.
    pub color_buffer: Seq<char>,
    /// The output so far.
    pub buffer: Seq<char>,
}

/// Character `i` of the text is `c`.
pub open spec fn char_is(chars: Seq<char>, i: int, c: char) -> bool {
    0 <= i < chars.len() && chars[i] == c
}

/// One step of the character scanner on character `i`.
pub open spec fn char_step(chars: Seq<char>, opt: MarkupOptions, i: int, s: CharScan) -> CharScan {
    let c = chars[i];
    match s.state {
        MachineState::Normal => if c == '\x1b' && char_is(chars, i + 1, '[') {
            CharScan {
                state: MachineState::ReadingAnsiCode,
                color_buffer: s.color_buffer.push(c),
                ..s
            }
        } else if c == '[' {
            if char_is(chars, i + 1, '[') {
                CharScan { state: MachineState::Skip, buffer: s.buffer.push('['), ..s }
            } else {
                CharScan { state: MachineState::ReadingColor, color_buffer: Seq::empty(), ..s }
            }
        } else {
            CharScan { buffer: s.buffer.push(c), ..s }
        },
        MachineState::ReadingColor => if c == '[' {
            s
        } else if char_is(chars, i - 1, ']') && c == '/' {
            CharScan { state: MachineState::ReadingReset, ..s }
        } else if c == ']' && !char_is(chars, i - 1, '[') {
            CharScan {
                state: MachineState::Normal,
                buffer: s.buffer + resolve_code(
                    s.color_buffer,
                    false,
                    opt.color_mode,
                    opt.no_binary_expansion,
                ).0,
                ..s
            }
        } else {
            CharScan { color_buffer: s.color_buffer.push(c), ..s }
        },
        MachineState::ReadingReset => CharScan {
            state: MachineState::Normal,
            buffer: if c == ']' && !char_is(chars, i - 1, '[') {
                s.buffer + reset_text(opt.no_binary_expansion)
            } else {
                s.buffer
            },
            ..s
        },
        MachineState::ReadingAnsiCode => {
            let cb = s.color_buffer.push(c);
            if ('@' <= c && c <= '~') || utf8_len(cb) > 32 {
                CharScan { state: MachineState::Normal, color_buffer: Seq::empty(), buffer: s.buffer + cb }
            } else {
                CharScan { color_buffer: cb, ..s }
            }
        },
        MachineState::Skip => CharScan { state: MachineState::Normal, ..s },
        MachineState::ReadingEscapeCode => CharScan { state: MachineState::Normal, ..s },
    }
}

/// The character scanner after the first `n` characters.
pub open spec fn char_scan(chars: Seq<char>, opt: MarkupOptions, n: nat) -> CharScan
    decreases n,
{
    if n == 0 {
        CharScan { state: MachineState::Normal, color_buffer: Seq::empty(), buffer: Seq::empty() }
    } else {
        char_step(chars, opt, n - 1, char_scan(chars, opt, (n - 1) as nat))
    }
}

/// The markup of `chars` as the first renderer writes it: empty for empty
/// text; otherwise the scanner's output, with a tag left open at the end
/// rendered as if closed, its backslash escapes expanded when escapes are
/// handled, and a final newline when asked for.
pub open spec fn char_render(chars: Seq<char>, opt: MarkupOptions) -> Seq<char> {
    if chars.len() == 0 {
        Seq::empty()
    } else {
        let s = char_scan(chars, opt, chars.len());
        let rendered = if s.state == MachineState::ReadingColor {
            s.buffer + resolve_code(s.color_buffer, false, opt.color_mode, opt.no_binary_expansion).0
        } else {
            s.buffer
        };
        let b = if opt.handle_escape {
            expand_escapes(rendered)
        } else {
            rendered
        };
        if opt.newline {
            b.push('\n')
        } else {
            b
        }
    }
}

/// Renders markup character by character. Unlike the byte-level renderer,
/// plain text keeps its characters, a tag may contain other characters
/// than ASCII, a tag left open at the end still renders, and a final
/// newline can be added.
pub fn markup_text(user_text: &str, options: MarkupOptions) -> (r: String)
    ensures
        r@ == char_render(user_text@, options),
{
    if user_text.is_empty() {
        return String::new();
    }
    let opt = options;
    let mut visitor_state = VisitorState::new();
    let mut buffer = String::new();
    let mut color_buffer: Vec<char> = Vec::new();
    let mut color_bytes: usize = 0;
    let mut machine_state = MachineState::Normal;
    let chars = to_chars(user_text);
    let len = chars.len();
    let mut i: usize = 0;
    while i < len
        invariant
            i <= len,
            len == chars@.len(),
            chars@ == user_text@,
            char_scan(chars@, opt, i as nat) == (CharScan {
                state: machine_state,
                color_buffer: color_buffer@,
                buffer: buffer@,
            }),
            color_bytes <= 33,
            color_bytes as nat == if utf8_len(color_buffer@) < 33 {
                utf8_len(color_buffer@)
            } else {
                33
            },
        decreases len - i,
    {
        let c = chars[i];
        let peek_open = i + 1 < len && chars[i + 1] == '[';
        let behind_open = i > 0 && chars[i - 1] == '[';
        let behind_close = i > 0 && chars[i - 1] == ']';
        assert(peek_open == char_is(chars@, i + 1, '['));
        assert(behind_open == char_is(chars@, i - 1, '['));
        assert(behind_close == char_is(chars@, i - 1, ']'));
        let ghost before = CharScan { state: machine_state, color_buffer: color_buffer@, buffer: buffer@ };
        match machine_state {
            MachineState::Normal => {
                if c == '\x1b' && peek_open {
                    proof {
                        crate::text::lemma_utf8_len_push(color_buffer@, c);
                    }
                    let w = crate::text::utf8_width(c);
                    color_bytes = if color_bytes + w > 33 {
                        33
                    } else {
                        color_bytes + w
                    };
                    color_buffer.push(c);
                    machine_state = MachineState::ReadingAnsiCode;
                } else if c == '[' {
                    if peek_open {
                        push_char(&mut buffer, '[');
                        machine_state = MachineState::Skip;
                    } else {
                        machine_state = MachineState::ReadingColor;
                        color_buffer.clear();
                        color_bytes = 0;
                        assert(color_buffer@ =~= Seq::<char>::empty());
                    }
                } else {
                    push_char(&mut buffer, c);
                }
            },
            MachineState::ReadingColor => {
                if c == '[' {
                } else if behind_close && c == '/' {
                    machine_state = MachineState::ReadingReset;
                } else if c == ']' && !behind_open {
                    resolve_color_code(
                        &color_buffer,
                        false,
                        opt.color_mode,
                        opt.no_binary_expansion,
                        &mut visitor_state,
                        &mut buffer,
                    );
                    machine_state = MachineState::Normal;
                } else {
                    proof {
                        crate::text::lemma_utf8_len_push(color_buffer@, c);
                    }
                    let w = crate::text::utf8_width(c);
                    color_bytes = if color_bytes + w > 33 {
                        33
                    } else {
                        color_bytes + w
                    };
                    color_buffer.push(c);
                }
            },
            MachineState::ReadingReset => {
                if c == ']' && !behind_open {
                    push_reset(&mut buffer, opt.no_binary_expansion);
                }
                machine_state = MachineState::Normal;
            },
            MachineState::ReadingAnsiCode => {
                proof {
                    crate::text::lemma_utf8_len_push(color_buffer@, c);
                }
                let w = crate::text::utf8_width(c);
                color_bytes = if color_bytes + w > 33 {
                    33
                } else {
                    color_bytes + w
                };
                color_buffer.push(c);
                if ('@' <= c && c <= '~') || color_bytes > 32 {
                    crate::text::push_chars(&mut buffer, &color_buffer);
                    color_buffer.clear();
                    color_bytes = 0;
                    assert(color_buffer@ =~= Seq::<char>::empty());
                    machine_state = MachineState::Normal;
                }
            },
            MachineState::Skip => {
                machine_state = MachineState::Normal;
            },
            MachineState::ReadingEscapeCode => {
                machine_state = MachineState::Normal;
            },
        }
        assert(char_step(chars@, opt, i as int, before) == (CharScan {
            state: machine_state,
            color_buffer: color_buffer@,
            buffer: buffer@,
        }));
        i += 1;
    }
    if machine_state == MachineState::ReadingColor {
        resolve_color_code(
            &color_buffer,
            false,
            opt.color_mode,
            opt.no_binary_expansion,
            &mut visitor_state,
            &mut buffer,
        );
    }
    if opt.handle_escape {
        buffer = expand_escape_codes(buffer.as_str());
    }
    if opt.newline {
        push_char(&mut buffer, '\n');
    }
    buffer
}

// ---------------------------------------------------------------------------
// Properties

/// The channels of `0xRRGGBB` put back together give the colour again.
pub proof fn lemma_channels_recombine(color: u32)
    requires
        color <= 0xffffff,
    ensures
        red(color) as int * 0x10000 + green(color) as int * 0x100 + blue(color) as int == color,
{
    let r = (color >> 16u32) & 0xffu32;
    let g = (color >> 8u32) & 0xffu32;
    let b = color & 0xffu32;
    assert(r * 0x10000 + g * 0x100 + b == color) by (bit_vector)
        requires
            color <= 0xffffff,
            r == (color >> 16u32) & 0xffu32,
            g == (color >> 8u32) & 0xffu32,
            b == color & 0xffu32,
    ;
    assert(r < 0x100 && g < 0x100 && b < 0x100) by (bit_vector)
        requires
            r == (color >> 16u32) & 0xffu32,
            g == (color >> 8u32) & 0xffu32,
            b == color & 0xffu32,
    ;
}

/// No escape of the table matches where the text does not start with a
/// backslash.
proof fn lemma_no_escape_without_backslash(s: Seq<char>, k: nat)
    requires
        s.len() == 0 || s[0] != '\\',
    ensures
        escape_at(s, k) is None,
    decreases control_escapes().len() - k,
{
    if k < control_escapes().len() {
        let key = control_escapes()[k as int].0;
        assert(key[0] == '\\');
        assert(!starts_with(s, key)) by {
            if s.len() >= key.len() {
                assert(s.subrange(0, key.len() as int)[0] == s[0]);
            }
        }
        lemma_no_escape_without_backslash(s, k + 1);
    }
}

/// A text without backslashes has nothing to expand.
pub proof fn lemma_expand_without_backslash(s: Seq<char>)
    requires
        forall|i: int| 0 <= i < s.len() ==> #[trigger] s[i] != '\\',
    ensures
        expand_escapes(s) == s,
    decreases s.len(),
{
    if s.len() > 0 {
        lemma_no_escape_without_backslash(s, 0);
        assert forall|i: int| 0 <= i < s.drop_first().len() implies #[trigger] s.drop_first()[i]
            != '\\' by {
            assert(s.drop_first()[i] == s[i + 1]);
        }
        lemma_expand_without_backslash(s.drop_first());
        assert(seq![s[0]] + s.drop_first() =~= s);
    }
}

/// The character scanner copies text without brackets and escape
/// characters as it is.
proof fn lemma_char_scan_plain(chars: Seq<char>, opt: MarkupOptions, n: nat)
    requires
        n <= chars.len(),
        forall|i: int| 0 <= i < chars.len() ==> #[trigger] chars[i] != '[' && chars[i] != '\x1b',
    ensures
        char_scan(chars, opt, n) == (CharScan {
            state: MachineState::Normal,
            color_buffer: Seq::empty(),
            buffer: chars.take(n as int),
        }),
    decreases n,
{
    if n == 0 {
        assert(chars.take(0) =~= Seq::<char>::empty());
    } else {
        lemma_char_scan_plain(chars, opt, (n - 1) as nat);
        assert(chars.take(n as int) =~= chars.take(n - 1).push(chars[n - 1]));
    }
}

/// The first renderer copies text without brackets, escape characters and
/// backslashes as it is, adding the newline when asked for.
pub proof fn lemma_char_render_plain(chars: Seq<char>, opt: MarkupOptions)
    requires
        forall|i: int|
            0 <= i < chars.len() ==> #[trigger] chars[i] != '[' && chars[i] != '\x1b' && chars[i]
                != '\\',
    ensures
        char_render(chars, opt) == if chars.len() > 0 && opt.newline {
            chars.push('\n')
        } else {
            chars
        },
{
    if chars.len() > 0 {
        lemma_char_scan_plain(chars, opt, chars.len());
        assert(chars.take(chars.len() as int) =~= chars);
        lemma_expand_without_backslash(chars);
    }
}

/// Characters that the first renderer's scanner copies in its normal state.
pub open spec fn is_copied_char(c: char) -> bool {
    c != '[' && c != '\x1b'
}

/// A run of copied characters is appended to the output, the rest of the
/// scanner unchanged.
proof fn lemma_char_scan_run(chars: Seq<char>, opt: MarkupOptions, i: nat, j: nat)
    requires
        i <= j <= chars.len(),
        char_scan(chars, opt, i).state == MachineState::Normal,
        forall|k: int| i <= k < j ==> is_copied_char(#[trigger] chars[k]),
    ensures
        char_scan(chars, opt, j) == (CharScan {
            buffer: char_scan(chars, opt, i).buffer + chars.subrange(i as int, j as int),
            ..char_scan(chars, opt, i)
        }),
    decreases j - i,
{
    let s = char_scan(chars, opt, i);
    if j == i {
        assert(s.buffer + chars.subrange(i as int, j as int) =~= s.buffer);
    } else {
        lemma_char_scan_run(chars, opt, i, (j - 1) as nat);
        assert(is_copied_char(chars[j - 1]));
        let prev = char_scan(chars, opt, (j - 1) as nat);
        assert(prev.state == MachineState::Normal);
        assert(char_scan(chars, opt, j) == char_step(chars, opt, j - 1, prev));
        assert((s.buffer + chars.subrange(i as int, j - 1)).push(chars[j - 1]) =~= s.buffer
            + chars.subrange(i as int, j as int));
    }
}

/// The inside of a tag is gathered into the colour buffer.
proof fn lemma_char_scan_tag_body(chars: Seq<char>, opt: MarkupOptions, start: nat, j: nat)
    requires
        0 < start <= j <= chars.len(),
        chars[start - 1] == '[',
        char_scan(chars, opt, start).state == MachineState::ReadingColor,
        char_scan(chars, opt, start).color_buffer == Seq::<char>::empty(),
        forall|k: int| start <= k < j ==> #[trigger] chars[k] != '[' && chars[k] != ']',
    ensures
        char_scan(chars, opt, j) == (CharScan {
            color_buffer: chars.subrange(start as int, j as int),
            ..char_scan(chars, opt, start)
        }),
    decreases j - start,
{
    let s = char_scan(chars, opt, start);
    if j == start {
        assert(chars.subrange(start as int, j as int) =~= Seq::<char>::empty());
    } else {
        lemma_char_scan_tag_body(chars, opt, start, (j - 1) as nat);
        assert(chars[j - 1] != '[' && chars[j - 1] != ']');
        if j - 1 > start {
            assert(chars[j - 2] != ']');
        }
        assert(chars.subrange(start as int, j - 1).push(chars[j - 1]) =~= chars.subrange(
            start as int,
            j as int,
        ));
    }
}

/// In the first renderer, without escape handling, a tag between two texts
/// of copied characters renders to its code, and the texts are copied.
pub proof fn lemma_char_render_tag(p: Seq<char>, w: Seq<char>, q: Seq<char>, opt: MarkupOptions)
    requires
        !opt.handle_escape,
        forall|i: int| 0 <= i < p.len() ==> is_copied_char(#[trigger] p[i]),
        forall|i: int| 0 <= i < q.len() ==> is_copied_char(#[trigger] q[i]),
        w.len() > 0,
        forall|i: int| 0 <= i < w.len() ==> #[trigger] w[i] != '[' && w[i] != ']',
    ensures
        ({
            let body = p + resolve_code(w, false, opt.color_mode, opt.no_binary_expansion).0 + q;
            char_render(p + seq!['['] + w + seq![']'] + q, opt) == if opt.newline {
                body.push('\n')
            } else {
                body
            }
        }),
{
    let t = p + seq!['['] + w + seq![']'] + q;
    let n = p.len();
    let e = n + 1 + w.len();
    assert(char_scan(t, opt, 0).buffer =~= Seq::<char>::empty());
    assert forall|k: int| 0 <= k < n implies is_copied_char(#[trigger] t[k]) by {
        assert(t[k] == p[k]);
    }
    lemma_char_scan_run(t, opt, 0, n);
    assert(t.subrange(0, n as int) =~= p);
    assert(t[n as int] == '[');
    assert(t[n + 1 as int] == w[0]);
    let s1 = char_scan(t, opt, (n + 1) as nat);
    assert(s1.state == MachineState::ReadingColor && s1.buffer == p && s1.color_buffer
        == Seq::<char>::empty());
    assert forall|k: int| n + 1 <= k < e implies #[trigger] t[k] != '[' && t[k] != ']' by {
        assert(t[k] == w[k - n - 1]);
    }
    lemma_char_scan_tag_body(t, opt, (n + 1) as nat, e as nat);
    assert(t.subrange(n + 1 as int, e as int) =~= w);
    assert(t[e as int] == ']');
    assert(t[e - 1] == w[w.len() - 1]);
    let code = resolve_code(w, false, opt.color_mode, opt.no_binary_expansion).0;
    let s2 = char_scan(t, opt, (e + 1) as nat);
    assert(s2.state == MachineState::Normal && s2.buffer == p + code);
    assert forall|k: int| e + 1 <= k < t.len() implies is_copied_char(#[trigger] t[k]) by {
        assert(t[k] == q[k - e - 1]);
    }
    lemma_char_scan_run(t, opt, (e + 1) as nat, t.len());
    assert(t.subrange(e + 1 as int, t.len() as int) =~= q);
}

/// In the first renderer, without escape handling, `[/]` between two texts
/// of copied characters resets there.
pub proof fn lemma_char_render_reset(p: Seq<char>, q: Seq<char>, opt: MarkupOptions)
    requires
        !opt.handle_escape,
        forall|i: int| 0 <= i < p.len() ==> is_copied_char(#[trigger] p[i]),
        forall|i: int| 0 <= i < q.len() ==> is_copied_char(#[trigger] q[i]),
    ensures
        ({
            let body = p + reset_text(opt.no_binary_expansion) + q;
            char_render(p + seq!['[', '/', ']'] + q, opt) == if opt.newline {
                body.push('\n')
            } else {
                body
            }
        }),
{
    lemma_char_render_tag(p, seq!['/'], q, opt);
    assert(p + seq!['['] + seq!['/'] + seq![']'] + q =~= p + seq!['[', '/', ']'] + q);
}

/// In the first renderer, without escape handling, `[[` between two texts
/// of copied characters writes one `[`.
pub proof fn lemma_char_render_double_bracket(p: Seq<char>, q: Seq<char>, opt: MarkupOptions)
    requires
        !opt.handle_escape,
        forall|i: int| 0 <= i < p.len() ==> is_copied_char(#[trigger] p[i]),
        forall|i: int| 0 <= i < q.len() ==> is_copied_char(#[trigger] q[i]),
    ensures
        ({
            let body = p + seq!['['] + q;
            char_render(p + seq!['[', '['] + q, opt) == if opt.newline {
                body.push('\n')
            } else {
                body
            }
        }),
{
    let t = p + seq!['[', '['] + q;
    let n = p.len();
    assert(char_scan(t, opt, 0).buffer =~= Seq::<char>::empty());
    assert forall|k: int| 0 <= k < n implies is_copied_char(#[trigger] t[k]) by {
        assert(t[k] == p[k]);
    }
    lemma_char_scan_run(t, opt, 0, n);
    assert(t.subrange(0, n as int) =~= p);
    assert(t[n as int] == '[' && t[n + 1 as int] == '[');
    let s1 = char_scan(t, opt, (n + 1) as nat);
    assert(s1.state == MachineState::Skip && s1.buffer == p.push('['));
    let s2 = char_scan(t, opt, (n + 2) as nat);
    assert(s2.state == MachineState::Normal && s2.buffer == p.push('['));
    assert forall|k: int| n + 2 <= k < t.len() implies is_copied_char(#[trigger] t[k]) by {
        assert(t[k] == q[k - n - 2]);
    }
    lemma_char_scan_run(t, opt, (n + 2) as nat, t.len());
    assert(t.subrange(n + 2 as int, t.len() as int) =~= q);
    assert(p.push('[') + q =~= p + seq!['['] + q);
}

/// Each escape of the table is ASCII and at least two characters long, and
/// stands for one ASCII character.
proof fn lemma_escape_entry_ascii(k: int)
    requires
        0 <= k < control_escapes().len(),
    ensures
        is_ascii_chars(control_escapes()[k].0),
        control_escapes()[k].0.len() >= 2,
        is_ascii_chars(control_escapes()[k].1),
        control_escapes()[k].1.len() == 1,
{
    let key = control_escapes()[k].0;
    let value = control_escapes()[k].1;
    assert(forall|i: int| 0 <= i < key.len() ==> '\0' <= #[trigger] key[i] <= '\u{7f}');
    assert(forall|i: int| 0 <= i < value.len() ==> '\0' <= #[trigger] value[i] <= '\u{7f}');
}

/// The UTF-8 length of ASCII characters is their number.
proof fn lemma_ascii_utf8_len(t: Seq<char>)
    requires
        is_ascii_chars(t),
    ensures
        utf8_len(t) == t.len(),
{
    is_ascii_chars_encode_utf8(t);
}

/// Expanding escapes never makes a text longer in bytes: each escape of two
/// or more bytes becomes a single byte.
pub proof fn lemma_expand_not_longer(s: Seq<char>)
    ensures
        utf8_len(expand_escapes(s)) <= utf8_len(s),
    decreases s.len(),
{
    if s.len() > 0 {
        match escape_at(s, 0) {
            Some(k) => {
                lemma_escape_at_in_range(s, 0);
                lemma_escape_entry_ascii(k as int);
                let key = control_escapes()[k as int].0;
                let value = control_escapes()[k as int].1;
                let rest = s.skip(key.len() as int);
                assert(s =~= key + rest);
                lemma_expand_not_longer(rest);
                lemma_encode_utf8_concat(key, rest);
                lemma_encode_utf8_concat(value, expand_escapes(rest));
                lemma_ascii_utf8_len(key);
                lemma_ascii_utf8_len(value);
            },
            None => {
                let rest = s.drop_first();
                assert(s =~= seq![s[0]] + rest);
                lemma_expand_not_longer(rest);
                lemma_encode_utf8_concat(seq![s[0]], rest);
                lemma_encode_utf8_concat(seq![s[0]], expand_escapes(rest));
            },
        }
    }
}

/// A text that starts with the `k`-th escape of the table, and with none
/// before it, expands that escape first.
proof fn lemma_expand_leading_escape(k: int, s: Seq<char>)
    requires
        0 <= k < control_escapes().len(),
        forall|j: int|
            0 <= j < k ==> !starts_with(control_escapes()[k].0 + s, #[trigger] control_escapes()[j].0),
    ensures
        expand_escapes(control_escapes()[k].0 + s) == control_escapes()[k].1 + expand_escapes(s),
{
    let key = control_escapes()[k].0;
    let t = key + s;
    assert(t.take(key.len() as int) =~= key);
    lemma_escape_keys_long(k);
    assert forall|j: nat| j <= k implies escape_at(t, j) == Some(k as nat) by {
        lemma_escape_at_from(t, j, k as nat);
    }
    assert(t.skip(key.len() as int) =~= s);
}

/// Searching from entry `j` up to a matching entry `k`, with no match
/// between, finds `k`.
proof fn lemma_escape_at_from(t: Seq<char>, j: nat, k: nat)
    requires
        j <= k < control_escapes().len(),
        starts_with(t, control_escapes()[k as int].0),
        forall|m: int| j <= m < k ==> !starts_with(t, #[trigger] control_escapes()[m].0),
    ensures
        escape_at(t, j) == Some(k),
    decreases k - j,
{
    if j < k {
        lemma_escape_at_from(t, j + 1, k);
    }
}

/// Each backslash escape stands for its own control character, wherever it
/// is followed by more text: `\003` for ETX, `\x1b` for ESC, `\n` for a line
/// feed, `\r` for a carriage return, `\t` for a tab, `\a` for the bell, `\b`
/// for a backspace, `\f` for a form feed and `\v` for a vertical tab.
pub proof fn lemma_escapes_stand_for_control_characters(s: Seq<char>)
    ensures
        expand_escapes(seq!['\\', '0', '0', '3'] + s) == seq!['\u{3}'] + expand_escapes(s),
        expand_escapes(seq!['\\', 'x', '1', 'b'] + s) == seq!['\u{1b}'] + expand_escapes(s),
        expand_escapes(seq!['\\', 'n'] + s) == seq!['\u{a}'] + expand_escapes(s),
        expand_escapes(seq!['\\', 'r'] + s) == seq!['\u{d}'] + expand_escapes(s),
        expand_escapes(seq!['\\', 't'] + s) == seq!['\u{9}'] + expand_escapes(s),
        expand_escapes(seq!['\\', 'a'] + s) == seq!['\u{7}'] + expand_escapes(s),
        expand_escapes(seq!['\\', 'b'] + s) == seq!['\u{8}'] + expand_escapes(s),
        expand_escapes(seq!['\\', 'f'] + s) == seq!['\u{c}'] + expand_escapes(s),
        expand_escapes(seq!['\\', 'v'] + s) == seq!['\u{b}'] + expand_escapes(s),
{
    assert forall|k: int| 0 <= k < control_escapes().len() implies expand_escapes(
        control_escapes()[k].0 + s,
    ) == control_escapes()[k].1 + expand_escapes(s) by {
        assert forall|j: int| 0 <= j < k implies !starts_with(
            control_escapes()[k].0 + s,
            #[trigger] control_escapes()[j].0,
        ) by {
            let t = control_escapes()[k].0 + s;
            let key = control_escapes()[j].0;
            if starts_with(t, key) {
                assert(t.take(key.len() as int)[1] == key[1]);
                if key.len() == 4 && control_escapes()[k].0.len() == 4 {
                    assert(t.take(key.len() as int)[1] == t[1]);
                }
            }
        }
        lemma_expand_leading_escape(k, s);
    }
    assert(control_escapes()[0].0 == seq!['\\', '0', '0', '3']);
    assert(control_escapes()[3].0 == seq!['\\', 'r']);
}

/// The colour word `rgb(R,G,B)` with the decimal numerals of three bytes.
pub open spec fn rgb_word(r: u8, g: u8, b: u8) -> Seq<char> {
    seq!['r', 'g', 'b', '('] + decimal(r as nat) + seq![','] + decimal(g as nat) + seq![',']
        + decimal(b as nat) + seq![')']
}

/// A decimal numeral holds no comma.
proof fn lemma_decimal_no_comma(n: nat)
    ensures
        forall|i: int| 0 <= i < decimal(n).len() ==> #[trigger] decimal(n)[i] != ',',
{
    lemma_decimal_reads_back(n);
}

/// `rgb(R,G,B)` reads as the channels `(R, G, B)`, in that order.
pub proof fn lemma_rgb_word_reads_back(r: u8, g: u8, b: u8)
    ensures
        parse_rgb(rgb_word(r, g, b)) == Some((r, g, b)),
{
    let dr = decimal(r as nat);
    let dg = decimal(g as nat);
    let db = decimal(b as nat);
    let w = rgb_word(r, g, b);
    let inner = dr + seq![','] + dg + seq![','] + db;
    assert(w.take(4) =~= seq!['r', 'g', 'b', '(']);
    assert(w.skip(4) =~= inner + seq![')']);
    assert((inner + seq![')']).skip((inner + seq![')']).len() - 1) =~= seq![')']);
    assert((inner + seq![')']).drop_last() =~= inner);
    lemma_decimal_no_comma(r as nat);
    lemma_decimal_no_comma(g as nat);
    lemma_decimal_no_comma(b as nat);
    lemma_split_single(dr, ',');
    lemma_split_single(dg, ',');
    lemma_split_single(db, ',');
    lemma_split_concat(dg, ',', db);
    lemma_split_concat(dr, ',', dg + seq![','] + db);
    assert(inner =~= dr + seq![','] + (dg + seq![','] + db));
    assert(split_seq(inner, ',') =~= seq![dr, dg, db]);
    lemma_parse_decimal_byte(r);
    lemma_parse_decimal_byte(g);
    lemma_parse_decimal_byte(b);
}

/// In the first renderer, `rgb(R,G,B)` gives the code of the palette
/// colour nearest to `(R, G, B)`, channels in that order.
pub proof fn lemma_rgb_word_code(r: u8, g: u8, b: u8, background: bool)
    ensures
        code_parts_color(rgb_word(r, g, b), background) == Some(code_from_rgb(r, g, b, background)),
{
    lemma_rgb_word_reads_back(r, g, b);
    let w = rgb_word(r, g, b);
    assert(w[0] == 'r');
    assert(w.take(4) =~= seq!['r', 'g', 'b', '(']);
}

/// A single colour word naming a palette colour: a plain name (starting with
/// a lower-case letter), without blanks, that is not a style label.
pub open spec fn is_colour_name_word(w: Seq<char>) -> bool {
    &&& color_by_name(w) is Some
    &&& is_plain_name(w)
    &&& forall|i: int| 0 <= i < w.len() ==> #[trigger] w[i] != ' '
    &&& map_lookup(format_code_table(), w, 0) is None
}

/// The search for ` on ` finds the first blank when the text before it has
/// none.
proof fn lemma_find_on(fg: Seq<char>, bg: Seq<char>, i: nat)
    requires
        i <= fg.len(),
        forall|k: int| 0 <= k < fg.len() ==> #[trigger] fg[k] != ' ',
    ensures
        find_from(fg + seq![' ', 'o', 'n', ' '] + bg, seq![' ', 'o', 'n', ' '], i) == Some(
            fg.len(),
        ),
    decreases fg.len() - i,
{
    let t = fg + seq![' ', 'o', 'n', ' '] + bg;
    let p = seq![' ', 'o', 'n', ' '];
    if i < fg.len() {
        assert(t[i as int] == fg[i as int]);
        assert(!occurs_at(t, p, i as int)) by {
            if occurs_at(t, p, i as int) {
                assert(t.subrange(i as int, i + 4 as int)[0] == t[i as int]);
            }
        }
        lemma_find_on(fg, bg, i + 1);
    } else {
        assert(t.subrange(i as int, i + 4 as int) =~= p);
    }
}

/// A colour-name word contributes no style code and the code of its colour.
proof fn lemma_colour_name_parts(w: Seq<char>, background: bool)
    requires
        is_colour_name_word(w),
    ensures
        code_parts(w, background) == Some(
            (Seq::<char>::empty(), color_code_text(color_by_name(w).unwrap(), background)),
        ),
{
    reveal(code_parts);
    lemma_split_single(w, ' ');
    let items = seq![w];
    assert(items.drop_last() =~= Seq::<Seq<char>>::empty());
    assert(items.last() == w);
    assert(fmt_items_style(Seq::<Seq<char>>::empty()) == Seq::<char>::empty());
    assert(fmt_items_style(items) == fmt_items_style(items.drop_last()) + Seq::<char>::empty());
    assert(fmt_items_style(items) =~= Seq::<char>::empty());
    assert(fmt_items_color(items) == w);
    assert(w != seq!['_']);
    assert(w[0] != '#');
}

/// In the first renderer, a tag `fg on bg` of two colour names renders one
/// SGR sequence holding the background's `48;2;R;G;B` code followed by the
/// foreground's `38;2;R;G;B` code.
pub proof fn lemma_foreground_on_background(
    fg: Seq<char>,
    bg: Seq<char>,
    mode: ColorMode,
    readable: bool,
)
    requires
        is_colour_name_word(fg),
        is_colour_name_word(bg),
        mode != ColorMode::NoColor,
    ensures
        resolve_code(fg + seq![' ', 'o', 'n', ' '] + bg, false, mode, readable).0 == esc_prefix(
            readable,
        ) + strip_semicolon(
            color_code_text(color_by_name(bg).unwrap(), true) + color_code_text(
                color_by_name(fg).unwrap(),
                false,
            ),
        ) + seq!['m'],
{
    let t = fg + seq![' ', 'o', 'n', ' '] + bg;
    let p = seq![' ', 'o', 'n', ' '];
    lemma_find_on(fg, bg, 0);
    assert(t.take(fg.len() as int) =~= fg);
    assert(t.skip(fg.len() + 4 as int) =~= bg);
    assert(split_once(t, p) == Some((fg, bg)));
    assert(t.len() > 1);
    assert(t != seq!['/']);
    assert(bg != seq!['/']);
    lemma_colour_name_parts(bg, true);
    lemma_colour_name_parts(fg, false);
    let code_bg = color_code_text(color_by_name(bg).unwrap(), true);
    assert(resolve_code(bg, true, mode, readable) == (Seq::<char>::empty(), code_bg)) by {
        assert(Seq::<char>::empty() + Seq::<char>::empty() + code_bg =~= code_bg);
    }
    let code_fg = color_code_text(color_by_name(fg).unwrap(), false);
    assert(code_bg + Seq::<char>::empty() + code_fg =~= code_bg + code_fg);
    assert(Seq::<char>::empty() + esc_prefix(readable) =~= esc_prefix(readable));
}

} // verus!
