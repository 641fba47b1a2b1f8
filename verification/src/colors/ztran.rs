//! The markup renderer: a scanner over the bytes of the text that copies
//! plain text, drops or passes escape sequences, and turns each `[...]` tag
//! into one SGR sequence.
use vstd::prelude::*;
use vstd::string::StringSliceAdditionalSpecFns;

use crate::argparse::parser::ColorMode;
use crate::colors::ansicodes::{control_chars, control_escapes, command_text, style_flag_of, AnsiCommand, Color, Layer, Style};
use crate::colors::colorsheet::{
    blue, color_by_name, color_by_name_chars, color_table, colors, dist_sq, green, lemma_nearest_exact,
    nearest_hex, nearest_index, red,
};
use crate::colors::transform::{
    escape_at, lemma_escape_at_in_range, lemma_escape_keys_long,
    esc_prefix, expand_short_hex, expand_short_hex_exec, parse_rgb, parse_rgb_manual, push_esc_prefix,
    push_reset, reset_text, split_rgb_int, MachineState, MarkupOptions,
};
use crate::text::{
    chars_equal, parse_unsigned, parse_unsigned_exec, push_char, slice_chars, slice_text,
    split_exec, split_once, split_once_exec, split_seq, starts_with, starts_with_exec, str_slice,
    to_chars, utf8_len, utf8_len_upto,
};

verus! {

// ---------------------------------------------------------------------------
// Colours

/// The palette colour nearest to `(r, g, b)`.
pub open spec fn color_from_rgb(r: u8, g: u8, b: u8) -> Color {
    let h = nearest_hex(r, g, b);
    Color { r: red(h), g: green(h), b: blue(h) }
}

/// The palette colour nearest to `0xRRGGBB`.
pub open spec fn color_from_hex(hex: u32) -> Color {
    color_from_rgb(red(hex), green(hex), blue(hex))
}

/// The colour that a colour word names: `#RGB` or `#RRGGBB` (an optional
/// `+` may stand after the `#`), `rgb(R,G,B)`, or a palette name; always
/// rounded to the nearest palette colour.
pub open spec fn resolve_color(c: Seq<char>) -> Option<Color> {
    if c.len() > 0 && c[0] == '#' && (utf8_len(c) == 4 || utf8_len(c) == 7) {
        match parse_unsigned(c.drop_first(), 16, u32::MAX as nat) {
            Some(v) => Some(
                color_from_hex(
                    if utf8_len(c.drop_first()) == 3 {
                        expand_short_hex(v as u32)
                    } else {
                        v as u32
                    },
                ),
            ),
            None => None,
        }
    } else if starts_with(c, seq!['r', 'g', 'b', '(']) {
        match parse_rgb(c) {
            Some((r, g, b)) => Some(color_from_rgb(r, g, b)),
            None => None,
        }
    } else {
        match color_by_name(c) {
            Some(h) => Some(color_from_hex(h)),
            None => None,
        }
    }
}

/// The palette colour nearest to an RGB triple, as its channels.
pub fn find_nearest_rgb(user_rgb: [u8; 3]) -> (rgb: [u8; 3])
    ensures
        rgb@ == seq![
            red(nearest_hex(user_rgb@[0], user_rgb@[1], user_rgb@[2])),
            green(nearest_hex(user_rgb@[0], user_rgb@[1], user_rgb@[2])),
            blue(nearest_hex(user_rgb@[0], user_rgb@[1], user_rgb@[2])),
        ],
{
    let table = colors();
    let mut min_distance_sq: u32 = u32::MAX;
    let mut nearest_rgb: [u8; 3] = [0u8, 0u8, 0u8];
    let u0 = user_rgb[0];
    let u1 = user_rgb[1];
    let u2 = user_rgb[2];
    let ur = u0 as i32;
    let ug = u1 as i32;
    let ub = u2 as i32;
    let ghost n = table@.len() as nat;
    let mut i: usize = 0;
    while i < table.len()
        invariant_except_break
            table@ == color_table(),
            n == color_table().len(),
            i <= table.len(),
            ur == u0 && ug == u1 && ub == u2,
            u0 == user_rgb@[0] && u1 == user_rgb@[1] && u2 == user_rgb@[2],
            i == 0 ==> min_distance_sq == u32::MAX,
            i > 0 ==> nearest_rgb@ == seq![
                red(color_table()[nearest_index(u0, u1, u2, i as nat) as int].1),
                green(color_table()[nearest_index(u0, u1, u2, i as nat) as int].1),
                blue(color_table()[nearest_index(u0, u1, u2, i as nat) as int].1),
            ] && min_distance_sq == dist_sq(
                u0,
                u1,
                u2,
                color_table()[nearest_index(u0, u1, u2, i as nat) as int].1,
            ),
        ensures
            nearest_rgb@ == seq![
                red(nearest_hex(user_rgb@[0], user_rgb@[1], user_rgb@[2])),
                green(nearest_hex(user_rgb@[0], user_rgb@[1], user_rgb@[2])),
                blue(nearest_hex(user_rgb@[0], user_rgb@[1], user_rgb@[2])),
            ],
        decreases table.len() - i,
    {
        let (_name, hex) = table[i];
        let r: u8 = ((hex >> 16) & 0xFF) as u8;
        let g: u8 = ((hex >> 8) & 0xFF) as u8;
        let b: u8 = (hex & 0xFF) as u8;
        let dr: i32 = ur - (r as i32);
        let dg: i32 = ug - (g as i32);
        let db: i32 = ub - (b as i32);
        assert(0 <= dr * dr <= 65025 && 0 <= dg * dg <= 65025 && 0 <= db * db <= 65025)
            by (nonlinear_arith)
            requires
                -255 <= dr <= 255,
                -255 <= dg <= 255,
                -255 <= db <= 255,
        ;
        let distance_sq: u32 = (dr * dr + dg * dg + db * db) as u32;
        assert(distance_sq == dist_sq(u0, u1, u2, hex));
        if distance_sq < min_distance_sq {
            min_distance_sq = distance_sq;
            nearest_rgb = [r, g, b];
            if distance_sq == 0 {
                proof {
                    assert(nearest_index(u0, u1, u2, (i + 1) as nat) == i);
                    lemma_nearest_exact(u0, u1, u2, (i + 1) as nat, n);
                }
                break;
            }
        }
        i += 1;
    }
    nearest_rgb
}

/// The palette colour nearest to an RGB triple.
fn get_color_from_rgb(colors: [u8; 3]) -> (c: Color)
    ensures
        c == color_from_rgb(colors@[0], colors@[1], colors@[2]),
{
    let nearest = find_nearest_rgb(colors);
    Color { r: nearest[0], g: nearest[1], b: nearest[2] }
}

/// The palette colour nearest to `0xRRGGBB`.
fn get_color_from_hex(color: u32) -> (c: Color)
    ensures
        c == color_from_hex(color),
{
    let (r, g, b) = split_rgb_int(color);
    get_color_from_rgb([r, g, b])
}

/// The colour that a colour word names.
fn resolve_color_string(color: &Vec<char>) -> (c: Option<Color>)
    ensures
        c == resolve_color(color@),
{
    if color.len() > 0 && color[0] == '#' {
        let byte_len = utf8_len_upto(color, 8);
        if byte_len == 4 || byte_len == 7 {
            let hex_content = slice_chars(color, 1, color.len());
            assert(hex_content@ =~= color@.drop_first());
            match parse_unsigned_exec(&hex_content, 16, u32::MAX) {
                Some(i_color) => {
                    let final_color = if utf8_len_upto(&hex_content, 4) == 3 {
                        expand_short_hex_exec(i_color)
                    } else {
                        i_color
                    };
                    return Some(get_color_from_hex(final_color));
                },
                None => {
                    return None;
                },
            }
        }
    }
    let rgb = vec!['r', 'g', 'b', '('];
    assert(rgb@ =~= seq!['r', 'g', 'b', '(']);
    if starts_with_exec(color, &rgb) {
        match parse_rgb_manual(color) {
            Some((r, g, b)) => {
                return Some(get_color_from_rgb([r, g, b]));
            },
            None => {
                return None;
            },
        }
    }
    match color_by_name_chars(color) {
        Some(i_color) => Some(get_color_from_hex(i_color)),
        None => None,
    }
}

// ---------------------------------------------------------------------------
// Tags

/// The style flags that the words of a segment set.
pub open spec fn items_flags(items: Seq<Seq<char>>) -> u16
    decreases items.len(),
{
    if items.len() == 0 {
        0
    } else {
        let f = items_flags(items.drop_last());
        match style_flag_of(items.last()) {
            Some(x) => f | x,
            None => f,
        }
    }
}

/// The last word of a segment that is not a style label, or the empty word.
pub open spec fn items_color(items: Seq<Seq<char>>) -> Seq<char>
    decreases items.len(),
{
    if items.len() == 0 {
        Seq::empty()
    } else if style_flag_of(items.last()) is Some {
        items_color(items.drop_last())
    } else {
        items.last()
    }
}

/// The style of a segment: the flags of its style words.
pub open spec fn segment_style(segment: Seq<char>) -> u16 {
    items_flags(split_seq(segment, ' '))
}

/// The colour of a segment: that of its last word that is not a style
/// label, unless that word is `_` or empty.
pub open spec fn segment_color(segment: Seq<char>) -> Option<Color> {
    let c = items_color(split_seq(segment, ' '));
    if c != seq!['_'] && c.len() > 0 {
        resolve_color(c)
    } else {
        None
    }
}

/// The SGR text of a segment on a layer.
pub open spec fn segment_text(segment: Seq<char>, layer: Layer) -> Seq<char> {
    command_text(segment_style(segment), segment_color(segment), layer)
}

/// What a tag renders to: the reset sequence for an empty tag, for `/`, and
/// in colourless mode; otherwise one SGR sequence holding the background
/// segment (after ` on `) and then, unless it is `_`, the foreground
/// segment; nothing when no segment yields a code.
pub open spec fn tag_text(tag: Seq<char>, opt: MarkupOptions) -> Seq<char> {
    if tag.len() == 0 || tag == seq!['/'] || opt.color_mode == ColorMode::NoColor {
        reset_text(opt.no_binary_expansion)
    } else {
        let body = match split_once(tag, seq![' ', 'o', 'n', ' ']) {
            Some((fg, bg)) => segment_text(bg, Layer::Background) + if fg != seq!['_'] {
                seq![';'] + segment_text(fg, Layer::Foreground)
            } else {
                Seq::empty()
            },
            None => segment_text(tag, Layer::Foreground),
        };
        if body.len() == 0 {
            Seq::empty()
        } else {
            esc_prefix(opt.no_binary_expansion) + body + seq!['m']
        }
    }
}

/// Reads a segment: its style words and its colour word.
fn extract_color_information(style_segment: &Vec<char>) -> (cmd: Option<AnsiCommand>)
    ensures
        cmd matches Some(c) && c.style@ == segment_style(style_segment@) && c.color == segment_color(
            style_segment@,
        ),
{
    let items = split_exec(style_segment, ' ');
    let ghost words = split_seq(style_segment@, ' ');
    let mut style = Style::default();
    let mut color_str: Vec<char> = Vec::new();
    let mut k: usize = 0;
    assert(words.take(0) =~= Seq::<Seq<char>>::empty());
    while k < items.len()
        invariant
            k <= items.len(),
            items@.len() == words.len(),
            words == split_seq(style_segment@, ' '),
            forall|j: int| 0 <= j < items@.len() ==> #[trigger] items@[j]@ == words[j],
            style@ == items_flags(words.take(k as int)),
            color_str@ == items_color(words.take(k as int)),
        decreases items.len() - k,
    {
        assert(words.take(k + 1).drop_last() =~= words.take(k as int));
        assert(words.take(k + 1).last() == items@[k as int]@);
        match style.set_flag_chars(&items[k]) {
            Some(_flag) => {},
            None => {
                color_str = slice_chars(&items[k], 0, items[k].len());
                assert(color_str@ =~= items@[k as int]@);
            },
        }
        k += 1;
    }
    assert(words.take(items.len() as int) =~= words);
    let underscore = vec!['_'];
    assert(underscore@ =~= seq!['_']);
    let color = if !chars_equal(&color_str, &underscore) && color_str.len() > 0 {
        resolve_color_string(&color_str)
    } else {
        None
    };
    Some(AnsiCommand { style, color })
}

/// Appends the SGR text of a segment, on the background layer when `bg`.
fn resolve_color_segment(segment: &Vec<char>, bg: bool, output: &mut String)
    ensures
        final(output)@ == old(output)@ + segment_text(
            segment@,
            if bg {
                Layer::Background
            } else {
                Layer::Foreground
            },
        ),
{
    if let Some(command) = extract_color_information(segment) {
        command.build_into(
            if bg {
                Layer::Background
            } else {
                Layer::Foreground
            },
            output,
        );
    }
}

/// Appends what a tag renders to.
fn resolve_color_tag(color_text: &Vec<char>, output: &mut String, opt: &MarkupOptions)
    ensures
        final(output)@ == old(output)@ + tag_text(color_text@, *opt),
{
    let slash = vec!['/'];
    assert(slash@ =~= seq!['/']);
    if color_text.len() == 0 || chars_equal(color_text, &slash) || opt.color_mode
        == ColorMode::NoColor {
        push_reset(output, opt.no_binary_expansion);
        return;
    }
    let on = vec![' ', 'o', 'n', ' '];
    let underscore = vec!['_'];
    assert(on@ =~= seq![' ', 'o', 'n', ' ']);
    assert(underscore@ =~= seq!['_']);
    let mut body = String::new();
    match split_once_exec(color_text, &on) {
        Some((fg, bg)) => {
            resolve_color_segment(&bg, true, &mut body);
            if !chars_equal(&fg, &underscore) {
                push_char(&mut body, ';');
                resolve_color_segment(&fg, false, &mut body);
            }
        },
        None => {
            resolve_color_segment(color_text, false, &mut body);
        },
    }
    if body.as_str().is_empty() {
        return;
    }
    let ghost start = output@;
    push_esc_prefix(output, opt.no_binary_expansion);
    output.append(body.as_str());
    push_char(output, 'm');
    assert(output@ =~= start + tag_text(color_text@, *opt));
}

// ---------------------------------------------------------------------------
// The scanner

/// The scanner's state between two bytes.
pub struct Scan {
    pub state: MachineState,
    /// Where the pending tag or escape sequence starts.
    pub start: nat,
    /// How many of its bytes have been counted.
    pub len: nat,
    /// The output so far.
    pub out: Seq<char>,
}

/// Byte `i` of the text is the character `c`.
pub open spec fn byte_is(bytes: Seq<u8>, i: int, c: char) -> bool {
    0 <= i < bytes.len() && bytes[i] as char == c
}

/// The number of bytes of the UTF-8 character that starts with the byte `b`
/// (1 for a byte that starts none).
pub open spec fn lead_width(b: u8) -> nat {
    if b >= 0xf0 {
        4
    } else if b >= 0xe0 {
        3
    } else if b >= 0xc0 {
        2
    } else {
        1
    }
}

/// `lead_width`, computed.
fn lead_width_exec(b: u8) -> (w: usize)
    ensures
        w == lead_width(b),
{
    if b >= 0xf0 {
        4
    } else if b >= 0xe0 {
        3
    } else if b >= 0xc0 {
        2
    } else {
        1
    }
}

/// The characters that the bytes from index `i` on spell, one per byte.
pub open spec fn byte_chars(bytes: Seq<u8>, i: int) -> Seq<char> {
    bytes.skip(i).map_values(|b: u8| b as char)
}

/// Each step consumes at least one byte and stays within the text.
pub proof fn lemma_scan_step_advances(bytes: Seq<u8>, opt: MarkupOptions, i: int, s: Scan)
    requires
        0 <= i < bytes.len(),
    ensures
        scan_step(bytes, opt, i, s) matches Some((_, n)) ==> 1 <= n && i + n <= bytes.len(),
{
    let chars = byte_chars(bytes, i);
    lemma_escape_at_in_range(chars, 0);
    if let Some(k) = escape_at(chars, 0) {
        lemma_escape_keys_long(k as int);
    }
}

/// One step of the scanner on byte `i`: the next state and the number of
/// bytes the step consumes, or `None` where the step slices the text at a
/// place where `str` indexing panics.
pub open spec fn scan_step(bytes: Seq<u8>, opt: MarkupOptions, i: int, s: Scan) -> Option<(Scan, nat)> {
    let c = bytes[i] as char;
    match s.state {
        MachineState::Normal => if c == '[' {
            if !byte_is(bytes, i + 1, '[') {
                Some((Scan { state: MachineState::ReadingColor, start: (i + 1) as nat, ..s }, 1))
            } else {
                Some((Scan { out: s.out.push('['), ..s }, 2))
            }
        } else if c == '\\' && opt.handle_escape {
            match escape_at(byte_chars(bytes, i), 0) {
                Some(k) => Some(
                    (
                        Scan { out: s.out + control_escapes()[k as int].1, ..s },
                        control_escapes()[k as int].0.len(),
                    ),
                ),
                None => Some((Scan { out: s.out.push('\\'), ..s }, 1)),
            }
        } else if c == '\x1b' && (byte_is(bytes, i + 1, '[') || byte_is(bytes, i + 1, '(')) {
            Some((Scan { state: MachineState::ReadingAnsiCode, start: i as nat, ..s }, 1))
        } else if bytes[i] < 0x80 {
            Some((Scan { out: s.out.push(c), ..s }, 1))
        } else {
            match slice_text(bytes, i, i + lead_width(bytes[i])) {
                Some(whole) => Some((Scan { out: s.out + whole, ..s }, lead_width(bytes[i]))),
                None => Some((Scan { out: s.out.push(c), ..s }, 1)),
            }
        },
        MachineState::ReadingColor => if c == '[' {
            Some((s, 1))
        } else if c == ' ' && byte_is(bytes, i - 1, ' ') {
            Some((s, 1))
        } else if c == '/' && byte_is(bytes, i - 1, '[') {
            Some((Scan { state: MachineState::ReadingReset, ..s }, 1))
        } else if c == ']' {
            if byte_is(bytes, i - 1, '[') {
                Some((Scan { state: MachineState::Normal, ..s }, 1))
            } else {
                match slice_text(bytes, s.start as int, (s.start + s.len) as int) {
                    Some(tag) => Some(
                        (
                            Scan {
                                state: MachineState::Normal,
                                start: 0,
                                len: 0,
                                out: s.out + tag_text(tag, opt),
                            },
                            1,
                        ),
                    ),
                    None => None,
                }
            }
        } else {
            Some((Scan { len: s.len + 1, ..s }, 1))
        },
        MachineState::ReadingReset => if c == ']' && !byte_is(bytes, i - 1, '[') {
            Some(
                (
                    Scan {
                        state: MachineState::Normal,
                        out: s.out + reset_text(opt.no_binary_expansion),
                        ..s
                    },
                    1,
                ),
            )
        } else {
            Some((Scan { state: MachineState::Normal, ..s }, 1))
        },
        MachineState::ReadingEscapeCode => Some((Scan { state: MachineState::Normal, ..s }, 1)),
        MachineState::ReadingAnsiCode => if '@' <= c && c <= '~' {
            Some((Scan { len: s.len + 1, ..s }, 1))
        } else if s.len + 1 > 32 {
            match slice_text(bytes, s.start as int, (s.start + s.len + 1) as int) {
                Some(code) => Some(
                    (
                        Scan {
                            state: MachineState::Normal,
                            len: s.len + 1,
                            out: s.out + code,
                            ..s
                        },
                        1,
                    ),
                ),
                None => None,
            }
        } else {
            Some((Scan { len: s.len + 1, ..s }, 1))
        },
        MachineState::Skip => Some((s, 1)),
    }
}

/// The scanner run from byte `i` in state `s` to the end of the text: the
/// output, or `None` where a step panics.
pub open spec fn scan_from(bytes: Seq<u8>, opt: MarkupOptions, i: nat, s: Scan) -> Option<Seq<char>>
    decreases bytes.len() - i,
{
    if i >= bytes.len() {
        Some(s.out)
    } else {
        match scan_step(bytes, opt, i as int, s) {
            Some((next, n)) => {
                proof {
                    lemma_scan_step_advances(bytes, opt, i as int, s);
                }
                scan_from(bytes, opt, i + n, next)
            },
            None => None,
        }
    }
}

/// The markup of the UTF-8 text `bytes` rendered with `opt`, or `None` where
/// rendering panics (a tag or escape sequence whose counted length cuts a
/// character or runs past the text).
pub open spec fn render(bytes: Seq<u8>, opt: MarkupOptions) -> Option<Seq<char>> {
    scan_from(bytes, opt, 0, Scan { state: MachineState::Normal, start: 0, len: 0, out: Seq::empty() })
}

/// Whether the bytes from index `i` on start with the characters of `key`.
fn bytes_start_with(bytes: &[u8], i: usize, key: &Vec<char>) -> (r: bool)
    requires
        i <= bytes@.len(),
    ensures
        r == starts_with(byte_chars(bytes@, i as int), key@),
{
    let ghost chars = byte_chars(bytes@, i as int);
    if key.len() > bytes.len() - i {
        return false;
    }
    let mut j: usize = 0;
    while j < key.len()
        invariant
            i + key@.len() <= bytes@.len(),
            key@.len() == key.len(),
            bytes@.len() == bytes.len(),
            chars == byte_chars(bytes@, i as int),
            j <= key.len(),
            forall|m: int| 0 <= m < j ==> chars[m] == key@[m],
        decreases key.len() - j,
    {
        if bytes[i + j] as char != key[j] {
            assert(chars.take(key.len() as int)[j as int] != key@[j as int]);
            return false;
        }
        j += 1;
    }
    assert(chars.take(key.len() as int) =~= key@);
    true
}

/// Expands the backslash escape at byte `i` of `bytes` onto `output`, or
/// copies the backslash where no escape of the table starts there; gives the
/// number of bytes consumed.
fn expand_escape_at(bytes: &[u8], i: usize, output: &mut String) -> (step: usize)
    requires
        i < bytes@.len(),
    ensures
        match escape_at(byte_chars(bytes@, i as int), 0) {
            Some(k) => final(output)@ == old(output)@ + control_escapes()[k as int].1 && step
                == control_escapes()[k as int].0.len(),
            None => final(output)@ == old(output)@.push('\\') && step == 1,
        },
{
    let ghost chars = byte_chars(bytes@, i as int);
    let table = control_chars();
    let mut k: usize = 0;
    while k < table.len()
        invariant
            i < bytes@.len(),
            chars == byte_chars(bytes@, i as int),
            table@.len() == control_escapes().len(),
            forall|m: int|
                0 <= m < table@.len() ==> (#[trigger] table@[m]).0@ == control_escapes()[m].0
                    && table@[m].1@ == control_escapes()[m].1,
            k <= table.len(),
            escape_at(chars, 0) == escape_at(chars, k as nat),
            output@ == old(output)@,
        decreases table.len() - k,
    {
        let (key, value) = table[k];
        let key_chars = to_chars(key);
        if bytes_start_with(bytes, i, &key_chars) {
            output.append(value);
            return key_chars.len();
        }
        k += 1;
    }
    push_char(output, '\\');
    1
}

/// The rendering of `bytes` with `opt`, where it does not panic.
pub open spec fn rendered(bytes: Seq<u8>, opt: MarkupOptions) -> Seq<char> {
    render(bytes, opt).unwrap()
}

/// Renders markup, or gives `None` where rendering `text` panics.
pub fn try_markup_text(text: &str, opt: &MarkupOptions) -> (r: Option<String>)
    ensures
        match r {
            Some(s) => render(text.spec_bytes(), *opt) == Some(s@),
            None => render(text.spec_bytes(), *opt) is None,
        },
{
    let bytes = text.as_bytes();
    let len = bytes.len();
    let mut output = String::new();
    let mut state = MachineState::Normal;
    let mut segment_start: usize = 0;
    let mut segment_len: usize = 0;
    let mut idx: usize = 0;
    let ghost b = text.spec_bytes();
    while idx < len
        invariant
            bytes@ == b,
            b == text.spec_bytes(),
            len == b.len(),
            idx <= len,
            segment_start <= idx,
            segment_len <= idx,
            render(b, *opt) == scan_from(
                b,
                *opt,
                idx as nat,
                Scan {
                    state,
                    start: segment_start as nat,
                    len: segment_len as nat,
                    out: output@,
                },
            ),
        decreases len - idx,
    {
        let ghost s = Scan {
            state,
            start: segment_start as nat,
            len: segment_len as nat,
            out: output@,
        };
        let c = bytes[idx] as char;
        let peek_open = idx + 1 < len && bytes[idx + 1] as char == '[';
        let peek_paren = idx + 1 < len && bytes[idx + 1] as char == '(';
        let prev_space = idx > 0 && bytes[idx - 1] as char == ' ';
        let prev_open = idx > 0 && bytes[idx - 1] as char == '[';
        assert(peek_open == byte_is(b, idx + 1, '['));
        assert(peek_paren == byte_is(b, idx + 1, '('));
        assert(prev_space == byte_is(b, idx - 1, ' '));
        assert(prev_open == byte_is(b, idx - 1, '['));
        let mut step: usize = 1;
        match state {
            MachineState::Normal => {
                if c == '[' {
                    if !peek_open {
                        segment_start = idx + 1;
                        state = MachineState::ReadingColor;
                    } else {
                        push_char(&mut output, '[');
                        step = 2;
                    }
                } else if c == '\\' && opt.handle_escape {
                    step = expand_escape_at(bytes, idx, &mut output);
                } else if c == '\x1b' && (peek_open || peek_paren) {
                    segment_start = idx;
                    state = MachineState::ReadingAnsiCode;
                } else if bytes[idx] < 0x80 {
                    push_char(&mut output, c);
                } else {
                    let w = lead_width_exec(bytes[idx]);
                    let piece = if w <= len - idx {
                        str_slice(text, idx, idx + w)
                    } else {
                        None
                    };
                    match piece {
                        Some(whole) => {
                            output.append(whole);
                            step = w;
                        },
                        None => {
                            push_char(&mut output, c);
                        },
                    }
                }
            },
            MachineState::ReadingColor => {
                if c == '[' {
                } else if c == ' ' && prev_space {
                } else if c == '/' && prev_open {
                    state = MachineState::ReadingReset;
                } else if c == ']' {
                    state = MachineState::Normal;
                    if !prev_open {
                        if segment_len > len - segment_start {
                            return None;
                        }
                        match str_slice(text, segment_start, segment_start + segment_len) {
                            Some(tag) => {
                                let tag_chars = to_chars(tag);
                                resolve_color_tag(&tag_chars, &mut output, opt);
                                segment_start = 0;
                                segment_len = 0;
                            },
                            None => {
                                return None;
                            },
                        }
                    }
                } else {
                    segment_len = segment_len + 1;
                }
            },
            MachineState::ReadingReset => {
                if c == ']' && !prev_open {
                    push_reset(&mut output, opt.no_binary_expansion);
                }
                state = MachineState::Normal;
            },
            MachineState::ReadingEscapeCode => {
                state = MachineState::Normal;
            },
            MachineState::ReadingAnsiCode => {
                segment_len = segment_len + 1;
                if '@' <= c && c <= '~' {
                } else if segment_len > 32 {
                    if segment_len > len - segment_start {
                        return None;
                    }
                    match str_slice(text, segment_start, segment_start + segment_len) {
                        Some(code) => {
                            output.append(code);
                            state = MachineState::Normal;
                        },
                        None => {
                            return None;
                        },
                    }
                }
            },
            MachineState::Skip => {},
        }
        proof {
            let next = Scan {
                state,
                start: segment_start as nat,
                len: segment_len as nat,
                out: output@,
            };
            assert(scan_step(b, *opt, idx as int, s) == Some((next, step as nat)));
            lemma_scan_step_advances(b, *opt, idx as int, s);
        }
        idx = idx + step;
    }
    Some(output)
}

/// Renders markup: plain text is copied, each character whole, `[[` writes
/// `[`, a tag
/// `[...]` becomes one SGR sequence, `[/]` resets, and with `handle_escape`
/// each backslash escape of the table becomes its control character.
pub fn markup_text(text: &str, opt: &MarkupOptions) -> (r: String)
    requires
        render(text.spec_bytes(), *opt) is Some,
    ensures
        render(text.spec_bytes(), *opt) == Some(r@),
        r@ == rendered(text.spec_bytes(), *opt),
{
    match try_markup_text(text, opt) {
        Some(s) => s,
        None => String::new(),
    }
}

} // verus!
