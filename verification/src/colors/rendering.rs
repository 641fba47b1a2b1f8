//! What the markup renderer guarantees of whole texts: plain text is copied
//! unchanged, a tag turns into its SGR sequence wherever it stands, `[/]`
//! resets anywhere, `[[` writes a bracket, and a tag that names nothing
//! leaves no trace; and what colour words resolve to: `#xyz` as `#xxyyzz`,
//! the nearest palette colour, and palette names and their `#rrggbb` values
//! alike.
use vstd::prelude::*;
use vstd::utf8::*;

use crate::argparse::parser::ColorMode;
use crate::colors::ansicodes::{lemma_set_codes_none, style_text, Color};
use crate::colors::colorsheet::{
    blue, color_by_name, lemma_palette_names_plain, color_table, dist_sq, green, lemma_nearest_index, name_lookup, nearest_hex,
    nearest_index, red,
};
use crate::colors::transform::{
    expand_short_hex, lemma_rgb_word_reads_back, parse_rgb, reset_text, rgb_word, MachineState,
    MarkupOptions,
};
use crate::colors::ztran::{
    color_from_hex, color_from_rgb, render, resolve_color, scan_from, scan_step, segment_color,
    segment_style,
    tag_text, Scan,
};
use crate::extras::hex_code;
use crate::text::{
    all_digits, digit_value, digits_value, hex_digit_char, hex_lower, pad_left, parse_unsigned,
    slice_text, split_once, starts_with, utf8_len,
};

verus! {

/// A character that the renderer copies as it is: ASCII, and neither `[`,
/// the escape character, nor, where escapes are handled, a backslash.
pub open spec fn is_plain_char(c: char, opt: MarkupOptions) -> bool {
    &&& '\0' <= c <= '\u{7f}'
    &&& c != '['
    &&& c != '\x1b'
    &&& !(opt.handle_escape && c == '\\')
}

/// Every character of `t` is copied as it is.
pub open spec fn is_plain_text(t: Seq<char>, opt: MarkupOptions) -> bool {
    forall|i: int| 0 <= i < t.len() ==> is_plain_char(#[trigger] t[i], opt)
}

/// The inside of a tag as the renderer reads it back whole: ASCII, not
/// empty, not starting with `/`, without brackets and without two spaces in
/// a row (the renderer skips the second one).
pub open spec fn is_tag_body(w: Seq<char>) -> bool {
    &&& w.len() > 0
    &&& is_ascii_chars(w)
    &&& w[0] != '/'
    &&& forall|i: int| 0 <= i < w.len() ==> #[trigger] w[i] != '[' && w[i] != ']'
    &&& forall|i: int| 0 < i < w.len() ==> !(#[trigger] w[i] == ' ' && w[i - 1] == ' ')
}

/// `b` holds the characters of `t`, one byte each.
spec fn bytes_spell(b: Seq<u8>, t: Seq<char>) -> bool {
    &&& b.len() == t.len()
    &&& forall|k: int| 0 <= k < t.len() ==> #[trigger] b[k] as char == t[k] && b[k] < 0x80
}

/// The UTF-8 encoding of ASCII characters spells them byte by byte.
proof fn lemma_ascii_bytes(t: Seq<char>)
    requires
        is_ascii_chars(t),
    ensures
        bytes_spell(encode_utf8(t), t),
        forall|k: int| 0 <= k < t.len() ==> #[trigger] encode_utf8(t)[k] < 0x80,
{
    is_ascii_chars_encode_utf8(t);
    assert forall|k: int| 0 <= k < t.len() implies #[trigger] encode_utf8(t)[k] as char == t[k]
        && encode_utf8(t)[k] < 0x80 by {
        let c = t[k];
        assert(c as u8 == encode_utf8(t)[k]);
        assert('\0' <= c <= '\u{7f}');
        let u = c as u32;
        assert(u < 0x80);
        assert((u as u8) as u32 == u) by (bit_vector)
            requires
                u < 0x80,
        ;
    }
}

/// Plain characters are copied one by one and leave the scanner where it
/// was.
proof fn lemma_scan_plain(b: Seq<u8>, t: Seq<char>, opt: MarkupOptions, i: nat, j: nat, s: Scan)
    requires
        bytes_spell(b, t),
        i <= j <= t.len(),
        forall|k: int| i <= k < j ==> is_plain_char(#[trigger] t[k], opt),
        s.state == MachineState::Normal,
    ensures
        scan_from(b, opt, i, s) == scan_from(
            b,
            opt,
            j,
            Scan { out: s.out + t.subrange(i as int, j as int), ..s },
        ),
    decreases j - i,
{
    if i == j {
        assert(s.out + t.subrange(i as int, j as int) =~= s.out);
        assert(Scan { out: s.out + t.subrange(i as int, j as int), ..s } == s);
    } else {
        let c = t[i as int];
        assert(b[i as int] as char == c);
        assert(is_plain_char(c, opt));
        let s2 = Scan { out: s.out.push(c), ..s };
        assert(scan_step(b, opt, i as int, s) == Some((s2, 1nat)));
        lemma_scan_plain(b, t, opt, i + 1, j, s2);
        assert(s2.out + t.subrange(i + 1 as int, j as int) =~= s.out + t.subrange(i as int, j as int));
    }
}

/// The inside of a tag is counted character by character.
proof fn lemma_scan_tag_body(
    b: Seq<u8>,
    t: Seq<char>,
    opt: MarkupOptions,
    start: nat,
    k: nat,
    end: nat,
    out: Seq<char>,
)
    requires
        bytes_spell(b, t),
        0 < start <= k <= end < t.len(),
        t[start - 1] == '[',
        start < end ==> t[start as int] != '/',
        forall|m: int| start <= m < end ==> #[trigger] t[m] != '[' && t[m] != ']',
        forall|m: int| start < m < end ==> !(#[trigger] t[m] == ' ' && t[m - 1] == ' '),
    ensures
        scan_from(
            b,
            opt,
            k,
            Scan { state: MachineState::ReadingColor, start, len: (k - start) as nat, out },
        ) == scan_from(
            b,
            opt,
            end,
            Scan { state: MachineState::ReadingColor, start, len: (end - start) as nat, out },
        ),
    decreases end - k,
{
    if k < end {
        let s = Scan { state: MachineState::ReadingColor, start, len: (k - start) as nat, out };
        let c = t[k as int];
        assert(b[k as int] as char == c);
        assert(b[k - 1] as char == t[k - 1]);
        assert(c != '[' && c != ']');
        if k > start {
            assert(t[k - 1] != '[');
            assert(!(t[k as int] == ' ' && t[k - 1] == ' '));
        }
        let s2 = Scan { len: s.len + 1, ..s };
        assert(scan_step(b, opt, k as int, s) == Some((s2, 1nat)));
        lemma_scan_tag_body(b, t, opt, start, k + 1, end, out);
    }
}

/// The text of a tag is read back from the UTF-8 bytes of an ASCII text.
proof fn lemma_slice_ascii(t: Seq<char>, a: int, e: int)
    requires
        is_ascii_chars(t),
        0 <= a <= e < t.len(),
    ensures
        slice_text(encode_utf8(t), a, e) == Some(t.subrange(a, e)),
{
    let b = encode_utf8(t);
    lemma_ascii_bytes(t);
    encode_utf8_valid_utf8(t);
    is_char_boundary_iff_not_is_continuation_byte(b, a);
    is_char_boundary_iff_not_is_continuation_byte(b, e);
    let w = t.subrange(a, e);
    assert(is_ascii_chars(w));
    lemma_ascii_bytes(w);
    assert(b.subrange(a, e) =~= encode_utf8(w)) by {
        assert forall|k: int| 0 <= k < e - a implies #[trigger] b.subrange(a, e)[k] == encode_utf8(
            w,
        )[k] by {
            assert(b[a + k] as char == t[a + k]);
            assert(encode_utf8(w)[k] as char == w[k]);
            assert(b[a + k] < 0x80);
            assert(encode_utf8(w)[k] < 0x80);
            let x = b[a + k];
            let y = encode_utf8(w)[k];
            assert((x as char) as u32 == x as u32);
            assert((y as char) as u32 == y as u32);
        }
    }
    encode_utf8_decode_utf8(w);
}

/// Plain text is ASCII.
proof fn lemma_plain_is_ascii(t: Seq<char>, opt: MarkupOptions)
    requires
        is_plain_text(t, opt),
    ensures
        is_ascii_chars(t),
{
    assert forall|i: int| 0 <= i < t.len() implies '\0' <= #[trigger] t[i] <= '\u{7f}' by {
        assert(is_plain_char(t[i], opt));
    }
}

/// A tag at index `n` of an ASCII text, its inside `w` ending at index `e`,
/// is rendered when its closing bracket is reached.
proof fn lemma_scan_tag(t: Seq<char>, opt: MarkupOptions, n: int, w: Seq<char>, out: Seq<char>)
    requires
        is_ascii_chars(t),
        is_tag_body(w),
        0 <= n,
        n + w.len() + 1 < t.len(),
        t[n] == '[',
        t.subrange(n + 1, n + 1 + w.len()) == w,
        t[n + 1 + w.len()] == ']',
    ensures
        scan_from(
            encode_utf8(t),
            opt,
            n as nat,
            Scan { state: MachineState::Normal, start: 0, len: 0, out },
        ) == scan_from(
            encode_utf8(t),
            opt,
            (n + w.len() + 2) as nat,
            Scan { state: MachineState::Normal, start: 0, len: 0, out: out + tag_text(w, opt) },
        ),
{
    let b = encode_utf8(t);
    let e: int = n + 1 + w.len();
    lemma_ascii_bytes(t);
    let s1 = Scan { state: MachineState::Normal, start: 0, len: 0, out };
    assert(t[n + 1] == w[0]);
    assert(b[n] as char == '[');
    assert(b[n + 1] as char == w[0]);
    let s2 = Scan { state: MachineState::ReadingColor, start: (n + 1) as nat, ..s1 };
    assert(scan_step(b, opt, n, s1) == Some((s2, 1nat)));
    assert forall|m: int| n + 1 <= m < e implies #[trigger] t[m] != '[' && t[m] != ']' by {
        assert(t[m] == w[m - n - 1]);
    }
    assert forall|m: int| n + 1 < m < e implies !(#[trigger] t[m] == ' ' && t[m - 1] == ' ') by {
        assert(t[m] == w[m - n - 1]);
        assert(t[m - 1] == w[m - n - 2]);
    }
    lemma_scan_tag_body(b, t, opt, (n + 1) as nat, (n + 1) as nat, e as nat, out);
    let s3 = Scan {
        state: MachineState::ReadingColor,
        start: (n + 1) as nat,
        len: w.len(),
        out,
    };
    assert(b[e] as char == ']');
    assert(t[e - 1] == w[w.len() - 1]);
    assert(b[e - 1] as char == w[w.len() - 1]);
    lemma_slice_ascii(t, n + 1, e);
    let s4 = Scan { state: MachineState::Normal, start: 0, len: 0, out: out + tag_text(w, opt) };
    assert(scan_step(b, opt, e, s3) == Some((s4, 1nat)));
}

/// A tag between two plain texts renders to its SGR sequence, and the
/// texts around it are copied unchanged.
pub proof fn lemma_tag_between_plain_texts(
    p: Seq<char>,
    w: Seq<char>,
    q: Seq<char>,
    opt: MarkupOptions,
)
    requires
        is_plain_text(p, opt),
        is_tag_body(w),
        is_plain_text(q, opt),
    ensures
        render(encode_utf8(p + seq!['['] + w + seq![']'] + q), opt) == Some(
            p + tag_text(w, opt) + q,
        ),
{
    let t = p + seq!['['] + w + seq![']'] + q;
    let n: int = p.len() as int;
    let e: int = n + 1 + w.len();
    lemma_plain_is_ascii(p, opt);
    lemma_plain_is_ascii(q, opt);
    assert(is_ascii_chars(seq!['[']));
    assert(is_ascii_chars(seq![']']));
    is_ascii_chars_concat(p + seq!['['], p, seq!['[']);
    is_ascii_chars_concat(p + seq!['['] + w, p + seq!['['], w);
    is_ascii_chars_concat(p + seq!['['] + w + seq![']'], p + seq!['['] + w, seq![']']);
    is_ascii_chars_concat(t, p + seq!['['] + w + seq![']'], q);
    let b = encode_utf8(t);
    lemma_ascii_bytes(t);
    let s0 = Scan { state: MachineState::Normal, start: 0, len: 0, out: Seq::empty() };
    assert forall|k: int| 0 <= k < n implies is_plain_char(#[trigger] t[k], opt) by {
        assert(t[k] == p[k]);
    }
    lemma_scan_plain(b, t, opt, 0, n as nat, s0);
    assert(t.subrange(0, n) =~= p);
    assert(Seq::<char>::empty() + p =~= p);
    assert(t.subrange(n + 1, e) =~= w);
    lemma_scan_tag(t, opt, n, w, p);
    let s4 = Scan { state: MachineState::Normal, start: 0, len: 0, out: p + tag_text(w, opt) };
    assert forall|k: int| e + 1 <= k < t.len() implies is_plain_char(#[trigger] t[k], opt) by {
        assert(t[k] == q[k - e - 1]);
    }
    lemma_scan_plain(b, t, opt, (e + 1) as nat, t.len(), s4);
    assert(t.subrange(e + 1, t.len() as int) =~= q);
    assert(scan_from(b, opt, t.len(), Scan { out: s4.out + q, ..s4 }) == Some(s4.out + q));
}

/// Plain text is copied unchanged.
pub proof fn lemma_plain_text_unchanged(t: Seq<char>, opt: MarkupOptions)
    requires
        is_plain_text(t, opt),
    ensures
        render(encode_utf8(t), opt) == Some(t),
{
    lemma_plain_is_ascii(t, opt);
    lemma_ascii_bytes(t);
    let s0 = Scan { state: MachineState::Normal, start: 0, len: 0, out: Seq::empty() };
    lemma_scan_plain(encode_utf8(t), t, opt, 0, t.len(), s0);
    assert(Seq::<char>::empty() + t.subrange(0, t.len() as int) =~= t);
}

/// `[/]` between two plain texts resets all attributes there.
pub proof fn lemma_reset_between_plain_texts(p: Seq<char>, q: Seq<char>, opt: MarkupOptions)
    requires
        is_plain_text(p, opt),
        is_plain_text(q, opt),
    ensures
        render(encode_utf8(p + seq!['[', '/', ']'] + q), opt) == Some(
            p + reset_text(opt.no_binary_expansion) + q,
        ),
{
    let m = seq!['[', '/', ']'];
    let t = p + m + q;
    let n: int = p.len() as int;
    lemma_plain_is_ascii(p, opt);
    lemma_plain_is_ascii(q, opt);
    assert(is_ascii_chars(m));
    is_ascii_chars_concat(p + m, p, m);
    is_ascii_chars_concat(t, p + m, q);
    let b = encode_utf8(t);
    lemma_ascii_bytes(t);
    let s0 = Scan { state: MachineState::Normal, start: 0, len: 0, out: Seq::empty() };
    assert forall|k: int| 0 <= k < n implies is_plain_char(#[trigger] t[k], opt) by {
        assert(t[k] == p[k]);
    }
    lemma_scan_plain(b, t, opt, 0, n as nat, s0);
    assert(Seq::<char>::empty() + t.subrange(0, n) =~= p);
    let s1 = Scan { out: p, ..s0 };
    assert(t[n] == '[' && t[n + 1] == '/' && t[n + 2] == ']');
    assert(b[n] as char == '[');
    assert(b[n + 1] as char == '/');
    assert(b[n + 2] as char == ']');
    let s2 = Scan { state: MachineState::ReadingColor, start: (n + 1) as nat, ..s1 };
    assert(scan_step(b, opt, n, s1) == Some((s2, 1nat)));
    let s3 = Scan { state: MachineState::ReadingReset, ..s2 };
    assert(scan_step(b, opt, n + 1, s2) == Some((s3, 1nat)));
    let s4 = Scan {
        state: MachineState::Normal,
        out: p + reset_text(opt.no_binary_expansion),
        ..s3
    };
    assert(scan_step(b, opt, n + 2, s3) == Some((s4, 1nat)));
    assert(scan_from(b, opt, (n + 2) as nat, s3) == scan_from(b, opt, (n + 3) as nat, s4));
    assert(scan_from(b, opt, (n + 1) as nat, s2) == scan_from(b, opt, (n + 2) as nat, s3));
    assert(scan_from(b, opt, n as nat, s1) == scan_from(b, opt, (n + 1) as nat, s2));
    assert forall|k: int| n + 3 <= k < t.len() implies is_plain_char(#[trigger] t[k], opt) by {
        assert(t[k] == q[k - n - 3]);
    }
    lemma_scan_plain(b, t, opt, (n + 3) as nat, t.len(), s4);
    assert(t.subrange(n + 3, t.len() as int) =~= q);
    assert(scan_from(b, opt, t.len(), Scan { out: s4.out + q, ..s4 }) == Some(s4.out + q));
}

/// `[[` between two plain texts writes one `[`.
pub proof fn lemma_double_bracket_between_plain_texts(p: Seq<char>, q: Seq<char>, opt: MarkupOptions)
    requires
        is_plain_text(p, opt),
        is_plain_text(q, opt),
    ensures
        render(encode_utf8(p + seq!['[', '['] + q), opt) == Some(p + seq!['['] + q),
{
    let m = seq!['[', '['];
    let t = p + m + q;
    let n: int = p.len() as int;
    lemma_plain_is_ascii(p, opt);
    lemma_plain_is_ascii(q, opt);
    assert(is_ascii_chars(m));
    is_ascii_chars_concat(p + m, p, m);
    is_ascii_chars_concat(t, p + m, q);
    let b = encode_utf8(t);
    lemma_ascii_bytes(t);
    let s0 = Scan { state: MachineState::Normal, start: 0, len: 0, out: Seq::empty() };
    assert forall|k: int| 0 <= k < n implies is_plain_char(#[trigger] t[k], opt) by {
        assert(t[k] == p[k]);
    }
    lemma_scan_plain(b, t, opt, 0, n as nat, s0);
    assert(Seq::<char>::empty() + t.subrange(0, n) =~= p);
    let s1 = Scan { out: p, ..s0 };
    assert(t[n] == '[' && t[n + 1] == '[');
    assert(b[n] as char == '[');
    assert(b[n + 1] as char == '[');
    let s2 = Scan { out: p.push('['), ..s1 };
    assert(scan_step(b, opt, n, s1) == Some((s2, 2nat)));
    assert forall|k: int| n + 2 <= k < t.len() implies is_plain_char(#[trigger] t[k], opt) by {
        assert(t[k] == q[k - n - 2]);
    }
    lemma_scan_plain(b, t, opt, (n + 2) as nat, t.len(), s2);
    assert(t.subrange(n + 2, t.len() as int) =~= q);
    assert(scan_from(b, opt, t.len(), Scan { out: s2.out + q, ..s2 }) == Some(s2.out + q));
    assert(p.push('[') =~= p + seq!['[']);
}

/// A tag whose words name no style and no colour, and that has no
/// background part, leaves no trace: the texts around it are joined.
pub proof fn lemma_unnamed_tag_vanishes(p: Seq<char>, w: Seq<char>, q: Seq<char>, opt: MarkupOptions)
    requires
        is_plain_text(p, opt),
        is_tag_body(w),
        is_plain_text(q, opt),
        opt.color_mode != ColorMode::NoColor,
        split_once(w, seq![' ', 'o', 'n', ' ']) is None,
        segment_style(w) == 0,
        segment_color(w) is None,
    ensures
        render(encode_utf8(p + seq!['['] + w + seq![']'] + q), opt) == Some(p + q),
{
    lemma_set_codes_none(0, 10);
    assert(style_text(0) =~= Seq::<char>::empty());
    assert(w != seq!['/']);
    assert(tag_text(w, opt) =~= Seq::<char>::empty());
    lemma_tag_between_plain_texts(p, w, q, opt);
    assert(p + Seq::<char>::empty() + q =~= p + q);
}

/// In colourless mode every tag renders as the reset sequence.
pub proof fn lemma_colorless_tag_resets(p: Seq<char>, w: Seq<char>, q: Seq<char>, opt: MarkupOptions)
    requires
        is_plain_text(p, opt),
        is_tag_body(w),
        is_plain_text(q, opt),
        opt.color_mode == ColorMode::NoColor,
    ensures
        render(encode_utf8(p + seq!['['] + w + seq![']'] + q), opt) == Some(
            p + reset_text(opt.no_binary_expansion) + q,
        ),
{
    lemma_tag_between_plain_texts(p, w, q, opt);
}

// ---------------------------------------------------------------------------
// Colour words

/// The hexadecimal value of the digits `x`, `y`, `z`.
proof fn lemma_hex_digits_3(x: char, y: char, z: char)
    requires
        digit_value(x, 16) is Some,
        digit_value(y, 16) is Some,
        digit_value(z, 16) is Some,
    ensures
        parse_unsigned(seq![x, y, z], 16, u32::MAX as nat) == Some(
            digit_value(x, 16).unwrap() * 256 + digit_value(y, 16).unwrap() * 16 + digit_value(
                z,
                16,
            ).unwrap(),
        ),
{
    let s = seq![x, y, z];
    let (a, b, c) = (digit_value(x, 16).unwrap(), digit_value(y, 16).unwrap(), digit_value(z, 16).unwrap());
    assert(s.drop_last() =~= seq![x, y]);
    assert(seq![x, y].drop_last() =~= seq![x]);
    assert(seq![x].drop_last() =~= Seq::<char>::empty());
    assert(digits_value(Seq::<char>::empty(), 16) == 0);
    assert(seq![x].last() == x);
    assert(digits_value(seq![x], 16) == a);
    assert(digits_value(seq![x, y], 16) == a * 16 + b);
    assert(digits_value(s, 16) == (a * 16 + b) * 16 + c);
    assert(all_digits(s, 16));
    assert(s[0] != '+');
}

/// The hexadecimal value of the digits `x x y y z z`.
proof fn lemma_hex_digits_6(x: char, y: char, z: char)
    requires
        digit_value(x, 16) is Some,
        digit_value(y, 16) is Some,
        digit_value(z, 16) is Some,
    ensures
        parse_unsigned(seq![x, x, y, y, z, z], 16, u32::MAX as nat) == Some(
            digit_value(x, 16).unwrap() * 0x110000 + digit_value(y, 16).unwrap() * 0x1100
                + digit_value(z, 16).unwrap() * 0x11,
        ),
{
    let s = seq![x, x, y, y, z, z];
    let (a, b, c) = (digit_value(x, 16).unwrap(), digit_value(y, 16).unwrap(), digit_value(z, 16).unwrap());
    assert(s.drop_last() =~= seq![x, x, y, y, z]);
    assert(seq![x, x, y, y, z].drop_last() =~= seq![x, x, y, y]);
    assert(seq![x, x, y, y].drop_last() =~= seq![x, x, y]);
    assert(seq![x, x, y].drop_last() =~= seq![x, x]);
    assert(seq![x, x].drop_last() =~= seq![x]);
    assert(seq![x].drop_last() =~= Seq::<char>::empty());
    assert(digits_value(Seq::<char>::empty(), 16) == 0);
    assert(seq![x].last() == x);
    assert(digits_value(seq![x], 16) == a);
    assert(digits_value(seq![x, x], 16) == a * 16 + a);
    assert(digits_value(seq![x, x, y], 16) == (a * 16 + a) * 16 + b);
    assert(digits_value(seq![x, x, y, y], 16) == ((a * 16 + a) * 16 + b) * 16 + b);
    assert(digits_value(seq![x, x, y, y, z], 16) == (((a * 16 + a) * 16 + b) * 16 + b) * 16 + c);
    assert(digits_value(s, 16) == ((((a * 16 + a) * 16 + b) * 16 + b) * 16 + c) * 16 + c);
    assert(all_digits(s, 16));
    assert(s[0] != '+');
}

/// Widening `0xXYZ` doubles each digit.
proof fn lemma_expand_short_hex(a: u32, b: u32, c: u32)
    requires
        a < 16,
        b < 16,
        c < 16,
    ensures
        expand_short_hex((a * 256 + b * 16 + c) as u32) == a * 0x110000 + b * 0x1100 + c * 0x11,
{
    let v: u32 = (a * 256 + b * 16 + c) as u32;
    assert(expand_short_hex(v) == a * 0x110000 + b * 0x1100 + c * 0x11) by (bit_vector)
        requires
            a < 16,
            b < 16,
            c < 16,
            v == a * 256 + b * 16 + c,
    ;
}

/// A hexadecimal digit is ASCII.
proof fn lemma_hex_digit_ascii(x: char)
    requires
        digit_value(x, 16) is Some,
    ensures
        '\0' <= x <= '\u{7f}',
{
}

/// The UTF-8 length of ASCII characters is their number.
proof fn lemma_ascii_len(t: Seq<char>)
    requires
        is_ascii_chars(t),
    ensures
        utf8_len(t) == t.len(),
{
    is_ascii_chars_encode_utf8(t);
}

/// `#xyz` names the same colour as `#xxyyzz`.
pub proof fn lemma_short_hex_doubles_digits(x: char, y: char, z: char)
    requires
        digit_value(x, 16) is Some,
        digit_value(y, 16) is Some,
        digit_value(z, 16) is Some,
    ensures
        resolve_color(seq!['#', x, y, z]) == resolve_color(seq!['#', x, x, y, y, z, z]),
{
    let short = seq!['#', x, y, z];
    let long = seq!['#', x, x, y, y, z, z];
    lemma_hex_digit_ascii(x);
    lemma_hex_digit_ascii(y);
    lemma_hex_digit_ascii(z);
    assert(is_ascii_chars(short));
    assert(is_ascii_chars(long));
    assert(short.drop_first() =~= seq![x, y, z]);
    assert(long.drop_first() =~= seq![x, x, y, y, z, z]);
    assert(is_ascii_chars(short.drop_first()));
    assert(is_ascii_chars(long.drop_first()));
    lemma_ascii_len(short);
    lemma_ascii_len(long);
    lemma_ascii_len(short.drop_first());
    lemma_ascii_len(long.drop_first());
    lemma_hex_digits_3(x, y, z);
    lemma_hex_digits_6(x, y, z);
    let a = digit_value(x, 16).unwrap();
    let b = digit_value(y, 16).unwrap();
    let c = digit_value(z, 16).unwrap();
    lemma_expand_short_hex(a as u32, b as u32, c as u32);
}

// ---------------------------------------------------------------------------
// Nearest palette colour

/// The nearest palette colour is a palette colour, and no palette colour is
/// nearer.
pub proof fn lemma_nearest_is_closest(r: u8, g: u8, b: u8)
    ensures
        exists|i: int|
            0 <= i < color_table().len() && #[trigger] color_table()[i].1 == nearest_hex(r, g, b),
        forall|i: int|
            0 <= i < color_table().len() ==> dist_sq(r, g, b, nearest_hex(r, g, b)) <= dist_sq(
                r,
                g,
                b,
                #[trigger] color_table()[i].1,
            ),
{
    lemma_nearest_index(r, g, b, color_table().len());
    let k = nearest_index(r, g, b, color_table().len()) as int;
    assert(color_table()[k].1 == nearest_hex(r, g, b));
}

/// A palette colour is its own nearest palette colour.
pub proof fn lemma_palette_color_is_its_own_nearest(i: int)
    requires
        0 <= i < color_table().len(),
    ensures
        ({
            let h = color_table()[i].1;
            let n = nearest_hex(red(h), green(h), blue(h));
            red(n) == red(h) && green(n) == green(h) && blue(n) == blue(h)
        }),
{
    let h = color_table()[i].1;
    let (r, g, b) = (red(h), green(h), blue(h));
    lemma_nearest_is_closest(r, g, b);
    let n = nearest_hex(r, g, b);
    assert(dist_sq(r, g, b, h) == 0);
    let x = r - red(n);
    let y = g - green(n);
    let z = b - blue(n);
    assert(dist_sq(r, g, b, n) == x * x + y * y + z * z);
    assert(x * x + y * y + z * z <= 0 ==> x == 0 && y == 0 && z == 0) by (nonlinear_arith);
}

// ---------------------------------------------------------------------------
// Palette round trip

/// A value found by name is the value of a palette entry.
proof fn lemma_name_lookup_entry(name: Seq<char>, i: nat)
    requires
        name_lookup(color_table(), name, i) is Some,
    ensures
        exists|j: int|
            i <= j < color_table().len() && #[trigger] color_table()[j].1 == name_lookup(
                color_table(),
                name,
                i,
            ).unwrap(),
    decreases color_table().len() - i,
{
    if i < color_table().len() && color_table()[i as int].0@ != name {
        lemma_name_lookup_entry(name, i + 1);
    }
}

/// Every palette value fits in 24 bits.
proof fn lemma_palette_24_bits(j: int)
    requires
        0 <= j < color_table().len(),
    ensures
        color_table()[j].1 <= 0xffffff,
{
}

/// The palette colour that a palette value rounds to is that value itself.
proof fn lemma_palette_value_rounds_to_itself(j: int)
    requires
        0 <= j < color_table().len(),
    ensures
        ({
            let h = color_table()[j].1;
            color_from_hex(h) == Color { r: red(h), g: green(h), b: blue(h) }
        }),
{
    lemma_palette_color_is_its_own_nearest(j);
}

/// The digit that `hex_digit_char` writes reads back as itself.
proof fn lemma_hex_digit_char(d: nat)
    requires
        d < 16,
    ensures
        digit_value(hex_digit_char(d), 16) == Some(d),
        '0' <= hex_digit_char(d) <= 'f',
        hex_digit_char(d) != '+',
{
}

/// 16 to the power `k`.
spec fn pow16(k: nat) -> nat
    decreases k,
{
    if k == 0 {
        1
    } else {
        16 * pow16((k - 1) as nat)
    }
}

/// The hexadecimal numeral of `n` is made of digits, reads back as `n`, and
/// has at most `k` digits when `n < 16^k`.
proof fn lemma_hex_lower(n: nat, k: nat)
    requires
        k >= 1,
        n < pow16(k),
    ensures
        all_digits(hex_lower(n), 16),
        digits_value(hex_lower(n), 16) == n,
        1 <= hex_lower(n).len() <= k,
        forall|i: int|
            0 <= i < hex_lower(n).len() ==> '0' <= #[trigger] hex_lower(n)[i] <= 'f',
    decreases n,
{
    let s = hex_lower(n);
    if n < 16 {
        lemma_hex_digit_char(n);
        assert(s.drop_last() =~= Seq::<char>::empty());
        assert(digits_value(Seq::<char>::empty(), 16) == 0);
    } else {
        let p = hex_lower(n / 16);
        assert(k >= 2) by {
            if k == 1 {
                assert(pow16(1) == 16 * pow16(0));
            }
        }
        assert(n / 16 < pow16((k - 1) as nat)) by {
            assert(pow16(k) == 16 * pow16((k - 1) as nat));
        }
        lemma_hex_lower(n / 16, (k - 1) as nat);
        lemma_hex_digit_char(n % 16);
        assert(s == p.push(hex_digit_char(n % 16)));
        assert(s.drop_last() =~= p);
        assert forall|i: int| 0 <= i < s.len() implies #[trigger] digit_value(s[i], 16) is Some by {
            if i < p.len() {
                assert(s[i] == p[i]);
                assert(digit_value(p[i], 16) is Some);
            }
        }
        assert forall|i: int| 0 <= i < s.len() implies '0' <= #[trigger] s[i] <= 'f' by {
            if i < p.len() {
                assert(s[i] == p[i]);
            }
        }
    }
}

/// Leading zeros do not change the value of a digit string.
proof fn lemma_leading_zeros(z: nat, s: Seq<char>)
    ensures
        digits_value(Seq::new(z, |i: int| '0') + s, 16) == digits_value(s, 16),
    decreases s.len(), z,
{
    let zs = Seq::new(z, |i: int| '0');
    if s.len() == 0 {
        assert(zs + s =~= zs);
        if z > 0 {
            assert(zs.drop_last() =~= Seq::new((z - 1) as nat, |i: int| '0'));
            lemma_leading_zeros((z - 1) as nat, s);
            assert(Seq::new((z - 1) as nat, |i: int| '0') + s =~= Seq::new(
                (z - 1) as nat,
                |i: int| '0',
            ));
        }
    } else {
        assert((zs + s).drop_last() =~= zs + s.drop_last());
        lemma_leading_zeros(z, s.drop_last());
    }
}

/// The `#rrggbb` text of a 24-bit value reads back as that value.
proof fn lemma_hex_code_reads_back(h: u32)
    requires
        h <= 0xffffff,
    ensures
        resolve_color(hex_code(h)) == Some(color_from_hex(h)),
{
    assert(pow16(6) == 0x1000000) by {
        reveal_with_fuel(pow16, 7);
    }
    lemma_hex_lower(h as nat, 6);
    let digits = hex_lower(h as nat);
    let z = (6 - digits.len()) as nat;
    let padded = pad_left(digits, 6, '0');
    assert(padded == Seq::new(z, |i: int| '0') + digits);
    lemma_leading_zeros(z, digits);
    let code = hex_code(h);
    assert(code.drop_first() =~= padded);
    assert(padded.len() == 6);
    assert forall|i: int| 0 <= i < padded.len() implies #[trigger] digit_value(padded[i], 16)
        is Some && '0' <= padded[i] <= 'f' by {
        if i >= z {
            assert(padded[i] == digits[i - z]);
        }
    }
    assert(is_ascii_chars(padded));
    assert(is_ascii_chars(code)) by {
        assert forall|i: int| 0 <= i < code.len() implies '\0' <= #[trigger] code[i] <= '\u{7f}' by {
            if i > 0 {
                assert(code[i] == padded[i - 1]);
            }
        }
    }
    lemma_ascii_len(code);
    lemma_ascii_len(padded);
    assert(padded[0] != '+');
    assert(all_digits(padded, 16));
}

/// A palette name and the `#rrggbb` tag that the colour listing prints for
/// its value both resolve to that palette colour, unchanged.
pub proof fn lemma_palette_round_trip(name: Seq<char>)
    requires
        color_by_name(name) is Some,
        !(name.len() > 0 && name[0] == '#'),
        !starts_with(name, seq!['r', 'g', 'b', '(']),
    ensures
        ({
            let h = color_by_name(name).unwrap();
            let c = Color { r: red(h), g: green(h), b: blue(h) };
            resolve_color(name) == Some(c) && resolve_color(hex_code(h)) == Some(c)
        }),
{
    let h = color_by_name(name).unwrap();
    lemma_name_lookup_entry(name, 0);
    let j = choose|j: int| 0 <= j < color_table().len() && #[trigger] color_table()[j].1 == h;
    lemma_palette_24_bits(j);
    lemma_palette_value_rounds_to_itself(j);
    lemma_hex_code_reads_back(h);
}

/// The colour of palette entry `j`.
pub open spec fn palette_color(j: int) -> Color {
    let h = color_table()[j].1;
    Color { r: red(h), g: green(h), b: blue(h) }
}

/// Rounding an RGB triple gives a palette colour.
proof fn lemma_from_rgb_in_palette(r: u8, g: u8, b: u8)
    ensures
        exists|j: int|
            0 <= j < color_table().len() && color_from_rgb(r, g, b) == #[trigger] palette_color(j),
{
    lemma_nearest_is_closest(r, g, b);
    let j = choose|j: int|
        0 <= j < color_table().len() && #[trigger] color_table()[j].1 == nearest_hex(r, g, b);
    assert(color_from_rgb(r, g, b) == palette_color(j));
}

/// Every colour that a colour word resolves to is a palette colour.
pub proof fn lemma_resolved_color_in_palette(c: Seq<char>)
    requires
        resolve_color(c) is Some,
    ensures
        exists|j: int|
            0 <= j < color_table().len() && resolve_color(c).unwrap() == #[trigger] palette_color(j),
{
    if c.len() > 0 && c[0] == '#' && (utf8_len(c) == 4 || utf8_len(c) == 7) {
        let v = parse_unsigned(c.drop_first(), 16, u32::MAX as nat).unwrap();
        let h: u32 = if utf8_len(c.drop_first()) == 3 {
            expand_short_hex(v as u32)
        } else {
            v as u32
        };
        lemma_from_rgb_in_palette(red(h), green(h), blue(h));
    } else if starts_with(c, seq!['r', 'g', 'b', '(']) {
        let (r, g, b) = parse_rgb(c).unwrap();
        lemma_from_rgb_in_palette(r, g, b);
    } else {
        let h = color_by_name(c).unwrap();
        lemma_from_rgb_in_palette(red(h), green(h), blue(h));
    }
}

/// The search by name passes over entries with other names.
proof fn lemma_name_lookup_skips(name: Seq<char>, i: nat, j: int)
    requires
        i <= j < color_table().len(),
        color_table()[j].0@ == name,
        forall|m: int| 0 <= m < j ==> #[trigger] color_table()[m].0@ != name,
    ensures
        name_lookup(color_table(), name, i) == Some(color_table()[j].1),
    decreases j - i,
{
    if i < j {
        lemma_name_lookup_skips(name, i + 1, j);
    }
}

/// The name of a palette entry (the first entry of that name) and the
/// `#rrggbb` tag that the colour listing prints for it both resolve to the
/// entry's own colour.
pub proof fn lemma_palette_entry_round_trip(j: int)
    requires
        0 <= j < color_table().len(),
        forall|i: int| 0 <= i < j ==> #[trigger] color_table()[i].0@ != color_table()[j].0@,
    ensures
        resolve_color(color_table()[j].0@) == Some(palette_color(j)),
        resolve_color(hex_code(color_table()[j].1)) == Some(palette_color(j)),
{
    let name = color_table()[j].0@;
    lemma_name_lookup_skips(name, 0, j);
    lemma_palette_names_plain(j);
    lemma_palette_round_trip(name);
}

/// `rgb(R,G,B)` resolves to the palette colour nearest to `(R, G, B)`,
/// channels in that order.
pub proof fn lemma_rgb_word_resolves(r: u8, g: u8, b: u8)
    ensures
        resolve_color(rgb_word(r, g, b)) == Some(color_from_rgb(r, g, b)),
{
    lemma_rgb_word_reads_back(r, g, b);
    let w = rgb_word(r, g, b);
    assert(w[0] == 'r');
    assert(w.take(4) =~= seq!['r', 'g', 'b', '(']);
}

} // verus!
