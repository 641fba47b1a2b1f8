//! ANSI "select graphic rendition" building blocks: the style flags and
//! their codes, foreground/background layers, RGB colours, and the lookup
//! tables of style labels and escape sequences.
use vstd::prelude::*;

use crate::text::{chars_equal_str, decimal, push_char, to_chars};

verus! {

// ---------------------------------------------------------------------------
// Lookup tables

/// Style labels and the code, with its leading separator, that each adds
/// to an SGR sequence.
pub open spec fn format_code_table() -> Seq<(&'static str, &'static str)> {
    seq![
        ("bold", ";1"),
        ("dim", ";2"),
        ("italic", ";3"),
        ("underlined", ";4"),
        ("blinking", ";5"),
        ("fblinking", ";6"),
        ("swap", ";7"),
        ("striked", ";9"),
        ("dunderlined", ";21"),
        ("overlined", ";53"),
    ]
}

/// The style labels and their SGR codes.
pub fn format_codes() -> (v: Vec<(&'static str, &'static str)>)
    ensures
        v@ == format_code_table(),
{
    let v = vec![
        ("bold", ";1"),
        ("dim", ";2"),
        ("italic", ";3"),
        ("underlined", ";4"),
        ("blinking", ";5"),
        ("fblinking", ";6"),
        ("swap", ";7"),
        ("striked", ";9"),
        ("dunderlined", ";21"),
        ("overlined", ";53"),
    ];
    assert(v@ =~= format_code_table());
    v
}

/// Backslash escapes and the control characters they stand for, in the
/// order in which they are tried.
pub open spec fn control_char_table() -> Seq<(&'static str, &'static str)> {
    seq![
        ("\\003", "\x03"),
        ("\\x1b", "\x1b"),
        ("\\n", "\n"),
        ("\\r", "\r"),
        ("\\t", "\t"),
        ("\\a", "\x07"),
        ("\\b", "\x08"),
        ("\\f", "\x0c"),
        ("\\v", "\x0b"),
    ]
}

/// The escapes of `control_char_table`, spelled out.
pub open spec fn control_escapes() -> Seq<(Seq<char>, Seq<char>)> {
    seq![
        (seq!['\\', '0', '0', '3'], seq!['\x03']),
        (seq!['\\', 'x', '1', 'b'], seq!['\x1b']),
        (seq!['\\', 'n'], seq!['\n']),
        (seq!['\\', 'r'], seq!['\r']),
        (seq!['\\', 't'], seq!['\t']),
        (seq!['\\', 'a'], seq!['\x07']),
        (seq!['\\', 'b'], seq!['\x08']),
        (seq!['\\', 'f'], seq!['\x0c']),
        (seq!['\\', 'v'], seq!['\x0b']),
    ]
}

/// The backslash escapes and their control characters.
pub fn control_chars() -> (v: Vec<(&'static str, &'static str)>)
    ensures
        v@ == control_char_table(),
        v@.len() == control_escapes().len(),
        forall|i: int|
            0 <= i < v@.len() ==> (#[trigger] v@[i]).0@ == control_escapes()[i].0 && v@[i].1@
                == control_escapes()[i].1,
{
    proof {
        reveal_strlit("\\003");
        reveal_strlit("\x03");
        reveal_strlit("\\x1b");
        reveal_strlit("\x1b");
        reveal_strlit("\\n");
        reveal_strlit("\n");
        reveal_strlit("\\r");
        reveal_strlit("\r");
        reveal_strlit("\\t");
        reveal_strlit("\t");
        reveal_strlit("\\a");
        reveal_strlit("\x07");
        reveal_strlit("\\b");
        reveal_strlit("\x08");
        reveal_strlit("\\f");
        reveal_strlit("\x0c");
        reveal_strlit("\\v");
        reveal_strlit("\x0b");
    }
    let v = vec![
        ("\\003", "\x03"),
        ("\\x1b", "\x1b"),
        ("\\n", "\n"),
        ("\\r", "\r"),
        ("\\t", "\t"),
        ("\\a", "\x07"),
        ("\\b", "\x08"),
        ("\\f", "\x0c"),
        ("\\v", "\x0b"),
    ];
    assert(v@ =~= control_char_table());
    v
}

/// The value of the first entry of `map`, at or after index `i`, whose key is
/// `key`.
pub open spec fn map_lookup(map: Seq<(&'static str, &'static str)>, key: Seq<char>, i: nat) -> Option<
    &'static str,
>
    decreases map.len() - i,
{
    if i >= map.len() {
        None
    } else if map[i as int].0@ == key {
        Some(map[i as int].1)
    } else {
        map_lookup(map, key, i + 1)
    }
}

/// The SGR code (with its leading `;`) of a style label.
pub fn get_format_code_from_label(label: &str) -> (r: Option<&'static str>)
    ensures
        r == map_lookup(format_code_table(), label@, 0),
{
    let codes = format_codes();
    __find_in_map(codes.as_slice(), label)
}

/// The value of the first entry of `map` whose key is `key`.
pub fn __find_in_map(map: &[(&'static str, &'static str)], key: &str) -> (r: Option<&'static str>)
    ensures
        r == map_lookup(map@, key@, 0),
{
    let key_chars = to_chars(key);
    find_in_map_chars(map, &key_chars)
}

/// The value of the first entry of `map` whose key is spelled by `key`.
pub(crate) fn find_in_map_chars(map: &[(&'static str, &'static str)], key: &Vec<char>) -> (r: Option<
    &'static str,
>)
    ensures
        r == map_lookup(map@, key@, 0),
{
    let mut i: usize = 0;
    while i < map.len()
        invariant
            i <= map@.len(),
            map_lookup(map@, key@, 0) == map_lookup(map@, key@, i as nat),
        decreases map.len() - i,
    {
        let (k, v) = map[i];
        if chars_equal_str(key, k) {
            return Some(v);
        }
        i += 1;
    }
    None
}

// ---------------------------------------------------------------------------
// Numeric SGR codes

/// The SGR parameter text of the style codes the library emits, and the
/// empty text for any other number.
pub open spec fn sgr_text(n: u8) -> Seq<char> {
    if 1 <= n <= 7 || n == 9 {
        seq![(('0' as nat) + n) as char]
    } else if n == 21 {
        seq!['2', '1']
    } else if n == 53 {
        seq!['5', '3']
    } else {
        seq![]
    }
}

/// Conversion of a numeric style code to its SGR parameter text.
pub trait AnsiConvert {
    fn sgr_str(self) -> &'static str;
}

impl AnsiConvert for u8 {
    fn sgr_str(self) -> (r: &'static str)
        ensures
            r@ == sgr_text(self),
    {
        proof {
            reveal_strlit("1");
            reveal_strlit("2");
            reveal_strlit("3");
            reveal_strlit("4");
            reveal_strlit("5");
            reveal_strlit("6");
            reveal_strlit("7");
            reveal_strlit("9");
            reveal_strlit("21");
            reveal_strlit("53");
            reveal_strlit("");
        }
        match self {
            1 => "1",
            2 => "2",
            3 => "3",
            4 => "4",
            5 => "5",
            6 => "6",
            7 => "7",
            9 => "9",
            21 => "21",
            53 => "53",
            _ => "",
        }
    }
}

// ---------------------------------------------------------------------------
// Styles

/// The style flags in emission order: each flag bit and its SGR code.
pub open spec fn style_table() -> Seq<(u16, &'static str)> {
    seq![
        (1u16, "1"),
        (2u16, "2"),
        (4u16, "3"),
        (8u16, "4"),
        (16u16, "5"),
        (32u16, "6"),
        (64u16, "7"),
        (128u16, "9"),
        (256u16, "21"),
        (512u16, "53"),
    ]
}

/// The style flags and their SGR codes.
pub fn style_codes() -> (v: Vec<(u16, &'static str)>)
    ensures
        v@ == style_table(),
{
    let v = vec![
        (1u16, "1"),
        (2u16, "2"),
        (4u16, "3"),
        (8u16, "4"),
        (16u16, "5"),
        (32u16, "6"),
        (64u16, "7"),
        (128u16, "9"),
        (256u16, "21"),
        (512u16, "53"),
    ];
    assert(v@ =~= style_table());
    v
}

/// Style labels and the flag each sets.
pub open spec fn style_label_table() -> Seq<(&'static str, u16)> {
    seq![
        ("bold", 1u16),
        ("dim", 2u16),
        ("italic", 4u16),
        ("underlined", 8u16),
        ("blinking", 16u16),
        ("fblinking", 32u16),
        ("swap", 64u16),
        ("striked", 128u16),
        ("dunderlined", 256u16),
        ("overlined", 512u16),
    ]
}

/// The style labels and their flags.
pub fn style_labels() -> (v: Vec<(&'static str, u16)>)
    ensures
        v@ == style_label_table(),
{
    let v = vec![
        ("bold", 1u16),
        ("dim", 2u16),
        ("italic", 4u16),
        ("underlined", 8u16),
        ("blinking", 16u16),
        ("fblinking", 32u16),
        ("swap", 64u16),
        ("striked", 128u16),
        ("dunderlined", 256u16),
        ("overlined", 512u16),
    ];
    assert(v@ =~= style_label_table());
    v
}

/// The flag of the first style label, at or after index `i`, equal to
/// `label`.
pub open spec fn label_flag_from(label: Seq<char>, i: nat) -> Option<u16>
    decreases style_label_table().len() - i,
{
    if i >= style_label_table().len() {
        None
    } else if style_label_table()[i as int].0@ == label {
        Some(style_label_table()[i as int].1)
    } else {
        label_flag_from(label, i + 1)
    }
}

/// The flag that a style label sets, if it is one.
pub open spec fn style_flag_of(label: Seq<char>) -> Option<u16> {
    label_flag_from(label, 0)
}

/// The codes of the flags set in `flags`, among the first `n` of the style
/// table, in table order.
pub open spec fn set_codes(flags: u16, n: nat) -> Seq<Seq<char>>
    decreases n,
{
    if n == 0 {
        seq![]
    } else {
        let p = set_codes(flags, (n - 1) as nat);
        if flags & style_table()[n - 1].0 != 0 {
            p.push(style_table()[n - 1].1@)
        } else {
            p
        }
    }
}

/// The pieces of `list` joined with `sep` between them.
pub open spec fn join(list: Seq<Seq<char>>, sep: Seq<char>) -> Seq<char>
    decreases list.len(),
{
    if list.len() == 0 {
        seq![]
    } else if list.len() == 1 {
        list[0]
    } else {
        join(list.drop_last(), sep) + sep + list.last()
    }
}

/// The SGR text of a set of style flags: the codes of the set flags joined
/// with `;`.
pub open spec fn style_text(flags: u16) -> Seq<char> {
    join(set_codes(flags, 10), seq![';'])
}

/// A set of text styles (bold, underlined, ...), held as flag bits.
pub struct Style {
    flags: u16,
}

impl View for Style {
    type V = u16;

    closed spec fn view(&self) -> u16 {
        self.flags
    }
}

impl Style {
    /// Only the ten style flags can be set.
    #[verifier::type_invariant]
    spec fn only_style_flags(self) -> bool {
        self.flags < 1024
    }

    pub const BOLD: u16 = 1;

    pub const DIM: u16 = 2;

    pub const ITALIC: u16 = 4;

    pub const UNDERLINE: u16 = 8;

    pub const BLINK: u16 = 16;

    pub const FAST_BLINK: u16 = 32;

    pub const INVERT: u16 = 64;

    pub const STRIKE: u16 = 128;

    pub const DUNDERLINE: u16 = 256;

    pub const OVERLINE: u16 = 512;

    /// Sets the flag of the style label `style`, if it is one, and returns it.
    pub fn set_flag(&mut self, style: &str) -> (r: Option<u16>)
        ensures
            r == style_flag_of(style@),
            final(self)@ == match r {
                Some(f) => old(self)@ | f,
                None => old(self)@,
            },
            r is Some ==> final(self)@ != 0,
    {
        let chars = to_chars(style);
        self.set_flag_chars(&chars)
    }

    /// Sets the flag of the style label spelled by `chars`, if it is one.
    pub(crate) fn set_flag_chars(&mut self, chars: &Vec<char>) -> (r: Option<u16>)
        ensures
            r == style_flag_of(chars@),
            final(self)@ == match r {
                Some(f) => old(self)@ | f,
                None => old(self)@,
            },
            r is Some ==> final(self)@ != 0,
    {
        let labels = style_labels();
        let mut i: usize = 0;
        while i < labels.len()
            invariant
                labels@ == style_label_table(),
                i <= labels.len(),
                style_flag_of(chars@) == label_flag_from(chars@, i as nat),
                self@ == old(self)@,
            decreases labels.len() - i,
        {
            let (label, flag) = labels[i];
            if chars_equal_str(chars, label) {
                proof {
                    use_type_invariant(&*self);
                    lemma_label_flags_small(i as int);
                    let f = self.flags;
                    assert(f | flag < 1024 && f | flag != 0) by (bit_vector)
                        requires
                            f < 1024,
                            0 < flag < 1024,
                    ;
                }
                self.flags = self.flags | flag;
                return Some(flag);
            }
            i += 1;
        }
        None
    }

    /// Whether no flag is set.
    pub fn is_empty(&self) -> (r: bool)
        ensures
            r == (self@ == 0),
    {
        self.flags == 0
    }

    /// Appends the SGR codes of the set flags, separated by `;`, and tells
    /// whether it wrote any.
    pub fn build_into(&self, output: &mut String) -> (written: bool)
        ensures
            final(output)@ == old(output)@ + style_text(self@),
            written == (set_codes(self@, 10).len() > 0),
            written == (self@ != 0),
    {
        proof {
            use_type_invariant(self);
            lemma_set_codes_nonempty(self.flags);
        }
        if self.flags == 0 {
            proof {
                lemma_set_codes_none(self.flags, 10);
            }
            return false;
        }
        let sep = vec![';'];
        assert(sep@ =~= seq![';']);
        self.push_codes(&sep, output)
    }

    /// Appends the codes of the set flags, in table order, with `sep`
    /// between them, and tells whether it wrote any.
    fn push_codes(&self, sep: &Vec<char>, output: &mut String) -> (written: bool)
        ensures
            final(output)@ == old(output)@ + join(set_codes(self@, 10), sep@),
            written == (set_codes(self@, 10).len() > 0),
    {
        let ghost start = output@;
        let table = style_codes();
        let mut written = false;
        let mut k: usize = 0;
        while k < table.len()
            invariant
                table@ == style_table(),
                k <= table.len(),
                output@ == start + join(set_codes(self@, k as nat), sep@),
                written == (set_codes(self@, k as nat).len() > 0),
            decreases table.len() - k,
        {
            let (flag, code) = table[k];
            if (self.flags & flag) != 0 {
                if written {
                    crate::text::push_chars(output, sep);
                }
                let code_chars = to_chars(code);
                crate::text::push_chars(output, &code_chars);
                written = true;
                proof {
                    let p = set_codes(self@, k as nat);
                    let q = p.push(code@);
                    assert(q.drop_last() =~= p);
                    if p.len() == 0 {
                        assert(join(q, sep@) =~= code@);
                    }
                }
            }
            k += 1;
        }
        written
    }

    /// The set flags' codes joined with ` | `, or `empty` where no flag is
    /// set (the text the type shows when formatted).
    pub fn to_string(&self) -> (r: String)
        ensures
            r@ == style_description(self@),
    {
        let mut r = String::new();
        if self.flags == 0 {
            let word = vec!['e', 'm', 'p', 't', 'y'];
            crate::text::push_chars(&mut r, &word);
            assert(r@ =~= style_description(self@));
            return r;
        }
        let sep = vec![' ', '|', ' '];
        assert(sep@ =~= seq![' ', '|', ' ']);
        self.push_codes(&sep, &mut r);
        assert(r@ =~= style_description(self@));
        r
    }
}

/// How a set of style flags is shown: the codes of the set flags joined
/// with ` | `, or `empty` where no flag is set.
pub open spec fn style_description(flags: u16) -> Seq<char> {
    if flags == 0 {
        seq!['e', 'm', 'p', 't', 'y']
    } else {
        join(set_codes(flags, 10), seq![' ', '|', ' '])
    }
}

/// Naming two styles in either order gives the same style, and naming one
/// twice changes nothing.
pub proof fn lemma_style_order_irrelevant(flags: u16, a: u16, b: u16)
    ensures
        (flags | a) | b == (flags | b) | a,
        (flags | a) | a == flags | a,
{
    assert((flags | a) | b == (flags | b) | a) by (bit_vector);
    assert((flags | a) | a == flags | a) by (bit_vector);
}

/// Every style label sets one of the ten flags.
proof fn lemma_label_flags_small(i: int)
    requires
        0 <= i < style_label_table().len(),
    ensures
        0 < style_label_table()[i].1 < 1024,
{
    assert(style_label_table().len() == 10);
}

/// Where some flag among the first `n` of the table is set, a code is
/// emitted.
proof fn lemma_set_codes_some(flags: u16, n: nat, j: int)
    requires
        0 <= j < n <= 10,
        flags & style_table()[j].0 != 0,
    ensures
        set_codes(flags, n).len() > 0,
    decreases n,
{
    if j < n - 1 {
        lemma_set_codes_some(flags, (n - 1) as nat, j);
    }
}

/// A style whose flags lie among the ten emits a code exactly when some
/// flag is set.
pub proof fn lemma_set_codes_nonempty(flags: u16)
    requires
        flags < 1024,
    ensures
        (set_codes(flags, 10).len() > 0) == (flags != 0),
{
    if flags == 0 {
        lemma_set_codes_none(flags, 10);
    } else {
        assert(flags & 1 != 0 || flags & 2 != 0 || flags & 4 != 0 || flags & 8 != 0 || flags & 16
            != 0 || flags & 32 != 0 || flags & 64 != 0 || flags & 128 != 0 || flags & 256 != 0
            || flags & 512 != 0) by (bit_vector)
            requires
                flags != 0,
                flags < 1024,
        ;
        let j: int = if flags & 1 != 0 {
            0
        } else if flags & 2 != 0 {
            1
        } else if flags & 4 != 0 {
            2
        } else if flags & 8 != 0 {
            3
        } else if flags & 16 != 0 {
            4
        } else if flags & 32 != 0 {
            5
        } else if flags & 64 != 0 {
            6
        } else if flags & 128 != 0 {
            7
        } else if flags & 256 != 0 {
            8
        } else {
            9
        };
        lemma_set_codes_some(flags, 10, j);
    }
}

/// With no flag set, no code is emitted.
pub proof fn lemma_set_codes_none(flags: u16, n: nat)
    requires
        flags == 0,
        n <= 10,
    ensures
        set_codes(flags, n).len() == 0,
    decreases n,
{
    if n > 0 {
        lemma_set_codes_none(flags, (n - 1) as nat);
        let bit = style_table()[n - 1].0;
        assert(0u16 & bit == 0) by (bit_vector);
    }
}

impl Style {
    /// The style with no flag set.
    pub fn empty() -> (s: Style)
        ensures
            s@ == 0,
    {
        Style { flags: 0 }
    }
}

impl Default for Style {
    fn default() -> (s: Self)
        ensures
            s@ == 0,
    {
        Style { flags: 0 }
    }
}

// ---------------------------------------------------------------------------
// Layers and colours

/// Whether a colour applies to the text or to its background.
#[derive(Clone, Copy, PartialEq, Eq, Debug, Structural)]
pub enum Layer {
    Foreground,
    Background,
}

/// The SGR selector of a layer's 24-bit colour.
pub open spec fn layer_text(layer: Layer) -> Seq<char> {
    match layer {
        Layer::Foreground => seq!['3', '8'],
        Layer::Background => seq!['4', '8'],
    }
}

impl Layer {
    /// The SGR selector of this layer's 24-bit colour.
    pub fn as_str(self) -> (r: &'static str)
        ensures
            r@ == layer_text(self),
    {
        proof {
            reveal_strlit("38");
            reveal_strlit("48");
        }
        match self {
            Layer::Foreground => "38",
            Layer::Background => "48",
        }
    }
}

/// A 24-bit colour.
#[derive(Clone, Copy, PartialEq, Eq, Debug, Structural)]
pub struct Color {
    pub r: u8,
    pub g: u8,
    pub b: u8,
}

/// The SGR text of a colour after its layer selector: `;2;R;G;B`.
pub open spec fn color_text(c: Color) -> Seq<char> {
    seq![';', '2', ';'] + decimal(c.r as nat) + seq![';'] + decimal(c.g as nat) + seq![';']
        + decimal(c.b as nat)
}

/// Calls `itoa::Buffer::format` on `byte`; what it prints is claimed to be
/// the decimal numeral of `byte`, without sign or leading zeros.
#[verifier::external_body]
fn format_u8(byte: u8) -> (r: String)
    ensures
        r@ == decimal(byte as nat),
{
    let mut buf = itoa::Buffer::new();
    String::from(buf.format(byte))
}

/// Appends the decimal numeral of `byte`.
fn push_u8(output: &mut String, byte: u8)
    ensures
        final(output)@ == old(output)@ + decimal(byte as nat),
{
    let numeral = format_u8(byte);
    output.append(numeral.as_str());
}

impl Color {
    /// Appends `;2;R;G;B`.
    pub(crate) fn build_into(&self, output: &mut String)
        ensures
            final(output)@ == old(output)@ + color_text(*self),
    {
        let ghost start = output@;
        push_char(output, ';');
        push_char(output, '2');
        push_char(output, ';');
        push_u8(output, self.r);
        push_char(output, ';');
        push_u8(output, self.g);
        push_char(output, ';');
        push_u8(output, self.b);
        assert(output@ =~= start + color_text(*self));
    }

    /// The channels in decimal, separated by commas (the text the type
    /// shows when debug-formatted).
    pub fn debug_string(&self) -> (r: String)
        ensures
            r@ == decimal(self.r as nat) + seq![','] + decimal(self.g as nat) + seq![',']
                + decimal(self.b as nat),
    {
        let mut r = String::new();
        push_u8(&mut r, self.r);
        push_char(&mut r, ',');
        push_u8(&mut r, self.g);
        push_char(&mut r, ',');
        push_u8(&mut r, self.b);
        r
    }
}

/// A style together with an optional colour: one layer of an SGR sequence.
pub struct AnsiCommand {
    pub style: Style,
    pub color: Option<Color>,
}

/// The SGR text of a command on a layer: the style codes, then the layer
/// selector and the colour when there is one, written directly after the
/// codes.
pub open spec fn command_text(style: u16, color: Option<Color>, layer: Layer) -> Seq<char> {
    style_text(style) + match color {
        Some(c) => layer_text(layer) + color_text(c),
        None => Seq::empty(),
    }
}

impl AnsiCommand {
    /// Appends this command's SGR text for `layer`.
    pub fn build_into(&self, layer: Layer, output: &mut String)
        ensures
            final(output)@ == old(output)@ + command_text(self.style@, self.color, layer),
    {
        let ghost start = output@;
        self.style.build_into(output);
        if let Some(color) = &self.color {
            let l = to_chars(layer.as_str());
            crate::text::push_chars(output, &l);
            color.build_into(output);
        }
        assert(output@ =~= start + command_text(self.style@, self.color, layer));
    }
}

} // verus!
