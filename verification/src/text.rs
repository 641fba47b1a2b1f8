//! Character-sequence helpers shared by the parsers and renderers: the
//! specifications of the `str` operations the library relies on, and
//! verified executable versions of them.
use vstd::prelude::*;
use vstd::string::StringSliceAdditionalSpecFns;
use vstd::utf8::*;

verus! {

/// Calls `String::push`: the string's characters gain `c` at the end.
#[verifier::external_body]
pub(crate) fn push_char(s: &mut String, c: char)
    ensures
        final(s)@ == old(s)@.push(c),
{
    s.push(c);
}

/// The characters of `s`, in order.
pub fn to_chars(s: &str) -> (v: Vec<char>)
    ensures
        v@ == s@,
{
    let mut v: Vec<char> = Vec::new();
    for c in it: s.chars()
        invariant
            v@ == it.seq().take(it.index() as int),
    {
        v.push(c);
    }
    v
}

/// Appends the characters of `v` to `s`.
pub fn push_chars(s: &mut String, v: &Vec<char>)
    ensures
        final(s)@ == old(s)@ + v@,
{
    let ghost start = s@;
    let mut i: usize = 0;
    while i < v.len()
        invariant
            i <= v.len(),
            s@ == start + v@.take(i as int),
        decreases v.len() - i,
    {
        push_char(s, v[i]);
        i += 1;
        assert(v@.take(i as int) =~= v@.take(i - 1).push(v@[i - 1]));
    }
    assert(v@.take(v.len() as int) =~= v@);
}

/// Whether two character vectors hold the same characters.
pub fn chars_equal(a: &Vec<char>, b: &Vec<char>) -> (r: bool)
    ensures
        r == (a@ == b@),
{
    if a.len() != b.len() {
        return false;
    }
    let mut i: usize = 0;
    while i < a.len()
        invariant
            a.len() == b.len(),
            i <= a.len(),
            forall|j: int| 0 <= j < i ==> a@[j] == b@[j],
        decreases a.len() - i,
    {
        if a[i] != b[i] {
            return false;
        }
        i += 1;
    }
    assert(a@ =~= b@);
    true
}

/// Whether the characters `a` spell the string `s`.
pub fn chars_equal_str(a: &Vec<char>, s: &str) -> (r: bool)
    ensures
        r == (a@ == s@),
{
    let b = to_chars(s);
    chars_equal(a, &b)
}

// ---------------------------------------------------------------------------
// Prefixes, occurrences and splitting

/// `p` is a prefix of `s`.
pub open spec fn starts_with(s: Seq<char>, p: Seq<char>) -> bool {
    p.len() <= s.len() && s.take(p.len() as int) == p
}

/// `s` ends with `p`.
pub open spec fn ends_with(s: Seq<char>, p: Seq<char>) -> bool {
    p.len() <= s.len() && s.skip(s.len() - p.len()) == p
}

/// `p` occurs in `s` starting at index `i`.
pub open spec fn occurs_at(s: Seq<char>, p: Seq<char>, i: int) -> bool {
    0 <= i && i + p.len() <= s.len() && s.subrange(i, i + p.len()) == p
}

/// The first index, not below `i`, at which `p` occurs in `s`.
pub open spec fn find_from(s: Seq<char>, p: Seq<char>, i: nat) -> Option<nat>
    decreases s.len() + 1 - i,
{
    if i + p.len() > s.len() {
        None
    } else if occurs_at(s, p, i as int) {
        Some(i)
    } else {
        find_from(s, p, i + 1)
    }
}

/// `s` contains `p`.
pub open spec fn contains(s: Seq<char>, p: Seq<char>) -> bool {
    find_from(s, p, 0) is Some
}

/// `str::split_once` with a string pattern: the parts before and after the
/// first occurrence of `p`.
pub open spec fn split_once(s: Seq<char>, p: Seq<char>) -> Option<(Seq<char>, Seq<char>)> {
    match find_from(s, p, 0) {
        Some(i) => Some((s.take(i as int), s.skip((i + p.len()) as int))),
        None => None,
    }
}

/// `str::split` with a character pattern: the pieces of `s` between the
/// occurrences of `d`, empty pieces included.
pub open spec fn split_seq(s: Seq<char>, d: char) -> Seq<Seq<char>>
    decreases s.len(),
{
    if s.len() == 0 {
        seq![Seq::empty()]
    } else {
        let p = split_seq(s.drop_last(), d);
        if s.last() == d {
            p.push(Seq::empty())
        } else {
            p.update(p.len() - 1, p.last().push(s.last()))
        }
    }
}

pub proof fn lemma_split_seq_nonempty(s: Seq<char>, d: char)
    ensures
        split_seq(s, d).len() >= 1,
    decreases s.len(),
{
    if s.len() > 0 {
        lemma_split_seq_nonempty(s.drop_last(), d);
    }
}

/// Whether `p` occurs in `s` at index `i` (checked with bounds).
pub fn occurs_at_exec(s: &Vec<char>, p: &Vec<char>, i: usize) -> (r: bool)
    ensures
        r == occurs_at(s@, p@, i as int),
{
    if i > s.len() || p.len() > s.len() - i {
        return false;
    }
    let mut j: usize = 0;
    while j < p.len()
        invariant
            i + p.len() <= s.len(),
            j <= p.len(),
            forall|k: int| 0 <= k < j ==> s@[i + k] == p@[k],
        decreases p.len() - j,
    {
        if s[i + j] != p[j] {
            assert(s@.subrange(i as int, i + p.len())[j as int] != p@[j as int]);
            return false;
        }
        j += 1;
    }
    assert(s@.subrange(i as int, i + p.len()) =~= p@);
    true
}

/// A found occurrence lies within `s` and matches `p`.
pub proof fn lemma_find_from_occurs(s: Seq<char>, p: Seq<char>, i: nat)
    ensures
        find_from(s, p, i) matches Some(k) ==> k >= i && occurs_at(s, p, k as int),
    decreases s.len() + 1 - i,
{
    if i + p.len() <= s.len() && !occurs_at(s, p, i as int) {
        lemma_find_from_occurs(s, p, i + 1);
    }
}

/// The first occurrence of `p` in `s`.
pub fn find_exec(s: &Vec<char>, p: &Vec<char>) -> (r: Option<usize>)
    ensures
        r matches Some(i) ==> find_from(s@, p@, 0) == Some(i as nat) && i + p@.len() <= s@.len(),
        r is None ==> find_from(s@, p@, 0) is None,
{
    if p.len() > s.len() {
        return None;
    }
    let last = s.len() - p.len();
    let mut i: usize = 0;
    loop
        invariant
            p.len() <= s.len(),
            last == s.len() - p.len(),
            i <= last,
            find_from(s@, p@, 0) == find_from(s@, p@, i as nat),
        decreases last - i,
    {
        if occurs_at_exec(s, p, i) {
            return Some(i);
        }
        if i == last {
            assert(find_from(s@, p@, (i + 1) as nat) is None);
            return None;
        }
        i += 1;
    }
}

/// `str::split_once` on characters.
pub fn split_once_exec(s: &Vec<char>, p: &Vec<char>) -> (r: Option<(Vec<char>, Vec<char>)>)
    ensures
        match r {
            Some((a, b)) => split_once(s@, p@) == Some((a@, b@)),
            None => split_once(s@, p@) is None,
        },
{
    match find_exec(s, p) {
        Some(i) => {
            assert(i + p.len() <= s.len());
            let end: usize = i + p.len();
            let a = slice_chars(s, 0, i);
            let b = slice_chars(s, end, s.len());
            Some((a, b))
        },
        None => None,
    }
}

/// The characters of `s` from index `from` up to `to`.
pub fn slice_chars(s: &Vec<char>, from: usize, to: usize) -> (r: Vec<char>)
    requires
        from <= to <= s.len(),
    ensures
        r@ == s@.subrange(from as int, to as int),
{
    let mut r: Vec<char> = Vec::new();
    let mut i = from;
    while i < to
        invariant
            from <= i <= to <= s.len(),
            r@ == s@.subrange(from as int, i as int),
        decreases to - i,
    {
        r.push(s[i]);
        i += 1;
        assert(r@ =~= s@.subrange(from as int, i as int));
    }
    r
}

/// Whether `p` is a prefix of `s`.
pub fn starts_with_exec(s: &Vec<char>, p: &Vec<char>) -> (r: bool)
    ensures
        r == starts_with(s@, p@),
{
    let r = occurs_at_exec(s, p, 0);
    assert(s@.take(p@.len() as int) =~= s@.subrange(0, p@.len() as int));
    r
}

/// Whether `s` ends with `p`.
pub fn ends_with_exec(s: &Vec<char>, p: &Vec<char>) -> (r: bool)
    ensures
        r == ends_with(s@, p@),
{
    if p.len() > s.len() {
        return false;
    }
    let r = occurs_at_exec(s, p, s.len() - p.len());
    assert(s@.skip(s.len() - p.len()) =~= s@.subrange(s.len() - p.len(), s.len() as int));
    r
}

/// `str::split` with a character pattern.
pub fn split_exec(s: &Vec<char>, d: char) -> (r: Vec<Vec<char>>)
    ensures
        r@.len() == split_seq(s@, d).len(),
        forall|k: int| 0 <= k < r@.len() ==> #[trigger] r@[k]@ == split_seq(s@, d)[k],
{
    let mut out: Vec<Vec<char>> = Vec::new();
    let mut cur: Vec<char> = Vec::new();
    let mut i: usize = 0;
    proof {
        assert(s@.take(0) =~= Seq::<char>::empty());
    }
    while i < s.len()
        invariant
            i <= s.len(),
            out@.len() + 1 == split_seq(s@.take(i as int), d).len(),
            forall|k: int| 0 <= k < out@.len() ==> #[trigger] out@[k]@ == split_seq(s@.take(i as int), d)[k],
            cur@ == split_seq(s@.take(i as int), d).last(),
        decreases s.len() - i,
    {
        let ghost prev = split_seq(s@.take(i as int), d);
        proof {
            lemma_split_seq_nonempty(s@.take(i as int), d);
            assert(s@.take(i + 1).drop_last() =~= s@.take(i as int));
        }
        let c = s[i];
        if c == d {
            out.push(cur);
            cur = Vec::new();
        } else {
            cur.push(c);
        }
        i += 1;
        proof {
            let now = split_seq(s@.take(i as int), d);
            assert(now.len() == out@.len() + 1);
            assert forall|k: int| 0 <= k < out@.len() implies #[trigger] out@[k]@ == now[k] by {
            }
        }
    }
    proof {
        lemma_split_seq_nonempty(s@, d);
        assert(s@.take(s.len() as int) =~= s@);
    }
    out.push(cur);
    out
}

// ---------------------------------------------------------------------------
// Whitespace

/// `char::is_whitespace`: the Unicode `White_Space` property.
pub open spec fn is_whitespace(c: char) -> bool {
    ||| ('\u{9}' <= c && c <= '\u{d}')
    ||| c == ' '
    ||| c == '\u{85}'
    ||| c == '\u{a0}'
    ||| c == '\u{1680}'
    ||| ('\u{2000}' <= c && c <= '\u{200a}')
    ||| c == '\u{2028}'
    ||| c == '\u{2029}'
    ||| c == '\u{202f}'
    ||| c == '\u{205f}'
    ||| c == '\u{3000}'
}

pub fn is_whitespace_exec(c: char) -> (r: bool)
    ensures
        r == is_whitespace(c),
{
    ('\u{9}' <= c && c <= '\u{d}') || c == ' ' || c == '\u{85}' || c == '\u{a0}' || c == '\u{1680}'
        || ('\u{2000}' <= c && c <= '\u{200a}') || c == '\u{2028}' || c == '\u{2029}' || c
        == '\u{202f}' || c == '\u{205f}' || c == '\u{3000}'
}

/// `s` without its leading whitespace.
pub open spec fn trim_start(s: Seq<char>) -> Seq<char>
    decreases s.len(),
{
    if s.len() > 0 && is_whitespace(s[0]) {
        trim_start(s.drop_first())
    } else {
        s
    }
}

/// `s` without its trailing whitespace.
pub open spec fn trim_end(s: Seq<char>) -> Seq<char>
    decreases s.len(),
{
    if s.len() > 0 && is_whitespace(s.last()) {
        trim_end(s.drop_last())
    } else {
        s
    }
}

/// `str::trim`.
pub open spec fn trim(s: Seq<char>) -> Seq<char> {
    trim_end(trim_start(s))
}

/// `str::trim` on characters.
pub fn trim_exec(s: &Vec<char>) -> (r: Vec<char>)
    ensures
        r@ == trim(s@),
{
    let mut a: usize = 0;
    assert(s@.skip(0) =~= s@);
    while a < s.len() && is_whitespace_exec(s[a])
        invariant
            a <= s.len(),
            trim_start(s@) == trim_start(s@.skip(a as int)),
        decreases s.len() - a,
    {
        assert(s@.skip(a as int).drop_first() =~= s@.skip(a + 1));
        a += 1;
    }
    assert(trim_start(s@) == s@.subrange(a as int, s.len() as int)) by {
        assert(s@.skip(a as int) =~= s@.subrange(a as int, s.len() as int));
    }
    let mut b: usize = s.len();
    while b > a && is_whitespace_exec(s[b - 1])
        invariant
            a <= b <= s.len(),
            trim(s@) == trim_end(s@.subrange(a as int, b as int)),
        decreases b,
    {
        assert(s@.subrange(a as int, b as int).drop_last() =~= s@.subrange(a as int, b - 1));
        b -= 1;
    }
    slice_chars(s, a, b)
}

// ---------------------------------------------------------------------------
// Numbers

/// `char::to_digit` for the radixes the library uses (10 and 16).
pub open spec fn digit_value(c: char, radix: nat) -> Option<nat> {
    if '0' <= c && c <= '9' {
        Some((c as nat - '0' as nat) as nat)
    } else if radix == 16 && 'a' <= c && c <= 'f' {
        Some((c as nat - 'a' as nat + 10) as nat)
    } else if radix == 16 && 'A' <= c && c <= 'F' {
        Some((c as nat - 'A' as nat + 10) as nat)
    } else {
        None
    }
}

/// Every character of `s` is a digit in `radix`.
pub open spec fn all_digits(s: Seq<char>, radix: nat) -> bool {
    forall|i: int| 0 <= i < s.len() ==> #[trigger] digit_value(s[i], radix) is Some
}

/// The number that the digit string `s` spells in `radix`.
pub open spec fn digits_value(s: Seq<char>, radix: nat) -> nat
    decreases s.len(),
{
    if s.len() == 0 {
        0
    } else {
        digits_value(s.drop_last(), radix) * radix + digit_value(s.last(), radix).unwrap_or(0)
    }
}

/// `from_str_radix` (and `str::parse`) for an unsigned integer type whose
/// largest value is `max`: an optional `+`, then at least one digit, and no
/// overflow.
pub open spec fn parse_unsigned(s: Seq<char>, radix: nat, max: nat) -> Option<nat> {
    let d = if s.len() > 0 && s[0] == '+' {
        s.drop_first()
    } else {
        s
    };
    if d.len() > 0 && all_digits(d, radix) && digits_value(d, radix) <= max {
        Some(digits_value(d, radix))
    } else {
        None
    }
}

pub fn digit_value_exec(c: char, radix: u32) -> (r: Option<u32>)
    requires
        radix == 10 || radix == 16,
    ensures
        r matches Some(v) ==> digit_value(c, radix as nat) == Some(v as nat) && v < radix,
        r is None ==> digit_value(c, radix as nat) is None,
{
    if '0' <= c && c <= '9' {
        Some(c as u32 - '0' as u32)
    } else if radix == 16 && 'a' <= c && c <= 'f' {
        Some(c as u32 - 'a' as u32 + 10)
    } else if radix == 16 && 'A' <= c && c <= 'F' {
        Some(c as u32 - 'A' as u32 + 10)
    } else {
        None
    }
}

/// A longer digit string never spells a smaller number.
pub proof fn lemma_digits_value_prefix(s: Seq<char>, k: int, radix: nat)
    requires
        0 <= k <= s.len(),
        radix >= 1,
    ensures
        digits_value(s.take(k), radix) <= digits_value(s, radix),
    decreases s.len(),
{
    if k < s.len() {
        assert(s.drop_last().take(k) =~= s.take(k));
        lemma_digits_value_prefix(s.drop_last(), k, radix);
        let v = digits_value(s.drop_last(), radix);
        assert(v * radix >= v) by (nonlinear_arith)
            requires
                radix >= 1,
        ;
    } else {
        assert(s.take(k) =~= s);
    }
}

/// `from_str_radix` on characters, for radix 10 or 16 and a type whose
/// largest value is `max`.
pub fn parse_unsigned_exec(s: &Vec<char>, radix: u32, max: u32) -> (r: Option<u32>)
    requires
        radix == 10 || radix == 16,
    ensures
        r matches Some(v) ==> parse_unsigned(s@, radix as nat, max as nat) == Some(v as nat),
        r is None ==> parse_unsigned(s@, radix as nat, max as nat) is None,
{
    let start: usize = if s.len() > 0 && s[0] == '+' {
        1
    } else {
        0
    };
    let ghost d = if s@.len() > 0 && s@[0] == '+' {
        s@.drop_first()
    } else {
        s@
    };
    assert(d =~= s@.skip(start as int));
    if start >= s.len() {
        return None;
    }
    let mut acc: u64 = 0;
    let mut i: usize = start;
    assert(s@.subrange(start as int, start as int) =~= Seq::<char>::empty());
    while i < s.len()
        invariant
            start <= i <= s.len(),
            d == s@.skip(start as int),
            d == (if s@.len() > 0 && s@[0] == '+' {
                s@.drop_first()
            } else {
                s@
            }),
            radix == 10 || radix == 16,
            all_digits(s@.subrange(start as int, i as int), radix as nat),
            acc == digits_value(s@.subrange(start as int, i as int), radix as nat),
            acc <= max,
        decreases s.len() - i,
    {
        let ghost pre = s@.subrange(start as int, i as int);
        let ghost next = s@.subrange(start as int, i + 1);
        assert(next.drop_last() =~= pre);
        assert(next.last() == s@[i as int]);
        match digit_value_exec(s[i], radix) {
            None => {
                assert(!all_digits(d, radix as nat)) by {
                    assert(d[i - start] == s@[i as int]);
                    assert(digit_value(d[i - start], radix as nat) is None);
                }
                return None;
            },
            Some(x) => {
                assert(acc * (radix as u64) <= 0xffff_ffff * 16) by (nonlinear_arith)
                    requires
                        acc <= 0xffff_ffff,
                        radix <= 16,
                ;
                acc = acc * (radix as u64) + (x as u64);
                assert(acc == digits_value(next, radix as nat));
                assert(all_digits(next, radix as nat)) by {
                    assert forall|j: int| 0 <= j < next.len() implies #[trigger] digit_value(
                        next[j],
                        radix as nat,
                    ) is Some by {
                        if j < pre.len() {
                            assert(next[j] == pre[j]);
                        }
                    }
                }
                if acc > max as u64 {
                    proof {
                        assert(next =~= d.take(i + 1 - start));
                        lemma_digits_value_prefix(d, i + 1 - start, radix as nat);
                    }
                    return None;
                }
            },
        }
        i += 1;
    }
    assert(s@.subrange(start as int, s.len() as int) =~= d);
    Some(acc as u32)
}

/// The character of the decimal digit `d`.
pub open spec fn digit_char(d: nat) -> char {
    (('0' as nat) + d) as char
}

/// The decimal numeral of `n`, without leading zeros.
pub open spec fn decimal(n: nat) -> Seq<char>
    decreases n,
{
    if n < 10 {
        seq![digit_char(n)]
    } else {
        decimal(n / 10).push(digit_char(n % 10))
    }
}

/// Appends the decimal numeral of `n`.
pub fn push_decimal(out: &mut String, n: u32)
    ensures
        final(out)@ == old(out)@ + decimal(n as nat),
    decreases n,
{
    if n >= 10 {
        push_decimal(out, n / 10);
    }
    let d: u8 = (n % 10) as u8;
    let c: char = (48u8 + d) as char;
    push_char(out, c);
}

/// The decimal numeral of `n`.
pub fn decimal_chars(n: u32) -> (r: Vec<char>)
    ensures
        r@ == decimal(n as nat),
    decreases n,
{
    let mut r: Vec<char> = if n >= 10 {
        decimal_chars(n / 10)
    } else {
        Vec::new()
    };
    let d: u8 = (n % 10) as u8;
    let c: char = (48u8 + d) as char;
    r.push(c);
    r
}

/// Appends the characters of `src` to `dst`.
pub fn extend_chars(dst: &mut Vec<char>, src: &Vec<char>)
    ensures
        final(dst)@ == old(dst)@ + src@,
{
    let ghost start = dst@;
    let mut i: usize = 0;
    while i < src.len()
        invariant
            i <= src.len(),
            dst@ == start + src@.take(i as int),
        decreases src.len() - i,
    {
        dst.push(src[i]);
        i += 1;
        assert(src@.take(i as int) =~= src@.take(i - 1).push(src@[i - 1]));
    }
    assert(src@.take(src.len() as int) =~= src@);
}

/// The character of the lower-case hexadecimal digit `d`.
pub open spec fn hex_digit_char(d: nat) -> char {
    if d < 10 {
        (('0' as nat) + d) as char
    } else {
        (('a' as nat) + d - 10) as char
    }
}

/// The lower-case hexadecimal numeral of `n`, without leading zeros.
pub open spec fn hex_lower(n: nat) -> Seq<char>
    decreases n,
{
    if n < 16 {
        seq![hex_digit_char(n)]
    } else {
        hex_lower(n / 16).push(hex_digit_char(n % 16))
    }
}

/// `s` padded on the left with `fill` up to `width` characters.
pub open spec fn pad_left(s: Seq<char>, width: nat, fill: char) -> Seq<char> {
    if s.len() < width {
        Seq::new((width - s.len()) as nat, |i: int| fill) + s
    } else {
        s
    }
}

/// `s` padded on the right with spaces up to `width` characters.
pub open spec fn pad_right(s: Seq<char>, width: nat) -> Seq<char> {
    if s.len() < width {
        s + Seq::new((width - s.len()) as nat, |i: int| ' ')
    } else {
        s
    }
}

/// The lower-case hexadecimal numeral of `n`.
pub fn hex_lower_exec(n: u32) -> (r: Vec<char>)
    ensures
        r@ == hex_lower(n as nat),
    decreases n,
{
    let mut r: Vec<char> = if n >= 16 {
        hex_lower_exec(n / 16)
    } else {
        Vec::new()
    };
    let d: u8 = (n % 16) as u8;
    let c: char = if d < 10 {
        (48u8 + d) as char
    } else {
        (97u8 + d - 10) as char
    };
    r.push(c);
    r
}

/// Appends `s` padded on the left with `fill` up to `width` characters.
pub fn push_padded_left(out: &mut String, s: &Vec<char>, width: usize, fill: char)
    ensures
        final(out)@ == old(out)@ + pad_left(s@, width as nat, fill),
{
    let ghost start = out@;
    let mut k: usize = s.len();
    while k < width
        invariant
            s.len() <= k <= width || (k == s.len() && k >= width),
            out@ == start + Seq::new((k - s.len()) as nat, |i: int| fill),
        decreases width - k,
    {
        push_char(out, fill);
        k += 1;
        assert(out@ =~= start + Seq::new((k - s.len()) as nat, |i: int| fill));
    }
    push_chars(out, s);
    if s.len() >= width {
        assert(out@ =~= start + s@);
    } else {
        assert(out@ =~= start + (Seq::new((width - s.len()) as nat, |i: int| fill) + s@));
    }
}

/// Appends `s` padded on the right with spaces up to `width` characters.
pub fn push_padded_right(out: &mut String, s: &Vec<char>, width: usize)
    ensures
        final(out)@ == old(out)@ + pad_right(s@, width as nat),
{
    let ghost start = out@;
    push_chars(out, s);
    let mut k: usize = s.len();
    while k < width
        invariant
            s.len() <= k <= width || (k == s.len() && k >= width),
            out@ == start + s@ + Seq::new((k - s.len()) as nat, |i: int| ' '),
        decreases width - k,
    {
        push_char(out, ' ');
        k += 1;
        assert(out@ =~= start + s@ + Seq::new((k - s.len()) as nat, |i: int| ' '));
    }
    if s.len() >= width {
        assert(out@ =~= start + s@);
    } else {
        assert(out@ =~= start + (s@ + Seq::new((width - s.len()) as nat, |i: int| ' ')));
    }
}

// ---------------------------------------------------------------------------
// UTF-8 length

/// The number of bytes of the UTF-8 encoding of `s` (what `str::len` and
/// `String::len` report).
pub open spec fn utf8_len(s: Seq<char>) -> nat {
    encode_utf8(s).len()
}

/// Encoding distributes over concatenation.
pub proof fn lemma_encode_utf8_concat(a: Seq<char>, b: Seq<char>)
    ensures
        encode_utf8(a + b) == encode_utf8(a) + encode_utf8(b),
    decreases a.len(),
{
    if a.len() > 0 {
        assert((a + b).drop_first() =~= a.drop_first() + b);
        lemma_encode_utf8_concat(a.drop_first(), b);
        assert(encode_utf8(a + b) =~= encode_scalar(a[0] as u32) + encode_utf8(a.drop_first() + b));
    } else {
        assert(a + b =~= b);
    }
}

/// The encoding of `s` followed by `c`.
pub proof fn lemma_utf8_len_push(s: Seq<char>, c: char)
    ensures
        utf8_len(s.push(c)) == utf8_len(s) + encode_scalar(c as u32).len(),
{
    lemma_encode_utf8_concat(s, seq![c]);
    assert(s.push(c) =~= s + seq![c]);
    assert(seq![c].drop_first() =~= Seq::<char>::empty());
    assert(encode_utf8(seq![c]) =~= encode_scalar(c as u32) + encode_utf8(Seq::<char>::empty()));
}

/// The number of bytes that `c` takes in UTF-8.
pub fn utf8_width(c: char) -> (r: usize)
    ensures
        r == encode_scalar(c as u32).len(),
        1 <= r <= 4,
{
    proof {
        char_is_scalar(c);
    }
    let u = c as u32;
    if u < 0x80 {
        1
    } else if u < 0x800 {
        2
    } else if u < 0x10000 {
        3
    } else {
        4
    }
}

/// `utf8_len(v)`, or `cap` when that is smaller.
pub fn utf8_len_upto(v: &Vec<char>, cap: usize) -> (r: usize)
    ensures
        r as nat == if utf8_len(v@) < cap as nat {
            utf8_len(v@)
        } else {
            cap as nat
        },
{
    let mut n: usize = 0;
    let mut i: usize = 0;
    assert(v@.take(0) =~= Seq::<char>::empty());
    while i < v.len()
        invariant
            i <= v.len(),
            n <= cap,
            n as nat == if utf8_len(v@.take(i as int)) < cap as nat {
                utf8_len(v@.take(i as int))
            } else {
                cap as nat
            },
        decreases v.len() - i,
    {
        let w = utf8_width(v[i]);
        proof {
            assert(v@.take(i + 1) =~= v@.take(i as int).push(v@[i as int]));
            lemma_utf8_len_push(v@.take(i as int), v@[i as int]);
        }
        if n >= cap || w >= cap - n {
            n = cap;
        } else {
            n = n + w;
        }
        i += 1;
    }
    assert(v@.take(v.len() as int) =~= v@);
    n
}

// ---------------------------------------------------------------------------
// Byte ranges of a `str`

/// The text of the byte range `a..b` of a UTF-8 string, or `None` where
/// `str` indexing panics: the range is reversed, runs past the end, or cuts
/// a character.
pub open spec fn slice_text(bytes: Seq<u8>, a: int, b: int) -> Option<Seq<char>> {
    if 0 <= a <= b <= bytes.len() && is_char_boundary(bytes, a) && is_char_boundary(bytes, b) {
        Some(decode_utf8(bytes.subrange(a, b)))
    } else {
        None
    }
}

/// A character boundary of a string stays one in each prefix that reaches it.
pub proof fn lemma_boundary_in_prefix(bytes: Seq<u8>, a: int, b: int)
    requires
        valid_utf8(bytes),
        0 <= a <= b <= bytes.len(),
        is_char_boundary(bytes, a),
        is_char_boundary(bytes, b),
    ensures
        valid_utf8(bytes.subrange(0, b)),
        is_char_boundary(bytes.subrange(0, b), a),
{
    valid_utf8_split(bytes, b);
    let pre = bytes.subrange(0, b);
    if a == b {
        is_char_boundary_start_end_of_seq(pre);
        assert(pre.len() == b);
    } else if a == 0 {
    } else {
        is_char_boundary_iff_not_is_continuation_byte(bytes, a);
        is_char_boundary_iff_not_is_continuation_byte(pre, a);
        assert(pre[a] == bytes[a]);
    }
}

/// A character boundary lies within the string.
pub proof fn lemma_boundary_within(bytes: Seq<u8>, i: int)
    requires
        valid_utf8(bytes),
        is_char_boundary(bytes, i),
    ensures
        0 <= i <= bytes.len(),
    decreases bytes.len(),
{
    if i != 0 && 0 <= i <= bytes.len() {
    } else if i != 0 {
        assert(!is_char_boundary(bytes, i));
    }
}

/// `&s[a..b]`, or `None` where that indexing panics.
pub fn str_slice(s: &str, a: usize, b: usize) -> (r: Option<&str>)
    ensures
        match r {
            Some(t) => slice_text(s.spec_bytes(), a as int, b as int) == Some(t@),
            None => slice_text(s.spec_bytes(), a as int, b as int) is None,
        },
{
    proof {
        encode_utf8_valid_utf8(s@);
    }
    if a <= b && s.is_char_boundary(a) && s.is_char_boundary(b) {
        proof {
            lemma_boundary_within(s.spec_bytes(), b as int);
            lemma_boundary_in_prefix(s.spec_bytes(), a as int, b as int);
        }
        let (head, _tail) = s.split_at(b);
        let (_front, mid) = head.split_at(a);
        proof {
            let bytes = s.spec_bytes();
            assert(head.spec_bytes() =~= bytes.subrange(0, b as int));
            assert(mid.spec_bytes() =~= bytes.subrange(a as int, b as int));
            encode_utf8_decode_utf8(mid@);
        }
        Some(mid)
    } else {
        None
    }
}

// ---------------------------------------------------------------------------
// Reading numerals and pieces back

/// The decimal numeral of `n` is made of digits and reads back as `n`.
pub proof fn lemma_decimal_reads_back(n: nat)
    ensures
        decimal(n).len() > 0,
        all_digits(decimal(n), 10),
        digits_value(decimal(n), 10) == n,
        forall|i: int| 0 <= i < decimal(n).len() ==> '0' <= #[trigger] decimal(n)[i] <= '9',
    decreases n,
{
    let s = decimal(n);
    if n < 10 {
        assert(s.drop_last() =~= Seq::<char>::empty());
        assert(digits_value(Seq::<char>::empty(), 10) == 0);
    } else {
        let p = decimal(n / 10);
        lemma_decimal_reads_back(n / 10);
        assert(s.drop_last() =~= p);
        assert forall|i: int| 0 <= i < s.len() implies '0' <= #[trigger] s[i] <= '9' by {
            if i < p.len() {
                assert(s[i] == p[i]);
            }
        }
        assert forall|i: int| 0 <= i < s.len() implies #[trigger] digit_value(s[i], 10) is Some by {
            assert('0' <= s[i] <= '9');
        }
    }
}

/// A decimal numeral of a byte, with no blanks around it, parses as that
/// byte.
pub proof fn lemma_parse_decimal_byte(n: u8)
    ensures
        trim(decimal(n as nat)) == decimal(n as nat),
        parse_unsigned(trim(decimal(n as nat)), 10, 255) == Some(n as nat),
{
    let d = decimal(n as nat);
    lemma_decimal_reads_back(n as nat);
    assert('0' <= d[0] <= '9');
    assert('0' <= d.last() <= '9');
    assert(!is_whitespace(d[0]));
    assert(!is_whitespace(d.last()));
    assert(trim_start(d) == d);
    assert(trim_end(d) == d);
}

/// A piece without the separator splits into itself alone.
pub proof fn lemma_split_single(w: Seq<char>, d: char)
    requires
        forall|i: int| 0 <= i < w.len() ==> #[trigger] w[i] != d,
    ensures
        split_seq(w, d) == seq![w],
    decreases w.len(),
{
    if w.len() > 0 {
        let p = w.drop_last();
        assert forall|i: int| 0 <= i < p.len() implies #[trigger] p[i] != d by {
            assert(p[i] == w[i]);
        }
        lemma_split_single(p, d);
        assert(p.push(w.last()) =~= w);
        assert(seq![p].update(0, w) =~= seq![w]);
    } else {
        assert(w =~= Seq::<char>::empty());
    }
}

/// Splitting at a separator splits the two sides apart.
pub proof fn lemma_split_concat(x: Seq<char>, d: char, y: Seq<char>)
    ensures
        split_seq(x + seq![d] + y, d) == split_seq(x, d) + split_seq(y, d),
    decreases y.len(),
{
    lemma_split_seq_nonempty(x, d);
    if y.len() == 0 {
        assert((x + seq![d] + y).drop_last() =~= x);
        assert(split_seq(y, d) =~= seq![Seq::<char>::empty()]);
        assert(split_seq(x, d).push(Seq::empty()) =~= split_seq(x, d) + seq![Seq::<char>::empty()]);
    } else {
        let y0 = y.drop_last();
        lemma_split_concat(x, d, y0);
        lemma_split_seq_nonempty(y0, d);
        assert((x + seq![d] + y).drop_last() =~= x + seq![d] + y0);
        assert((x + seq![d] + y).last() == y.last());
        let a = split_seq(x, d);
        let b = split_seq(y0, d);
        if y.last() == d {
            assert((a + b).push(Seq::empty()) =~= a + b.push(Seq::empty()));
        } else {
            assert((a + b).update((a + b).len() - 1, (a + b).last().push(y.last())) =~= a + b.update(
                b.len() - 1,
                b.last().push(y.last()),
            ));
        }
    }
}

} // verus!
