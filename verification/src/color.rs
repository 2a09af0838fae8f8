//! Colours as eight-bit RGBA values, and their `#rrggbb[aa]` text form.

use vstd::prelude::*;
use crate::text::{
    is_white_space, push_char, trim_end, trim_start,
    char_len_utf8, char_utf8_len, chars_of, is_ascii_char, trim, trimmed_range, utf8_len,
    utf8_len_of_short,
};

verus! {

/// An sRGB colour with eight bits per channel, alpha included
/// (`a == 255` is opaque).
#[derive(Clone, Copy, Debug, PartialEq, Eq, Structural)]
pub struct Rgba8 {
    pub r: u8,
    pub g: u8,
    pub b: u8,
    pub a: u8,
}

pub open spec fn opaque(r: u8, g: u8, b: u8) -> Rgba8 {
    Rgba8 { r, g, b, a: 255 }
}

impl Rgba8 {
    /// An opaque colour from its red, green and blue channels.
    pub fn opaque(r: u8, g: u8, b: u8) -> (c: Rgba8)
        ensures
            c == opaque(r, g, b),
    {
        Rgba8 { r, g, b, a: 255 }
    }
}

/// Value of one hexadecimal digit, either case.
pub open spec fn hex_digit_value(c: char) -> Option<u8> {
    let u = c as u32;
    if 0x30 <= u <= 0x39 {
        Some((u - 0x30) as u8)
    } else if 0x61 <= u <= 0x66 {
        Some((u - 0x61 + 10) as u8)
    } else if 0x41 <= u <= 0x46 {
        Some((u - 0x41 + 10) as u8)
    } else {
        None
    }
}

/// What `u8::from_str_radix(s, 16)` gives for a two-character `s`:
/// an optional leading `+` is accepted before a single digit.
pub open spec fn byte_from_hex_pair(c0: char, c1: char) -> Option<u8> {
    if c0 == '+' {
        hex_digit_value(c1)
    } else {
        match (hex_digit_value(c0), hex_digit_value(c1)) {
            (Some(hi), Some(lo)) => Some((hi * 16 + lo) as u8),
            _ => None,
        }
    }
}

/// The colour text with surrounding white space and one leading `#` removed.
pub open spec fn hex_body(value: Seq<char>) -> Seq<char> {
    let t = trim(value);
    if t.len() > 0 && t[0] == '#' {
        t.drop_first()
    } else {
        t
    }
}

pub open spec fn all_ascii(s: Seq<char>) -> bool {
    forall|i: int| 0 <= i < s.len() ==> is_ascii_char(#[trigger] s[i])
}

/// The colour that a body of six (`rrggbb`, opaque) or eight (`rrggbbaa`)
/// ASCII characters denotes.
pub open spec fn parse_hex_body(h: Seq<char>) -> Option<Rgba8> {
    if (h.len() == 6 || h.len() == 8) && all_ascii(h) {
        let alpha = if h.len() == 8 {
            byte_from_hex_pair(h[6], h[7])
        } else {
            Some(255u8)
        };
        match (
            byte_from_hex_pair(h[0], h[1]),
            byte_from_hex_pair(h[2], h[3]),
            byte_from_hex_pair(h[4], h[5]),
            alpha,
        ) {
            (Some(r), Some(g), Some(b), Some(a)) => Some(Rgba8 { r, g, b, a }),
            _ => None,
        }
    } else {
        None
    }
}

/// The colour that the text `value` denotes, if any.
pub open spec fn spec_parse_hex_color(value: Seq<char>) -> Option<Rgba8> {
    parse_hex_body(hex_body(value))
}

/// `j` is the first character of `h` outside ASCII.
pub open spec fn first_non_ascii_at(h: Seq<char>, j: int) -> bool {
    &&& 0 <= j < h.len()
    &&& !is_ascii_char(h[j])
    &&& forall|i: int| 0 <= i < j ==> is_ascii_char(#[trigger] h[i])
}

/// The inputs on which reading a colour slices a multi-byte character apart:
/// the body is six or eight bytes long, every two-byte chunk before the first
/// non-ASCII character is a number, and that character does not fill a chunk
/// by itself.
pub open spec fn hex_color_slices_char(value: Seq<char>) -> bool {
    let h = hex_body(value);
    &&& (utf8_len(h) == 6 || utf8_len(h) == 8)
    &&& exists|j: int|
        #![trigger first_non_ascii_at(h, j)]
        first_non_ascii_at(h, j) && (forall|i: int|
            0 <= i < j / 2 ==> #[trigger] byte_from_hex_pair(h[2 * i], h[2 * i + 1]) is Some) && (
        j % 2 == 1 || char_utf8_len(h[j]) >= 3)
}

fn hex_digit(c: char) -> (res: Option<u8>)
    ensures
        res == hex_digit_value(c),
{
    let u = c as u32;
    if 0x30 <= u && u <= 0x39 {
        Some((u - 0x30) as u8)
    } else if 0x61 <= u && u <= 0x66 {
        Some((u - 0x61 + 10) as u8)
    } else if 0x41 <= u && u <= 0x46 {
        Some((u - 0x41 + 10) as u8)
    } else {
        None
    }
}

fn hex_pair(c0: char, c1: char) -> (res: Option<u8>)
    ensures
        res == byte_from_hex_pair(c0, c1),
{
    if c0 == '+' {
        hex_digit(c1)
    } else {
        match (hex_digit(c0), hex_digit(c1)) {
            (Some(hi), Some(lo)) => Some(hi * 16 + lo),
            _ => None,
        }
    }
}


/// The bounds of the colour body inside `chars`.
fn hex_body_range(chars: &Vec<char>) -> (res: (usize, usize))
    ensures
        res.0 <= res.1 <= chars@.len(),
        chars@.subrange(res.0 as int, res.1 as int) == hex_body(chars@),
{
    let (s, e) = trimmed_range(chars);
    if s < e && chars[s] == '#' {
        proof {
            let t = chars@.subrange(s as int, e as int);
            assert(t[0] == chars@[s as int]);
            assert(t.drop_first() =~= chars@.subrange(s + 1, e as int));
        }
        (s + 1, e)
    } else {
        proof {
            let t = chars@.subrange(s as int, e as int);
            if s < e {
                assert(t[0] == chars@[s as int]);
            }
        }
        (s, e)
    }
}

/// Reads a colour written as `rrggbb` or `rrggbbaa` in hexadecimal, with an
/// optional leading `#` and surrounding white space; six digits give an
/// opaque colour.
pub fn parse_hex_color(value: &str) -> (res: Option<Rgba8>)
    requires
        !hex_color_slices_char(value@),
    ensures
        res == spec_parse_hex_color(value@),
{
    let chars = chars_of(value);
    let (s, e) = hex_body_range(&chars);
    let ghost h = chars@.subrange(s as int, e as int);
    let len = e - s;
    if len != 6 && len != 8 {
        return None;
    }
    let mut i: usize = s;
    while i < e
        invariant
            s <= i <= e <= chars@.len(),
            h == chars@.subrange(s as int, e as int),
            h == hex_body(value@),
            e - s == 6 || e - s == 8,
            forall|k: int| 0 <= k < i - s ==> is_ascii_char(#[trigger] h[k]),
        decreases e - i,
    {
        if (chars[i] as u32) >= 0x80 {
            proof {
                assert(h[i - s] == chars@[i as int]);
                assert(!is_ascii_char(h[i - s]));
                assert(!all_ascii(h));
            }
            return None;
        }
        i = i + 1;
    }
    let r = hex_pair(chars[s], chars[s + 1]);
    let g = hex_pair(chars[s + 2], chars[s + 3]);
    let b = hex_pair(chars[s + 4], chars[s + 5]);
    let a = if len == 8 {
        hex_pair(chars[s + 6], chars[s + 7])
    } else {
        Some(255u8)
    };
    match (r, g, b, a) {
        (Some(r), Some(g), Some(b), Some(a)) => Some(Rgba8 { r, g, b, a }),
        _ => None,
    }
}

/// Decides whether `parse_hex_color` may be given `value`; reading a colour
/// from any other text slices a multi-byte character apart.
pub fn hex_color_is_readable(value: &str) -> (res: bool)
    ensures
        res == !hex_color_slices_char(value@),
{
    let chars = chars_of(value);
    let (s, e) = hex_body_range(&chars);
    let ghost h = chars@.subrange(s as int, e as int);
    let bytes = match utf8_len_of_short(&chars, s, e) {
        Some(n) => n,
        None => {
            return true;
        },
    };
    if bytes != 6 && bytes != 8 {
        return true;
    }
    let mut j: usize = s;
    while j < e && (chars[j] as u32) < 0x80
        invariant
            s <= j <= e <= chars@.len(),
            h == chars@.subrange(s as int, e as int),
            forall|k: int| 0 <= k < j - s ==> is_ascii_char(#[trigger] h[k]),
        decreases e - j,
    {
        j = j + 1;
    }
    if j == e {
        proof {
            assert forall|jj: int| !first_non_ascii_at(h, jj) by {
                if 0 <= jj < h.len() {
                    assert(is_ascii_char(h[jj]));
                }
            }
        }
        return true;
    }
    let ghost jj = (j - s) as int;
    assert(first_non_ascii_at(h, jj));
    let half = (j - s) / 2;
    let mut k: usize = 0;
    while k < half
        invariant
            s <= j < e <= chars@.len(),
            half == (j - s) / 2,
            h == chars@.subrange(s as int, e as int),
            h == hex_body(value@),
            k <= half,
            first_non_ascii_at(h, j - s),
            forall|m: int| 0 <= m < k ==> #[trigger] byte_from_hex_pair(h[2 * m], h[2 * m + 1]) is Some,
        decreases half - k,
    {
        if hex_pair(chars[s + 2 * k], chars[s + 2 * k + 1]).is_none() {
            proof {
                assert(byte_from_hex_pair(h[2 * k], h[2 * k + 1]) is None);
                assert forall|j2: int| !(#[trigger] first_non_ascii_at(h, j2) && (forall|i: int|
                    0 <= i < j2 / 2 ==> #[trigger] byte_from_hex_pair(h[2 * i], h[2 * i + 1]) is Some))
                    by {
                    if first_non_ascii_at(h, j2) {
                        if j2 < j - s {
                            assert(!is_ascii_char(h[j2]));
                        } else if j2 > j - s {
                            assert(is_ascii_char(h[j - s]));
                        }
                    }
                }
            }
            return true;
        }
        k = k + 1;
    }
    let wide = char_len_utf8(chars[j]);
    let slices = (j - s) % 2 == 1 || wide >= 3;
    proof {
        assert(h[jj] == chars@[j as int]);
        assert forall|j2: int| #[trigger] first_non_ascii_at(h, j2) implies j2 == jj by {
            if j2 < jj {
                assert(!is_ascii_char(h[j2]));
            } else if j2 > jj {
                assert(is_ascii_char(h[jj]));
            }
        }
    }
    !slices
}


/// Lower-case hexadecimal digit for `d < 16`.
pub open spec fn hex_char(d: u8) -> char {
    if d < 10 {
        (0x30 + d) as char
    } else {
        (0x61 + d - 10) as char
    }
}

/// Two lower-case hexadecimal digits for a byte.
pub open spec fn byte_hex(b: u8) -> Seq<char> {
    seq![hex_char(b / 16), hex_char(b % 16)]
}

/// The text `#rrggbbaa` of a colour, in lower case.
pub open spec fn spec_color_to_hex(c: Rgba8) -> Seq<char> {
    seq!['#'] + byte_hex(c.r) + byte_hex(c.g) + byte_hex(c.b) + byte_hex(c.a)
}

fn hex_char_of(d: u8) -> (c: char)
    requires
        d < 16,
    ensures
        c == hex_char(d),
{
    if d < 10 {
        (0x30 + d) as char
    } else {
        (0x61 + d - 10) as char
    }
}

/// Writes a colour as `#rrggbbaa` in lower-case hexadecimal.
pub fn color_to_hex(color: Rgba8) -> (res: String)
    ensures
        res@ == spec_color_to_hex(color),
{
    let mut out = String::new();
    push_char(&mut out, '#');
    push_char(&mut out, hex_char_of(color.r / 16));
    push_char(&mut out, hex_char_of(color.r % 16));
    push_char(&mut out, hex_char_of(color.g / 16));
    push_char(&mut out, hex_char_of(color.g % 16));
    push_char(&mut out, hex_char_of(color.b / 16));
    push_char(&mut out, hex_char_of(color.b % 16));
    push_char(&mut out, hex_char_of(color.a / 16));
    push_char(&mut out, hex_char_of(color.a % 16));
    assert(out@ =~= spec_color_to_hex(color));
    out
}

proof fn lemma_hex_char_digit(d: u8)
    requires
        d < 16,
    ensures
        hex_digit_value(hex_char(d)) == Some(d),
        is_ascii_char(hex_char(d)),
        !is_white_space(hex_char(d)),
        hex_char(d) != '+',
        hex_char(d) != '#',
{
    if d < 10 {
        assert(((0x30 + d) as char) as u32 == 0x30 + d);
    } else {
        assert(((0x61 + d - 10) as char) as u32 == 0x61 + d - 10);
    }
}

proof fn lemma_byte_hex_reads_back(b: u8)
    ensures
        byte_from_hex_pair(byte_hex(b)[0], byte_hex(b)[1]) == Some(b),
{
    lemma_hex_char_digit(b / 16);
    lemma_hex_char_digit(b % 16);
}

/// Reading back the text of a colour gives the colour.
pub proof fn lemma_color_hex_round_trip(c: Rgba8)
    ensures
        spec_parse_hex_color(spec_color_to_hex(c)) == Some(c),
        !hex_color_slices_char(spec_color_to_hex(c)),
{
    let s = spec_color_to_hex(c);
    lemma_hex_char_digit(c.a % 16);
    lemma_hex_char_digit(c.r / 16);
    assert(s.len() == 9);
    assert(s[0] == '#');
    assert(trim_start(s) == s);
    assert(s.last() == hex_char(c.a % 16));
    assert(trim_end(s) == s);
    let h = hex_body(s);
    assert(h =~= byte_hex(c.r) + byte_hex(c.g) + byte_hex(c.b) + byte_hex(c.a));
    lemma_byte_hex_reads_back(c.r);
    lemma_byte_hex_reads_back(c.g);
    lemma_byte_hex_reads_back(c.b);
    lemma_byte_hex_reads_back(c.a);
    lemma_hex_char_digit(c.r % 16);
    lemma_hex_char_digit(c.g / 16);
    lemma_hex_char_digit(c.g % 16);
    lemma_hex_char_digit(c.b / 16);
    lemma_hex_char_digit(c.b % 16);
    lemma_hex_char_digit(c.a / 16);
    assert(all_ascii(h));
    assert forall|j: int| !(#[trigger] first_non_ascii_at(h, j)) by {
        if 0 <= j < h.len() {
            assert(is_ascii_char(h[j]));
        }
    }
}

/// A colour as it is drawn: eight-bit red, green and blue, and alpha in
/// units of 1/255000 of full opacity, so that the dimming (x0.7) and shading
/// (x0.25, x0.5, x0.75) factors applied to an eight-bit alpha stay exact.
#[derive(Clone, Copy, Debug, PartialEq, Eq, Structural)]
pub struct Paint {
    pub r: u8,
    pub g: u8,
    pub b: u8,
    pub alpha: u32,
}

/// Full opacity in `Paint::alpha` units.
pub const PAINT_ALPHA_OPAQUE: u32 = 255000;

pub open spec fn paint_of(c: Rgba8) -> Paint {
    Paint { r: c.r, g: c.g, b: c.b, alpha: (c.a * 1000) as u32 }
}

/// The paint with its alpha scaled by `num / den`.
pub open spec fn scale_alpha(p: Paint, num: u32, den: u32) -> Paint {
    Paint { alpha: ((p.alpha * num) / (den as int)) as u32, ..p }
}

impl Paint {
    /// The paint of an eight-bit colour.
    pub fn from_rgba(c: Rgba8) -> (p: Paint)
        ensures
            p == paint_of(c),
            p.alpha <= PAINT_ALPHA_OPAQUE,
    {
        Paint { r: c.r, g: c.g, b: c.b, alpha: c.a as u32 * 1000 }
    }

    /// The paint with its alpha scaled by `num / den`, which is at most one.
    pub fn scaled(self, num: u32, den: u32) -> (p: Paint)
        requires
            0 < den,
            num <= den <= 1000,
            self.alpha <= PAINT_ALPHA_OPAQUE,
        ensures
            p == scale_alpha(self, num, den),
            p.alpha <= PAINT_ALPHA_OPAQUE,
    {
        assert(self.alpha * num <= 255000 * 1000) by (nonlinear_arith)
            requires
                self.alpha <= 255000,
                num <= 1000,
        ;
        assert((self.alpha * num) / (den as int) <= self.alpha) by (nonlinear_arith)
            requires
                num <= den,
                0 < den,
        ;
        let scaled = (self.alpha as u64 * num as u64 / den as u64) as u32;
        Paint { alpha: scaled, ..self }
    }
}

} // verus!
