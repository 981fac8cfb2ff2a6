//! Colours, and the hex notation that people write them in.

use vstd::prelude::*;

use crate::text;

verus! {

/// A colour by its channels.
#[derive(Debug, Clone, Copy, PartialEq, Eq, Structural)]
pub struct Color {
    pub r: u8,
    pub g: u8,
    pub b: u8,
    pub a: u8,
}

/// The colour with these channels, fully opaque.
pub open spec fn rgb_of(r: int, g: int, b: int) -> Color {
    Color { r: r as u8, g: g as u8, b: b as u8, a: 255 }
}

/// The colour with these channels, fully opaque.
pub fn rgb(r: u8, g: u8, b: u8) -> (c: Color)
    ensures
        c == rgb_of(r as int, g as int, b as int),
{
    Color { r, g, b, a: 255 }
}

/// The value of a hex digit of either case.
pub open spec fn hex_digit(c: char) -> Option<int> {
    if '0' <= c <= '9' {
        Some(c as int - '0' as int)
    } else if 'a' <= c <= 'f' {
        Some(c as int - 'a' as int + 10)
    } else if 'A' <= c <= 'F' {
        Some(c as int - 'A' as int + 10)
    } else {
        None
    }
}

/// The value of two hex digits.
pub open spec fn hex_pair(s: Seq<char>, i: int) -> Option<int> {
    match (hex_digit(s[i]), hex_digit(s[i + 1])) {
        (Some(h), Some(l)) => Some(16 * h + l),
        _ => None,
    }
}

/// The colour that bare hex digits stand for: `rgb`, `rrggbb` or `rrggbbaa`.
pub open spec fn color_of(s: Seq<char>) -> Option<Color> {
    if s.len() == 3 {
        match (hex_digit(s[0]), hex_digit(s[1]), hex_digit(s[2])) {
            (Some(r), Some(g), Some(b)) => Some(rgb_of(17 * r, 17 * g, 17 * b)),
            _ => None,
        }
    } else if s.len() == 6 {
        match (hex_pair(s, 0), hex_pair(s, 2), hex_pair(s, 4)) {
            (Some(r), Some(g), Some(b)) => Some(rgb_of(r, g, b)),
            _ => None,
        }
    } else if s.len() == 8 {
        match (hex_pair(s, 0), hex_pair(s, 2), hex_pair(s, 4), hex_pair(s, 6)) {
            (Some(r), Some(g), Some(b), Some(a)) => Some(
                Color { r: r as u8, g: g as u8, b: b as u8, a: a as u8 },
            ),
            _ => None,
        }
    } else {
        None
    }
}

/// The value of a hex digit.
fn digit_value(c: char) -> (r: Option<u8>)
    ensures
        match (r, hex_digit(c)) {
            (Some(v), Some(k)) => v == k && v < 16,
            (None, None) => true,
            _ => false,
        },
{
    let n: u32 = c as u32;
    if '0' <= c && c <= '9' {
        Some((n - 48) as u8)
    } else if 'a' <= c && c <= 'f' {
        Some((n - 87) as u8)
    } else if 'A' <= c && c <= 'F' {
        Some((n - 55) as u8)
    } else {
        None
    }
}

/// The value of two hex digits.
fn pair_value(v: &Vec<char>, i: usize) -> (r: Option<u8>)
    requires
        i + 1 < v@.len(),
    ensures
        match (r, hex_pair(v@, i as int)) {
            (Some(x), Some(k)) => x == k,
            (None, None) => true,
            _ => false,
        },
{
    let n: usize = v.len();
    match (digit_value(v[i]), digit_value(v[i + 1])) {
        (Some(h), Some(l)) => Some(16 * h + l),
        _ => None,
    }
}

/// The colour that bare hex digits stand for.
pub fn parse_digits(v: &Vec<char>) -> (r: Option<Color>)
    ensures
        r == color_of(v@),
{
    if v.len() == 3 {
        match (digit_value(v[0]), digit_value(v[1]), digit_value(v[2])) {
            (Some(r), Some(g), Some(b)) => Some(Color { r: 17 * r, g: 17 * g, b: 17 * b, a: 255 }),
            _ => None,
        }
    } else if v.len() == 6 {
        match (pair_value(v, 0), pair_value(v, 2), pair_value(v, 4)) {
            (Some(r), Some(g), Some(b)) => Some(Color { r, g, b, a: 255 }),
            _ => None,
        }
    } else if v.len() == 8 {
        match (pair_value(v, 0), pair_value(v, 2), pair_value(v, 4), pair_value(v, 6)) {
            (Some(r), Some(g), Some(b), Some(a)) => Some(Color { r, g, b, a }),
            _ => None,
        }
    } else {
        None
    }
}

/// The colour that a room writes for a power level: `#rgb`, `#rrggbb` or
/// `#rrggbbaa`, white space around it ignored.
pub open spec fn tag_color(s: Seq<char>) -> Option<Color> {
    let t = text::trimmed(s);
    if t.len() > 0 && t[0] == '#' {
        color_of(t.skip(1))
    } else {
        None
    }
}

/// The colour that a room writes for a power level. Anything malformed gives
/// none, so that callers fall back rather than show a wrong colour.
pub fn parse_hex_color(hex: &str) -> (r: Option<Color>)
    ensures
        r == tag_color(hex@),
{
    let t = text::trim(hex);
    let n: usize = t.unicode_len();
    if n > 0 && t.get_char(0) == '#' {
        let v = text::chars(t.substring_char(1, n));
        assert(v@ =~= t@.skip(1));
        parse_digits(&v)
    } else {
        None
    }
}

// ---------------------------------------------------------------------------
// Sender colours.
// ---------------------------------------------------------------------------
/// The hash that picks a user's colour: over the first `n` bytes of the id.
pub open spec fn name_hash(bytes: Seq<u8>, n: int) -> int
    decreases n,
{
    if n <= 0 {
        0
    } else {
        (name_hash(bytes, n - 1) * 31 + bytes[n - 1]) % 0x1_0000_0000
    }
}

/// The colours that users are told apart by.
pub open spec fn palette(i: int) -> Color {
    if i == 0 {
        rgb_of(0xE5, 0x73, 0x73)
    } else if i == 1 {
        rgb_of(0xFF, 0xB7, 0x4D)
    } else if i == 2 {
        rgb_of(0xFF, 0xD5, 0x4F)
    } else if i == 3 {
        rgb_of(0xAE, 0xD5, 0x81)
    } else if i == 4 {
        rgb_of(0x4D, 0xD0, 0xE1)
    } else if i == 5 {
        rgb_of(0x64, 0xB5, 0xF6)
    } else if i == 6 {
        rgb_of(0xBA, 0x68, 0xC8)
    } else {
        rgb_of(0xF0, 0x62, 0x92)
    }
}

/// A user's colour.
pub open spec fn user_color(user_id: Seq<char>) -> Color {
    let bytes = vstd::utf8::encode_utf8(user_id);
    palette(name_hash(bytes, bytes.len() as int) % 8)
}

/// A stable colour per user, keyed by a hash of the user id.
pub fn name_palette_color(user_id: &str) -> (r: Color)
    ensures
        r == user_color(user_id@),
{
    let bytes = user_id.as_bytes();
    let mut hash: u64 = 0;
    let mut i: usize = 0;
    while i < bytes.len()
        invariant
            i <= bytes@.len(),
            hash == name_hash(bytes@, i as int),
            hash < 0x1_0000_0000,
        decreases bytes@.len() - i,
    {
        hash = (hash * 31 + bytes[i] as u64) % 0x1_0000_0000;
        i = i + 1;
    }
    let k: u64 = hash % 8;
    if k == 0 {
        rgb(0xE5, 0x73, 0x73)
    } else if k == 1 {
        rgb(0xFF, 0xB7, 0x4D)
    } else if k == 2 {
        rgb(0xFF, 0xD5, 0x4F)
    } else if k == 3 {
        rgb(0xAE, 0xD5, 0x81)
    } else if k == 4 {
        rgb(0x4D, 0xD0, 0xE1)
    } else if k == 5 {
        rgb(0x64, 0xB5, 0xF6)
    } else if k == 6 {
        rgb(0xBA, 0x68, 0xC8)
    } else {
        rgb(0xF0, 0x62, 0x92)
    }
}

// ---------------------------------------------------------------------------
// Laws.
// ---------------------------------------------------------------------------
/// Whether a character is a hex digit of this value, in either letter case.
pub open spec fn spells(c: char, v: int) -> bool {
    ||| 0 <= v < 10 && c == "0123456789"@[v]
    ||| 10 <= v < 16 && c == "abcdef"@[v - 10]
    ||| 10 <= v < 16 && c == "ABCDEF"@[v - 10]
}

proof fn lemma_spells(c: char, v: int)
    requires
        spells(c, v),
    ensures
        hex_digit(c) == Some(v),
{
    reveal_strlit("0123456789");
    reveal_strlit("abcdef");
    reveal_strlit("ABCDEF");
}

/// Six digits behind a `#` are red, green and blue, two digits to each, the
/// first of them worth sixteen times the second; the colour is opaque.
pub proof fn law_six_digits_are_three_channels(
    s: Seq<char>,
    r: u8,
    g: u8,
    b: u8,
    c: Option<Color>,
)
    requires
        s.len() == 7,
        s[0] == '#',
        spells(s[1], r as int / 16) && spells(s[2], r as int % 16),
        spells(s[3], g as int / 16) && spells(s[4], g as int % 16),
        spells(s[5], b as int / 16) && spells(s[6], b as int % 16),
        text::trimmed(s) == s,
        c == tag_color(s),
    ensures
        c == Some(Color { r, g, b, a: 255 }),
{
    lemma_spells(s[1], r as int / 16);
    lemma_spells(s[2], r as int % 16);
    lemma_spells(s[3], g as int / 16);
    lemma_spells(s[4], g as int % 16);
    lemma_spells(s[5], b as int / 16);
    lemma_spells(s[6], b as int % 16);
    let t = s.skip(1);
    assert(t[0] == s[1] && t[1] == s[2] && t[2] == s[3] && t[3] == s[4] && t[4] == s[5] && t[5]
        == s[6]);
}

/// Eight digits have the opacity behind the three channels.
pub proof fn law_eight_digits_have_an_opacity(
    s: Seq<char>,
    r: u8,
    g: u8,
    b: u8,
    a: u8,
    c: Option<Color>,
)
    requires
        s.len() == 9,
        s[0] == '#',
        spells(s[1], r as int / 16) && spells(s[2], r as int % 16),
        spells(s[3], g as int / 16) && spells(s[4], g as int % 16),
        spells(s[5], b as int / 16) && spells(s[6], b as int % 16),
        spells(s[7], a as int / 16) && spells(s[8], a as int % 16),
        text::trimmed(s) == s,
        c == tag_color(s),
    ensures
        c == Some(Color { r, g, b, a }),
{
    lemma_spells(s[1], r as int / 16);
    lemma_spells(s[2], r as int % 16);
    lemma_spells(s[3], g as int / 16);
    lemma_spells(s[4], g as int % 16);
    lemma_spells(s[5], b as int / 16);
    lemma_spells(s[6], b as int % 16);
    lemma_spells(s[7], a as int / 16);
    lemma_spells(s[8], a as int % 16);
    let t = s.skip(1);
    assert(t[0] == s[1] && t[1] == s[2] && t[2] == s[3] && t[3] == s[4] && t[4] == s[5] && t[5]
        == s[6] && t[6] == s[7] && t[7] == s[8]);
}

/// Three digits are six, each written twice.
pub proof fn law_three_digits_are_six(s: Seq<char>, long: Seq<char>)
    requires
        s.len() == 4,
        s[0] == '#',
        long == seq!['#', s[1], s[1], s[2], s[2], s[3], s[3]],
        text::trimmed(s) == s,
        text::trimmed(long) == long,
    ensures
        tag_color(s) == tag_color(long),
{
    let t = s.skip(1);
    let u = long.skip(1);
    assert(t[0] == s[1] && t[1] == s[2] && t[2] == s[3]);
    assert(u[0] == s[1] && u[1] == s[1] && u[2] == s[2] && u[3] == s[2] && u[4] == s[3] && u[5]
        == s[3]);
}

/// Anything else is no colour: without the `#`, of another length, or with a
/// character that is no hex digit.
pub proof fn law_what_is_no_colour(s: Seq<char>, i: int)
    requires
        text::trimmed(s) == s,
        ({
            ||| s.len() == 0
            ||| s[0] != '#'
            ||| s.len() != 4 && s.len() != 7 && s.len() != 9
            ||| 1 <= i < s.len() && forall|v: int| !#[trigger] spells(s[i], v)
        }),
    ensures
        tag_color(s) is None,
{
    if s.len() > 0 && s[0] == '#' && (s.len() == 4 || s.len() == 7 || s.len() == 9) {
        let t = s.skip(1);
        assert(t[i - 1] == s[i]);
        let c = s[i];
        if let Some(v) = hex_digit(c) {
            reveal_strlit("0123456789");
            reveal_strlit("abcdef");
            reveal_strlit("ABCDEF");
            assert(spells(c, v));
        }
    }
}

} // verus!
