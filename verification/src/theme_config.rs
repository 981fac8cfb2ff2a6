//! The theme that the user configures: colours, typography and density.

use vstd::prelude::*;

use crate::color;
use crate::color::Color;
use crate::text;

verus! {

/// A colour of the theme, written in hex.
#[derive(Debug, Clone, Copy, PartialEq, Eq, Structural)]
pub struct ThemeColor(pub Color);

/// A hex digit, in upper case.
pub open spec fn upper_digit(d: int) -> char {
    if d < 10 {
        (48 + d) as char
    } else {
        (55 + d) as char
    }
}

/// A channel as two hex digits.
pub open spec fn channel_text(n: int) -> Seq<char> {
    seq![upper_digit(n / 16), upper_digit(n % 16)]
}

/// A colour in hex: the opacity is left out where it is full.
pub open spec fn hex_text(c: Color) -> Seq<char> {
    let opaque = seq!['#'] + channel_text(c.r as int) + channel_text(c.g as int) + channel_text(
        c.b as int,
    );
    if c.a == 255 {
        opaque
    } else {
        opaque + channel_text(c.a as int)
    }
}

/// The colour that a text stands for: `rgb`, `rrggbb` or `rrggbbaa`, with or
/// without a `#` in front, white space around it ignored.
pub open spec fn parsed_hex(s: Seq<char>) -> Option<Color> {
    let t = text::trimmed(s);
    color::color_of(
        if t.len() > 0 && t[0] == '#' {
            t.skip(1)
        } else {
            t
        },
    )
}

/// A hex digit, in upper case.
fn upper_digit_char(d: u8) -> (c: char)
    requires
        d < 16,
    ensures
        c == upper_digit(d as int),
{
    if d < 10 {
        (48u8 + d) as char
    } else {
        (55u8 + d) as char
    }
}

/// Appends a channel as two hex digits.
fn push_channel(s: &mut String, n: u8)
    ensures
        final(s)@ == old(s)@ + channel_text(n as int),
{
    s.push(upper_digit_char(n / 16));
    s.push(upper_digit_char(n % 16));
    assert(s@ =~= old(s)@ + channel_text(n as int));
}

impl ThemeColor {
    /// The opaque colour with these channels.
    pub fn new(r: u8, g: u8, b: u8) -> (c: Self)
        ensures
            c.0 == color::rgb_of(r as int, g as int, b as int),
    {
        ThemeColor(color::rgb(r, g, b))
    }

    /// The colour itself.
    pub fn color(self) -> (c: Color)
        ensures
            c == self.0,
    {
        self.0
    }

    /// The colour in hex: `#RRGGBB`, or `#RRGGBBAA` where it is not opaque.
    pub fn to_hex(self) -> (r: String)
        ensures
            r@ == hex_text(self.0),
    {
        let c = self.0;
        let mut r = String::new();
        r.push('#');
        push_channel(&mut r, c.r);
        push_channel(&mut r, c.g);
        push_channel(&mut r, c.b);
        if c.a != 255 {
            push_channel(&mut r, c.a);
        }
        assert(r@ =~= hex_text(c));
        r
    }

    /// The colour that a text stands for.
    pub fn parse_hex(input: &str) -> (r: Option<Self>)
        ensures
            r == match parsed_hex(input@) {
                Some(c) => Some(ThemeColor(c)),
                None => None,
            },
    {
        let t = text::trim(input);
        let n: usize = t.unicode_len();
        let start: usize = if n > 0 && t.get_char(0) == '#' {
            1
        } else {
            0
        };
        let digits = text::chars(t.substring_char(start, n));
        assert(digits@ =~= t@.skip(start as int));
        assert(start == 0 ==> digits@ =~= t@);
        match color::parse_digits(&digits) {
            Some(c) => Some(ThemeColor(c)),
            None => None,
        }
    }
}

/// The knobs of the theme. Sizes are carried as the bit patterns of `f32`s.
#[derive(Debug)]
pub struct ThemeConfig {
    pub name: String,
    pub dark: bool,
    pub background: ThemeColor,
    /// Panels, sidebar, header bar.
    pub surface: ThemeColor,
    /// Hovered and selected rows.
    pub surface_strong: ThemeColor,
    pub text: ThemeColor,
    /// Secondary text and timestamps.
    pub muted_text: ThemeColor,
    /// Buttons, links, unread badges.
    pub accent: ThemeColor,
    /// Text on accent-coloured surfaces.
    pub accent_text: ThemeColor,
    pub success: ThemeColor,
    pub danger: ThemeColor,
    /// The default font where none is given.
    pub font_family: Option<String>,
    /// 0.8 to 1.5.
    pub ui_scale: u32,
    /// 0 to 16 logical pixels.
    pub corner_radius: u32,
}

/// 0.8 as an `f32`.
pub const MIN_UI_SCALE: u32 = 0x3F4C_CCCD;

/// 1.5 as an `f32`.
pub const MAX_UI_SCALE: u32 = 0x3FC0_0000;

/// 1.0 as an `f32`.
pub const DEFAULT_UI_SCALE: u32 = 0x3F80_0000;

/// 16.0 as an `f32`.
pub const MAX_CORNER_RADIUS: u32 = 0x4180_0000;

/// 6.0 as an `f32`.
pub const DEFAULT_CORNER_RADIUS: u32 = 0x40C0_0000;

/// The bit patterns from here on, the sign left out, are infinity and what is
/// no number.
pub const NOT_FINITE: u32 = 0x7F80_0000;

/// The sign bit of an `f32`.
pub const SIGN: u32 = 0x8000_0000;

/// The magnitude of an `f32`: in the order of the magnitudes' values.
pub open spec fn magnitude(bits: u32) -> int {
    if bits >= SIGN {
        bits - SIGN
    } else {
        bits as int
    }
}

/// Whether an `f32` is a finite number.
pub open spec fn finite(bits: u32) -> bool {
    magnitude(bits) < NOT_FINITE
}

/// Whether an `f32` is below zero.
pub open spec fn negative(bits: u32) -> bool {
    bits > SIGN
}

/// A value held within a range from `low` to `high`, both above zero or zero;
/// `fallback` where it is not finite.
pub open spec fn held(bits: u32, low: u32, high: u32, fallback: u32) -> u32 {
    if !finite(bits) {
        fallback
    } else if negative(bits) || magnitude(bits) < low {
        low
    } else if magnitude(bits) > high {
        high
    } else {
        bits
    }
}

/// A value held within a range.
fn hold(bits: u32, low: u32, high: u32, fallback: u32) -> (r: u32)
    ensures
        r == held(bits, low, high, fallback),
{
    let m: u32 = if bits >= SIGN {
        bits - SIGN
    } else {
        bits
    };
    if m >= NOT_FINITE {
        fallback
    } else if bits > SIGN || m < low {
        low
    } else if m > high {
        high
    } else {
        bits
    }
}

/// The opaque colour of a channel triple.
pub open spec fn of_rgb(r: int, g: int, b: int) -> ThemeColor {
    ThemeColor(color::rgb_of(r, g, b))
}

impl ThemeConfig {
    /// Whether this is the dark theme.
    pub open spec fn is_dark_preset(&self) -> bool {
        &&& self.name@ == "ThornyChat Dark"@
        &&& self.dark
        &&& self.background == of_rgb(0x14, 0x16, 0x1C)
        &&& self.surface == of_rgb(0x1C, 0x1F, 0x28)
        &&& self.surface_strong == of_rgb(0x2A, 0x2E, 0x3A)
        &&& self.text == of_rgb(0xE7, 0xEA, 0xF0)
        &&& self.muted_text == of_rgb(0x97, 0xA0, 0xAF)
        &&& self.accent == of_rgb(0x5B, 0x8C, 0xF5)
        &&& self.accent_text == of_rgb(0xFF, 0xFF, 0xFF)
        &&& self.success == of_rgb(0x3F, 0xB8, 0x68)
        &&& self.danger == of_rgb(0xEF, 0x6B, 0x6B)
        &&& self.font_family is None
        &&& self.ui_scale == DEFAULT_UI_SCALE
        &&& self.corner_radius == DEFAULT_CORNER_RADIUS
    }

    /// Whether this is the light theme.
    pub open spec fn is_light_preset(&self) -> bool {
        &&& self.name@ == "ThornyChat Light"@
        &&& !self.dark
        &&& self.background == of_rgb(0xFB, 0xFB, 0xFD)
        &&& self.surface == of_rgb(0xF0, 0xF2, 0xF6)
        &&& self.surface_strong == of_rgb(0xE2, 0xE5, 0xEC)
        &&& self.text == of_rgb(0x1B, 0x1E, 0x26)
        &&& self.muted_text == of_rgb(0x5A, 0x61, 0x70)
        &&& self.accent == of_rgb(0x29, 0x5F, 0xD6)
        &&& self.accent_text == of_rgb(0xFF, 0xFF, 0xFF)
        &&& self.success == of_rgb(0x1F, 0x9D, 0x57)
        &&& self.danger == of_rgb(0xD9, 0x3B, 0x3B)
        &&& self.font_family is None
        &&& self.ui_scale == DEFAULT_UI_SCALE
        &&& self.corner_radius == DEFAULT_CORNER_RADIUS
    }

    /// The dark theme.
    pub fn thornychat_dark() -> (r: Self)
        ensures
            r.is_dark_preset(),
    {
        ThemeConfig {
            name: "ThornyChat Dark".to_owned(),
            dark: true,
            background: ThemeColor::new(0x14, 0x16, 0x1C),
            surface: ThemeColor::new(0x1C, 0x1F, 0x28),
            surface_strong: ThemeColor::new(0x2A, 0x2E, 0x3A),
            text: ThemeColor::new(0xE7, 0xEA, 0xF0),
            muted_text: ThemeColor::new(0x97, 0xA0, 0xAF),
            accent: ThemeColor::new(0x5B, 0x8C, 0xF5),
            accent_text: ThemeColor::new(0xFF, 0xFF, 0xFF),
            success: ThemeColor::new(0x3F, 0xB8, 0x68),
            danger: ThemeColor::new(0xEF, 0x6B, 0x6B),
            font_family: None,
            ui_scale: DEFAULT_UI_SCALE,
            corner_radius: DEFAULT_CORNER_RADIUS,
        }
    }

    /// The light theme.
    pub fn thornychat_light() -> (r: Self)
        ensures
            r.is_light_preset(),
    {
        ThemeConfig {
            name: "ThornyChat Light".to_owned(),
            dark: false,
            background: ThemeColor::new(0xFB, 0xFB, 0xFD),
            surface: ThemeColor::new(0xF0, 0xF2, 0xF6),
            surface_strong: ThemeColor::new(0xE2, 0xE5, 0xEC),
            text: ThemeColor::new(0x1B, 0x1E, 0x26),
            muted_text: ThemeColor::new(0x5A, 0x61, 0x70),
            accent: ThemeColor::new(0x29, 0x5F, 0xD6),
            accent_text: ThemeColor::new(0xFF, 0xFF, 0xFF),
            success: ThemeColor::new(0x1F, 0x9D, 0x57),
            danger: ThemeColor::new(0xD9, 0x3B, 0x3B),
            font_family: None,
            ui_scale: DEFAULT_UI_SCALE,
            corner_radius: DEFAULT_CORNER_RADIUS,
        }
    }

    /// The theme with its sizes held within their ranges.
    pub open spec fn held_in_range(self) -> ThemeConfig {
        ThemeConfig {
            ui_scale: held(self.ui_scale, MIN_UI_SCALE, MAX_UI_SCALE, DEFAULT_UI_SCALE),
            corner_radius: held(
                self.corner_radius,
                0,
                MAX_CORNER_RADIUS,
                DEFAULT_CORNER_RADIUS,
            ),
            ..self
        }
    }

    /// The theme with its sizes held within their ranges, and replaced where
    /// they are no finite numbers: a file that someone edited by hand can
    /// carry any value, and the window would follow it.
    pub fn sanitized(self) -> (r: Self)
        ensures
            r == self.held_in_range(),
    {
        let ui_scale: u32 = hold(self.ui_scale, MIN_UI_SCALE, MAX_UI_SCALE, DEFAULT_UI_SCALE);
        let corner_radius: u32 = hold(
            self.corner_radius,
            0,
            MAX_CORNER_RADIUS,
            DEFAULT_CORNER_RADIUS,
        );
        ThemeConfig { ui_scale, corner_radius, ..self }
    }
}

impl Default for ThemeConfig {
    fn default() -> (r: Self)
        ensures
            r.is_dark_preset(),
    {
        Self::thornychat_dark()
    }
}

/// The name of the file that a theme is exported to.
pub open spec fn export_name(name: Seq<char>) -> Seq<char> {
    text::lowered(name).map_values(
        |c: char|
            if c == ' ' {
                '-'
            } else {
                c
            },
    ) + ".json"@
}

/// The name of the file that a theme is exported to.
pub fn suggested_file_name(name: &str) -> (r: String)
    ensures
        r@ == export_name(name@),
{
    let lower = name.to_lowercase();
    let v = text::chars(lower.as_str());
    let ghost dashed = lower@.map_values(
        |c: char|
            if c == ' ' {
                '-'
            } else {
                c
            },
    );
    let mut r = String::new();
    let mut i: usize = 0;
    while i < v.len()
        invariant
            v@ == lower@,
            i <= v@.len(),
            dashed.len() == v@.len(),
            forall|k: int|
                0 <= k < v@.len() ==> #[trigger] dashed[k] == if v@[k] == ' ' {
                    '-'
                } else {
                    v@[k]
                },
            r@ == dashed.take(i as int),
        decreases v@.len() - i,
    {
        r.push(
            if v[i] == ' ' {
                '-'
            } else {
                v[i]
            },
        );
        i = i + 1;
        assert(r@ =~= dashed.take(i as int));
    }
    r.append(".json");
    assert(dashed.take(v@.len() as int) =~= dashed);
    r
}

// ---------------------------------------------------------------------------
// Laws.
// ---------------------------------------------------------------------------
/// A colour that was written down reads back as itself.
pub proof fn law_hex_reads_back(c: Color)
    ensures
        parsed_hex(hex_text(c)) == Some(c),
{
    let s = hex_text(c);
    lemma_channel(c.r as int);
    lemma_channel(c.g as int);
    lemma_channel(c.b as int);
    lemma_channel(c.a as int);
    assert(s.len() == if c.a == 255 {
        7int
    } else {
        9
    });
    assert(s[0] == '#' && s[1] == upper_digit(c.r as int / 16) && s[2] == upper_digit(
        c.r as int % 16,
    ));
    assert(s[3] == upper_digit(c.g as int / 16) && s[4] == upper_digit(c.g as int % 16));
    assert(s[5] == upper_digit(c.b as int / 16) && s[6] == upper_digit(c.b as int % 16));
    if c.a != 255 {
        assert(s[7] == upper_digit(c.a as int / 16) && s[8] == upper_digit(c.a as int % 16));
    }
    text::lemma_find_from_is(s, text::non_spaces(), 0, 0);
    assert(!text::white_space(s[s.len() - 1]));
    assert(text::end_before(s, text::non_spaces(), s.len() as int) == s.len()) by {
        assert(text::non_spaces()(s[s.len() - 1]));
    }
    assert(text::trimmed(s) =~= s);
    let d = s.skip(1);
    assert(forall|i: int| 0 <= i < d.len() ==> #[trigger] d[i] == s[i + 1]);
}

/// The two digits of a channel are digits of its value.
proof fn lemma_channel(n: int)
    requires
        0 <= n < 256,
    ensures
        color::hex_digit(upper_digit(n / 16)) == Some(n / 16),
        color::hex_digit(upper_digit(n % 16)) == Some(n % 16),
        16 * (n / 16) + n % 16 == n,
        !text::white_space(upper_digit(n % 16)),
{
    lemma_digit(n / 16);
    lemma_digit(n % 16);
}

/// A digit reads back as its value.
proof fn lemma_digit(d: int)
    requires
        0 <= d < 16,
    ensures
        color::hex_digit(upper_digit(d)) == Some(d),
        !text::white_space(upper_digit(d)),
{
    let c = upper_digit(d);
    if d < 10 {
        assert(c as int == 48 + d);
    } else {
        assert(c as int == 55 + d);
    }
}

/// Holding a theme within range once is enough, and leaves the sizes in range.
pub proof fn law_sanitizing_settles(t: ThemeConfig)
    ensures
        t.held_in_range().held_in_range() == t.held_in_range(),
        MIN_UI_SCALE <= t.held_in_range().ui_scale <= MAX_UI_SCALE,
        magnitude(t.held_in_range().corner_radius) <= MAX_CORNER_RADIUS,
        !negative(t.held_in_range().corner_radius),
{
}

/// A value within its range stays, one outside it goes to the nearer end, and
/// what is no finite number goes to the default.
pub proof fn law_values_are_held_in_range(bits: u32, low: u32, high: u32, fallback: u32)
    requires
        low <= high < 0x7F80_0000,
    ensures
        low <= bits <= high ==> held(bits, low, high, fallback) == bits,
        bits < low ==> held(bits, low, high, fallback) == low,
        high < bits < 0x7F80_0000 ==> held(bits, low, high, fallback) == high,
        0x8000_0000 < bits < 0xFF80_0000 ==> held(bits, low, high, fallback) == low,
        0x7F80_0000 <= bits < 0x8000_0000 ==> held(bits, low, high, fallback) == fallback,
        bits >= 0xFF80_0000 ==> held(bits, low, high, fallback) == fallback,
{
}

/// The `#` in front of a colour may be left out, and white space around it
/// does not count.
pub proof fn law_the_hash_is_optional(
    lead: Seq<char>,
    digits: Seq<char>,
    trail: Seq<char>,
)
    requires
        forall|i: int| 0 <= i < lead.len() ==> text::white_space(#[trigger] lead[i]),
        forall|i: int| 0 <= i < trail.len() ==> text::white_space(#[trigger] trail[i]),
        digits.len() > 0,
        digits[0] != '#',
        !text::white_space(digits[0]) && !text::white_space(digits[digits.len() - 1]),
    ensures
        parsed_hex(lead + digits + trail) == parsed_hex(digits),
        parsed_hex(lead + (seq!['#'] + digits) + trail) == parsed_hex(digits),
        parsed_hex(seq!['#'] + digits) == color::tag_color(seq!['#'] + digits),
{
    let none = Seq::<char>::empty();
    let full = seq!['#'] + digits;
    text::law_trimming_takes_white_space_off(lead, digits, trail);
    text::law_trimming_takes_white_space_off(none, digits, none);
    assert(none + digits + none =~= digits);
    assert(full[full.len() - 1] == digits[digits.len() - 1]);
    text::law_trimming_takes_white_space_off(lead, full, trail);
    text::law_trimming_takes_white_space_off(none, full, none);
    assert(none + full + none =~= full);
    assert(full.skip(1) =~= digits);
}

/// A theme is exported under its lowercased name, with hyphens for spaces.
pub proof fn law_the_name_of_an_export(name: Seq<char>, a: Seq<char>, b: Seq<char>)
    requires
        text::lowered(name) == a + seq![' '] + b,
        !a.contains(' ') && !b.contains(' '),
    ensures
        export_name(name) == a + seq!['-'] + b + ".json"@,
{
    let f = |c: char|
        if c == ' ' {
            '-'
        } else {
            c
        };
    let s = a + seq![' '] + b;
    assert forall|i: int| 0 <= i < a.len() implies a[i] != ' ' by {
        assert(a.contains(a[i]));
    }
    assert forall|i: int| 0 <= i < b.len() implies b[i] != ' ' by {
        assert(b.contains(b[i]));
    }
    assert(s.map_values(f) =~= a + seq!['-'] + b);
}

} // verus!
