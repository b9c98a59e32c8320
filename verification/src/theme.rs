//! Turns theme settings into concrete values: the accent colour parsed
//! from its hex string, the light/dark scheme resolved against the
//! desktop's dark-mode flag, and the sidebar width clamped to its range.
//!
//! The corner radius and the blur amount are floating point values; the
//! application clamps those itself when it resolves a theme.

use vstd::prelude::*;
use vstd::utf8::{encode_utf8, is_ascii_chars, is_ascii_chars_encode_utf8};
use crate::settings::{ColorScheme, ThemeSettings};
use crate::text::{chars_of, lemma_trim_of_untrimmable, push_char, string_of, trim, trim_chars};

verus! {

#[derive(Debug, Clone, Copy, PartialEq, Eq, Structural)]
pub enum ResolvedScheme {
    Light,
    Dark,
}

#[derive(Debug, Clone, Copy, PartialEq, Eq, Structural)]
pub struct Rgb {
    pub r: u8,
    pub g: u8,
    pub b: u8,
}

/// The theme values the rest of the browser uses, less the two floating
/// point ones.
#[derive(Debug, Clone, Copy, PartialEq, Eq, Structural)]
pub struct ResolvedTheme {
    pub accent: Rgb,
    pub sidebar_width_px: u32,
    pub scheme: ResolvedScheme,
    pub animations_enabled: bool,
    pub compact_mode: bool,
}

/// Kaze's default accent, `#7c6cf0`.
pub open spec fn default_accent() -> Rgb {
    Rgb { r: 0x7c, g: 0x6c, b: 0xf0 }
}

// ---------------------------------------------------------------------------
// Decimal text of a byte
// ---------------------------------------------------------------------------

pub open spec fn decimal_digit(d: int) -> char {
    (48 + d) as char
}

/// The decimal numeral of `n`, without leading zeros.
pub open spec fn decimal(n: nat) -> Seq<char>
    decreases n,
{
    if n < 10 {
        seq![decimal_digit(n as int)]
    } else {
        decimal(n / 10).push(decimal_digit((n % 10) as int))
    }
}

/// `rgb(r, g, b)` with each component in decimal.
pub open spec fn spec_to_css(c: Rgb) -> Seq<char> {
    "rgb("@ + decimal(c.r as nat) + ", "@ + decimal(c.g as nat) + ", "@ + decimal(c.b as nat)
        + ")"@
}

fn push_decimal(out: &mut String, n: u8)
    ensures
        final(out)@ == old(out)@ + decimal(n as nat),
{
    reveal_with_fuel(decimal, 3);
    if n >= 100 {
        push_char(out, (48 + n / 100) as char);
    }
    if n >= 10 {
        push_char(out, (48 + (n / 10) % 10) as char);
    }
    push_char(out, (48 + n % 10) as char);
    proof {
        if n >= 100 {
            assert(decimal((n / 10) as nat) == decimal((n / 100) as nat).push(
                decimal_digit(((n / 10) % 10) as int),
            ));
        }
    }
    assert(final(out)@ =~= old(out)@ + decimal(n as nat));
}

// ---------------------------------------------------------------------------
// Hex parsing
// ---------------------------------------------------------------------------

/// `s` with every leading `c` removed.
pub open spec fn strip_leading(s: Seq<char>, c: char) -> Seq<char>
    decreases s.len(),
{
    if s.len() > 0 && s[0] == c {
        strip_leading(s.drop_first(), c)
    } else {
        s
    }
}

/// The UTF-8 bytes that are left of a colour string once it is trimmed of
/// whitespace and of its leading `#` characters.
pub open spec fn hex_body(s: Seq<char>) -> Seq<u8> {
    encode_utf8(strip_leading(trim(s), '#'))
}

/// The value of one hexadecimal digit byte.
pub open spec fn hex_value(b: u8) -> Option<u8> {
    if 0x30 <= b <= 0x39 {
        Some((b - 0x30) as u8)
    } else if 0x61 <= b <= 0x66 {
        Some((b - 0x61 + 10) as u8)
    } else if 0x41 <= b <= 0x46 {
        Some((b - 0x41 + 10) as u8)
    } else {
        None
    }
}

/// Two bytes read as a hexadecimal pair, when both are hex digits.
pub open spec fn parse_hex_pair(b0: u8, b1: u8) -> Option<u8> {
    match (hex_value(b0), hex_value(b1)) {
        (Some(x), Some(y)) => Some((16 * x + y) as u8),
        _ => None,
    }
}

/// The colour a string names: six bytes that are all hex digits, read as
/// three pairs; anything else gives the default accent.
pub open spec fn spec_from_hex(s: Seq<char>) -> Rgb {
    let b = hex_body(s);
    if b.len() != 6 {
        default_accent()
    } else {
        match (parse_hex_pair(b[0], b[1]), parse_hex_pair(b[2], b[3]), parse_hex_pair(b[4], b[5])) {
            (Some(r), Some(g), Some(bl)) => Rgb { r, g, b: bl },
            _ => default_accent(),
        }
    }
}

fn hex_val(b: u8) -> (v: Option<u8>)
    ensures
        v == hex_value(b),
{
    if 0x30 <= b && b <= 0x39 {
        Some(b - 0x30)
    } else if 0x61 <= b && b <= 0x66 {
        Some(b - 0x61 + 10)
    } else if 0x41 <= b && b <= 0x46 {
        Some(b - 0x41 + 10)
    } else {
        None
    }
}

fn parse_pair(b0: u8, b1: u8) -> (v: Option<u8>)
    ensures
        v == parse_hex_pair(b0, b1),
{
    match (hex_val(b0), hex_val(b1)) {
        (Some(x), Some(y)) => Some(16 * x + y),
        _ => None,
    }
}

/// The colour string trimmed of whitespace and of its leading `#`s.
fn hex_body_text(hex: &str) -> (body_text: String)
    ensures
    body_text@ == strip_leading(trim(hex@), '#'),
{
    let trimmed = trim_chars(&chars_of(hex));
    let n = trimmed.len();
    let mut start: usize = 0;
    assert(trimmed@.subrange(0, n as int) =~= trimmed@);
    while start < n && trimmed[start] == '#'
        invariant
            n == trimmed@.len(),
            start <= n,
            strip_leading(trimmed@, '#') == strip_leading(
                trimmed@.subrange(start as int, n as int),
                '#',
            ),
        decreases n - start,
    {
        assert(trimmed@.subrange(start as int, n as int).drop_first() =~= trimmed@.subrange(
            start + 1,
            n as int,
        ));
        start = start + 1;
    }
    let mut body: Vec<char> = Vec::new();
    let mut k: usize = start;
    while k < n
        invariant
            n == trimmed@.len(),
            start <= k <= n,
            body@ == trimmed@.subrange(start as int, k as int),
        decreases n - k,
    {
        body.push(trimmed[k]);
        assert(trimmed@.subrange(start as int, k + 1) =~= trimmed@.subrange(
            start as int,
            k as int,
        ).push(trimmed@[k as int]));
        k = k + 1;
    }
    string_of(&body)
}

impl Rgb {
    /// `rgb(r, g, b)`, each component in decimal.
    pub fn to_css(self) -> (css: String)
        ensures
            css@ == spec_to_css(self),
    {
        let mut css = String::from_str("rgb(");
        push_decimal(&mut css, self.r);
        css.append(", ");
        push_decimal(&mut css, self.g);
        css.append(", ");
        push_decimal(&mut css, self.b);
        css.append(")");
        css
    }

    /// Parses a `#rrggbb` hex string. Surrounding whitespace and leading
    /// `#` characters are ignored; anything that is not then six hex digits
    /// (in either case) gives the default accent `#7c6cf0`. Every string
    /// gives a colour.
    pub fn from_hex(hex: &str) -> (c: Rgb)
        ensures
            c == spec_from_hex(hex@),
    {
        let default = Rgb { r: 0x7c, g: 0x6c, b: 0xf0 };
        let body_text = hex_body_text(hex);
        let bytes = body_text.as_str().as_bytes();
        assert(bytes@ == hex_body(hex@));
        if bytes.len() != 6 {
            return default;
        }
        match (parse_pair(bytes[0], bytes[1]), parse_pair(bytes[2], bytes[3]), parse_pair(bytes[4], bytes[5])) {
            (Some(r), Some(g), Some(b)) => Rgb { r, g, b },
            _ => default,
        }
    }
}

/// The scheme a setting stands for, given the desktop's dark-mode flag.
pub open spec fn spec_resolve_scheme(scheme: ColorScheme, system_is_dark: bool) -> ResolvedScheme {
    match scheme {
        ColorScheme::Light => ResolvedScheme::Light,
        ColorScheme::Dark => ResolvedScheme::Dark,
        ColorScheme::System => if system_is_dark {
            ResolvedScheme::Dark
        } else {
            ResolvedScheme::Light
        },
    }
}

/// `x` kept within `lo..=hi`.
pub open spec fn clamp(x: int, lo: int, hi: int) -> int {
    if x < lo {
        lo
    } else if x > hi {
        hi
    } else {
        x
    }
}

/// The resolved theme of a settings value.
pub open spec fn spec_resolve(settings: ThemeSettings, system_is_dark: bool) -> ResolvedTheme {
    ResolvedTheme {
        accent: spec_from_hex(settings.accent_color@),
        sidebar_width_px: clamp(settings.sidebar_width_px as int, 160, 480) as u32,
        scheme: spec_resolve_scheme(settings.color_scheme, system_is_dark),
        animations_enabled: settings.animations_enabled,
        compact_mode: settings.compact_mode,
    }
}

/// Resolves theme settings against whether the desktop is currently dark
/// (which only matters for the `System` scheme).
pub fn resolve(settings: &ThemeSettings, system_is_dark: bool) -> (t: ResolvedTheme)
    ensures
        t == spec_resolve(*settings, system_is_dark),
        160 <= t.sidebar_width_px <= 480,
{
    let scheme = match settings.color_scheme {
        ColorScheme::Light => ResolvedScheme::Light,
        ColorScheme::Dark => ResolvedScheme::Dark,
        ColorScheme::System => {
            if system_is_dark {
                ResolvedScheme::Dark
            } else {
                ResolvedScheme::Light
            }
        },
    };
    let w = settings.sidebar_width_px;
    let width = if w < 160 {
        160
    } else if w > 480 {
        480
    } else {
        w
    };
    ResolvedTheme {
        accent: Rgb::from_hex(settings.accent_color.as_str()),
        sidebar_width_px: width,
        scheme,
        animations_enabled: settings.animations_enabled,
        compact_mode: settings.compact_mode,
    }
}

/// The hexadecimal digit for `d` in 0..16, lower or upper case.
pub open spec fn hex_digit_char(d: int, upper: bool) -> char {
    if d < 10 {
        (48 + d) as char
    } else if upper {
        (55 + d) as char
    } else {
        (87 + d) as char
    }
}

/// A colour written as six hex digits, `rrggbb`, in one case.
pub open spec fn hex_text(c: Rgb, upper: bool) -> Seq<char> {
    seq![
        hex_digit_char((c.r / 16) as int, upper),
        hex_digit_char((c.r % 16) as int, upper),
        hex_digit_char((c.g / 16) as int, upper),
        hex_digit_char((c.g % 16) as int, upper),
        hex_digit_char((c.b / 16) as int, upper),
        hex_digit_char((c.b % 16) as int, upper),
    ]
}

proof fn lemma_hex_digit_value(d: int, upper: bool)
    requires
        0 <= d < 16,
    ensures
        hex_value(hex_digit_char(d, upper) as u8) == Some(d as u8),
        !crate::text::is_unicode_whitespace(hex_digit_char(d, upper)),
        hex_digit_char(d, upper) != '#',
        '\0' <= hex_digit_char(d, upper) <= '\u{7f}',
{
}

/// A colour written as six hex digits, in either case, with or without a
/// leading `#`, parses back to itself.
pub proof fn lemma_from_hex_round_trip(c: Rgb, upper: bool, hash: bool)
    ensures
        spec_from_hex((if hash { seq!['#'] } else { Seq::<char>::empty() }) + hex_text(c, upper)) == c,
{
    let d = hex_text(c, upper);
    let s = (if hash { seq!['#'] } else { Seq::<char>::empty() }) + d;
    lemma_hex_digit_value((c.r / 16) as int, upper);
    lemma_hex_digit_value((c.r % 16) as int, upper);
    lemma_hex_digit_value((c.g / 16) as int, upper);
    lemma_hex_digit_value((c.g % 16) as int, upper);
    lemma_hex_digit_value((c.b / 16) as int, upper);
    lemma_hex_digit_value((c.b % 16) as int, upper);
    assert(s.last() == d[5]);
    lemma_trim_of_untrimmable(s);
    reveal_with_fuel(strip_leading, 2);
    if hash {
        assert(s.drop_first() =~= d);
    } else {
        assert(s =~= d);
    }
    assert(strip_leading(trim(s), '#') == d);
    assert(is_ascii_chars(d));
    is_ascii_chars_encode_utf8(d);
    let b = hex_body(s);
    assert(b.len() == 6);
    assert(b[0] == d[0] as u8 && b[1] == d[1] as u8 && b[2] == d[2] as u8);
    assert(b[3] == d[3] as u8 && b[4] == d[4] as u8 && b[5] == d[5] as u8);
}

} // verus!
