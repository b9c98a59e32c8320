//! The typed settings schema: every section and its defaults, and the
//! search engines with the URL each builds for a query.
//!
//! Two theme values of the persisted file, the corner radius and the blur
//! amount, are floating point numbers; they are kept beside this schema by
//! the application and do not appear here.

use vstd::prelude::*;
use vstd::utf8::encode_utf8;
use crate::text::{append_chars, chars_of, push_char, replace_all, replace_chars};

verus! {

/// Bumped whenever the schema changes in a way that needs a migration.
pub const CURRENT_SCHEMA_VERSION: u32 = 1;

#[derive(Debug, Clone, Copy, PartialEq, Eq, Structural)]
pub enum ColorScheme {
    Light,
    Dark,
    /// Follow the desktop's dark-mode setting.
    System,
}

impl Default for ColorScheme {
    fn default() -> (s: Self)
        ensures
            s == ColorScheme::System,
    {
        ColorScheme::System
    }
}

/// The theme section, less its two floating point values.
#[derive(Debug, Clone, PartialEq, Eq)]
pub struct ThemeSettings {
    /// Hex colour such as `#7c6cf0`; a malformed value falls back to the
    /// default accent when the theme is resolved.
    pub accent_color: String,
    pub sidebar_width_px: u32,
    pub color_scheme: ColorScheme,
    pub animations_enabled: bool,
    pub compact_mode: bool,
}

pub open spec fn is_default_theme(t: ThemeSettings) -> bool {
    &&& t.accent_color@ == "#7c6cf0"@
    &&& t.sidebar_width_px == 240
    &&& t.color_scheme == ColorScheme::System
    &&& t.animations_enabled
    &&& !t.compact_mode
}

impl Default for ThemeSettings {
    fn default() -> (t: Self)
        ensures
            is_default_theme(t),
    {
        ThemeSettings {
            accent_color: String::from_str("#7c6cf0"),
            sidebar_width_px: 240,
            color_scheme: ColorScheme::System,
            animations_enabled: true,
            compact_mode: false,
        }
    }
}

#[derive(Debug, Clone, PartialEq, Eq)]
pub struct PrivacySettings {
    pub adblock_enabled: bool,
    pub tracker_blocking_enabled: bool,
    pub https_upgrade_enabled: bool,
    pub block_third_party_cookies: bool,
    pub adblock_list_update_interval_hours: u32,
    /// Hosts on which blocking is switched off.
    pub adblock_allowlist: Vec<String>,
}

pub open spec fn is_default_privacy(p: PrivacySettings) -> bool {
    &&& p.adblock_enabled
    &&& p.tracker_blocking_enabled
    &&& p.https_upgrade_enabled
    &&& p.block_third_party_cookies
    &&& p.adblock_list_update_interval_hours == 24
    &&& p.adblock_allowlist@.len() == 0
}

impl Default for PrivacySettings {
    fn default() -> (p: Self)
        ensures
            is_default_privacy(p),
    {
        PrivacySettings {
            adblock_enabled: true,
            tracker_blocking_enabled: true,
            https_upgrade_enabled: true,
            block_third_party_cookies: true,
            adblock_list_update_interval_hours: 24,
            adblock_allowlist: Vec::new(),
        }
    }
}

#[derive(Debug, Clone, Copy, PartialEq, Eq, Structural)]
pub struct TabSettings {
    pub vertical_tabs: bool,
    pub suspend_inactive_tabs: bool,
    pub suspend_after_minutes: u32,
    pub open_new_tab_next_to_current: bool,
    pub confirm_before_closing_multiple_tabs: bool,
}

pub open spec fn default_tab_settings() -> TabSettings {
    TabSettings {
        vertical_tabs: true,
        suspend_inactive_tabs: true,
        suspend_after_minutes: 15,
        open_new_tab_next_to_current: true,
        confirm_before_closing_multiple_tabs: true,
    }
}

impl Default for TabSettings {
    fn default() -> (t: Self)
        ensures
            t == default_tab_settings(),
    {
        TabSettings {
            vertical_tabs: true,
            suspend_inactive_tabs: true,
            suspend_after_minutes: 15,
            open_new_tab_next_to_current: true,
            confirm_before_closing_multiple_tabs: true,
        }
    }
}

/// The default homepage: a self-contained `data:` page.
pub const DEFAULT_HOMEPAGE: &'static str = "data:text/html,<html><head><title>New Tab</title></head><body style='font-family:sans-serif;display:flex;align-items:center;justify-content:center;height:100vh;margin:0;color:%23888'><h1>Kaze</h1></body></html>";

#[derive(Debug, Clone, PartialEq, Eq)]
pub struct GeneralSettings {
    pub homepage: String,
    pub search_engine: SearchEngine,
    pub restore_session_on_startup: bool,
    pub default_download_dir: Option<String>,
    pub ask_where_to_save_downloads: bool,
}

pub open spec fn is_default_general(g: GeneralSettings) -> bool {
    &&& g.homepage@ == DEFAULT_HOMEPAGE@
    &&& g.search_engine is DuckDuckGo
    &&& g.restore_session_on_startup
    &&& g.default_download_dir is None
    &&& !g.ask_where_to_save_downloads
}

impl Default for GeneralSettings {
    fn default() -> (g: Self)
        ensures
            is_default_general(g),
    {
        GeneralSettings {
            homepage: String::from_str(DEFAULT_HOMEPAGE),
            search_engine: SearchEngine::default(),
            restore_session_on_startup: true,
            default_download_dir: None,
            ask_where_to_save_downloads: false,
        }
    }
}

/// All settings, less the two floating point theme values.
#[derive(Debug, Clone, PartialEq, Eq)]
pub struct KazeSettings {
    pub schema_version: u32,
    pub theme: ThemeSettings,
    pub privacy: PrivacySettings,
    pub tabs: TabSettings,
    pub general: GeneralSettings,
}

impl Default for KazeSettings {
    fn default() -> (s: Self)
        ensures
            s.schema_version == CURRENT_SCHEMA_VERSION,
            is_default_theme(s.theme),
            is_default_privacy(s.privacy),
            s.tabs == default_tab_settings(),
            is_default_general(s.general),
    {
        KazeSettings {
            schema_version: CURRENT_SCHEMA_VERSION,
            theme: ThemeSettings::default(),
            privacy: PrivacySettings::default(),
            tabs: TabSettings::default(),
            general: GeneralSettings::default(),
        }
    }
}

// ---------------------------------------------------------------------------
// Search engines
// ---------------------------------------------------------------------------

#[derive(Debug, Clone, PartialEq, Eq)]
pub enum SearchEngine {
    DuckDuckGo,
    Startpage,
    Brave,
    /// A URL template in which `%s` stands for the encoded query.
    Custom(String),
}

impl Default for SearchEngine {
    fn default() -> (e: Self)
        ensures
            e is DuckDuckGo,
    {
        SearchEngine::DuckDuckGo
    }
}

/// The bytes that the query encoding keeps as they are: ASCII letters,
/// digits and `-`, `_`, `.`, `~`.
pub open spec fn is_unreserved(b: u8) -> bool {
    ||| 0x41 <= b <= 0x5A
    ||| 0x61 <= b <= 0x7A
    ||| 0x30 <= b <= 0x39
    ||| b == 0x2D
    ||| b == 0x5F
    ||| b == 0x2E
    ||| b == 0x7E
}

/// Upper-case hexadecimal digit for `d` in 0..16.
pub open spec fn hex_digit_upper(d: int) -> char {
    if d < 10 {
        (48 + d) as char
    } else {
        (55 + d) as char
    }
}

/// How one byte of the query is written: kept, `+` for a space, else `%`
/// and two upper-case hex digits.
pub open spec fn encode_query_byte(b: u8) -> Seq<char> {
    if is_unreserved(b) {
        seq![b as char]
    } else if b == 0x20 {
        seq!['+']
    } else {
        seq!['%', hex_digit_upper((b / 16) as int), hex_digit_upper((b % 16) as int)]
    }
}

/// The encoding of a sequence of bytes, byte by byte.
pub open spec fn encode_query_bytes(bytes: Seq<u8>) -> Seq<char>
    decreases bytes.len(),
{
    if bytes.len() == 0 {
        seq![]
    } else {
        encode_query_byte(bytes[0]) + encode_query_bytes(bytes.drop_first())
    }
}

/// The query encoding of a string: its UTF-8 bytes, each encoded.
pub open spec fn encode_query(query: Seq<char>) -> Seq<char> {
    encode_query_bytes(encode_utf8(query))
}

/// The search URL an engine builds for a query.
pub open spec fn spec_query_url(engine: SearchEngine, query: Seq<char>) -> Seq<char> {
    let encoded = encode_query(query);
    match engine {
        SearchEngine::DuckDuckGo => "https://duckduckgo.com/?q="@ + encoded,
        SearchEngine::Startpage => "https://www.startpage.com/sp/search?query="@ + encoded,
        SearchEngine::Brave => "https://search.brave.com/search?q="@ + encoded,
        SearchEngine::Custom(template) => replace_all(template@, "%s"@, encoded),
    }
}

fn hex_digit(d: u8) -> (c: char)
    requires
        d < 16,
    ensures
        c == hex_digit_upper(d as int),
{
    if d < 10 {
        (48 + d) as char
    } else {
        (55 + d) as char
    }
}

fn is_unreserved_byte(b: u8) -> (res: bool)
    ensures
        res == is_unreserved(b),
{
    (0x41 <= b && b <= 0x5A) || (0x61 <= b && b <= 0x7A) || (0x30 <= b && b <= 0x39) || b == 0x2D
        || b == 0x5F || b == 0x2E || b == 0x7E
}

/// Percent-encodes the UTF-8 bytes of `input`, with `+` for spaces.
fn urlencoding_minimal(input: &str) -> (out: String)
    ensures
        out@ == encode_query(input@),
{
    let bytes = input.as_bytes();
    let n = bytes.len();
    let mut out = String::new();
    let mut i: usize = 0;
    assert(bytes@.skip(0) =~= bytes@);
    while i < n
        invariant
            n == bytes@.len(),
            bytes@ == encode_utf8(input@),
            i <= n,
            encode_query(input@) == out@ + encode_query_bytes(bytes@.skip(i as int)),
        decreases n - i,
    {
        let b = bytes[i];
        let ghost before = out@;
        if is_unreserved_byte(b) {
            push_char(&mut out, b as char);
        } else if b == 0x20 {
            push_char(&mut out, '+');
        } else {
            push_char(&mut out, '%');
            push_char(&mut out, hex_digit(b / 16));
            push_char(&mut out, hex_digit(b % 16));
        }
        assert(out@ =~= before + encode_query_byte(b));
        assert(bytes@.skip(i as int).drop_first() =~= bytes@.skip(i + 1));
        i = i + 1;
    }
    assert(bytes@.skip(n as int) =~= Seq::<u8>::empty());
    out
}

impl SearchEngine {
    /// The search URL for `query`: the engine's address with the encoded
    /// query appended, or, for a custom engine, its template with every
    /// `%s` replaced by the encoded query.
    pub fn query_url(&self, query: &str) -> (url: String)
        ensures
            url@ == spec_query_url(*self, query@),
    {
        let encoded = urlencoding_minimal(query);
        match self {
            SearchEngine::DuckDuckGo => {
                let mut url = String::from_str("https://duckduckgo.com/?q=");
                url.append(encoded.as_str());
                url
            },
            SearchEngine::Startpage => {
                let mut url = String::from_str("https://www.startpage.com/sp/search?query=");
                url.append(encoded.as_str());
                url
            },
            SearchEngine::Brave => {
                let mut url = String::from_str("https://search.brave.com/search?q=");
                url.append(encoded.as_str());
                url
            },
            SearchEngine::Custom(template) => {
                let pat = chars_of("%s");
                proof {
                    reveal_strlit("%s");
                }
                replace_chars(&chars_of(template.as_str()), &pat, &chars_of(encoded.as_str()))
            },
        }
    }
}

/// No character of an encoded query is whitespace, and a non-empty query
/// encodes to a non-empty text.
pub proof fn lemma_encoded_query_has_no_whitespace(bytes: Seq<u8>)
    ensures
        forall|i: int|
            0 <= i < encode_query_bytes(bytes).len() ==> !crate::text::is_unicode_whitespace(
                #[trigger] encode_query_bytes(bytes)[i],
            ),
        bytes.len() > 0 ==> encode_query_bytes(bytes).len() > 0,
    decreases bytes.len(),
{
    if bytes.len() > 0 {
        lemma_encoded_query_has_no_whitespace(bytes.drop_first());
        let head = encode_query_byte(bytes[0]);
        let tail = encode_query_bytes(bytes.drop_first());
        assert forall|i: int| 0 <= i < head.len() implies !crate::text::is_unicode_whitespace(
            #[trigger] head[i],
        ) by {
            let b = bytes[0];
            if !is_unreserved(b) && b != 0x20 {
                assert(0 <= b / 16 < 16);
                assert(0 <= b % 16 < 16);
            }
        }
        assert forall|i: int|
            0 <= i < encode_query_bytes(bytes).len() implies !crate::text::is_unicode_whitespace(
            #[trigger] encode_query_bytes(bytes)[i],
        ) by {
            if i < head.len() {
                assert(encode_query_bytes(bytes)[i] == head[i]);
            } else {
                assert(encode_query_bytes(bytes)[i] == tail[i - head.len()]);
            }
        }
    }
}

/// Whether `c` is upper-case hexadecimal digit.
pub open spec fn is_upper_hex_digit(c: char) -> bool {
    ||| 0x30 <= c as int <= 0x39
    ||| 0x41 <= c as int <= 0x46
}

/// Whether `c` may stand in an encoded query: an unreserved ASCII
/// character, `+` or `%`.
pub open spec fn is_query_char(c: char) -> bool {
    ||| 0x41 <= c as int <= 0x5A
    ||| 0x61 <= c as int <= 0x7A
    ||| 0x30 <= c as int <= 0x39
    ||| c == '-'
    ||| c == '_'
    ||| c == '.'
    ||| c == '~'
    ||| c == '+'
    ||| c == '%'
}

/// How many characters one byte takes once encoded.
pub open spec fn encoded_byte_len(b: u8) -> nat {
    if is_unreserved(b) || b == 0x20 {
        1
    } else {
        3
    }
}

/// The sum of `encoded_byte_len` over `bytes`.
pub open spec fn encoded_len(bytes: Seq<u8>) -> nat
    decreases bytes.len(),
{
    if bytes.len() == 0 {
        0
    } else {
        encoded_byte_len(bytes[0]) + encoded_len(bytes.drop_first())
    }
}

/// The value of a hexadecimal digit of either case (0 for any other
/// character).
pub open spec fn hex_digit_value(c: char) -> int {
    if 0x30 <= c as int <= 0x39 {
        c as int - 0x30
    } else if 0x41 <= c as int <= 0x46 {
        c as int - 0x37
    } else if 0x61 <= c as int <= 0x66 {
        c as int - 0x57
    } else {
        0
    }
}

/// Reads an encoded query back into bytes: `+` is a space, `%` and two
/// hex digits one byte, any other character the byte of its code.
pub open spec fn decode_query(s: Seq<char>) -> Seq<u8>
    decreases s.len(),
{
    if s.len() == 0 {
        seq![]
    } else if s[0] == '+' {
        seq![0x20u8] + decode_query(s.drop_first())
    } else if s[0] == '%' && s.len() >= 3 {
        seq![(16 * hex_digit_value(s[1]) + hex_digit_value(s[2])) as u8] + decode_query(s.skip(3))
    } else {
        seq![s[0] as u8] + decode_query(s.drop_first())
    }
}

proof fn lemma_hex_digit_round_trip(d: int)
    requires
        0 <= d < 16,
    ensures
        hex_digit_value(hex_digit_upper(d)) == d,
        is_upper_hex_digit(hex_digit_upper(d)),
        is_query_char(hex_digit_upper(d)),
{
}

proof fn lemma_decode_one_byte(b: u8, rest: Seq<char>)
    ensures
        decode_query(encode_query_byte(b) + rest) == seq![b] + decode_query(rest),
{
    let s = encode_query_byte(b) + rest;
    if is_unreserved(b) {
        assert(s.drop_first() =~= rest);
    } else if b == 0x20 {
        assert(s.drop_first() =~= rest);
    } else {
        lemma_hex_digit_round_trip((b / 16) as int);
        lemma_hex_digit_round_trip((b % 16) as int);
        assert(s.skip(3) =~= rest);
        assert(16 * (b / 16) + b % 16 == b);
    }
}

/// Decoding an encoded query gives back its bytes.
pub proof fn lemma_decode_encoded_query(bytes: Seq<u8>)
    ensures
        decode_query(encode_query_bytes(bytes)) == bytes,
    decreases bytes.len(),
{
    if bytes.len() > 0 {
        lemma_decode_one_byte(bytes[0], encode_query_bytes(bytes.drop_first()));
        lemma_decode_encoded_query(bytes.drop_first());
        assert(seq![bytes[0]] + bytes.drop_first() =~= bytes);
    }
}

/// An encoded query holds only unreserved characters, `+` and `%`; every
/// `%` is followed by two upper-case hex digits; and its length is the sum,
/// over the bytes, of 1 for an unreserved byte or a space and 3 for any
/// other byte.
pub proof fn lemma_encoded_query_shape(bytes: Seq<u8>)
    ensures
        encode_query_bytes(bytes).len() == encoded_len(bytes),
        forall|i: int|
            0 <= i < encode_query_bytes(bytes).len() ==> is_query_char(
                #[trigger] encode_query_bytes(bytes)[i],
            ),
        forall|i: int|
            0 <= i < encode_query_bytes(bytes).len() && #[trigger] encode_query_bytes(bytes)[i]
                == '%' ==> {
                &&& i + 2 < encode_query_bytes(bytes).len()
                &&& is_upper_hex_digit(encode_query_bytes(bytes)[i + 1])
                &&& is_upper_hex_digit(encode_query_bytes(bytes)[i + 2])
            },
    decreases bytes.len(),
{
    if bytes.len() > 0 {
        let b = bytes[0];
        let head = encode_query_byte(b);
        let tail = encode_query_bytes(bytes.drop_first());
        let all = encode_query_bytes(bytes);
        lemma_encoded_query_shape(bytes.drop_first());
        assert(all == head + tail);
        if !is_unreserved(b) && b != 0x20 {
            lemma_hex_digit_round_trip((b / 16) as int);
            lemma_hex_digit_round_trip((b % 16) as int);
        }
        assert forall|i: int| 0 <= i < all.len() implies is_query_char(#[trigger] all[i]) by {
            if i >= head.len() {
                assert(all[i] == tail[i - head.len()]);
            }
        }
        assert forall|i: int| 0 <= i < all.len() && #[trigger] all[i] == '%' implies {
            &&& i + 2 < all.len()
            &&& is_upper_hex_digit(all[i + 1])
            &&& is_upper_hex_digit(all[i + 2])
        } by {
            if i >= head.len() {
                assert(all[i] == tail[i - head.len()]);
                assert(all[i + 1] == tail[i + 1 - head.len()]);
                assert(all[i + 2] == tail[i + 2 - head.len()]);
            }
        }
    }
}

/// Different queries encode to different texts.
pub proof fn lemma_encode_query_injective(a: Seq<char>, b: Seq<char>)
    ensures
        encode_query(a) == encode_query(b) ==> a == b,
{
    broadcast use vstd::utf8::encode_utf8_decode_utf8;

    lemma_decode_encoded_query(encode_utf8(a));
    lemma_decode_encoded_query(encode_utf8(b));
    if encode_query(a) == encode_query(b) {
        assert(encode_utf8(a) == encode_utf8(b));
        assert(vstd::utf8::decode_utf8(encode_utf8(a)) == a);
        assert(vstd::utf8::decode_utf8(encode_utf8(b)) == b);
    }
}

proof fn lemma_replace_passes_plain_text(p: Seq<char>, rest: Seq<char>, rep: Seq<char>)
    requires
        forall|i: int| 0 <= i < p.len() ==> p[i] != '%',
    ensures
        replace_all(p + rest, "%s"@, rep) == p + replace_all(rest, "%s"@, rep),
    decreases p.len(),
{
    reveal_strlit("%s");
    if p.len() > 0 {
        let s = p + rest;
        assert(s[0] == p[0]);
        if s.len() >= 2 {
            assert(s.subrange(0, 2)[0] == p[0]);
        }
        assert(!crate::text::is_prefix("%s"@, s));
        assert(s.drop_first() =~= p.drop_first() + rest);
        lemma_replace_passes_plain_text(p.drop_first(), rest, rep);
        assert(seq![p[0]] + (p.drop_first() + replace_all(rest, "%s"@, rep)) =~= p + replace_all(
            rest,
            "%s"@,
            rep,
        ));
    } else {
        assert(p + rest =~= rest);
    }
}

/// A custom engine whose template holds one `%s`, and no other `%`, gets
/// the encoded query in place of the `%s` and the rest of the template as
/// it is.
pub proof fn lemma_custom_template_places_query(
    template: String,
    before: Seq<char>,
    after: Seq<char>,
    query: Seq<char>,
)
    requires
        template@ == before + "%s"@ + after,
        forall|i: int| 0 <= i < before.len() ==> before[i] != '%',
        forall|i: int| 0 <= i < after.len() ==> after[i] != '%',
    ensures
        spec_query_url(SearchEngine::Custom(template), query) == before + encode_query(query) + after,
{
    reveal_strlit("%s");
    let e = encode_query(query);
    let rest = "%s"@ + after;
    assert(template@ =~= before + rest);
    lemma_replace_passes_plain_text(before, rest, e);
    assert(crate::text::is_prefix("%s"@, rest)) by {
        assert(rest.subrange(0, 2) =~= "%s"@);
    }
    assert(rest.skip(2) =~= after);
    lemma_replace_passes_plain_text(after, Seq::<char>::empty(), e);
    assert(after + Seq::<char>::empty() =~= after);
    assert(before + (e + after) =~= before + e + after);
}

/// A built-in engine builds different search URLs for different queries.
pub proof fn lemma_builtin_engine_urls_distinguish_queries(
    engine: SearchEngine,
    a: Seq<char>,
    b: Seq<char>,
)
    requires
        !(engine is Custom),
    ensures
        spec_query_url(engine, a) == spec_query_url(engine, b) ==> a == b,
{
    if spec_query_url(engine, a) == spec_query_url(engine, b) {
        let prefix = match engine {
            SearchEngine::DuckDuckGo => "https://duckduckgo.com/?q="@,
            SearchEngine::Startpage => "https://www.startpage.com/sp/search?query="@,
            _ => "https://search.brave.com/search?q="@,
        };
        let (ea, eb) = (encode_query(a), encode_query(b));
        assert((prefix + ea).skip(prefix.len() as int) =~= ea);
        assert((prefix + eb).skip(prefix.len() as int) =~= eb);
        lemma_encode_query_injective(a, b);
    }
}

} // verus!
