//! The internal new-tab page. Its sentinel URL stands for it everywhere
//! inside the browser; only right before a page is loaded is the sentinel
//! turned into a real `data:` URL holding the page, base64-encoded.

use vstd::prelude::*;
use vstd::utf8::encode_utf8;
use base64::Engine;
use crate::text::{is_prefix, starts_with, str_eq};

verus! {

/// What the "+" button and the homepage refer to. Never loaded as is:
/// [`resolve`] turns it into a loadable `data:` URL.
pub const NEWTAB_SENTINEL: &'static str = "kaze://newtab";

/// The prefix of the `data:` URL that [`resolve`] produces.
pub const DATA_URL_PREFIX: &'static str = "data:text/html;base64,";

/// The new-tab page.
pub const NEWTAB_HTML: &'static str = r#"<!doctype html>
<html>
<head>
<title>New Tab</title>
<style>
  html, body { margin: 0; height: 100%; }
  body {
    font-family: -apple-system, "Segoe UI", sans-serif;
    background: #fafafa;
    color: #1a1a1a;
    display: flex;
    flex-direction: column;
    align-items: center;
    justify-content: center;
  }
  h1 {
    font-size: 40px;
    font-weight: 700;
    color: #7c6cf0;
    margin: 0 0 28px 0;
    letter-spacing: -0.02em;
  }
  form { width: 100%; max-width: 480px; padding: 0 24px; }
  input {
    width: 100%;
    box-sizing: border-box;
    padding: 14px 20px;
    font-size: 16px;
    border-radius: 999px;
    border: 1px solid #ddd;
    outline: none;
    background: #fff;
  }
  input:focus { border-color: #7c6cf0; }
</style>
</head>
<body>
  <h1>Kaze</h1>
  <form onsubmit="
    event.preventDefault();
    var q = document.getElementById('q').value.trim();
    if (q) { window.location.href = 'https://duckduckgo.com/?q=' + encodeURIComponent(q); }
    return false;
  ">
    <input id="q" type="text" placeholder="Search the web" autofocus autocomplete="off">
  </form>
</body>
</html>"#;

proof fn lemma_newtab_html_is_short()
    ensures
        NEWTAB_HTML@.len() < 2000,
{
    reveal_strlit(r#"<!doctype html>
<html>
<head>
<title>New Tab</title>
<style>
  html, body { margin: 0; height: 100%; }
  body {
    font-family: -apple-system, "Segoe UI", sans-serif;
    background: #fafafa;
    color: #1a1a1a;
    display: flex;
    flex-direction: column;
    align-items: center;
    justify-content: center;
  }
  h1 {
    font-size: 40px;
    font-weight: 700;
    color: #7c6cf0;
    margin: 0 0 28px 0;
    letter-spacing: -0.02em;
  }
  form { width: 100%; max-width: 480px; padding: 0 24px; }
  input {
    width: 100%;
    box-sizing: border-box;
    padding: 14px 20px;
    font-size: 16px;
    border-radius: 999px;
    border: 1px solid #ddd;
    outline: none;
    background: #fff;
  }
  input:focus { border-color: #7c6cf0; }
</style>
</head>
<body>
  <h1>Kaze</h1>
  <form onsubmit="
    event.preventDefault();
    var q = document.getElementById('q').value.trim();
    if (q) { window.location.href = 'https://duckduckgo.com/?q=' + encodeURIComponent(q); }
    return false;
  ">
    <input id="q" type="text" placeholder="Search the web" autofocus autocomplete="off">
  </form>
</body>
</html>"#);
}

/// The character of value `v` (0..64) in base64's standard alphabet.
pub open spec fn base64_char(v: int) -> char {
    if v < 26 {
        (65 + v) as char
    } else if v < 52 {
        (97 + v - 26) as char
    } else if v < 62 {
        (48 + v - 52) as char
    } else if v == 62 {
        '+'
    } else {
        '/'
    }
}

/// `bytes` in base64 with the standard alphabet and `=` padding (RFC 4648,
/// section 4): every three bytes give four characters; a last group of
/// one or two bytes is padded.
pub open spec fn base64_standard(bytes: Seq<u8>) -> Seq<char>
    decreases bytes.len(),
{
    if bytes.len() == 0 {
        seq![]
    } else if bytes.len() == 1 {
        let a = bytes[0] as int;
        seq![base64_char(a / 4), base64_char((a % 4) * 16), '=', '=']
    } else if bytes.len() == 2 {
        let a = bytes[0] as int;
        let b = bytes[1] as int;
        seq![base64_char(a / 4), base64_char((a % 4) * 16 + b / 16), base64_char((b % 16) * 4), '=']
    } else {
        let a = bytes[0] as int;
        let b = bytes[1] as int;
        let c = bytes[2] as int;
        seq![
            base64_char(a / 4),
            base64_char((a % 4) * 16 + b / 16),
            base64_char((b % 16) * 4 + c / 64),
            base64_char(c % 64),
        ] + base64_standard(bytes.skip(3))
    }
}

/// Calls `base64::engine::general_purpose::STANDARD.encode`, which writes
/// `bytes` in the standard base64 alphabet with `=` padding. It panics when
/// the length of the text would not fit in a `usize`; `requires` leaves
/// those inputs out.
#[verifier::external_body]
fn encode_base64(bytes: &[u8]) -> (text: String)
    requires
        (bytes@.len() + 2) / 3 * 4 <= usize::MAX,
    ensures
        text@ == base64_standard(bytes@),
{
    base64::engine::general_purpose::STANDARD.encode(bytes)
}

/// A page that belongs to the browser itself rather than to the web: the
/// sentinel, or a base64 `data:` HTML page.
pub open spec fn spec_is_internal_page(url: Seq<char>) -> bool {
    url == NEWTAB_SENTINEL@ || is_prefix(DATA_URL_PREFIX@, url)
}

pub fn is_internal_page(url: &str) -> (res: bool)
    ensures
        res == spec_is_internal_page(url@),
{
    str_eq(url, NEWTAB_SENTINEL) || starts_with(url, DATA_URL_PREFIX)
}

/// The URL to hand to the engine for `url`: the new-tab page as a `data:`
/// URL for the sentinel, any other URL unchanged.
pub open spec fn spec_resolve(url: Seq<char>) -> Seq<char> {
    if url == NEWTAB_SENTINEL@ {
        DATA_URL_PREFIX@ + base64_standard(encode_utf8(NEWTAB_HTML@))
    } else {
        url
    }
}

proof fn lemma_encode_utf8_len(s: Seq<char>)
    ensures
        encode_utf8(s).len() <= 4 * s.len(),
    decreases s.len(),
{
    if s.len() > 0 {
        lemma_encode_utf8_len(s.drop_first());
    }
}

/// Turns the sentinel into a loadable `data:` URL; any other URL passes
/// through unchanged.
pub fn resolve(url: &str) -> (res: String)
    ensures
        res@ == spec_resolve(url@),
{
    if !str_eq(url, NEWTAB_SENTINEL) {
        return String::from_str(url);
    }
    let bytes = NEWTAB_HTML.as_bytes();
    proof {
        lemma_newtab_html_is_short();
        lemma_encode_utf8_len(NEWTAB_HTML@);
    }
    let encoded = encode_base64(bytes);
    let mut res = String::from_str(DATA_URL_PREFIX);
    res.append(encoded.as_str());
    res
}

/// The URL that the sentinel resolves to is itself an internal page, and
/// resolving is idempotent: a resolved URL resolves to itself.
pub proof fn lemma_resolve_idempotent_and_internal(url: Seq<char>)
    ensures
        spec_resolve(spec_resolve(url)) == spec_resolve(url),
        url == NEWTAB_SENTINEL@ ==> spec_is_internal_page(spec_resolve(url)),
{
    if url == NEWTAB_SENTINEL@ {
        reveal_strlit("kaze://newtab");
        reveal_strlit("data:text/html;base64,");
        let r = spec_resolve(url);
        assert(r[0] == 'd');
        assert(NEWTAB_SENTINEL@[0] == 'k');
        assert(r.subrange(0, DATA_URL_PREFIX@.len() as int) =~= DATA_URL_PREFIX@);
    }
}

} // verus!
