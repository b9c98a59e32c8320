//! The browser window's decisions, apart from its widgets: what the
//! address bar input means, how engine events change a tab, and how the
//! window reacts to a batch of tab events.

use vstd::prelude::*;
use vstd::utf8::encode_utf8;
use crate::engine::EngineEvent;
use crate::settings::{encode_query_bytes, lemma_encoded_query_has_no_whitespace, spec_query_url, SearchEngine};
use crate::tabs::{position_of, Tab, TabEvent, TabId, TabStore};
use crate::text::{
    chars_of, contains_char, has_char, lemma_trim_idempotent, lemma_trim_of_untrimmable,
    string_of, trim, trim_chars,
};

verus! {

// ---------------------------------------------------------------------------
// Address bar input
// ---------------------------------------------------------------------------

pub open spec fn is_ascii_letter(c: char) -> bool {
    ('a' <= c <= 'z') || ('A' <= c <= 'Z')
}

/// A character that may follow the first letter of a URL scheme.
pub open spec fn is_scheme_char(c: char) -> bool {
    is_ascii_letter(c) || ('0' <= c <= '9') || c == '+' || c == '-' || c == '.'
}

/// `t` has a scheme name ending at `k`: an ASCII letter, then letters,
/// digits, `+`, `-` or `.`, then the `:` at `k`.
pub open spec fn scheme_ends_at(t: Seq<char>, k: int) -> bool {
    &&& 1 <= k < t.len()
    &&& t[k] == ':'
    &&& is_ascii_letter(t[0])
    &&& forall|j: int| 1 <= j < k ==> is_scheme_char(#[trigger] t[j])
}

/// The schemes whose URLs carry no `//` authority and still load as they
/// are typed: `about:`, `data:` and `mailto:`.
pub open spec fn is_opaque_scheme(name: Seq<char>) -> bool {
    ||| name == seq!['a', 'b', 'o', 'u', 't']
    ||| name == seq!['d', 'a', 't', 'a']
    ||| name == seq!['m', 'a', 'i', 'l', 't', 'o']
}

/// `t` begins with a URL scheme: a scheme name and `:`, followed by `//`
/// (as in `https://`, `file://`, `ftp://`), or one of the opaque schemes.
/// A `host:port` such as `example.com:8080` has no `//` after its `:`, so
/// it is no scheme.
pub open spec fn has_scheme(t: Seq<char>) -> bool {
    exists|k: int|
        #[trigger] scheme_ends_at(t, k) && ((k + 2 < t.len() && t[k + 1] == '/' && t[k + 2] == '/')
            || is_opaque_scheme(t.take(k)))
}

/// What the address bar makes of the input: blank for nothing, the input
/// itself when it has a scheme, `https://` before something that looks
/// like a host (a dot, no space), else a search with the default engine.
pub open spec fn spec_normalize_input(input: Seq<char>) -> Seq<char> {
    let t = trim(input);
    if t.len() == 0 {
        "about:blank"@
    } else if has_scheme(t) {
        t
    } else if has_char(t, '.') && !has_char(t, ' ') {
        "https://"@ + t
    } else {
        spec_query_url(SearchEngine::DuckDuckGo, t)
    }
}

fn is_letter(c: char) -> (res: bool)
    ensures
        res == is_ascii_letter(c),
{
    ('a' <= c && c <= 'z') || ('A' <= c && c <= 'Z')
}

fn is_scheme_character(c: char) -> (res: bool)
    ensures
        res == is_scheme_char(c),
{
    is_letter(c) || ('0' <= c && c <= '9') || c == '+' || c == '-' || c == '.'
}

fn is_opaque_scheme_name(t: &Vec<char>, k: usize) -> (res: bool)
    requires
        k <= t@.len(),
    ensures
        res == is_opaque_scheme(t@.take(k as int)),
{
    let ghost n = t@.take(k as int);
    assert(n.len() == k);
    assert(forall|j: int| 0 <= j < k ==> n[j] == t@[j]);
    let ghost about = seq!['a', 'b', 'o', 'u', 't'];
    let ghost data = seq!['d', 'a', 't', 'a'];
    let ghost mailto = seq!['m', 'a', 'i', 'l', 't', 'o'];
    assert(about.len() == 5 && data.len() == 4 && mailto.len() == 6);
    if k == 5 {
        let r = t[0] == 'a' && t[1] == 'b' && t[2] == 'o' && t[3] == 'u' && t[4] == 't';
        if r {
            assert(n =~= seq!['a', 'b', 'o', 'u', 't']);
        }
        r
    } else if k == 4 {
        let r = t[0] == 'd' && t[1] == 'a' && t[2] == 't' && t[3] == 'a';
        if r {
            assert(n =~= seq!['d', 'a', 't', 'a']);
        }
        r
    } else if k == 6 {
        let r = t[0] == 'm' && t[1] == 'a' && t[2] == 'i' && t[3] == 'l' && t[4] == 't' && t[5]
            == 'o';
        if r {
            assert(n =~= seq!['m', 'a', 'i', 'l', 't', 'o']);
        }
        r
    } else {
        false
    }
}

/// Whether `t` begins with a URL scheme.
pub fn starts_with_scheme(t: &Vec<char>) -> (res: bool)
    ensures
        res == has_scheme(t@),
{
    let n = t.len();
    if n == 0 || !is_letter(t[0]) {
        return false;
    }
    let mut i: usize = 1;
    while i < n && is_scheme_character(t[i])
        invariant
            n == t@.len(),
            1 <= i <= n,
            forall|j: int| 1 <= j < i ==> is_scheme_char(#[trigger] t@[j]),
        decreases n - i,
    {
        i = i + 1;
    }
    // A scheme name can only end at `i`, the first character that cannot
    // belong to it.
    assert forall|k: int| #[trigger] scheme_ends_at(t@, k) implies k == i by {
        if k > i {
            assert(!is_scheme_char(t@[i as int]));
        } else if k < i {
            assert(is_scheme_char(t@[k]));
        }
    }
    if i < n && t[i] == ':' {
        assert(scheme_ends_at(t@, i as int));
        let slashes = n - i > 2 && t[i + 1] == '/' && t[i + 2] == '/';
        let res = slashes || is_opaque_scheme_name(t, i);
        res
    } else {
        false
    }
}

/// Turns what the user typed into a URL to load.
pub fn normalize_input_to_url(input: &str) -> (url: String)
    ensures
        url@ == spec_normalize_input(input@),
{
    let trimmed = trim_chars(&chars_of(input));
    if trimmed.len() == 0 {
        return String::from_str("about:blank");
    }
    if starts_with_scheme(&trimmed) {
        return string_of(&trimmed);
    }
    let text = string_of(&trimmed);
    if contains_char(&trimmed, '.') && !contains_char(&trimmed, ' ') {
        let mut url = String::from_str("https://");
        url.append(text.as_str());
        url
    } else {
        SearchEngine::default().query_url(text.as_str())
    }
}

proof fn lemma_https_has_scheme(t: Seq<char>)
    ensures
        has_scheme("https://"@ + t),
{
    reveal_strlit("https://");
    let s = "https://"@ + t;
    assert(s[5] == ':');
    assert(forall|j: int| 1 <= j < 5 ==> is_scheme_char(#[trigger] s[j]));
    assert(scheme_ends_at(s, 5));
    assert(s[6] == '/' && s[7] == '/');
}

/// Normalising is idempotent: what the address bar makes of an input, it
/// leaves as it is when entered again.
pub proof fn lemma_normalize_idempotent(input: Seq<char>)
    ensures
        spec_normalize_input(spec_normalize_input(input)) == spec_normalize_input(input),
{
    reveal_strlit("about:blank");
    reveal_strlit("https://");
    reveal_strlit("https://duckduckgo.com/?q=");
    let t = trim(input);
    lemma_trim_idempotent(input);
    let r = spec_normalize_input(input);
    if t.len() == 0 {
        lemma_trim_of_untrimmable(r);
        assert(r[5] == ':');
        assert(forall|j: int| 1 <= j < 5 ==> is_scheme_char(#[trigger] r[j]));
        assert(scheme_ends_at(r, 5));
        assert(r.take(5) =~= seq!['a', 'b', 'o', 'u', 't']);
    } else if has_scheme(t) {
    } else if has_char(t, '.') && !has_char(t, ' ') {
        lemma_https_has_scheme(t);
        assert(r.last() == t.last());
        lemma_trim_of_untrimmable(r);
    } else {
        let bytes = encode_utf8(t);
        assert(bytes.len() > 0);
        lemma_encoded_query_has_no_whitespace(bytes);
        let e = encode_query_bytes(bytes);
        assert(r == "https://duckduckgo.com/?q="@ + e);
        assert(r.last() == e[e.len() - 1]);
        lemma_trim_of_untrimmable(r);
        assert("https://"@ + ("duckduckgo.com/?q="@ + e) =~= r) by {
            reveal_strlit("duckduckgo.com/?q=");
        }
        lemma_https_has_scheme("duckduckgo.com/?q="@ + e);
    }
}

// ---------------------------------------------------------------------------
// Engine events
// ---------------------------------------------------------------------------

/// The tab after an engine event: loading state, title, URL or favicon as
/// the event says; other events leave it as it was.
pub open spec fn tab_after_event(t: Tab, e: EngineEvent) -> Tab {
    match e {
        EngineEvent::LoadStarted => Tab { is_loading: true, ..t },
        EngineEvent::LoadFinished => Tab { is_loading: false, ..t },
        EngineEvent::LoadFailed { .. } => Tab { is_loading: false, ..t },
        EngineEvent::TitleChanged(title) => Tab { title, ..t },
        EngineEvent::UrlChanged(url) => Tab { url, ..t },
        EngineEvent::FaviconChanged(bytes) => Tab { favicon: Some(bytes), ..t },
        _ => t,
    }
}

/// Applies an engine event to the tab `id` through [`TabStore::update`],
/// which also queues `Updated` (for every event, the ones that change
/// nothing included). Nothing happens when the store has no such tab.
pub fn apply_engine_event_to_tab(tabs: &mut TabStore, id: TabId, event: EngineEvent)
    ensures
        match position_of(old(tabs)@.tabs, id) {
            None => final(tabs)@ == old(tabs)@,
            Some(i) => {
                &&& final(tabs)@.tabs == old(tabs)@.tabs.update(
                    i,
                    tab_after_event(old(tabs)@.tabs[i], event),
                )
                &&& final(tabs)@.active == old(tabs)@.active
                &&& final(tabs)@.events == old(tabs)@.events.push(TabEvent::Updated { id })
            },
        },
{
    let ghost e = event;
    tabs.update(id, move |tab: Tab| -> (r: Tab) ensures r == tab_after_event(tab, e), { with_event(tab, event) });
}

/// The tab after `event`.
fn with_event(tab: Tab, event: EngineEvent) -> (r: Tab)
    ensures
        r == tab_after_event(tab, event),
{
    let mut tab = tab;
    match event {
        EngineEvent::LoadStarted => tab.is_loading = true,
        EngineEvent::LoadFinished => tab.is_loading = false,
        EngineEvent::LoadFailed { .. } => tab.is_loading = false,
        EngineEvent::TitleChanged(title) => tab.title = title,
        EngineEvent::UrlChanged(url) => tab.url = url,
        EngineEvent::FaviconChanged(bytes) => tab.favicon = Some(bytes),
        _ => {},
    }
    tab
}

/// What each engine event does to a tab: loading starts with
/// `LoadStarted` and stops with `LoadFinished` or `LoadFailed`; a title, URL
/// or favicon change replaces that field; every field an event does not
/// name stays as it was, and the other events change nothing.
pub proof fn lemma_engine_event_effects(t: Tab, e: EngineEvent)
    ensures
        ({
            let r = tab_after_event(t, e);
            &&& r.id == t.id
            &&& r.is_pinned == t.is_pinned
            &&& r.is_muted == t.is_muted
            &&& r.profile == t.profile
            &&& r.parent == t.parent
            &&& r.is_suspended == t.is_suspended
            &&& r.is_loading == match e {
                EngineEvent::LoadStarted => true,
                EngineEvent::LoadFinished => false,
                EngineEvent::LoadFailed { .. } => false,
                _ => t.is_loading,
            }
            &&& r.title == match e {
                EngineEvent::TitleChanged(title) => title,
                _ => t.title,
            }
            &&& r.url == match e {
                EngineEvent::UrlChanged(url) => url,
                _ => t.url,
            }
            &&& r.favicon == match e {
                EngineEvent::FaviconChanged(bytes) => Some(bytes),
                _ => t.favicon,
            }
        }),
{
}

/// After a failed load the tab no longer shows as loading, and nothing
/// else about it changes.
pub proof fn lemma_load_failed_stops_loading(t: Tab, failure: EngineEvent)
    requires
        failure is LoadFailed,
    ensures
        !tab_after_event(t, failure).is_loading,
        tab_after_event(t, failure) == (Tab { is_loading: false, ..t }),
{
    lemma_engine_event_effects(t, failure);
}

/// An engine event never changes which tab it is: the id stays.
pub proof fn lemma_event_keeps_id(t: Tab, e: EngineEvent)
    ensures
        tab_after_event(t, e).id == t.id,
{
}

// ---------------------------------------------------------------------------
// Reacting to tab events
// ---------------------------------------------------------------------------

/// What the window does to its tab views.
#[derive(Debug, Clone, Copy, PartialEq, Eq, Structural)]
pub enum ViewAction {
    /// Show this tab's view and hide the others.
    ShowTabContent(TabId),
    /// Remove this tab's view.
    TeardownView(TabId),
}

/// The window's reaction to a drained batch of tab events.
#[derive(Debug, Clone)]
pub struct TabEventReaction {
    /// Rebuild the sidebar from the store (done first).
    pub sync_sidebar: bool,
    /// View changes, in event order.
    pub actions: Vec<ViewAction>,
    /// Show the active tab's URL and navigation state in the toolbar
    /// (done last).
    pub refresh_toolbar: bool,
}

/// The view change an event calls for, if any.
pub open spec fn view_actions(events: Seq<TabEvent>) -> Seq<ViewAction>
    decreases events.len(),
{
    if events.len() == 0 {
        seq![]
    } else {
        let first = match events[0] {
            TabEvent::Activated { id } => seq![ViewAction::ShowTabContent(id)],
            TabEvent::Closed { id } => seq![ViewAction::TeardownView(id)],
            _ => seq![],
        };
        first + view_actions(events.drop_first())
    }
}

/// The event makes the toolbar out of date: a tab was activated, or the
/// active tab was updated.
pub open spec fn refreshes_toolbar(e: TabEvent, active: Option<TabId>) -> bool {
    match e {
        TabEvent::Activated { .. } => true,
        TabEvent::Updated { id } => active == Some(id),
        _ => false,
    }
}

/// The toolbar is refreshed exactly when some event of the batch activated
/// a tab or updated the active one: an `Activated` anywhere in the batch
/// refreshes it, and a batch of nothing but `Closed` and `Created` events
/// does not.
pub proof fn lemma_toolbar_refresh(events: Seq<TabEvent>, active: Option<TabId>)
    ensures
        (exists|k: int| 0 <= k < events.len() && #[trigger] events[k] is Activated) ==> exists|k: int|
            0 <= k < events.len() && refreshes_toolbar(#[trigger] events[k], active),
        (forall|k: int| 0 <= k < events.len() ==> (#[trigger] events[k] is Closed || events[k] is Created))
            ==> !exists|k: int| 0 <= k < events.len() && refreshes_toolbar(#[trigger] events[k], active),
{
    if exists|k: int| 0 <= k < events.len() && #[trigger] events[k] is Activated {
        let k = choose|k: int| 0 <= k < events.len() && #[trigger] events[k] is Activated;
        assert(refreshes_toolbar(events[k], active));
    }
}

/// Decides the window's reaction to `events`, with `active` the active tab
/// after them: nothing at all for no events; otherwise a sidebar rebuild,
/// the view changes of the events in order, and a toolbar refresh when
/// some event calls for one.
pub fn react_to_tab_events(events: &Vec<TabEvent>, active: Option<TabId>) -> (r: TabEventReaction)
    ensures
        r.sync_sidebar == (events@.len() > 0),
        r.actions@ == view_actions(events@),
        r.refresh_toolbar == exists|k: int|
            0 <= k < events@.len() && refreshes_toolbar(#[trigger] events@[k], active),
        r.refresh_toolbar == (exists|k: int|
            0 <= k < events@.len() && (#[trigger] events@[k] is Activated || (events@[k] is Updated
                && active == Some(events@[k]->Updated_id)))),
{
    let n = events.len();
    let mut actions: Vec<ViewAction> = Vec::new();
    let mut refresh = false;
    let mut i: usize = 0;
    assert(events@.skip(0) =~= events@);
    while i < n
        invariant
            n == events@.len(),
            i <= n,
            view_actions(events@) == actions@ + view_actions(events@.skip(i as int)),
            refresh == exists|k: int| 0 <= k < i && refreshes_toolbar(#[trigger] events@[k], active),
        decreases n - i,
    {
        let ghost before = actions@;
        match events[i] {
            TabEvent::Activated { id } => {
                actions.push(ViewAction::ShowTabContent(id));
                refresh = true;
            },
            TabEvent::Closed { id } => {
                actions.push(ViewAction::TeardownView(id));
            },
            TabEvent::Updated { id } => {
                if active == Some(id) {
                    refresh = true;
                }
            },
            _ => {},
        }
        assert(events@.skip(i as int).drop_first() =~= events@.skip(i + 1));
        assert(refreshes_toolbar(events@[i as int], active) ==> refresh);
        i = i + 1;
    }
    assert(events@.skip(n as int).len() == 0);
    assert(actions@ =~= actions@ + view_actions(events@.skip(n as int)));
    TabEventReaction { sync_sidebar: n > 0, actions, refresh_toolbar: refresh }
}

} // verus!
