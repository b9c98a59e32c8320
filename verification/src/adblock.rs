//! The content-blocker ruleset: a curated list of ad and tracker domains
//! and of cosmetic ad-container selectors, compiled into WebKit's
//! content-blocker JSON (the trigger/action format Safari uses).
//!
//! A rule is modelled as what the format makes of it: an object of named
//! sections (`trigger`, `action`), each an object whose fields hold a
//! string or a list of strings. serde_json writes the JSON text.

use vstd::prelude::*;
use serde_json::Value;
use crate::text::{chars_of, replace_all, replace_chars};

verus! {

// ---------------------------------------------------------------------------
// The curated lists
// ---------------------------------------------------------------------------

/// Ad networks, analytics and tracking hosts, tracking-heavy social
/// widgets and other widely blocked hosts.
pub open spec fn blocked_domains() -> Seq<Seq<char>> {
    seq![
        "doubleclick.net"@,
        "googlesyndication.com"@,
        "googleadservices.com"@,
        "adservice.google.com"@,
        "adsafeprotected.com"@,
        "amazon-adsystem.com"@,
        "adnxs.com"@,
        "rubiconproject.com"@,
        "pubmatic.com"@,
        "openx.net"@,
        "casalemedia.com"@,
        "indexexchange.com"@,
        "bidswitch.net"@,
        "smartadserver.com"@,
        "criteo.com"@,
        "criteo.net"@,
        "taboola.com"@,
        "outbrain.com"@,
        "mgid.com"@,
        "revcontent.com"@,
        "popads.net"@,
        "propellerads.com"@,
        "adroll.com"@,
        "media.net"@,
        "sharethrough.com"@,
        "teads.tv"@,
        "yieldmo.com"@,
        "connatix.com"@,
        "moatads.com"@,
        "adform.net"@,
        "adcolony.com"@,
        "applovin.com"@,
        "unityads.unity3d.com"@,
        "google-analytics.com"@,
        "googletagmanager.com"@,
        "googletagservices.com"@,
        "scorecardresearch.com"@,
        "quantserve.com"@,
        "hotjar.com"@,
        "mixpanel.com"@,
        "segment.io"@,
        "segment.com"@,
        "doubleverify.com"@,
        "chartbeat.com"@,
        "chartbeat.net"@,
        "newrelic.com"@,
        "nr-data.net"@,
        "amplitude.com"@,
        "fullstory.com"@,
        "mouseflow.com"@,
        "crazyegg.com"@,
        "clicktale.net"@,
        "bluekai.com"@,
        "krxd.net"@,
        "demdex.net"@,
        "everesttech.net"@,
        "adsrvr.org"@,
        "agkn.com"@,
        "rlcdn.com"@,
        "tapad.com"@,
        "connect.facebook.net"@,
        "facebook.com/tr"@,
        "platform.twitter.com"@,
        "ads-twitter.com"@,
        "analytics.twitter.com"@,
        "pinterest.com/ct"@,
        "ads.linkedin.com"@,
        "px.ads.linkedin.com"@,
        "snap.licdn.com"@,
        "adsystem.com"@,
        "advertising.com"@,
        "yieldlab.net"@,
        "sitescout.com"@,
        "contextweb.com"@,
        "adtechus.com"@,
        "zedo.com"@,
        "adtelligent.com"@,
        "gumgum.com"@,
        "sovrn.com"@,
        "lijit.com"@,
        "spotxchange.com"@,
    ]
}

/// Well-established, low-collision ad-slot selectors, hidden on every page.
pub open spec fn cosmetic_selectors() -> Seq<Seq<char>> {
    seq![
        "div[id^=\"google_ads_iframe\"]"@,
        "ins.adsbygoogle"@,
        "div.adsbygoogle"@,
        "div[id^=\"div-gpt-ad\"]"@,
        "iframe[id^=\"google_ads_iframe\"]"@,
        "div.ad-container"@,
        "div.advertisement"@,
        "aside.ad-slot"@,
    ]
}

pub fn blocked_domain_list() -> (v: Vec<&'static str>)
    ensures
        v@.map_values(|s: &str| s@) == blocked_domains(),
{
    let v = vec![
        "doubleclick.net",
        "googlesyndication.com",
        "googleadservices.com",
        "adservice.google.com",
        "adsafeprotected.com",
        "amazon-adsystem.com",
        "adnxs.com",
        "rubiconproject.com",
        "pubmatic.com",
        "openx.net",
        "casalemedia.com",
        "indexexchange.com",
        "bidswitch.net",
        "smartadserver.com",
        "criteo.com",
        "criteo.net",
        "taboola.com",
        "outbrain.com",
        "mgid.com",
        "revcontent.com",
        "popads.net",
        "propellerads.com",
        "adroll.com",
        "media.net",
        "sharethrough.com",
        "teads.tv",
        "yieldmo.com",
        "connatix.com",
        "moatads.com",
        "adform.net",
        "adcolony.com",
        "applovin.com",
        "unityads.unity3d.com",
        "google-analytics.com",
        "googletagmanager.com",
        "googletagservices.com",
        "scorecardresearch.com",
        "quantserve.com",
        "hotjar.com",
        "mixpanel.com",
        "segment.io",
        "segment.com",
        "doubleverify.com",
        "chartbeat.com",
        "chartbeat.net",
        "newrelic.com",
        "nr-data.net",
        "amplitude.com",
        "fullstory.com",
        "mouseflow.com",
        "crazyegg.com",
        "clicktale.net",
        "bluekai.com",
        "krxd.net",
        "demdex.net",
        "everesttech.net",
        "adsrvr.org",
        "agkn.com",
        "rlcdn.com",
        "tapad.com",
        "connect.facebook.net",
        "facebook.com/tr",
        "platform.twitter.com",
        "ads-twitter.com",
        "analytics.twitter.com",
        "pinterest.com/ct",
        "ads.linkedin.com",
        "px.ads.linkedin.com",
        "snap.licdn.com",
        "adsystem.com",
        "advertising.com",
        "yieldlab.net",
        "sitescout.com",
        "contextweb.com",
        "adtechus.com",
        "zedo.com",
        "adtelligent.com",
        "gumgum.com",
        "sovrn.com",
        "lijit.com",
        "spotxchange.com",
    ];
    assert(v@.map_values(|s: &str| s@) =~= blocked_domains());
    v
}

pub fn cosmetic_selector_list() -> (v: Vec<&'static str>)
    ensures
        v@.map_values(|s: &str| s@) == cosmetic_selectors(),
{
    let v = vec![
        "div[id^=\"google_ads_iframe\"]",
        "ins.adsbygoogle",
        "div.adsbygoogle",
        "div[id^=\"div-gpt-ad\"]",
        "iframe[id^=\"google_ads_iframe\"]",
        "div.ad-container",
        "div.advertisement",
        "aside.ad-slot",
    ];
    assert(v@.map_values(|s: &str| s@) =~= cosmetic_selectors());
    v
}

// ---------------------------------------------------------------------------
// The rule model
// ---------------------------------------------------------------------------

/// A field value of a rule section.
#[derive(Debug, Clone)]
pub enum JsonLeaf {
    Str(String),
    StrList(Vec<String>),
}

pub enum LeafView {
    Str(Seq<char>),
    List(Seq<Seq<char>>),
}

impl View for JsonLeaf {
    type V = LeafView;

    open spec fn view(&self) -> LeafView {
        match self {
            JsonLeaf::Str(s) => LeafView::Str(s@),
            JsonLeaf::StrList(l) => LeafView::List(l@.map_values(|x: String| x@)),
        }
    }
}

/// One named section of a rule (`trigger` or `action`) with its fields,
/// in order.
#[derive(Debug, Clone)]
pub struct RuleSection {
    pub name: String,
    pub fields: Vec<(String, JsonLeaf)>,
}

pub struct SectionView {
    pub name: Seq<char>,
    pub fields: Seq<(Seq<char>, LeafView)>,
}

impl View for RuleSection {
    type V = SectionView;

    open spec fn view(&self) -> SectionView {
        SectionView {
            name: self.name@,
            fields: self.fields@.map_values(|f: (String, JsonLeaf)| (f.0@, f.1@)),
        }
    }
}

/// A content-blocker rule: a JSON object of sections.
#[derive(Debug, Clone)]
pub struct ContentRule {
    pub sections: Vec<RuleSection>,
}

impl View for ContentRule {
    type V = Seq<SectionView>;

    open spec fn view(&self) -> Seq<SectionView> {
        self.sections@.map_values(|s: RuleSection| s@)
    }
}

/// What `serde_json::to_string` writes for a JSON array of rule objects.
pub uninterp spec fn serde_json_text(rules: Seq<Seq<SectionView>>) -> Seq<char>;

/// Builds a `serde_json::Value` array with one object per rule (one object
/// per section inside it, strings and arrays of strings inside those) and
/// calls `serde_json::to_string` on it. Serialising a `Value` cannot fail,
/// as every key is a string; the text is named, not described.
#[verifier::external_body]
fn rules_to_json_text(rules: &Vec<ContentRule>) -> (text: String)
    ensures
        text@ == serde_json_text(rules@.map_values(|r: ContentRule| r@)),
{
    let leaf = |l: &JsonLeaf| -> Value {
        match l {
            JsonLeaf::Str(s) => s.clone().into(),
            JsonLeaf::StrList(v) => v.clone().into(),
        }
    };
    let section = |s: &RuleSection| Value::Object(s.fields.iter().map(|(k, l)| (k.clone(), leaf(l))).collect());
    let rule = |r: &ContentRule| Value::Object(r.sections.iter().map(|s| (s.name.clone(), section(s))).collect());
    serde_json::to_string(&rules.iter().map(rule).collect::<Value>()).expect("a Value serialises")
}

// ---------------------------------------------------------------------------
// The rules
// ---------------------------------------------------------------------------

/// The resource types a blocking rule applies to.
pub open spec fn resource_types() -> Seq<Seq<char>> {
    seq!["document"@, "image"@, "style-sheet"@, "script"@, "raw"@, "font"@, "media"@]
}

/// The `url-filter` regex for a domain: its dots escaped, matched anywhere
/// in the URL.
pub open spec fn url_filter_for(domain: Seq<char>) -> Seq<char> {
    ".*"@ + replace_all(domain, "."@, "\\."@) + ".*"@
}

/// Blocks every listed resource type whose URL mentions `domain`.
pub open spec fn block_rule(domain: Seq<char>) -> Seq<SectionView> {
    seq![
        SectionView {
            name: "trigger"@,
            fields: seq![
                ("url-filter"@, LeafView::Str(url_filter_for(domain))),
                ("resource-type"@, LeafView::List(resource_types())),
            ],
        },
        SectionView { name: "action"@, fields: seq![("type"@, LeafView::Str("block"@))] },
    ]
}

/// Hides the elements matching `selector` on every page.
pub open spec fn cosmetic_rule(selector: Seq<char>) -> Seq<SectionView> {
    seq![
        SectionView { name: "trigger"@, fields: seq![("url-filter"@, LeafView::Str(".*"@))] },
        SectionView {
            name: "action"@,
            fields: seq![
                ("type"@, LeafView::Str("css-display-none"@)),
                ("selector"@, LeafView::Str(selector)),
            ],
        },
    ]
}

/// Every blocking rule, then every cosmetic rule, in list order.
pub open spec fn ruleset() -> Seq<Seq<SectionView>> {
    blocked_domains().map_values(|d: Seq<char>| block_rule(d)) + cosmetic_selectors().map_values(
        |s: Seq<char>| cosmetic_rule(s),
    )
}

fn leaf_str(s: &str) -> (l: JsonLeaf)
    ensures
        l@ == LeafView::Str(s@),
{
    JsonLeaf::Str(String::from_str(s))
}

fn section1(name: &str, k: &str, v: JsonLeaf) -> (s: RuleSection)
    ensures
        s@.name == name@,
        s@.fields == seq![(k@, v@)],
{
    let mut fields: Vec<(String, JsonLeaf)> = Vec::new();
    fields.push((String::from_str(k), v));
    let s = RuleSection { name: String::from_str(name), fields };
    assert(s@.fields =~= seq![(k@, v@)]);
    s
}

fn section2(name: &str, k1: &str, v1: JsonLeaf, k2: &str, v2: JsonLeaf) -> (s: RuleSection)
    ensures
        s@.name == name@,
        s@.fields == seq![(k1@, v1@), (k2@, v2@)],
{
    let mut fields: Vec<(String, JsonLeaf)> = Vec::new();
    fields.push((String::from_str(k1), v1));
    fields.push((String::from_str(k2), v2));
    let s = RuleSection { name: String::from_str(name), fields };
    assert(s@.fields =~= seq![(k1@, v1@), (k2@, v2@)]);
    s
}

fn rule_of(trigger: RuleSection, action: RuleSection) -> (r: ContentRule)
    ensures
        r@ == seq![trigger@, action@],
{
    let mut sections: Vec<RuleSection> = Vec::new();
    sections.push(trigger);
    sections.push(action);
    let r = ContentRule { sections };
    assert(r@ =~= seq![trigger@, action@]);
    r
}

fn resource_type_leaf() -> (l: JsonLeaf)
    ensures
        l@ == LeafView::List(resource_types()),
{
    let mut v: Vec<String> = Vec::new();
    v.push(String::from_str("document"));
    v.push(String::from_str("image"));
    v.push(String::from_str("style-sheet"));
    v.push(String::from_str("script"));
    v.push(String::from_str("raw"));
    v.push(String::from_str("font"));
    v.push(String::from_str("media"));
    let l = JsonLeaf::StrList(v);
    assert(l@->List_0 =~= resource_types());
    l
}

/// The blocking rule for one domain.
pub fn block_rule_for(domain: &str) -> (r: ContentRule)
    ensures
        r@ == block_rule(domain@),
{
    let dot = chars_of(".");
    let escaped_dot = chars_of("\\.");
    proof {
        reveal_strlit(".");
    }
    let escaped = replace_chars(&chars_of(domain), &dot, &escaped_dot);
    let mut filter = String::from_str(".*");
    filter.append(escaped.as_str());
    filter.append(".*");
    let trigger = section2(
        "trigger",
        "url-filter",
        JsonLeaf::Str(filter),
        "resource-type",
        resource_type_leaf(),
    );
    let action = section1("action", "type", leaf_str("block"));
    rule_of(trigger, action)
}

/// The cosmetic rule for one selector.
pub fn cosmetic_rule_for(selector: &str) -> (r: ContentRule)
    ensures
        r@ == cosmetic_rule(selector@),
{
    let trigger = section1("trigger", "url-filter", leaf_str(".*"));
    let action = section2("action", "type", leaf_str("css-display-none"), "selector", leaf_str(selector));
    rule_of(trigger, action)
}

/// All rules, blocking ones first.
pub fn build_rules() -> (rules: Vec<ContentRule>)
    ensures
        rules@.map_values(|r: ContentRule| r@) == ruleset(),
{
    let domains = blocked_domain_list();
    let selectors = cosmetic_selector_list();
    let mut rules: Vec<ContentRule> = Vec::new();
    let nd = domains.len();
    let mut i: usize = 0;
    while i < nd
        invariant
            nd == domains@.len(),
            domains@.map_values(|s: &str| s@) == blocked_domains(),
            i <= nd,
            rules@.map_values(|r: ContentRule| r@) =~= blocked_domains().take(i as int).map_values(
                |d: Seq<char>| block_rule(d),
            ),
        decreases nd - i,
    {
        let r = block_rule_for(domains[i]);
        let ghost before = rules@;
        rules.push(r);
        assert(blocked_domains()[i as int] == domains@[i as int]@);
        assert(rules@.map_values(|r: ContentRule| r@) =~= before.map_values(|r: ContentRule| r@).push(
            block_rule(blocked_domains()[i as int]),
        ));
        assert(blocked_domains().take(i + 1).map_values(|d: Seq<char>| block_rule(d))
            =~= blocked_domains().take(i as int).map_values(|d: Seq<char>| block_rule(d)).push(
            block_rule(blocked_domains()[i as int]),
        ));
        i = i + 1;
    }
    assert(blocked_domains().take(nd as int) =~= blocked_domains());
    let ns = selectors.len();
    let mut j: usize = 0;
    while j < ns
        invariant
            nd == blocked_domains().len(),
            ns == selectors@.len(),
            selectors@.map_values(|s: &str| s@) == cosmetic_selectors(),
            j <= ns,
            rules@.map_values(|r: ContentRule| r@) =~= blocked_domains().map_values(
                |d: Seq<char>| block_rule(d),
            ) + cosmetic_selectors().take(j as int).map_values(|s: Seq<char>| cosmetic_rule(s)),
        decreases ns - j,
    {
        let r = cosmetic_rule_for(selectors[j]);
        let ghost before = rules@;
        rules.push(r);
        assert(cosmetic_selectors()[j as int] == selectors@[j as int]@);
        assert(rules@.map_values(|r: ContentRule| r@) =~= before.map_values(|r: ContentRule| r@).push(
            cosmetic_rule(cosmetic_selectors()[j as int]),
        ));
        assert(cosmetic_selectors().take(j + 1).map_values(|s: Seq<char>| cosmetic_rule(s))
            =~= cosmetic_selectors().take(j as int).map_values(|s: Seq<char>| cosmetic_rule(s)).push(
            cosmetic_rule(cosmetic_selectors()[j as int]),
        ));
        j = j + 1;
    }
    assert(cosmetic_selectors().take(ns as int) =~= cosmetic_selectors());
    rules
}

/// The whole ruleset as content-blocker JSON text.
pub fn build_ruleset_json() -> (json: String)
    ensures
        json@ == serde_json_text(ruleset()),
{
    let rules = build_rules();
    rules_to_json_text(&rules)
}

/// `rule` has a section called `name`.
pub open spec fn has_section(rule: Seq<SectionView>, name: Seq<char>) -> bool {
    exists|k: int| 0 <= k < rule.len() && #[trigger] rule[k].name == name
}

/// Every rule has a `trigger` section and an `action` section, and there
/// are more than fifty rules.
pub proof fn lemma_every_rule_has_trigger_and_action()
    ensures
        ruleset().len() == blocked_domains().len() + cosmetic_selectors().len(),
        ruleset().len() > 50,
        forall|i: int|
            0 <= i < ruleset().len() ==> has_section(#[trigger] ruleset()[i], "trigger"@)
                && has_section(ruleset()[i], "action"@),
{
    let nb = blocked_domains().len();
    assert forall|i: int| 0 <= i < ruleset().len() implies has_section(
        #[trigger] ruleset()[i],
        "trigger"@,
    ) && has_section(ruleset()[i], "action"@) by {
        if i < nb {
            assert(ruleset()[i] == block_rule(blocked_domains()[i]));
        } else {
            assert(ruleset()[i] == cosmetic_rule(cosmetic_selectors()[i - nb]));
        }
        assert(ruleset()[i][0].name == "trigger"@);
        assert(ruleset()[i][1].name == "action"@);
    }
}

} // verus!
