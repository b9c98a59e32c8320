//! The tab model and [`TabStore`], the single source of truth for the
//! ordered tab list, the active tab and the queue of change events.
//!
//! Events are queued rather than dispatched: a mutation only appends to
//! the queue, and callers drain it with [`TabStore::take_events`] once the
//! mutation has returned.

use vstd::prelude::*;

verus! {

/// The 128 bits of a version 4 UUID (RFC 9562): the version field (bits
/// 76..80) holds 4 and the variant field (bits 62..64) holds `0b10`.
pub open spec fn is_uuid_v4_bits(v: u128) -> bool {
    &&& (v >> 76u128) & 0xfu128 == 4u128
    &&& (v >> 62u128) & 0x3u128 == 2u128
}

/// Calls `uuid::Uuid::new_v4()` and hands back the UUID's 128 bits
/// (`Uuid::as_u128`). The value is random; what holds of every outcome is
/// what `new_v4` fixes: the version and variant fields (it masks random
/// bits with `0xFFFFFFFFFFFF4FFFBFFFFFFFFFFFFFFF` and sets
/// `0x40008000000000000000`). The uuid crate panics if the operating system
/// refuses random bytes.
#[verifier::external_body]
fn random_uuid_bits() -> (v: u128)
    ensures
        is_uuid_v4_bits(v),
{
    uuid::Uuid::new_v4().as_u128()
}

/// Identity of a tab: the 128 bits of a random (version 4) UUID.
#[derive(Debug, Clone, Copy, PartialEq, Eq, Hash, Structural)]
pub struct TabId(pub u128);

impl TabId {
    /// A fresh random id: the bits of a new version 4 UUID.
    pub fn new() -> (id: Self)
        ensures
            is_uuid_v4_bits(id.0),
    {
        TabId(random_uuid_bits())
    }
}

/// Distinguishes normal tabs from incognito ones; every incognito window
/// has a profile of its own, identified by the bits of a random UUID.
#[derive(Debug, Clone, Copy, PartialEq, Eq, Hash, Structural)]
pub enum ProfileId {
    Normal,
    Incognito(u128),
}

impl ProfileId {
    pub fn is_incognito(&self) -> (res: bool)
        ensures
            res == (*self is Incognito),
    {
        match self {
            ProfileId::Normal => false,
            ProfileId::Incognito(_) => true,
        }
    }
}

#[derive(Debug, Clone, PartialEq, Eq)]
pub struct Tab {
    pub id: TabId,
    pub url: String,
    pub title: String,
    /// Raw favicon bytes, once loaded.
    pub favicon: Option<Vec<u8>>,
    pub is_loading: bool,
    pub is_pinned: bool,
    pub is_muted: bool,
    pub profile: ProfileId,
    /// The tab this one was opened from, if any.
    pub parent: Option<TabId>,
    /// Suspended tabs have no live view behind them.
    pub is_suspended: bool,
}

/// `t` is a tab as it is first opened: titled by its url, loading, with no
/// favicon, not pinned, muted or suspended.
pub open spec fn is_fresh_tab(
    t: Tab,
    id: TabId,
    url: Seq<char>,
    profile: ProfileId,
    parent: Option<TabId>,
) -> bool {
    &&& t.id == id
    &&& t.url@ == url
    &&& t.title@ == url
    &&& t.favicon is None
    &&& t.is_loading
    &&& !t.is_pinned
    &&& !t.is_muted
    &&& t.profile == profile
    &&& t.parent == parent
    &&& !t.is_suspended
}

impl Tab {
    fn fresh(id: TabId, url: &str, profile: ProfileId, parent: Option<TabId>) -> (t: Tab)
        ensures
            is_fresh_tab(t, id, url@, profile, parent),
    {
        Tab {
            id,
            url: String::from_str(url),
            title: String::from_str(url),
            favicon: None,
            is_loading: true,
            is_pinned: false,
            is_muted: false,
            profile,
            parent,
            is_suspended: false,
        }
    }

    /// A new tab with a fresh random id.
    pub fn new(url: &str, profile: ProfileId) -> (t: Tab)
        ensures
            is_fresh_tab(t, t.id, url@, profile, None),
    {
        Tab::fresh(TabId::new(), url, profile, None)
    }

    /// A new tab with a fresh random id, opened from `parent`.
    pub fn child_of(url: &str, profile: ProfileId, parent: TabId) -> (t: Tab)
        ensures
            is_fresh_tab(t, t.id, url@, profile, Some(parent)),
    {
        Tab::fresh(TabId::new(), url, profile, Some(parent))
    }
}

#[derive(Debug, Clone, Copy, PartialEq, Eq, Structural)]
pub enum TabEvent {
    Created { id: TabId, index: usize },
    Closed { id: TabId },
    Activated { id: TabId },
    Updated { id: TabId },
    Reordered,
}

/// The abstract state of a [`TabStore`].
pub struct TabStoreView {
    pub tabs: Seq<Tab>,
    pub active: Option<TabId>,
    pub events: Seq<TabEvent>,
}

// ---------------------------------------------------------------------------
// Positions of ids in a tab sequence
// ---------------------------------------------------------------------------

pub open spec fn has_id(tabs: Seq<Tab>, id: TabId) -> bool {
    exists|i: int| 0 <= i < tabs.len() && #[trigger] tabs[i].id == id
}

/// `i` is the first position of `id` in `tabs`.
pub open spec fn is_first_index(tabs: Seq<Tab>, id: TabId, i: int) -> bool {
    &&& 0 <= i < tabs.len()
    &&& tabs[i].id == id
    &&& forall|j: int| 0 <= j < i ==> #[trigger] tabs[j].id != id
}

/// The first position of `id` in `tabs`, if it occurs.
pub open spec fn position_of(tabs: Seq<Tab>, id: TabId) -> Option<int> {
    if has_id(tabs, id) {
        Some(choose|i: int| is_first_index(tabs, id, i))
    } else {
        None
    }
}

/// Every id occurs at most once.
pub open spec fn ids_unique(tabs: Seq<Tab>) -> bool {
    forall|i: int, j: int|
        0 <= i < tabs.len() && 0 <= j < tabs.len() && i != j ==> #[trigger] tabs[i].id
            != #[trigger] tabs[j].id
}

/// The active tab, if any, is one of the tabs.
pub open spec fn active_is_valid(v: TabStoreView) -> bool {
    v.active matches Some(a) ==> has_id(v.tabs, a)
}

proof fn lemma_first_index_exists(tabs: Seq<Tab>, id: TabId, k: int)
    requires
        0 <= k < tabs.len(),
        tabs[k].id == id,
    ensures
        exists|i: int| is_first_index(tabs, id, i),
    decreases k,
{
    if exists|j: int| 0 <= j < k && #[trigger] tabs[j].id == id {
        let j = choose|j: int| 0 <= j < k && #[trigger] tabs[j].id == id;
        lemma_first_index_exists(tabs, id, j);
    } else {
        assert(is_first_index(tabs, id, k));
    }
}

/// `position_of` names the first position whenever the id occurs.
pub proof fn lemma_position_of(tabs: Seq<Tab>, id: TabId)
    ensures
        match position_of(tabs, id) {
            Some(i) => is_first_index(tabs, id, i),
            None => !has_id(tabs, id),
        },
{
    if has_id(tabs, id) {
        let k = choose|k: int| 0 <= k < tabs.len() && #[trigger] tabs[k].id == id;
        lemma_first_index_exists(tabs, id, k);
    }
}

proof fn lemma_first_index_unique(tabs: Seq<Tab>, id: TabId, i: int)
    requires
        is_first_index(tabs, id, i),
    ensures
        position_of(tabs, id) == Some(i),
{
    lemma_position_of(tabs, id);
    let c = position_of(tabs, id)->0;
    if c < i {
        assert(tabs[c].id != id);
    } else if i < c {
        assert(tabs[i].id != id);
    }
}

// ---------------------------------------------------------------------------
// The transitions, as functions of the abstract state
// ---------------------------------------------------------------------------

/// Where [`TabStore::open`] inserts: right after the active tab when asked
/// to and there is one, else at the end.
pub open spec fn open_index(v: TabStoreView, next_to_active: bool) -> int {
    if next_to_active && v.active is Some && position_of(v.tabs, v.active->0) is Some {
        position_of(v.tabs, v.active->0)->0 + 1
    } else {
        v.tabs.len() as int
    }
}

/// Where [`TabStore::open_child`] inserts: right after the parent, else at
/// the end.
pub open spec fn child_index(v: TabStoreView, parent: TabId) -> int {
    match position_of(v.tabs, parent) {
        Some(i) => i + 1,
        None => v.tabs.len() as int,
    }
}

/// Inserting `tab` at `index`, with a `Created` event.
pub open spec fn spec_insert(v: TabStoreView, tab: Tab, index: int) -> TabStoreView {
    TabStoreView {
        tabs: v.tabs.insert(index, tab),
        active: v.active,
        events: v.events.push(TabEvent::Created { id: tab.id, index: index as usize }),
    }
}

/// The tab that takes over when the active tab, which stood at `index`,
/// is removed: the one that slid into `index` (its right neighbour), else
/// its left neighbour, else none.
pub open spec fn successor_after_removal(tabs: Seq<Tab>, index: int) -> Option<TabId> {
    if 0 <= index < tabs.len() {
        Some(tabs[index].id)
    } else if 0 < index && index - 1 < tabs.len() {
        Some(tabs[index - 1].id)
    } else {
        None
    }
}

pub open spec fn spec_close(v: TabStoreView, id: TabId) -> TabStoreView {
    match position_of(v.tabs, id) {
        None => v,
        Some(i) => {
            let tabs = v.tabs.remove(i);
            let events = v.events.push(TabEvent::Closed { id });
            if v.active == Some(id) {
                let next = successor_after_removal(tabs, i);
                TabStoreView {
                    tabs,
                    active: next,
                    events: match next {
                        Some(n) => events.push(TabEvent::Activated { id: n }),
                        None => events,
                    },
                }
            } else {
                TabStoreView { tabs, active: v.active, events }
            }
        },
    }
}

pub open spec fn spec_activate(v: TabStoreView, id: TabId) -> TabStoreView {
    if !has_id(v.tabs, id) || v.active == Some(id) {
        v
    } else {
        TabStoreView {
            tabs: v.tabs,
            active: Some(id),
            events: v.events.push(TabEvent::Activated { id }),
        }
    }
}

pub open spec fn spec_reorder(v: TabStoreView, from: int, to: int) -> TabStoreView {
    if from == to || !(0 <= from < v.tabs.len()) || !(0 <= to < v.tabs.len()) {
        v
    } else {
        TabStoreView {
            tabs: v.tabs.remove(from).insert(to, v.tabs[from]),
            active: v.active,
            events: v.events.push(TabEvent::Reordered),
        }
    }
}

/// The tabs of `tabs` that belong to `profile`, in order.
pub open spec fn in_profile(tabs: Seq<Tab>, profile: ProfileId) -> Seq<Tab> {
    tabs.filter(|t: Tab| t.profile == profile)
}

// ---------------------------------------------------------------------------
// The store
// ---------------------------------------------------------------------------

pub struct TabStore {
    tabs: Vec<Tab>,
    active: Option<TabId>,
    pending_events: Vec<TabEvent>,
}

impl View for TabStore {
    type V = TabStoreView;

    closed spec fn view(&self) -> TabStoreView {
        TabStoreView { tabs: self.tabs@, active: self.active, events: self.pending_events@ }
    }
}

impl Default for TabStore {
    fn default() -> (s: Self)
        ensures
            s@.tabs.len() == 0,
            s@.active is None,
            s@.events.len() == 0,
    {
        TabStore { tabs: Vec::new(), active: None, pending_events: Vec::new() }
    }
}

impl TabStore {
    /// An empty store with nothing active and no queued events.
    pub fn new() -> (s: Self)
        ensures
            s@.tabs.len() == 0,
            s@.active is None,
            s@.events.len() == 0,
    {
        TabStore::default()
    }

    fn emit(&mut self, event: TabEvent)
        ensures
            final(self)@.tabs == old(self)@.tabs,
            final(self)@.active == old(self)@.active,
            final(self)@.events == old(self)@.events.push(event),
    {
        self.pending_events.push(event);
    }

    /// Drains every event queued since the last call, oldest first.
    pub fn take_events(&mut self) -> (events: Vec<TabEvent>)
        ensures
            events@ == old(self)@.events,
            final(self)@.tabs == old(self)@.tabs,
            final(self)@.active == old(self)@.active,
            final(self)@.events.len() == 0,
    {
        let mut events = Vec::new();
        std::mem::swap(&mut events, &mut self.pending_events);
        events
    }

    pub fn tabs(&self) -> (tabs: &[Tab])
        ensures
            tabs@ == self@.tabs,
    {
        self.tabs.as_slice()
    }

    pub fn len(&self) -> (n: usize)
        ensures
            n == self@.tabs.len(),
    {
        self.tabs.len()
    }

    pub fn is_empty(&self) -> (b: bool)
        ensures
            b == (self@.tabs.len() == 0),
    {
        self.tabs.len() == 0
    }

    pub fn active_id(&self) -> (a: Option<TabId>)
        ensures
            a == self@.active,
    {
        self.active
    }

    /// The active tab, found by its id.
    pub fn active_tab(&self) -> (t: Option<&Tab>)
        ensures
            match self@.active {
                None => t is None,
                Some(a) => match position_of(self@.tabs, a) {
                    None => t is None,
                    Some(i) => t == Some(&self@.tabs[i]),
                },
            },
    {
        match self.active {
            None => None,
            Some(id) => self.get(id),
        }
    }

    /// The first tab with id `id`.
    pub fn get(&self, id: TabId) -> (t: Option<&Tab>)
        ensures
            match position_of(self@.tabs, id) {
                None => t is None,
                Some(i) => t == Some(&self@.tabs[i]),
            },
    {
        match self.index_of(id) {
            None => None,
            Some(i) => Some(&self.tabs[i]),
        }
    }

    fn index_of(&self, id: TabId) -> (r: Option<usize>)
        ensures
            match position_of(self@.tabs, id) {
                None => r is None,
                Some(i) => r == Some(i as usize),
            },
            r matches Some(k) ==> is_first_index(self@.tabs, id, k as int),
    {
        let n = self.tabs.len();
        let mut i: usize = 0;
        while i < n
            invariant
                n == self.tabs@.len(),
                i <= n,
                forall|j: int| 0 <= j < i ==> #[trigger] self.tabs@[j].id != id,
            decreases n - i,
        {
            if self.tabs[i].id == id {
                proof {
                    assert(is_first_index(self.tabs@, id, i as int));
                    lemma_first_index_unique(self.tabs@, id, i as int);
                }
                return Some(i);
            }
            i = i + 1;
        }
        proof {
            lemma_position_of(self.tabs@, id);
        }
        None
    }

    fn insert_at(&mut self, tab: Tab, index: usize)
        requires
            index <= old(self)@.tabs.len(),
        ensures
            final(self)@ == spec_insert(old(self)@, tab, index as int),
    {
        let id = tab.id;
        self.tabs.insert(index, tab);
        self.emit(TabEvent::Created { id, index });
    }

    /// Opens a new tab for `url` in `profile` and returns its fresh id. If
    /// `next_to_active` holds and there is an active tab, the new tab goes
    /// right after it; otherwise at the end. Opening never activates.
    pub fn open(&mut self, url: &str, profile: ProfileId, next_to_active: bool) -> (id: TabId)
        ensures
            is_fresh_tab(
                final(self)@.tabs[open_index(old(self)@, next_to_active)],
                id,
                url@,
                profile,
                None,
            ),
            final(self)@ == spec_insert(
                old(self)@,
                final(self)@.tabs[open_index(old(self)@, next_to_active)],
                open_index(old(self)@, next_to_active),
            ),
            !next_to_active ==> final(self)@.tabs == old(self)@.tabs.push(
                final(self)@.tabs[old(self)@.tabs.len() as int],
            ),
    {
        let tab = Tab::new(url, profile);
        let id = tab.id;
        let mut index = self.tabs.len();
        if next_to_active {
            if let Some(active_id) = self.active {
                if let Some(i) = self.index_of(active_id) {
                    index = i + 1;
                }
            }
        }
        let ghost t = tab;
        self.insert_at(tab, index);
        assert(self@.tabs[index as int] == t);
        id
    }

    /// Opens a child of `parent` right after it (at the end when `parent`
    /// is not in the store) and returns the new tab's fresh id.
    pub fn open_child(&mut self, url: &str, profile: ProfileId, parent: TabId) -> (id: TabId)
        ensures
            is_fresh_tab(
                final(self)@.tabs[child_index(old(self)@, parent)],
                id,
                url@,
                profile,
                Some(parent),
            ),
            final(self)@ == spec_insert(
                old(self)@,
                final(self)@.tabs[child_index(old(self)@, parent)],
                child_index(old(self)@, parent),
            ),
    {
        let tab = Tab::child_of(url, profile, parent);
        let id = tab.id;
        let n = self.tabs.len();
        let index = match self.index_of(parent) {
            Some(i) => i + 1,
            None => n,
        };
        let ghost t = tab;
        self.insert_at(tab, index);
        assert(self@.tabs[index as int] == t);
        id
    }

    /// Closes the first tab with id `id`, if any. When it was the active
    /// tab, its right neighbour becomes active, else its left neighbour,
    /// else nothing.
    pub fn close(&mut self, id: TabId)
        ensures
            final(self)@ == spec_close(old(self)@, id),
    {
        let index = match self.index_of(id) {
            Some(i) => i,
            None => {
                return;
            },
        };
        self.tabs.remove(index);
        self.emit(TabEvent::Closed { id });
        if self.active == Some(id) {
            let next_active = if index < self.tabs.len() {
                Some(self.tabs[index].id)
            } else if index > 0 {
                Some(self.tabs[index - 1].id)
            } else {
                None
            };
            self.active = next_active;
            if let Some(new_active) = next_active {
                self.emit(TabEvent::Activated { id: new_active });
            }
        }
    }

    /// Makes `id` the active tab, unless it is not in the store or is
    /// already active.
    pub fn activate(&mut self, id: TabId)
        ensures
            final(self)@ == spec_activate(old(self)@, id),
    {
        proof {
            lemma_position_of(self@.tabs, id);
        }
        if self.index_of(id).is_none() || self.active == Some(id) {
            return;
        }
        self.active = Some(id);
        self.emit(TabEvent::Activated { id });
    }

    /// Replaces the first tab with id `id` by `f` applied to it, and
    /// queues `Updated`. Nothing happens when no tab has that id.
    pub fn update(&mut self, id: TabId, f: impl FnOnce(Tab) -> Tab)
        requires
            forall|t: Tab| f.requires((t,)),
        ensures
            match position_of(old(self)@.tabs, id) {
                None => final(self)@ == old(self)@,
                Some(i) => {
                    &&& f.ensures((old(self)@.tabs[i],), final(self)@.tabs[i])
                    &&& final(self)@.tabs == old(self)@.tabs.update(i, final(self)@.tabs[i])
                    &&& final(self)@.active == old(self)@.active
                    &&& final(self)@.events == old(self)@.events.push(TabEvent::Updated { id })
                },
            },
    {
        if let Some(i) = self.index_of(id) {
            let tab = self.tabs.remove(i);
            let changed = f(tab);
            self.tabs.insert(i, changed);
            assert(self.tabs@ =~= old(self)@.tabs.update(i as int, self.tabs@[i as int]));
            self.emit(TabEvent::Updated { id });
        }
    }

    /// Moves the tab at position `from` to position `to`. Out-of-range
    /// positions, or `from == to`, change nothing.
    pub fn reorder(&mut self, from: usize, to: usize)
        ensures
            final(self)@ == spec_reorder(old(self)@, from as int, to as int),
    {
        if from == to || from >= self.tabs.len() || to >= self.tabs.len() {
            return;
        }
        let tab = self.tabs.remove(from);
        self.tabs.insert(to, tab);
        self.emit(TabEvent::Reordered);
    }

    /// The tabs of `profile`, in store order.
    pub fn tabs_in_profile(&self, profile: ProfileId) -> (res: Vec<&Tab>)
        ensures
            res@.map_values(|r: &Tab| *r) == in_profile(self@.tabs, profile),
    {
        let mut res: Vec<&Tab> = Vec::new();
        let n = self.tabs.len();
        let ghost pred = |t: Tab| t.profile == profile;
        let mut i: usize = 0;
        while i < n
            invariant
                n == self.tabs@.len(),
                i <= n,
                pred == (|t: Tab| t.profile == profile),
                res@.map_values(|r: &Tab| *r) =~= self.tabs@.take(i as int).filter(pred),
            decreases n - i,
        {
            reveal_with_fuel(Seq::<_>::filter, 1);
            assert(self.tabs@.take(i + 1).drop_last() =~= self.tabs@.take(i as int));
            let t = &self.tabs[i];
            if t.profile == profile {
                res.push(t);
            }
            i = i + 1;
        }
        assert(self.tabs@.take(n as int) =~= self.tabs@);
        res
    }
}

// ---------------------------------------------------------------------------
// Laws
// ---------------------------------------------------------------------------

/// Both insertion points of the store lie within the tab list.
pub proof fn lemma_insertion_points_in_range(v: TabStoreView, next_to_active: bool, parent: TabId)
    ensures
        0 <= open_index(v, next_to_active) <= v.tabs.len(),
        0 <= child_index(v, parent) <= v.tabs.len(),
{
    lemma_position_of(v.tabs, parent);
    if v.active is Some {
        lemma_position_of(v.tabs, v.active->0);
    }
}

/// Closing a tab right after inserting it (with an id not yet in the
/// store, while the active tab is valid) gives back the tab list and the
/// active tab as they were; only the two events remain.
pub proof fn lemma_close_undoes_insert(v: TabStoreView, tab: Tab, index: int)
    requires
        0 <= index <= v.tabs.len(),
        !has_id(v.tabs, tab.id),
        active_is_valid(v),
    ensures
        spec_close(spec_insert(v, tab, index), tab.id).tabs == v.tabs,
        spec_close(spec_insert(v, tab, index), tab.id).active == v.active,
        spec_close(spec_insert(v, tab, index), tab.id).events == v.events.push(
            TabEvent::Created { id: tab.id, index: index as usize },
        ).push(TabEvent::Closed { id: tab.id }),
{
    let w = spec_insert(v, tab, index);
    assert forall|j: int| 0 <= j < index implies #[trigger] w.tabs[j].id != tab.id by {
        assert(w.tabs[j] == v.tabs[j]);
    }
    assert(is_first_index(w.tabs, tab.id, index));
    lemma_first_index_unique(w.tabs, tab.id, index);
    assert(w.tabs.remove(index) =~= v.tabs);
}

/// Moving a tab from `from` to `to` and back again restores the order.
pub proof fn lemma_reorder_round_trip(v: TabStoreView, from: int, to: int)
    ensures
        spec_reorder(spec_reorder(v, from, to), to, from).tabs == v.tabs,
        spec_reorder(spec_reorder(v, from, to), to, from).active == v.active,
{
    let w = spec_reorder(v, from, to);
    if !(from == to || !(0 <= from < v.tabs.len()) || !(0 <= to < v.tabs.len())) {
        assert(w.tabs[to] == v.tabs[from]);
        assert(w.tabs.remove(to).insert(from, w.tabs[to]) =~= v.tabs);
    }
}

/// Reordering only permutes: the list keeps its length and every tab
/// before is a tab after, and the other way round.
pub proof fn lemma_reorder_permutes(v: TabStoreView, from: int, to: int)
    ensures
        spec_reorder(v, from, to).tabs.len() == v.tabs.len(),
        forall|k: int|
            0 <= k < v.tabs.len() ==> exists|j: int|
                0 <= j < v.tabs.len() && spec_reorder(v, from, to).tabs[j] == #[trigger] v.tabs[k],
        forall|j: int|
            0 <= j < v.tabs.len() ==> exists|k: int|
                0 <= k < v.tabs.len() && #[trigger] spec_reorder(v, from, to).tabs[j] == v.tabs[k],
{
    let w = spec_reorder(v, from, to).tabs;
    if from == to || !(0 <= from < v.tabs.len()) || !(0 <= to < v.tabs.len()) {
        assert forall|k: int| 0 <= k < v.tabs.len() implies exists|j: int|
            0 <= j < v.tabs.len() && w[j] == #[trigger] v.tabs[k] by {
            assert(w[k] == v.tabs[k]);
        }
        assert forall|j: int| 0 <= j < v.tabs.len() implies exists|k: int|
            0 <= k < v.tabs.len() && #[trigger] w[j] == v.tabs[k] by {
            assert(w[j] == v.tabs[j]);
        }
    } else {
        let r = v.tabs.remove(from);
        assert forall|k: int| 0 <= k < v.tabs.len() implies exists|j: int|
            0 <= j < v.tabs.len() && w[j] == #[trigger] v.tabs[k] by {
            if k == from {
                assert(w[to] == v.tabs[k]);
            } else {
                let k3 = if k < from { k } else { k - 1 };
                let j = if k3 < to { k3 } else { k3 + 1 };
                assert(r[k3] == v.tabs[k]);
                assert(w[j] == v.tabs[k]);
            }
        }
        assert forall|j: int| 0 <= j < v.tabs.len() implies exists|k: int|
            0 <= k < v.tabs.len() && #[trigger] w[j] == v.tabs[k] by {
            if j == to {
                assert(w[j] == v.tabs[from]);
            } else {
                let k3 = if j < to { j } else { j - 1 };
                let k = if k3 < from { k3 } else { k3 + 1 };
                assert(w[j] == r[k3]);
                assert(r[k3] == v.tabs[k]);
            }
        }
    }
}

/// Mutations only append to the event queue: what was queued before stays
/// queued, in order, until it is drained.
pub proof fn lemma_transitions_only_append_events(
    v: TabStoreView,
    tab: Tab,
    index: int,
    id: TabId,
    from: int,
    to: int,
)
    ensures
        is_seq_prefix(v.events, spec_insert(v, tab, index).events),
        is_seq_prefix(v.events, spec_close(v, id).events),
        is_seq_prefix(v.events, spec_activate(v, id).events),
        is_seq_prefix(v.events, spec_reorder(v, from, to).events),
{
    let e = v.events;
    assert(spec_insert(v, tab, index).events.subrange(0, e.len() as int) =~= e);
    assert(spec_activate(v, id).events.subrange(0, e.len() as int) =~= e);
    assert(spec_reorder(v, from, to).events.subrange(0, e.len() as int) =~= e);
    let c = spec_close(v, id).events;
    assert(c.subrange(0, e.len() as int) =~= e);
}

/// `p` is an initial segment of `s`.
pub open spec fn is_seq_prefix<A>(p: Seq<A>, s: Seq<A>) -> bool {
    p.len() <= s.len() && s.subrange(0, p.len() as int) == p
}

/// Activating twice is the same as activating once.
pub proof fn lemma_activate_idempotent(v: TabStoreView, id: TabId)
    ensures
        spec_activate(spec_activate(v, id), id) == spec_activate(v, id),
{
}

/// With unique ids, a closed id is gone from the store, and the ids stay
/// unique.
pub proof fn lemma_close_removes_id(v: TabStoreView, id: TabId)
    requires
        ids_unique(v.tabs),
    ensures
        !has_id(spec_close(v, id).tabs, id),
        ids_unique(spec_close(v, id).tabs),
{
    lemma_position_of(v.tabs, id);
    match position_of(v.tabs, id) {
        None => {},
        Some(i) => {
            let tabs = v.tabs.remove(i);
            assert forall|k: int| 0 <= k < tabs.len() implies #[trigger] tabs[k].id != id by {
                if k < i {
                    assert(tabs[k] == v.tabs[k]);
                } else {
                    assert(tabs[k] == v.tabs[k + 1]);
                }
            }
            assert forall|a: int, b: int|
                0 <= a < tabs.len() && 0 <= b < tabs.len() && a != b implies #[trigger] tabs[a].id
                != #[trigger] tabs[b].id by {
                let a2 = if a < i { a } else { a + 1 };
                let b2 = if b < i { b } else { b + 1 };
                assert(tabs[a] == v.tabs[a2]);
                assert(tabs[b] == v.tabs[b2]);
            }
        },
    }
}

/// Inserting a tab whose id is not yet in the store keeps ids unique.
pub proof fn lemma_insert_keeps_ids_unique(v: TabStoreView, tab: Tab, index: int)
    requires
        0 <= index <= v.tabs.len(),
        ids_unique(v.tabs),
        !has_id(v.tabs, tab.id),
    ensures
        ids_unique(spec_insert(v, tab, index).tabs),
{
    let tabs = spec_insert(v, tab, index).tabs;
    assert forall|a: int, b: int|
        0 <= a < tabs.len() && 0 <= b < tabs.len() && a != b implies #[trigger] tabs[a].id
        != #[trigger] tabs[b].id by {
        if a != index && b != index {
            let a2 = if a < index { a } else { a - 1 };
            let b2 = if b < index { b } else { b - 1 };
            assert(tabs[a] == v.tabs[a2]);
            assert(tabs[b] == v.tabs[b2]);
        } else if a == index {
            let b2 = if b < index { b } else { b - 1 };
            assert(tabs[b] == v.tabs[b2]);
        } else {
            let a2 = if a < index { a } else { a - 1 };
            assert(tabs[a] == v.tabs[a2]);
        }
    }
}

/// Opening, closing, activating and reordering never leave the store
/// pointing at a tab it does not hold.
pub proof fn lemma_transitions_keep_active_valid(
    v: TabStoreView,
    tab: Tab,
    index: int,
    id: TabId,
    from: int,
    to: int,
)
    requires
        active_is_valid(v),
        0 <= index <= v.tabs.len(),
    ensures
        active_is_valid(spec_insert(v, tab, index)),
        active_is_valid(spec_close(v, id)),
        active_is_valid(spec_activate(v, id)),
        active_is_valid(spec_reorder(v, from, to)),
{
    if let Some(a) = v.active {
        let k = choose|k: int| 0 <= k < v.tabs.len() && #[trigger] v.tabs[k].id == a;
        // insert
        let ins = spec_insert(v, tab, index).tabs;
        let k2 = if k < index { k } else { k + 1 };
        assert(ins[k2] == v.tabs[k]);
        // reorder
        if !(from == to || !(0 <= from < v.tabs.len()) || !(0 <= to < v.tabs.len())) {
            let r = v.tabs.remove(from).insert(to, v.tabs[from]);
            if k == from {
                assert(r[to].id == a);
            } else {
                let k3 = if k < from { k } else { k - 1 };
                let k4 = if k3 < to { k3 } else { k3 + 1 };
                assert(v.tabs.remove(from)[k3] == v.tabs[k]);
                assert(r[k4] == v.tabs[k]);
            }
        }
        // close
        lemma_position_of(v.tabs, id);
        if let Some(i) = position_of(v.tabs, id) {
            let tabs = v.tabs.remove(i);
            if v.active == Some(id) {
                let next = successor_after_removal(tabs, i);
                if let Some(n) = next {
                    if 0 <= i < tabs.len() {
                        assert(tabs[i].id == n);
                    } else {
                        assert(tabs[i - 1].id == n);
                    }
                }
            } else {
                assert(k != i);
                let k5 = if k < i { k } else { k - 1 };
                assert(tabs[k5] == v.tabs[k]);
            }
        }
    }
    if !(!has_id(v.tabs, id) || v.active == Some(id)) {
        assert(has_id(spec_activate(v, id).tabs, id));
    }
}

/// Updating a tab without changing its id keeps the active tab valid.
pub proof fn lemma_update_keeps_active_valid(v: TabStoreView, i: int, t: Tab)
    requires
        active_is_valid(v),
        0 <= i < v.tabs.len(),
        t.id == v.tabs[i].id,
    ensures
        active_is_valid(TabStoreView { tabs: v.tabs.update(i, t), active: v.active, events: v.events }),
{
    if let Some(a) = v.active {
        let k = choose|k: int| 0 <= k < v.tabs.len() && #[trigger] v.tabs[k].id == a;
        assert(v.tabs.update(i, t)[k].id == a);
    }
}

/// Where the tab at position `j` after moving `from` to `to` stood before.
spec fn reorder_source(from: int, to: int, j: int) -> int {
    if j == to {
        from
    } else {
        let k = if j < to { j } else { j - 1 };
        if k < from { k } else { k + 1 }
    }
}

/// Reordering keeps every id once.
pub proof fn lemma_reorder_keeps_ids_unique(v: TabStoreView, from: int, to: int)
    requires
        ids_unique(v.tabs),
    ensures
        ids_unique(spec_reorder(v, from, to).tabs),
{
    if !(from == to || !(0 <= from < v.tabs.len()) || !(0 <= to < v.tabs.len())) {
        let r = v.tabs.remove(from);
        let w = spec_reorder(v, from, to).tabs;
        assert forall|j: int| 0 <= j < w.len() implies {
            &&& 0 <= reorder_source(from, to, j) < v.tabs.len()
            &&& #[trigger] w[j] == v.tabs[reorder_source(from, to, j)]
        } by {
            if j != to {
                let k = if j < to { j } else { j - 1 };
                assert(w[j] == r[k]);
            }
        }
        assert forall|a: int, b: int|
            0 <= a < w.len() && 0 <= b < w.len() && a != b implies #[trigger] w[a].id
            != #[trigger] w[b].id by {
            assert(reorder_source(from, to, a) != reorder_source(from, to, b));
        }
    }
}

/// Updating a tab without changing its id keeps every id once.
pub proof fn lemma_update_keeps_ids_unique(v: TabStoreView, i: int, t: Tab)
    requires
        ids_unique(v.tabs),
        0 <= i < v.tabs.len(),
        t.id == v.tabs[i].id,
    ensures
        ids_unique(v.tabs.update(i, t)),
{
    let u = v.tabs.update(i, t);
    assert forall|a: int, b: int|
        0 <= a < u.len() && 0 <= b < u.len() && a != b implies #[trigger] u[a].id
        != #[trigger] u[b].id by {
        assert(u[a].id == v.tabs[a].id);
        assert(u[b].id == v.tabs[b].id);
    }
}

/// Every mutation of the store keeps each id at most once: opening a tab
/// with an id not yet present, closing, activating, reordering, and
/// updating a tab without changing its id.
pub proof fn lemma_transitions_keep_ids_unique(
    v: TabStoreView,
    tab: Tab,
    index: int,
    id: TabId,
    from: int,
    to: int,
    i: int,
    t: Tab,
)
    requires
        ids_unique(v.tabs),
        0 <= index <= v.tabs.len(),
        !has_id(v.tabs, tab.id),
    ensures
        ids_unique(spec_insert(v, tab, index).tabs),
        ids_unique(spec_close(v, id).tabs),
        ids_unique(spec_activate(v, id).tabs),
        ids_unique(spec_reorder(v, from, to).tabs),
        0 <= i < v.tabs.len() && t.id == v.tabs[i].id ==> ids_unique(v.tabs.update(i, t)),
{
    lemma_insert_keeps_ids_unique(v, tab, index);
    lemma_close_removes_id(v, id);
    lemma_reorder_keeps_ids_unique(v, from, to);
    if 0 <= i < v.tabs.len() && t.id == v.tabs[i].id {
        lemma_update_keeps_ids_unique(v, i, t);
    }
}

/// Closing the active tab, which stands first at position `i`, removes it
/// and hands the active mark to the tab now at position `i` (its right
/// neighbour, which slid into its place) if there is one, else to the tab
/// at `i - 1` (its left neighbour), else to nobody; `Closed` is queued,
/// then `Activated` for the new active tab if there is one.
pub proof fn lemma_close_active_hands_over_to_neighbour(v: TabStoreView, id: TabId, i: int)
    requires
        0 <= i < v.tabs.len(),
        v.tabs[i].id == id,
        forall|j: int| 0 <= j < i ==> #[trigger] v.tabs[j].id != id,
        v.active == Some(id),
    ensures
        spec_close(v, id).tabs == v.tabs.remove(i),
        i < v.tabs.len() - 1 ==> {
            &&& spec_close(v, id).active == Some(spec_close(v, id).tabs[i].id)
            &&& spec_close(v, id).tabs[i] == v.tabs[i + 1]
        },
        i == v.tabs.len() - 1 && i > 0 ==> {
            &&& spec_close(v, id).active == Some(spec_close(v, id).tabs[i - 1].id)
            &&& spec_close(v, id).tabs[i - 1] == v.tabs[i - 1]
        },
        v.tabs.len() == 1 ==> spec_close(v, id).active is None && spec_close(v, id).tabs.len() == 0,
        spec_close(v, id).events == match spec_close(v, id).active {
            Some(n) => v.events.push(TabEvent::Closed { id }).push(TabEvent::Activated { id: n }),
            None => v.events.push(TabEvent::Closed { id }),
        },
{
    assert(is_first_index(v.tabs, id, i));
    lemma_first_index_unique(v.tabs, id, i);
}

/// Closing a tab that is not the active one removes it (its first
/// occurrence), keeps the active tab and queues `Closed` only.
pub proof fn lemma_close_inactive_keeps_active(v: TabStoreView, id: TabId, i: int)
    requires
        0 <= i < v.tabs.len(),
        v.tabs[i].id == id,
        forall|j: int| 0 <= j < i ==> #[trigger] v.tabs[j].id != id,
        v.active != Some(id),
    ensures
        spec_close(v, id).tabs == v.tabs.remove(i),
        spec_close(v, id).active == v.active,
        spec_close(v, id).events == v.events.push(TabEvent::Closed { id }),
{
    assert(is_first_index(v.tabs, id, i));
    lemma_first_index_unique(v.tabs, id, i);
}

/// Where a new tab goes. Opened without `next_to_active`, or with no
/// active tab in the store, it is appended at the end, whatever tab is
/// active, and `Created` carries the old length. Opened with
/// `next_to_active` while the active tab stands first at `i`, it goes
/// right after it, at `i + 1`. A child goes right after the first
/// occurrence of its parent, or at the end when the parent is not in the
/// store. The other tabs keep their order either way.
pub proof fn lemma_open_positions(v: TabStoreView, t: Tab, parent: TabId, i: int, p: int)
    ensures
        spec_insert(v, t, open_index(v, false)).tabs == v.tabs.push(t),
        spec_insert(v, t, open_index(v, false)).events == v.events.push(
            TabEvent::Created { id: t.id, index: v.tabs.len() as usize },
        ),
        spec_insert(v, t, open_index(v, false)).active == v.active,
        (v.active is None || !has_id(v.tabs, v.active->0)) ==> spec_insert(
            v,
            t,
            open_index(v, true),
        ).tabs == v.tabs.push(t),
        (v.active == Some(v.tabs[i].id) && 0 <= i < v.tabs.len() && forall|j: int|
            0 <= j < i ==> #[trigger] v.tabs[j].id != v.tabs[i].id) ==> {
            &&& open_index(v, true) == i + 1
            &&& spec_insert(v, t, open_index(v, true)).tabs == v.tabs.take(i + 1).push(t) + v.tabs.skip(i + 1)
        },
        !has_id(v.tabs, parent) ==> spec_insert(v, t, child_index(v, parent)).tabs == v.tabs.push(t),
        (0 <= p < v.tabs.len() && v.tabs[p].id == parent && forall|j: int|
            0 <= j < p ==> #[trigger] v.tabs[j].id != parent) ==> {
            &&& child_index(v, parent) == p + 1
            &&& spec_insert(v, t, child_index(v, parent)).tabs == v.tabs.take(p + 1).push(t) + v.tabs.skip(p + 1)
        },
{
    assert(v.tabs.insert(v.tabs.len() as int, t) =~= v.tabs.push(t));
    if v.active is None || !has_id(v.tabs, v.active->0) {
        if let Some(a) = v.active {
            lemma_position_of(v.tabs, a);
        }
    }
    if v.active == Some(v.tabs[i].id) && 0 <= i < v.tabs.len() && forall|j: int|
        0 <= j < i ==> #[trigger] v.tabs[j].id != v.tabs[i].id {
        assert(is_first_index(v.tabs, v.tabs[i].id, i));
        lemma_first_index_unique(v.tabs, v.tabs[i].id, i);
        assert(v.tabs.insert(i + 1, t) =~= v.tabs.take(i + 1).push(t) + v.tabs.skip(i + 1));
    }
    lemma_position_of(v.tabs, parent);
    if 0 <= p < v.tabs.len() && v.tabs[p].id == parent && forall|j: int|
        0 <= j < p ==> #[trigger] v.tabs[j].id != parent {
        assert(is_first_index(v.tabs, parent, p));
        lemma_first_index_unique(v.tabs, parent, p);
        assert(v.tabs.insert(p + 1, t) =~= v.tabs.take(p + 1).push(t) + v.tabs.skip(p + 1));
    }
}

} // verus!
