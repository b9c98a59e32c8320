//! The data that crosses the render-engine boundary: what a new view is
//! configured with, and the events a view reports back.

use vstd::prelude::*;
use crate::newtab;
use crate::tabs::ProfileId;

verus! {

/// Configuration for a new engine-backed view (one per tab).
#[derive(Debug, Clone)]
pub struct ViewConfig {
    pub profile: ProfileId,
    pub initial_url: String,
    pub enable_javascript: bool,
    /// `None` means the engine's own user agent.
    pub user_agent: Option<String>,
}

/// Events a view reports.
#[derive(Debug, Clone)]
pub enum EngineEvent {
    LoadStarted,
    /// Load progress in `0.0..=1.0`, carried as the bit pattern of the
    /// `f64` (`f64::to_bits`).
    LoadProgress(u64),
    LoadFinished,
    LoadFailed { message: String },
    TitleChanged(String),
    UrlChanged(String),
    FaviconChanged(Vec<u8>),
    /// The page asked for a new window or tab.
    NewWindowRequested { url: String },
    DownloadRequested { url: String, suggested_filename: Option<String> },
    /// The engine offers to upgrade a navigation to HTTPS.
    InsecureNavigationAttempted { url: String },
}

/// The configuration of the view for a tab opened on `url`: the new-tab
/// sentinel resolved to a loadable URL, JavaScript on, the engine's own
/// user agent.
pub fn tab_view_config(url: &str, profile: ProfileId) -> (c: ViewConfig)
    ensures
        c.profile == profile,
        c.initial_url@ == newtab::spec_resolve(url@),
        c.enable_javascript,
        c.user_agent is None,
{
    ViewConfig {
        profile,
        initial_url: newtab::resolve(url),
        enable_javascript: true,
        user_agent: None,
    }
}

/// Whether a view is suspended, and the URL it showed when it was.
///
/// A suspended view keeps its tab's metadata but drops its page: it is
/// navigated to `about:blank`, and loading a URL brings it back.
#[derive(Debug, Clone, PartialEq, Eq)]
pub struct SuspendState {
    pub suspended: bool,
    pub suspended_url: Option<String>,
}

/// The state after suspending a view that shows `current_uri`: a view that
/// already was suspended keeps its state; otherwise it becomes suspended and
/// remembers `current_uri` where there is one.
pub open spec fn suspended_state(s: SuspendState, current_uri: Option<String>) -> SuspendState {
    if s.suspended {
        s
    } else {
        SuspendState {
            suspended: true,
            suspended_url: match current_uri {
                Some(u) => Some(u),
                None => s.suspended_url,
            },
        }
    }
}

/// The state after a reactivation, and the URL to load for it.
pub open spec fn reactivated_state(s: SuspendState) -> (SuspendState, Option<String>) {
    if s.suspended {
        (SuspendState { suspended: false, suspended_url: s.suspended_url }, s.suspended_url)
    } else {
        (s, None)
    }
}

/// Suspending a live view that shows `uri` and then reactivating it hands
/// back `uri` to be loaded and leaves the view live again; a second suspend
/// in between (whatever the view then shows) changes nothing.
pub proof fn lemma_reactivate_reloads_suspended_url(s: SuspendState, uri: String, later: Option<String>)
    requires
        !s.suspended,
    ensures
        reactivated_state(suspended_state(s, Some(uri))).1 == Some(uri),
        !reactivated_state(suspended_state(s, Some(uri))).0.suspended,
        suspended_state(suspended_state(s, Some(uri)), later) == suspended_state(s, Some(uri)),
{
}

impl SuspendState {
    pub fn new() -> (s: Self)
        ensures
            !s.suspended,
            s.suspended_url is None,
    {
        SuspendState { suspended: false, suspended_url: None }
    }

    /// Suspends a view now showing `current_uri`. Returns whether the view
    /// must be navigated to `about:blank`: not when it already was
    /// suspended, in which case nothing changes.
    pub fn suspend(&mut self, current_uri: Option<String>) -> (navigate_to_blank: bool)
        ensures
            *final(self) == suspended_state(*old(self), current_uri),
            navigate_to_blank == !old(self).suspended,
            old(self).suspended ==> *final(self) == *old(self) && !navigate_to_blank,
            !old(self).suspended ==> {
                &&& navigate_to_blank
                &&& final(self).suspended
                &&& final(self).suspended_url == match current_uri {
                    Some(u) => Some(u),
                    None => old(self).suspended_url,
                }
            },
    {
        if self.suspended {
            return false;
        }
        if let Some(uri) = current_uri {
            self.suspended_url = Some(uri);
        }
        self.suspended = true;
        true
    }

    /// The view is reactivated without a new URL (a reload). A suspended
    /// view comes back: the flag clears and the URL it showed when it was
    /// suspended is handed back, to be loaded fresh. A live view is left
    /// as it is and gets `None`: it simply reloads what it shows.
    pub fn reactivate(&mut self) -> (remembered: Option<String>)
        ensures
            (*final(self), remembered) == reactivated_state(*old(self)),
            old(self).suspended ==> {
                &&& !final(self).suspended
                &&& final(self).suspended_url == old(self).suspended_url
                &&& remembered == old(self).suspended_url
            },
            !old(self).suspended ==> *final(self) == *old(self) && remembered is None,
    {
        if !self.suspended {
            return None;
        }
        self.suspended = false;
        match &self.suspended_url {
            Some(u) => Some(u.clone()),
            None => None,
        }
    }

    /// A URL is being loaded: the view is live again.
    pub fn on_load(&mut self)
        ensures
            !final(self).suspended,
            final(self).suspended_url == old(self).suspended_url,
    {
        self.suspended = false;
    }
}

} // verus!
