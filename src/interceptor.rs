use vstd::prelude::*;
use crate::weburl::{WebUrl, is_web_scheme};

verus! {

/// The notification sent to the host when a page asks for a new window that
/// should become an application tab.
#[derive(Clone, Debug, PartialEq, Eq)]
pub struct BrowserNewTabEventPayload {
    pub parent_tab_id: String,
    pub url: String,
}

/// What the engine is told to do with a renderer-requested new window.
#[derive(Clone, Debug, PartialEq, Eq)]
pub enum NewWindowDecision {
    /// Default handling by the engine.
    Allow,
    /// No window is opened; the host is asked for a new tab instead.
    Deny(BrowserNewTabEventPayload),
}

/// The decision owed for a new-window request to `url` from the tab
/// `parent`: it depends on the scheme alone.
pub open spec fn new_window_outcome(parent: Seq<char>, url: WebUrl) -> Option<(Seq<char>, Seq<char>)> {
    if is_web_scheme(url.scheme@) {
        Some((parent, url.href@))
    } else {
        None
    }
}

/// The new-tab request carried by a decision, as plain text, if any.
pub open spec fn requested_tab(d: NewWindowDecision) -> Option<(Seq<char>, Seq<char>)> {
    match d {
        NewWindowDecision::Allow => None,
        NewWindowDecision::Deny(p) => Some((p.parent_tab_id@, p.url@)),
    }
}

/// Web pages (`http`, `https`) become a new-tab request for the parent tab;
/// every other scheme is left to the engine.
pub fn intercept_new_window(parent_tab_id: &String, url: &WebUrl) -> (r: NewWindowDecision)
    ensures
        requested_tab(r) == new_window_outcome(parent_tab_id@, *url),
{
    if url.is_web() {
        NewWindowDecision::Deny(
            BrowserNewTabEventPayload { parent_tab_id: parent_tab_id.clone(), url: url.href.clone() },
        )
    } else {
        NewWindowDecision::Allow
    }
}

} // verus!
