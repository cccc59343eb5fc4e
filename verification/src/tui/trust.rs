//! The trust tab of the sandbox screen.

use vstd::prelude::*;
use crate::appraisal::GetSandboxAttestationResponse;
use crate::tui::keys::{KeyCode, KeyEvent};
use crate::tui::scroll::{clamped_scroll, larger, last_offset, max_of, minus, scrolled};

verus! {

/// The trust tab of the sandbox screen.
pub struct TrustPane {
    pub pending_sandbox_attestation: bool,
    pub sandbox_attestation_loading: bool,
    /// Which request a reply must belong to.
    pub sandbox_attestation_request_id: u64,
    pub sandbox_attestation: Option<GetSandboxAttestationResponse>,
    pub trust_scroll: usize,
    pub trust_content_rows: usize,
    /// Visible rows, set when the tab is drawn.
    pub trust_viewport_height: usize,
}

/// Where a key pressed in the tab leads.
#[derive(Debug, Clone, Copy, PartialEq, Eq, Structural)]
pub enum TrustOutcome {
    Stay,
    Quit,
    Leave,
    NextTab,
    /// A fresh appraisal was asked for.
    Request,
}

impl TrustPane {
    /// The rows and the viewport are small enough to be added to each other.
    pub open spec fn wf(self) -> bool {
        &&& self.trust_scroll <= isize::MAX
        &&& self.trust_content_rows <= isize::MAX
        &&& self.trust_viewport_height <= isize::MAX
    }

    /// Whether the pane is as it starts.
    pub open spec fn fresh(self) -> bool {
        &&& self == (TrustPane {
            pending_sandbox_attestation: false,
            sandbox_attestation_loading: false,
            sandbox_attestation_request_id: 0,
            sandbox_attestation: None,
            trust_scroll: 0,
            trust_content_rows: 0,
            trust_viewport_height: 0,
        })
    }

    /// The tab before anything was asked for.
    pub fn new() -> (pane: Self)
        ensures
            pane.fresh(),
            pane.wf(),
    {
        TrustPane {
            pending_sandbox_attestation: false,
            sandbox_attestation_loading: false,
            sandbox_attestation_request_id: 0,
            sandbox_attestation: None,
            trust_scroll: 0,
            trust_content_rows: 0,
            trust_viewport_height: 0,
        }
    }

    /// The number of the request after the current one.
    pub open spec fn next_request(self) -> u64 {
        if self.sandbox_attestation_request_id == u64::MAX {
            0
        } else {
            (self.sandbox_attestation_request_id + 1) as u64
        }
    }

    /// The tab with the appraisal dropped, so that a reply that is still to come belongs to no
    /// request.
    pub open spec fn cleared(self) -> Self {
        TrustPane {
            pending_sandbox_attestation: false,
            sandbox_attestation_loading: false,
            sandbox_attestation_request_id: self.next_request(),
            sandbox_attestation: None,
            trust_scroll: 0,
            trust_content_rows: 0,
            trust_viewport_height: 0,
        }
    }

    /// Drops the appraisal.
    pub fn clear_sandbox_attestation(&mut self)
        ensures
            *final(self) == old(self).cleared(),
            final(self).wf(),
    {
        self.sandbox_attestation_request_id = if self.sandbox_attestation_request_id == u64::MAX {
            0
        } else {
            self.sandbox_attestation_request_id + 1
        };
        self.pending_sandbox_attestation = false;
        self.sandbox_attestation_loading = false;
        self.sandbox_attestation = None;
        self.trust_scroll = 0;
        self.trust_content_rows = 0;
        self.trust_viewport_height = 0;
    }

    /// The tab scrolled by `delta` rows.
    pub open spec fn scrolled_by(self, delta: int) -> Self {
        TrustPane {
            trust_scroll: scrolled(
                self.trust_scroll as int,
                delta,
                self.trust_content_rows as int,
                self.trust_viewport_height as int,
            ) as usize,
            ..self
        }
    }

    /// Scrolls the tab by `delta` rows, down where it is positive.
    pub fn scroll_trust(&mut self, delta: isize)
        requires
            old(self).trust_scroll + delta <= usize::MAX,
        ensures
            *final(self) == old(self).scrolled_by(delta as int),
    {
        self.trust_scroll = clamped_scroll(
            self.trust_scroll,
            delta,
            self.trust_content_rows,
            self.trust_viewport_height,
        );
    }

    /// Where `key` leads from the tab.
    pub open spec fn outcome(self, key: KeyEvent) -> TrustOutcome {
        match key.code {
            KeyCode::Char('q') => TrustOutcome::Quit,
            KeyCode::Esc => TrustOutcome::Leave,
            KeyCode::Char('r') => if self.sandbox_attestation_loading {
                TrustOutcome::Stay
            } else {
                TrustOutcome::Request
            },
            KeyCode::Char('h')
            | KeyCode::Char('l')
            | KeyCode::Left
            | KeyCode::Right => TrustOutcome::NextTab,
            _ => TrustOutcome::Stay,
        }
    }

    /// Whether `key` leaves the sandbox screen.
    pub(crate) fn leaves(&self, key: KeyEvent) -> (yes: bool)
        ensures
            yes == (self.outcome(key) == TrustOutcome::Leave),
    {
        key.code == KeyCode::Esc
    }

    /// The tab after `key`.
    pub open spec fn after_key(self, key: KeyEvent) -> Self {
        let height = self.trust_viewport_height as int;
        match key.code {
            KeyCode::Esc
            | KeyCode::Char('h')
            | KeyCode::Char('l')
            | KeyCode::Left
            | KeyCode::Right => self.cleared(),
            KeyCode::Char('r') => if self.sandbox_attestation_loading {
                self
            } else {
                TrustPane {
                    sandbox_attestation: None,
                    trust_scroll: 0,
                    sandbox_attestation_loading: true,
                    pending_sandbox_attestation: true,
                    ..self
                }
            },
            KeyCode::Char('j') | KeyCode::Down => self.scrolled_by(1),
            KeyCode::Char('k') | KeyCode::Up => self.scrolled_by(-1),
            KeyCode::PageDown => self.scrolled_by(larger(height, 1)),
            KeyCode::PageUp => self.scrolled_by(-larger(height, 1)),
            KeyCode::Char('G') => TrustPane {
                trust_scroll: last_offset(self.trust_content_rows as int, height) as usize,
                ..self
            },
            KeyCode::Char('g') => TrustPane { trust_scroll: 0, ..self },
            _ => self,
        }
    }

    /// Handles a key pressed in the tab.
    pub fn handle_key(&mut self, key: KeyEvent) -> (outcome: TrustOutcome)
        requires
            old(self).wf(),
        ensures
            outcome == old(self).outcome(key),
            *final(self) == old(self).after_key(key),
            final(self).wf(),
    {
        let page: isize = max_of(self.trust_viewport_height, 1) as isize;
        match key.code {
            KeyCode::Char('q') => {
                return TrustOutcome::Quit;
            },
            KeyCode::Esc => {
                self.clear_sandbox_attestation();
                return TrustOutcome::Leave;
            },
            KeyCode::Char('r') => {
                if !self.sandbox_attestation_loading {
                    self.sandbox_attestation = None;
                    self.trust_scroll = 0;
                    self.sandbox_attestation_loading = true;
                    self.pending_sandbox_attestation = true;
                    return TrustOutcome::Request;
                }
            },
            KeyCode::Char('h') | KeyCode::Char('l') | KeyCode::Left | KeyCode::Right => {
                self.clear_sandbox_attestation();
                return TrustOutcome::NextTab;
            },
            KeyCode::Char('j') | KeyCode::Down => {
                self.scroll_trust(1);
            },
            KeyCode::Char('k') | KeyCode::Up => {
                self.scroll_trust(-1);
            },
            KeyCode::PageDown => {
                self.scroll_trust(page);
            },
            KeyCode::PageUp => {
                self.scroll_trust(-page);
            },
            KeyCode::Char('G') => {
                self.trust_scroll = minus(
                    self.trust_content_rows,
                    max_of(self.trust_viewport_height, 1),
                );
            },
            KeyCode::Char('g') => {
                self.trust_scroll = 0;
            },
            _ => {},
        }
        TrustOutcome::Stay
    }
}

/// Leaving the tab, for the dashboard or another tab, drops the appraisal and gives later
/// requests another number.
pub proof fn lemma_leaving_drops_appraisal(pane: TrustPane, key: KeyEvent)
    requires
        pane.outcome(key) == TrustOutcome::Leave || pane.outcome(key) == TrustOutcome::NextTab,
    ensures
        pane.after_key(key).sandbox_attestation is None,
        !pane.after_key(key).sandbox_attestation_loading,
        !pane.after_key(key).pending_sandbox_attestation,
        pane.after_key(key).sandbox_attestation_request_id != pane.sandbox_attestation_request_id,
{
}

/// No second appraisal is asked for while one is under way.
pub proof fn lemma_one_request_at_a_time(pane: TrustPane, key: KeyEvent)
    requires
        pane.sandbox_attestation_loading,
    ensures
        pane.outcome(key) != TrustOutcome::Request,
        pane.after_key(key).pending_sandbox_attestation ==> pane.pending_sandbox_attestation,
{
}

/// An appraisal is asked for by `r` alone, where none is under way; asking drops the one that is
/// shown, and keeps the number that its reply must carry.
pub proof fn lemma_appraisals_are_asked_for_by_their_key(pane: TrustPane, key: KeyEvent)
    ensures
        ({
            let post = pane.after_key(key);
            let asks = key.code == KeyCode::Char('r') && !pane.sandbox_attestation_loading;
            let leaves = key.code == KeyCode::Esc || key.code == KeyCode::Char('h') || key.code
                == KeyCode::Char('l') || key.code == KeyCode::Left || key.code == KeyCode::Right;
            &&& pane.outcome(key) == TrustOutcome::Request <==> asks
            &&& asks ==> post.pending_sandbox_attestation && post.sandbox_attestation_loading
                && post.sandbox_attestation is None && post.trust_scroll == 0
                && post.sandbox_attestation_request_id == pane.sandbox_attestation_request_id
            &&& !asks && !leaves ==> post.pending_sandbox_attestation
                == pane.pending_sandbox_attestation && post.sandbox_attestation_loading
                == pane.sandbox_attestation_loading && post.sandbox_attestation
                == pane.sandbox_attestation && post.sandbox_attestation_request_id
                == pane.sandbox_attestation_request_id
            &&& leaves ==> !post.pending_sandbox_attestation && !post.sandbox_attestation_loading
                && post.sandbox_attestation is None && post.sandbox_attestation_request_id
                != pane.sandbox_attestation_request_id
            &&& pane.outcome(key) == TrustOutcome::Quit <==> key.code == KeyCode::Char('q')
            &&& pane.outcome(key) == TrustOutcome::Leave <==> key.code == KeyCode::Esc
            &&& pane.outcome(key) == TrustOutcome::NextTab <==> leaves && key.code != KeyCode::Esc
        }),
{
}

/// Each key scrolls the tab by its own distance, and the last viewport of it stays visible.
pub proof fn lemma_trust_scrolls_by_its_keys(pane: TrustPane, key: KeyEvent)
    requires
        pane.wf(),
        pane.trust_viewport_height > 0,
        pane.trust_content_rows >= pane.trust_viewport_height,
        pane.trust_scroll <= pane.trust_content_rows - pane.trust_viewport_height,
    ensures
        ({
            let top = pane.trust_scroll as int;
            let height = pane.trust_viewport_height as int;
            let last = pane.trust_content_rows - height;
            let moved = pane.after_key(key).trust_scroll as int;
            &&& 0 <= moved <= last
            &&& key.code == KeyCode::Down || key.code == KeyCode::Char('j') ==> moved == if top + 1
                <= last {
                top + 1
            } else {
                last
            }
            &&& key.code == KeyCode::Up || key.code == KeyCode::Char('k') ==> moved == if top > 0 {
                top - 1
            } else {
                0
            }
            &&& key.code == KeyCode::PageDown ==> moved == if top + height <= last {
                top + height
            } else {
                last
            }
            &&& key.code == KeyCode::PageUp ==> moved == if top >= height {
                top - height
            } else {
                0
            }
            &&& key.code == KeyCode::Char('g') ==> moved == 0
            &&& key.code == KeyCode::Char('G') ==> moved == last
        }),
{
}

} // verus!
