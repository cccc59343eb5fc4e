//! The pane of proposed network rules, on the sandbox screen.

use vstd::prelude::*;
use std::sync::Arc;
use crate::text;
use crate::tui::keys::{KeyCode, KeyEvent};
use crate::tui::policy::PolicyChunk;
use crate::tui::scroll::{
    down, end_offset, keep_cursor, kept_cursor, larger, less, max_of, min_of, minus, rows_shown,
    shown_rows, smaller, step_down, step_up, up,
};

verus! {

/// The pane of proposed network rules.
pub struct DraftPane {
    /// The rules, most recent first.
    pub draft_chunks: Vec<Arc<PolicyChunk>>,
    pub draft_version: u64,
    /// Cursor position relative to `draft_scroll`.
    pub draft_selected: usize,
    pub draft_scroll: usize,
    /// Visible rows, set when the pane is drawn.
    pub draft_viewport_height: usize,
    pub draft_detail_open: bool,
    /// Scroll offset, in drawn rows, of the detail popup.
    pub draft_detail_scroll: usize,
    /// Rows of the detail popup's body, set when it is drawn.
    pub draft_detail_rows: usize,
    /// Visible rows of the detail popup's body, set when it is drawn.
    pub draft_detail_body_height: usize,
    pub pending_draft_approve: bool,
    pub pending_draft_reject: bool,
    pub pending_draft_approve_all: bool,
    pub approve_all_confirm_open: bool,
    /// The pending rules when approval of all was asked for.
    pub approve_all_confirm_chunks: Vec<Arc<PolicyChunk>>,
}

/// Where a key pressed in the pane leads.
#[derive(Debug, Clone, Copy, PartialEq, Eq, Structural)]
pub enum DraftOutcome {
    Stay,
    Quit,
    ToPolicy,
    ToLogs,
    /// A global policy is active, so no rule can be approved.
    CannotApprove,
    /// A global policy is active, so no rule can be changed.
    CannotModify,
}

/// `Arc::clone` gives another handle on the same value.
#[verifier::external_body]
fn share(chunk: &Arc<PolicyChunk>) -> (shared: Arc<PolicyChunk>)
    ensures
        shared == *chunk,
{
    Arc::clone(chunk)
}

/// The rules that wait for a decision, in order.
pub open spec fn pending(chunks: Seq<Arc<PolicyChunk>>) -> Seq<Arc<PolicyChunk>> {
    chunks.filter(|c: Arc<PolicyChunk>| c.status@ == "pending"@)
}

/// The rules that wait for a decision.
pub fn pending_chunks(chunks: &Vec<Arc<PolicyChunk>>) -> (found: Vec<Arc<PolicyChunk>>)
    ensures
        found@ == pending(chunks@),
{
    let mut found: Vec<Arc<PolicyChunk>> = Vec::new();
    let n: usize = chunks.len();
    let mut i: usize = 0;
    proof {
        reveal(Seq::filter);
        assert(chunks@.take(0) =~= Seq::empty());
    }
    while i < n
        invariant
            i <= n,
            n == chunks@.len(),
            found@ == pending(chunks@.take(i as int)),
        decreases n - i,
    {
        proof {
            reveal(Seq::filter);
            assert(chunks@.take(i as int + 1).drop_last() =~= chunks@.take(i as int));
        }
        if text::same(chunks[i].status.as_str(), "pending") {
            found.push(share(&chunks[i]));
        }
        i = i + 1;
    }
    assert(chunks@.take(n as int) =~= chunks@);
    found
}

/// Whether a rule with this status can be approved.
pub open spec fn approvable(status: Seq<char>) -> bool {
    status == "pending"@ || status == "rejected"@
}

/// Whether a rule with this status can be rejected.
pub open spec fn rejectable(status: Seq<char>) -> bool {
    status == "pending"@ || status == "approved"@
}

/// The offset after scrolling a popup of `rows` rows, `height` of which show, by `delta` rows.
pub open spec fn popup_scrolled(scroll: int, delta: int, rows: int, height: int) -> int {
    let current = if scroll <= isize::MAX {
        scroll
    } else {
        0
    };
    larger(smaller(current + delta, smaller(less(rows, height), isize::MAX as int)), 0)
}

/// One screenful of a popup.
pub open spec fn popup_page(height: int) -> int {
    if larger(height, 1) <= isize::MAX {
        larger(height, 1)
    } else {
        1
    }
}

impl DraftPane {
    /// The rows, the cursor and the viewport are small enough to be added to each other.
    pub open spec fn wf(self) -> bool {
        &&& self.draft_chunks@.len() <= isize::MAX
        &&& self.draft_scroll <= isize::MAX
        &&& self.draft_selected <= isize::MAX
        &&& self.draft_viewport_height <= isize::MAX
    }

    /// Whether the pane is as it starts.
    pub open spec fn fresh(self) -> bool {
        &&& self.draft_chunks@.len() == 0
        &&& self.approve_all_confirm_chunks@.len() == 0
        &&& self == (DraftPane {
            draft_chunks: self.draft_chunks,
            draft_version: 0,
            draft_selected: 0,
            draft_scroll: 0,
            draft_viewport_height: 0,
            draft_detail_open: false,
            draft_detail_scroll: 0,
            draft_detail_rows: 0,
            draft_detail_body_height: 0,
            pending_draft_approve: false,
            pending_draft_reject: false,
            pending_draft_approve_all: false,
            approve_all_confirm_open: false,
            approve_all_confirm_chunks: self.approve_all_confirm_chunks,
        })
    }

    /// A pane without rules.
    pub fn new() -> (pane: Self)
        ensures
            pane.fresh(),
            pane.wf(),
    {
        DraftPane {
            draft_chunks: Vec::new(),
            draft_version: 0,
            draft_selected: 0,
            draft_scroll: 0,
            draft_viewport_height: 0,
            draft_detail_open: false,
            draft_detail_scroll: 0,
            draft_detail_rows: 0,
            draft_detail_body_height: 0,
            pending_draft_approve: false,
            pending_draft_reject: false,
            pending_draft_approve_all: false,
            approve_all_confirm_open: false,
            approve_all_confirm_chunks: Vec::new(),
        }
    }

    /// The pane with its detail popup closed.
    pub open spec fn without_detail(self) -> Self {
        DraftPane { draft_detail_open: false, draft_detail_scroll: 0, ..self }
    }

    pub(crate) fn close_detail(&mut self)
        ensures
            *final(self) == old(self).without_detail(),
    {
        self.draft_detail_open = false;
        self.draft_detail_scroll = 0;
    }

    /// The pane drawn with `height` rows: the cursor stands on a row that shows, where any does.
    pub open spec fn fitted(self, height: usize) -> Self {
        let total = self.draft_chunks@.len() as int;
        let shown = shown_rows(total, self.draft_scroll as int, height as int);
        DraftPane {
            draft_viewport_height: height,
            draft_selected: if shown > 0 {
                smaller(self.draft_selected as int, shown - 1) as usize
            } else {
                self.draft_selected
            },
            ..self
        }
    }

    /// Fits the pane to a viewport of `height` rows.
    pub fn fit(&mut self, height: usize)
        ensures
            *final(self) == old(self).fitted(height),
            old(self).wf() && height <= isize::MAX ==> final(self).wf(),
    {
        self.draft_viewport_height = height;
        let shown: usize = rows_shown(self.draft_chunks.len(), self.draft_scroll, height);
        if shown > 0 {
            self.draft_selected = min_of(self.draft_selected, shown - 1);
        }
    }

    /// The rule on which the cursor stands.
    pub open spec fn cursor_row(self) -> int {
        self.draft_scroll + self.draft_selected
    }

    /// Whether the cursor stands on a rule that can be approved.
    pub open spec fn can_approve(self) -> bool {
        self.cursor_row() < self.draft_chunks@.len() && approvable(
            self.draft_chunks@[self.cursor_row()].status@,
        )
    }

    /// Whether the cursor stands on a rule that can be rejected.
    pub open spec fn can_reject(self) -> bool {
        self.cursor_row() < self.draft_chunks@.len() && rejectable(
            self.draft_chunks@[self.cursor_row()].status@,
        )
    }

    fn selected_is(&self, other: &str) -> (yes: bool)
        requires
            self.wf(),
        ensures
            yes <==> self.cursor_row() < self.draft_chunks@.len() && {
                let status = self.draft_chunks@[self.cursor_row()].status@;
                status == "pending"@ || status == other@
            },
    {
        let row: usize = self.draft_scroll + self.draft_selected;
        if row < self.draft_chunks.len() {
            let status = self.draft_chunks[row].status.as_str();
            text::same(status, "pending") || text::same(status, other)
        } else {
            false
        }
    }

    /// Largest useful scroll offset of the detail popup.
    pub fn draft_detail_max_scroll(&self) -> (offset: usize)
        ensures
            offset == less(self.draft_detail_rows as int, self.draft_detail_body_height as int),
    {
        minus(self.draft_detail_rows, self.draft_detail_body_height)
    }

    /// One screenful of the detail popup.
    pub fn draft_detail_page(&self) -> (rows: isize)
        ensures
            rows == popup_page(self.draft_detail_body_height as int),
    {
        let height: usize = max_of(self.draft_detail_body_height, 1);
        if height <= isize::MAX as usize {
            height as isize
        } else {
            1
        }
    }

    /// The pane with its detail popup scrolled by `delta` rows.
    pub open spec fn detail_scrolled(self, delta: int) -> Self {
        DraftPane {
            draft_detail_scroll: popup_scrolled(
                self.draft_detail_scroll as int,
                delta,
                self.draft_detail_rows as int,
                self.draft_detail_body_height as int,
            ) as usize,
            ..self
        }
    }

    /// Moves the detail popup by `delta` rows, clamped to its content.
    pub fn scroll_draft_detail(&mut self, delta: isize)
        ensures
            *final(self) == old(self).detail_scrolled(delta as int),
    {
        let limit: usize = isize::MAX as usize;
        let max: usize = min_of(self.draft_detail_max_scroll(), limit);
        let current: usize = if self.draft_detail_scroll <= limit {
            self.draft_detail_scroll
        } else {
            0
        };
        self.draft_detail_scroll = if delta < 0 {
            let back: usize = (-(delta + 1)) as usize;
            if current <= back {
                0
            } else {
                min_of(current - back - 1, max)
            }
        } else {
            min_of(current + delta as usize, max)
        };
    }

    /// Where `key` leads from the pane.
    pub open spec fn outcome(self, key: KeyEvent, policy_is_global: bool) -> DraftOutcome {
        if self.approve_all_confirm_open {
            DraftOutcome::Stay
        } else if policy_is_global && key.code == KeyCode::Char('a') {
            DraftOutcome::CannotApprove
        } else if policy_is_global && key.code == KeyCode::Char('x') {
            DraftOutcome::CannotModify
        } else if self.draft_detail_open {
            DraftOutcome::Stay
        } else if policy_is_global && key.code == KeyCode::Char('A') {
            DraftOutcome::CannotApprove
        } else if key.code == KeyCode::Esc || key.code == KeyCode::Char('p') {
            DraftOutcome::ToPolicy
        } else if key.code == KeyCode::Char('l') {
            DraftOutcome::ToLogs
        } else if key.code == KeyCode::Char('q') {
            DraftOutcome::Quit
        } else {
            DraftOutcome::Stay
        }
    }

    /// The pane after `key` while the confirmation is open.
    pub open spec fn confirm_step(self, key: KeyEvent, post: Self) -> bool {
        match key.code {
            KeyCode::Char('y') | KeyCode::Enter => post == (DraftPane {
                pending_draft_approve_all: true,
                approve_all_confirm_open: false,
                ..self
            }),
            KeyCode::Esc | KeyCode::Char('n') => {
                &&& post == (DraftPane {
                    approve_all_confirm_open: false,
                    approve_all_confirm_chunks: post.approve_all_confirm_chunks,
                    ..self
                })
                &&& post.approve_all_confirm_chunks@.len() == 0
            },
            _ => post == self,
        }
    }

    /// The pane after `key` while the detail popup is open.
    pub open spec fn after_detail_key(self, key: KeyEvent, policy_is_global: bool) -> Self {
        let page = popup_page(self.draft_detail_body_height as int);
        match key.code {
            KeyCode::Esc | KeyCode::Enter => self.without_detail(),
            KeyCode::Char('a') => if !policy_is_global && self.can_approve() {
                DraftPane { pending_draft_approve: true, ..self.without_detail() }
            } else {
                self
            },
            KeyCode::Char('x') => if !policy_is_global && self.can_reject() {
                DraftPane { pending_draft_reject: true, ..self.without_detail() }
            } else {
                self
            },
            KeyCode::Down | KeyCode::Char('j') => self.detail_scrolled(1),
            KeyCode::Up | KeyCode::Char('k') => self.detail_scrolled(-1),
            KeyCode::PageDown => self.detail_scrolled(page),
            KeyCode::PageUp => self.detail_scrolled(-page),
            KeyCode::Home | KeyCode::Char('g') => DraftPane { draft_detail_scroll: 0, ..self },
            KeyCode::End | KeyCode::Char('G') => DraftPane {
                draft_detail_scroll: less(
                    self.draft_detail_rows as int,
                    self.draft_detail_body_height as int,
                ) as usize,
                ..self
            },
            _ => self,
        }
    }

    /// The pane with the given offset, and the cursor on a row that shows.
    pub open spec fn paged_to(self, scroll: int) -> Self {
        DraftPane {
            draft_scroll: scroll as usize,
            draft_selected: kept_cursor(
                scroll,
                self.draft_selected as int,
                self.draft_chunks@.len() as int,
                self.draft_viewport_height as int,
            ) as usize,
            ..self
        }
    }

    /// The pane with the given offset and cursor.
    pub open spec fn at(self, place: (int, int)) -> Self {
        DraftPane { draft_scroll: place.0 as usize, draft_selected: place.1 as usize, ..self }
    }

    /// The pane after a key that moves through the list or decides on a rule.
    pub open spec fn after_list_key(self, key: KeyEvent, policy_is_global: bool) -> Self {
        let scroll = self.draft_scroll as int;
        let cursor = self.draft_selected as int;
        let total = self.draft_chunks@.len() as int;
        let height = self.draft_viewport_height as int;
        match key.code {
            KeyCode::Enter => if total > 0 {
                DraftPane { draft_detail_open: true, draft_detail_scroll: 0, ..self }
            } else {
                self
            },
            KeyCode::Char('j') | KeyCode::Down => self.at(down(scroll, cursor, total, height)),
            KeyCode::Char('k') | KeyCode::Up => self.at(up(scroll, cursor)),
            KeyCode::PageDown => if total > 0 {
                self.paged_to(smaller(scroll + larger(height, 1), end_offset(total, height)))
            } else {
                self
            },
            KeyCode::PageUp => if total > 0 {
                self.paged_to(less(scroll, larger(height, 1)))
            } else {
                self
            },
            KeyCode::Char('g') => self.at((0, 0)),
            KeyCode::Char('G') => if total > 0 {
                let end = end_offset(total, height);
                self.at((end, less(shown_rows(total, end, height), 1)))
            } else {
                self
            },
            KeyCode::Char('a') => if !policy_is_global && self.can_approve() {
                DraftPane { pending_draft_approve: true, ..self }
            } else {
                self
            },
            KeyCode::Char('x') => if !policy_is_global && self.can_reject() {
                DraftPane { pending_draft_reject: true, ..self }
            } else {
                self
            },
            _ => self,
        }
    }

    /// What `key` makes of the pane.
    pub open spec fn key_step(self, key: KeyEvent, policy_is_global: bool, post: Self) -> bool {
        if self.approve_all_confirm_open {
            self.confirm_step(key, post)
        } else if self.draft_detail_open {
            post == self.after_detail_key(key, policy_is_global)
        } else if key.code == KeyCode::Char('A') && !policy_is_global && pending(
            self.draft_chunks@,
        ).len() > 0 {
            &&& post == (DraftPane {
                approve_all_confirm_open: true,
                approve_all_confirm_chunks: post.approve_all_confirm_chunks,
                ..self
            })
            &&& post.approve_all_confirm_chunks@ == pending(self.draft_chunks@)
        } else {
            post == self.after_list_key(key, policy_is_global)
        }
    }

    fn handle_confirm_key(&mut self, key: KeyEvent)
        ensures
            old(self).confirm_step(key, *final(self)),
    {
        match key.code {
            KeyCode::Char('y') | KeyCode::Enter => {
                self.pending_draft_approve_all = true;
                self.approve_all_confirm_open = false;
            },
            KeyCode::Esc | KeyCode::Char('n') => {
                self.approve_all_confirm_open = false;
                self.approve_all_confirm_chunks.clear();
            },
            _ => {},
        }
    }

    fn handle_detail_key(&mut self, key: KeyEvent, policy_is_global: bool)
        requires
            old(self).wf(),
        ensures
            *final(self) == old(self).after_detail_key(key, policy_is_global),
    {
        match key.code {
            KeyCode::Esc | KeyCode::Enter => {
                self.close_detail();
            },
            KeyCode::Char('a') => {
                if !policy_is_global && self.selected_is("rejected") {
                    self.pending_draft_approve = true;
                    self.close_detail();
                }
            },
            KeyCode::Char('x') => {
                if !policy_is_global && self.selected_is("approved") {
                    self.pending_draft_reject = true;
                    self.close_detail();
                }
            },
            KeyCode::Down | KeyCode::Char('j') => {
                self.scroll_draft_detail(1);
            },
            KeyCode::Up | KeyCode::Char('k') => {
                self.scroll_draft_detail(-1);
            },
            KeyCode::PageDown => {
                let page: isize = self.draft_detail_page();
                self.scroll_draft_detail(page);
            },
            KeyCode::PageUp => {
                let page: isize = self.draft_detail_page();
                self.scroll_draft_detail(-page);
            },
            KeyCode::Home | KeyCode::Char('g') => {
                self.draft_detail_scroll = 0;
            },
            KeyCode::End | KeyCode::Char('G') => {
                self.draft_detail_scroll = self.draft_detail_max_scroll();
            },
            _ => {},
        }
    }

    fn page_to(&mut self, scroll: usize)
        ensures
            *final(self) == old(self).paged_to(scroll as int),
            old(self).wf() && scroll <= isize::MAX ==> final(self).wf(),
    {
        self.draft_scroll = scroll;
        self.draft_selected = keep_cursor(
            scroll,
            self.draft_selected,
            self.draft_chunks.len(),
            self.draft_viewport_height,
        );
    }

    fn handle_list_key(&mut self, key: KeyEvent, policy_is_global: bool)
        requires
            old(self).wf(),
        ensures
            *final(self) == old(self).after_list_key(key, policy_is_global),
            final(self).wf(),
    {
        let total: usize = self.draft_chunks.len();
        let height: usize = self.draft_viewport_height;
        match key.code {
            KeyCode::Enter => {
                if total > 0 {
                    self.draft_detail_open = true;
                    self.draft_detail_scroll = 0;
                }
            },
            KeyCode::Char('j') | KeyCode::Down => {
                let (scroll, cursor): (usize, usize) = step_down(
                    self.draft_scroll,
                    self.draft_selected,
                    total,
                    height,
                );
                self.draft_scroll = scroll;
                self.draft_selected = cursor;
            },
            KeyCode::Char('k') | KeyCode::Up => {
                let (scroll, cursor): (usize, usize) = step_up(
                    self.draft_scroll,
                    self.draft_selected,
                );
                self.draft_scroll = scroll;
                self.draft_selected = cursor;
            },
            KeyCode::PageDown => {
                if total > 0 {
                    let end: usize = total - min_of(height, total);
                    self.page_to(min_of(self.draft_scroll + max_of(height, 1), end));
                }
            },
            KeyCode::PageUp => {
                if total > 0 {
                    self.page_to(minus(self.draft_scroll, max_of(height, 1)));
                }
            },
            KeyCode::Char('g') => {
                self.draft_scroll = 0;
                self.draft_selected = 0;
            },
            KeyCode::Char('G') => {
                if total > 0 {
                    let end: usize = total - min_of(height, total);
                    self.draft_scroll = end;
                    self.draft_selected = minus(rows_shown(total, end, height), 1);
                }
            },
            KeyCode::Char('a') => {
                if !policy_is_global && self.selected_is("rejected") {
                    self.pending_draft_approve = true;
                }
            },
            KeyCode::Char('x') => {
                if !policy_is_global && self.selected_is("approved") {
                    self.pending_draft_reject = true;
                }
            },
            _ => {},
        }
    }

    /// Handles a key pressed in the pane.
    pub fn handle_key(&mut self, key: KeyEvent, policy_is_global: bool) -> (outcome: DraftOutcome)
        requires
            old(self).wf(),
        ensures
            outcome == old(self).outcome(key, policy_is_global),
            old(self).key_step(key, policy_is_global, *final(self)),
            final(self).wf(),
    {
        if self.approve_all_confirm_open {
            self.handle_confirm_key(key);
            return DraftOutcome::Stay;
        }
        if self.draft_detail_open {
            self.handle_detail_key(key, policy_is_global);
            return match key.code {
                KeyCode::Char('a') if policy_is_global => DraftOutcome::CannotApprove,
                KeyCode::Char('x') if policy_is_global => DraftOutcome::CannotModify,
                _ => DraftOutcome::Stay,
            };
        }
        if key.code == KeyCode::Char('A') {
            if policy_is_global {
                return DraftOutcome::CannotApprove;
            }
            let found = pending_chunks(&self.draft_chunks);
            if found.len() > 0 {
                self.approve_all_confirm_chunks = found;
                self.approve_all_confirm_open = true;
            }
            return DraftOutcome::Stay;
        }
        self.handle_list_key(key, policy_is_global);
        match key.code {
            KeyCode::Esc | KeyCode::Char('p') => DraftOutcome::ToPolicy,
            KeyCode::Char('l') => DraftOutcome::ToLogs,
            KeyCode::Char('q') => DraftOutcome::Quit,
            KeyCode::Char('a') if policy_is_global => DraftOutcome::CannotApprove,
            KeyCode::Char('x') if policy_is_global => DraftOutcome::CannotModify,
            _ => DraftOutcome::Stay,
        }
    }
}

/// While a global policy is active, no key asks for a rule to be approved or rejected, except
/// the answer to a confirmation that was open before.
pub proof fn lemma_global_policy_blocks_decisions(pane: DraftPane, key: KeyEvent, post: DraftPane)
    requires
        pane.key_step(key, true, post),
        !pane.approve_all_confirm_open,
    ensures
        post.pending_draft_approve == pane.pending_draft_approve,
        post.pending_draft_reject == pane.pending_draft_reject,
        post.pending_draft_approve_all == pane.pending_draft_approve_all,
        !post.approve_all_confirm_open,
{
}

/// Approval of all rules is asked for only through the confirmation, which lists pending rules
/// only.
pub proof fn lemma_approve_all_is_confirmed(
    pane: DraftPane,
    key: KeyEvent,
    policy_is_global: bool,
    post: DraftPane,
)
    requires
        pane.key_step(key, policy_is_global, post),
    ensures
        post.pending_draft_approve_all && !pane.pending_draft_approve_all
            ==> pane.approve_all_confirm_open,
        post.approve_all_confirm_open && !pane.approve_all_confirm_open ==> forall|i: int|
            0 <= i < post.approve_all_confirm_chunks@.len() ==> (
            #[trigger] post.approve_all_confirm_chunks@[i]).status@ == "pending"@,
{
    if post.approve_all_confirm_open && !pane.approve_all_confirm_open {
        let waiting = |c: Arc<PolicyChunk>| c.status@ == "pending"@;
        assert forall|i: int| 0 <= i < post.approve_all_confirm_chunks@.len() implies (
        #[trigger] post.approve_all_confirm_chunks@[i]).status@ == "pending"@ by {
            pane.draft_chunks@.lemma_filter_pred(waiting, i);
        }
    }
}

/// Approval of a rule is asked for by `a` alone, where the rule under the cursor waits for a
/// decision or was rejected, and rejection by `x` alone, where it waits or was approved. Neither
/// is asked for while a global policy is active or the confirmation is open.
pub proof fn lemma_decisions_are_asked_for_by_their_keys(
    pane: DraftPane,
    key: KeyEvent,
    policy_is_global: bool,
    post: DraftPane,
)
    requires
        pane.key_step(key, policy_is_global, post),
    ensures
        post.pending_draft_approve <==> pane.pending_draft_approve || {
            let row = pane.draft_scroll + pane.draft_selected;
            &&& key.code == KeyCode::Char('a')
            &&& !policy_is_global
            &&& !pane.approve_all_confirm_open
            &&& row < pane.draft_chunks@.len()
            &&& pane.draft_chunks@[row].status@ == "pending"@ || pane.draft_chunks@[row].status@
                == "rejected"@
        },
        post.pending_draft_reject <==> pane.pending_draft_reject || {
            let row = pane.draft_scroll + pane.draft_selected;
            &&& key.code == KeyCode::Char('x')
            &&& !policy_is_global
            &&& !pane.approve_all_confirm_open
            &&& row < pane.draft_chunks@.len()
            &&& pane.draft_chunks@[row].status@ == "pending"@ || pane.draft_chunks@[row].status@
                == "approved"@
        },
        key.code == KeyCode::Char('a') || key.code == KeyCode::Char('x') ==> post.draft_scroll
            == pane.draft_scroll && post.draft_selected == pane.draft_selected,
{
}

/// Approval of all is asked for by the answer yes to an open confirmation, and by nothing else.
/// The confirmation opens on `A` in the list alone, where a rule waits for a decision and no
/// global policy is active, and lists the rules that wait; every answer closes it, and no forgets
/// the list.
pub proof fn lemma_approve_all_takes_two_keys(
    pane: DraftPane,
    key: KeyEvent,
    policy_is_global: bool,
    post: DraftPane,
)
    requires
        pane.key_step(key, policy_is_global, post),
    ensures
        post.pending_draft_approve_all <==> pane.pending_draft_approve_all || (
        pane.approve_all_confirm_open && (key.code == KeyCode::Char('y') || key.code
            == KeyCode::Enter)),
        pane.approve_all_confirm_open ==> (post.approve_all_confirm_open <==> !(key.code
            == KeyCode::Char('y') || key.code == KeyCode::Enter || key.code == KeyCode::Char('n')
            || key.code == KeyCode::Esc)),
        !pane.approve_all_confirm_open ==> (post.approve_all_confirm_open <==> key.code
            == KeyCode::Char('A') && !policy_is_global && !pane.draft_detail_open && exists|i: int|
            0 <= i < pane.draft_chunks@.len() && (#[trigger] pane.draft_chunks@[i]).status@
                == "pending"@),
        !pane.approve_all_confirm_open && post.approve_all_confirm_open
            ==> post.approve_all_confirm_chunks@ == pane.draft_chunks@.filter(
            |c: Arc<PolicyChunk>| c.status@ == "pending"@,
        ),
        pane.approve_all_confirm_open && (key.code == KeyCode::Char('y') || key.code
            == KeyCode::Enter) ==> post.approve_all_confirm_chunks
            == pane.approve_all_confirm_chunks,
        pane.approve_all_confirm_open && (key.code == KeyCode::Char('n') || key.code == KeyCode::Esc)
            ==> post.approve_all_confirm_chunks@.len() == 0,
        post.draft_chunks == pane.draft_chunks,
        post.draft_version == pane.draft_version,
        post.draft_viewport_height == pane.draft_viewport_height,
{
    let waiting = |c: Arc<PolicyChunk>| c.status@ == "pending"@;
    let chunks = pane.draft_chunks@;
    assert(pending(chunks) == chunks.filter(waiting));
    if pending(chunks).len() > 0 {
        chunks.lemma_filter_pred(waiting, 0);
        assert(chunks.filter(waiting).contains(chunks.filter(waiting)[0]));
        chunks.lemma_filter_contains_rev(waiting, chunks.filter(waiting)[0]);
    }
    if exists|i: int| 0 <= i < chunks.len() && (#[trigger] chunks[i]).status@ == "pending"@ {
        let i = choose|i: int| 0 <= i < chunks.len() && (#[trigger] chunks[i]).status@
            == "pending"@;
        chunks.filter_lemma(waiting);
        assert(chunks.filter(waiting).contains(chunks[i]));
    }
}

/// The detail of the rule under the cursor is opened by enter, where there are rules, and shown
/// from its top; enter and escape close it, and so does a decision.
pub proof fn lemma_detail_opens_and_closes(
    pane: DraftPane,
    key: KeyEvent,
    policy_is_global: bool,
    post: DraftPane,
)
    requires
        pane.key_step(key, policy_is_global, post),
        !pane.approve_all_confirm_open,
    ensures
        !pane.draft_detail_open ==> (post.draft_detail_open <==> key.code == KeyCode::Enter
            && pane.draft_chunks@.len() > 0),
        !pane.draft_detail_open && post.draft_detail_open ==> post.draft_detail_scroll == 0,
        pane.draft_detail_open && (key.code == KeyCode::Enter || key.code == KeyCode::Esc)
            ==> !post.draft_detail_open,
        pane.draft_detail_open && !post.draft_detail_open ==> key.code == KeyCode::Enter
            || key.code == KeyCode::Esc || key.code == KeyCode::Char('a') || key.code
            == KeyCode::Char('x'),
        pane.draft_detail_open && (key.code == KeyCode::Char('a')
            && !pane.pending_draft_approve && post.pending_draft_approve || key.code
            == KeyCode::Char('x') && !pane.pending_draft_reject && post.pending_draft_reject)
            ==> !post.draft_detail_open,
        pane.draft_detail_open ==> post.draft_scroll == pane.draft_scroll && post.draft_selected
            == pane.draft_selected,
{
}

/// In the detail, each key scrolls by its own distance, and never past the last screenful.
pub proof fn lemma_detail_scrolls_within_its_rows(
    pane: DraftPane,
    key: KeyEvent,
    policy_is_global: bool,
    post: DraftPane,
)
    requires
        pane.key_step(key, policy_is_global, post),
        !pane.approve_all_confirm_open,
        pane.draft_detail_open,
        pane.draft_detail_rows <= isize::MAX,
        pane.draft_detail_body_height <= pane.draft_detail_rows,
        pane.draft_detail_scroll <= pane.draft_detail_rows - pane.draft_detail_body_height,
    ensures
        post.draft_detail_scroll <= pane.draft_detail_rows - pane.draft_detail_body_height,
        key.code == KeyCode::Down || key.code == KeyCode::Char('j') ==> post.draft_detail_scroll
            == smaller(
            pane.draft_detail_scroll + 1,
            pane.draft_detail_rows - pane.draft_detail_body_height,
        ),
        key.code == KeyCode::Up || key.code == KeyCode::Char('k') ==> post.draft_detail_scroll
            == larger(pane.draft_detail_scroll - 1, 0),
        key.code == KeyCode::PageDown && pane.draft_detail_body_height > 0
            ==> post.draft_detail_scroll == smaller(
            pane.draft_detail_scroll + pane.draft_detail_body_height,
            pane.draft_detail_rows - pane.draft_detail_body_height,
        ),
        key.code == KeyCode::PageUp && pane.draft_detail_body_height > 0 ==> post.draft_detail_scroll
            == larger(pane.draft_detail_scroll - pane.draft_detail_body_height, 0),
        key.code == KeyCode::Home || key.code == KeyCode::Char('g') ==> post.draft_detail_scroll
            == 0,
        key.code == KeyCode::End || key.code == KeyCode::Char('G') ==> post.draft_detail_scroll
            == pane.draft_detail_rows - pane.draft_detail_body_height,
{
}

/// In the list, each key moves the cursor to the row that it stands for, and the row stays in
/// view.
pub proof fn lemma_cursor_moves_by_its_keys(
    pane: DraftPane,
    key: KeyEvent,
    policy_is_global: bool,
    post: DraftPane,
)
    requires
        pane.wf(),
        pane.key_step(key, policy_is_global, post),
        !pane.approve_all_confirm_open,
        !pane.draft_detail_open,
        pane.draft_selected < pane.draft_viewport_height,
        pane.draft_scroll + pane.draft_selected < pane.draft_chunks@.len(),
    ensures
        ({
            let row = pane.draft_scroll + pane.draft_selected;
            let moved = post.draft_scroll + post.draft_selected;
            let total = pane.draft_chunks@.len() as int;
            let height = pane.draft_viewport_height as int;
            &&& 0 <= moved < total
            &&& post.draft_selected < height
            &&& key.code == KeyCode::Down || key.code == KeyCode::Char('j') ==> moved == if row + 1
                < total {
                row + 1
            } else {
                row
            }
            &&& key.code == KeyCode::Up || key.code == KeyCode::Char('k') ==> moved == if row > 0 {
                row - 1
            } else {
                0
            }
            &&& key.code == KeyCode::Char('g') ==> moved == 0
            &&& key.code == KeyCode::Char('G') ==> moved == total - 1
            &&& key.code == KeyCode::PageDown ==> post.draft_scroll == smaller(
                pane.draft_scroll + height,
                if height < total {
                    total - height
                } else {
                    0
                },
            )
            &&& key.code == KeyCode::PageUp ==> post.draft_scroll == larger(
                pane.draft_scroll - height,
                0,
            )
            &&& moved != row ==> key.code == KeyCode::Down || key.code == KeyCode::Char('j')
                || key.code == KeyCode::Up || key.code == KeyCode::Char('k') || key.code
                == KeyCode::Char('g') || key.code == KeyCode::Char('G') || key.code
                == KeyCode::PageDown || key.code == KeyCode::PageUp
        }),
{
}

/// Each way out of the pane has its own keys, which lead there from the list alone; and a
/// decision that a global policy rules out is said to be so.
pub proof fn lemma_pane_is_left_by_its_keys(pane: DraftPane, key: KeyEvent, policy_is_global: bool)
    ensures
        ({
            let outcome = pane.outcome(key, policy_is_global);
            let listed = !pane.approve_all_confirm_open && !pane.draft_detail_open;
            &&& outcome == DraftOutcome::Quit <==> listed && key.code == KeyCode::Char('q')
            &&& outcome == DraftOutcome::ToLogs <==> listed && key.code == KeyCode::Char('l')
            &&& outcome == DraftOutcome::ToPolicy <==> listed && (key.code == KeyCode::Esc
                || key.code == KeyCode::Char('p'))
            &&& outcome == DraftOutcome::CannotApprove <==> policy_is_global
                && !pane.approve_all_confirm_open && (key.code == KeyCode::Char('a') || (key.code
                == KeyCode::Char('A') && !pane.draft_detail_open))
            &&& outcome == DraftOutcome::CannotModify <==> policy_is_global
                && !pane.approve_all_confirm_open && key.code == KeyCode::Char('x')
        }),
{
}

/// Of the rules those wait for a decision that are pending, and no others.
pub proof fn lemma_pending_rules_wait(chunks: Seq<Arc<PolicyChunk>>, chunk: Arc<PolicyChunk>)
    ensures
        pending(chunks).contains(chunk) <==> chunks.contains(chunk) && chunk.status@ == "pending"@,
        pending(chunks).len() <= chunks.len(),
{
    let waiting = |c: Arc<PolicyChunk>| c.status@ == "pending"@;
    assert(pending(chunks) == chunks.filter(waiting));
    assert(waiting(chunk) <==> chunk.status@ == "pending"@);
    chunks.lemma_filter_len(waiting);
    if pending(chunks).contains(chunk) {
        let k = choose|k: int| 0 <= k < pending(chunks).len() && pending(chunks)[k] == chunk;
        chunks.lemma_filter_pred(waiting, k);
        chunks.lemma_filter_contains_rev(waiting, chunk);
    }
    if chunks.contains(chunk) && waiting(chunk) {
        let i = choose|i: int| 0 <= i < chunks.len() && chunks[i] == chunk;
        chunks.lemma_filter_contains(waiting, i);
    }
}

} // verus!
