//! The policy tab of the sandbox screen, with what is asked of the sandbox.

use vstd::prelude::*;
use crate::tui::keys::{KeyCode, KeyEvent};
use crate::tui::model::SandboxPolicyTab;
use crate::tui::scroll::{clamped_scroll, larger, last_offset, max_of, minus, scrolled, smaller};
use crate::tui::styled::Line;

verus! {

/// The policy tab of the sandbox screen, with what is asked of the sandbox.
pub struct PolicyPane {
    pub confirm_delete: bool,
    pub pending_sandbox_delete: bool,
    pub pending_sandbox_detail: bool,
    pub pending_shell_connect: bool,
    pub sandbox_policy_tab: SandboxPolicyTab,
    pub sandbox_policy_is_global: bool,
    pub sandbox_global_policy_version: u32,
    /// The encoded policy of the sandbox.
    pub sandbox_policy: Option<Vec<u8>>,
    pub sandbox_providers_list: Vec<String>,
    /// The policy as it is shown.
    pub policy_lines: Vec<Line>,
    pub policy_scroll: usize,
    /// Visible lines, set when the tab is drawn.
    pub policy_viewport_height: usize,
}

/// Where a key pressed in the tab leads.
#[derive(Debug, Clone, Copy, PartialEq, Eq, Structural)]
pub enum PolicyOutcome {
    Stay,
    Quit,
    Leave,
    ToLogs,
    ToDraft,
}

impl PolicyPane {
    /// The lines and the viewport are small enough to be added to each other.
    pub open spec fn wf(self) -> bool {
        &&& self.policy_scroll <= isize::MAX
        &&& self.policy_lines@.len() <= isize::MAX
        &&& self.policy_viewport_height <= isize::MAX
    }

    /// Whether the pane is as it starts.
    pub open spec fn fresh(self) -> bool {
        &&& self.policy_lines@.len() == 0
        &&& self.sandbox_providers_list@.len() == 0
        &&& self == (PolicyPane {
            confirm_delete: false,
            pending_sandbox_delete: false,
            pending_sandbox_detail: false,
            pending_shell_connect: false,
            sandbox_policy_tab: SandboxPolicyTab::Policy,
            sandbox_policy_is_global: false,
            sandbox_global_policy_version: 0,
            sandbox_policy: None,
            sandbox_providers_list: self.sandbox_providers_list,
            policy_lines: self.policy_lines,
            policy_scroll: 0,
            policy_viewport_height: 0,
        })
    }

    /// The tab before a sandbox was shown.
    pub fn new() -> (pane: Self)
        ensures
            pane.fresh(),
            pane.wf(),
    {
        PolicyPane {
            confirm_delete: false,
            pending_sandbox_delete: false,
            pending_sandbox_detail: false,
            pending_shell_connect: false,
            sandbox_policy_tab: SandboxPolicyTab::Policy,
            sandbox_policy_is_global: false,
            sandbox_global_policy_version: 0,
            sandbox_policy: None,
            sandbox_providers_list: Vec::new(),
            policy_lines: Vec::new(),
            policy_scroll: 0,
            policy_viewport_height: 0,
        }
    }

    /// Whether `post` is `self` without a sandbox.
    pub open spec fn empties(self, post: Self) -> bool {
        &&& post.policy_lines@.len() == 0
        &&& post.sandbox_providers_list@.len() == 0
        &&& post == (PolicyPane {
            confirm_delete: false,
            sandbox_policy: None,
            sandbox_providers_list: post.sandbox_providers_list,
            policy_lines: post.policy_lines,
            policy_scroll: 0,
            ..self
        })
    }

    /// Drops what is known of the sandbox.
    pub fn reset(&mut self)
        ensures
            old(self).empties(*final(self)),
            old(self).wf() ==> final(self).wf(),
    {
        self.confirm_delete = false;
        self.sandbox_policy = None;
        self.sandbox_providers_list.clear();
        self.policy_lines.clear();
        self.policy_scroll = 0;
    }

    /// The pane after the answer to whether to delete the sandbox.
    pub open spec fn after_confirm_key(self, key: KeyEvent) -> Self {
        match key.code {
            KeyCode::Char('y') => PolicyPane {
                confirm_delete: false,
                pending_sandbox_delete: true,
                ..self
            },
            KeyCode::Esc | KeyCode::Char('n') => PolicyPane { confirm_delete: false, ..self },
            _ => self,
        }
    }

    /// Handles the answer to whether to delete the sandbox.
    pub fn handle_confirm_key(&mut self, key: KeyEvent)
        ensures
            *final(self) == old(self).after_confirm_key(key),
    {
        match key.code {
            KeyCode::Char('y') => {
                self.confirm_delete = false;
                self.pending_sandbox_delete = true;
            },
            KeyCode::Esc | KeyCode::Char('n') => {
                self.confirm_delete = false;
            },
            _ => {},
        }
    }

    /// The tab scrolled by `delta` lines.
    pub open spec fn scrolled_by(self, delta: int) -> Self {
        PolicyPane {
            policy_scroll: scrolled(
                self.policy_scroll as int,
                delta,
                self.policy_lines@.len() as int,
                self.policy_viewport_height as int,
            ) as usize,
            ..self
        }
    }

    /// Scrolls the policy by `delta` lines, down where it is positive; at least one viewport of
    /// content stays visible.
    pub fn scroll_policy(&mut self, delta: isize)
        requires
            old(self).policy_scroll + delta <= usize::MAX,
        ensures
            *final(self) == old(self).scrolled_by(delta as int),
    {
        self.policy_scroll = clamped_scroll(
            self.policy_scroll,
            delta,
            self.policy_lines.len(),
            self.policy_viewport_height,
        );
    }

    /// Where `key` leads from the tab.
    pub open spec fn outcome(key: KeyEvent) -> PolicyOutcome {
        match key.code {
            KeyCode::Esc => PolicyOutcome::Leave,
            KeyCode::Char('l') => PolicyOutcome::ToLogs,
            KeyCode::Char('r') => PolicyOutcome::ToDraft,
            KeyCode::Char('q') => PolicyOutcome::Quit,
            _ => PolicyOutcome::Stay,
        }
    }

    /// The tab after `key`, for a list of `sandbox_count` sandboxes.
    pub open spec fn after_key(self, key: KeyEvent, sandbox_count: usize) -> Self {
        let height = self.policy_viewport_height as int;
        match key.code {
            KeyCode::Esc => PolicyPane { sandbox_policy_tab: SandboxPolicyTab::Policy, ..self },
            KeyCode::Char('s') => PolicyPane {
                pending_shell_connect: self.pending_shell_connect || sandbox_count > 0,
                ..self
            },
            KeyCode::Char('d') => PolicyPane { confirm_delete: true, ..self },
            KeyCode::Char('j') | KeyCode::Down => self.scrolled_by(1),
            KeyCode::Char('k') | KeyCode::Up => self.scrolled_by(-1),
            KeyCode::PageDown => self.scrolled_by(larger(height, 1)),
            KeyCode::PageUp => self.scrolled_by(-larger(height, 1)),
            KeyCode::Char('G') => PolicyPane {
                policy_scroll: last_offset(self.policy_lines@.len() as int, height) as usize,
                ..self
            },
            KeyCode::Char('g') => PolicyPane { policy_scroll: 0, ..self },
            KeyCode::Char('h') | KeyCode::Left | KeyCode::Right => PolicyPane {
                sandbox_policy_tab: self.sandbox_policy_tab.after(),
                ..self
            },
            _ => self,
        }
    }

    /// Handles a key pressed in the tab.
    pub fn handle_key(&mut self, key: KeyEvent, sandbox_count: usize) -> (outcome: PolicyOutcome)
        requires
            old(self).wf(),
        ensures
            outcome == Self::outcome(key),
            *final(self) == old(self).after_key(key, sandbox_count),
            final(self).wf(),
    {
        let page: isize = max_of(self.policy_viewport_height, 1) as isize;
        match key.code {
            KeyCode::Esc => {
                self.sandbox_policy_tab = SandboxPolicyTab::Policy;
                return PolicyOutcome::Leave;
            },
            KeyCode::Char('l') => {
                return PolicyOutcome::ToLogs;
            },
            KeyCode::Char('r') => {
                return PolicyOutcome::ToDraft;
            },
            KeyCode::Char('s') => {
                if sandbox_count > 0 {
                    self.pending_shell_connect = true;
                }
            },
            KeyCode::Char('d') => {
                self.confirm_delete = true;
            },
            KeyCode::Char('j') | KeyCode::Down => {
                self.scroll_policy(1);
            },
            KeyCode::Char('k') | KeyCode::Up => {
                self.scroll_policy(-1);
            },
            KeyCode::PageDown => {
                self.scroll_policy(page);
            },
            KeyCode::PageUp => {
                self.scroll_policy(-page);
            },
            KeyCode::Char('G') => {
                self.policy_scroll = minus(
                    self.policy_lines.len(),
                    max_of(self.policy_viewport_height, 1),
                );
            },
            KeyCode::Char('g') => {
                self.policy_scroll = 0;
            },
            KeyCode::Char('q') => {
                return PolicyOutcome::Quit;
            },
            KeyCode::Char('h') | KeyCode::Left | KeyCode::Right => {
                self.sandbox_policy_tab = self.sandbox_policy_tab.next();
            },
            _ => {},
        }
        PolicyOutcome::Stay
    }
}

/// Three presses of the tab key return to the tab before, through all tabs.
pub proof fn lemma_tabs_cycle(tab: SandboxPolicyTab)
    ensures
        tab.after().after().after() == tab,
        tab.after() != tab,
        tab.after().after() != tab,
{
}

/// A sandbox is deleted only after the question whether to delete it was answered with yes.
pub proof fn lemma_delete_is_confirmed(pane: PolicyPane, key: KeyEvent, sandbox_count: usize)
    ensures
        pane.after_key(key, sandbox_count).pending_sandbox_delete == pane.pending_sandbox_delete,
        pane.after_confirm_key(key).pending_sandbox_delete ==> pane.pending_sandbox_delete
            || key.code == KeyCode::Char('y'),
{
}

/// In the policy tab each request has its own key: `s` asks for a shell, where there is a sandbox,
/// `d` asks whether to delete, and the answer `y` alone deletes.
pub proof fn lemma_requests_have_their_keys(pane: PolicyPane, key: KeyEvent, sandbox_count: usize)
    ensures
        ({
            let post = pane.after_key(key, sandbox_count);
            &&& post.pending_shell_connect <==> pane.pending_shell_connect || (key.code
                == KeyCode::Char('s') && sandbox_count > 0)
            &&& post.confirm_delete <==> pane.confirm_delete || key.code == KeyCode::Char('d')
            &&& post.pending_sandbox_delete == pane.pending_sandbox_delete
            &&& post.pending_sandbox_detail == pane.pending_sandbox_detail
            &&& post.sandbox_policy == pane.sandbox_policy
            &&& post.policy_lines == pane.policy_lines
            &&& post.sandbox_policy_is_global == pane.sandbox_policy_is_global
        }),
        ({
            let answered = pane.after_confirm_key(key);
            &&& answered.pending_sandbox_delete <==> pane.pending_sandbox_delete || key.code
                == KeyCode::Char('y')
            &&& answered.confirm_delete <==> pane.confirm_delete && key.code != KeyCode::Char('y')
                && key.code != KeyCode::Char('n') && key.code != KeyCode::Esc
            &&& answered.pending_shell_connect == pane.pending_shell_connect
            &&& answered.pending_sandbox_detail == pane.pending_sandbox_detail
            &&& answered.policy_scroll == pane.policy_scroll
            &&& answered.sandbox_policy_tab == pane.sandbox_policy_tab
        }),
{
}

/// Each way out of the policy tab has its own keys, and the tabs follow each other: the policy,
/// the settings, the trust.
pub proof fn lemma_policy_tab_is_left_by_its_keys(pane: PolicyPane, key: KeyEvent, sandbox_count: usize)
    ensures
        PolicyPane::outcome(key) == PolicyOutcome::Leave <==> key.code == KeyCode::Esc,
        PolicyPane::outcome(key) == PolicyOutcome::ToLogs <==> key.code == KeyCode::Char('l'),
        PolicyPane::outcome(key) == PolicyOutcome::ToDraft <==> key.code == KeyCode::Char('r'),
        PolicyPane::outcome(key) == PolicyOutcome::Quit <==> key.code == KeyCode::Char('q'),
        ({
            let tab = pane.sandbox_policy_tab;
            let turned = key.code == KeyCode::Char('h') || key.code == KeyCode::Left || key.code
                == KeyCode::Right;
            &&& turned && tab == SandboxPolicyTab::Policy ==> pane.after_key(
                key,
                sandbox_count,
            ).sandbox_policy_tab == SandboxPolicyTab::Settings
            &&& turned && tab == SandboxPolicyTab::Settings ==> pane.after_key(
                key,
                sandbox_count,
            ).sandbox_policy_tab == SandboxPolicyTab::Trust
            &&& turned && tab == SandboxPolicyTab::Trust ==> pane.after_key(
                key,
                sandbox_count,
            ).sandbox_policy_tab == SandboxPolicyTab::Policy
            &&& !turned && key.code != KeyCode::Esc ==> pane.after_key(
                key,
                sandbox_count,
            ).sandbox_policy_tab == tab
        }),
{
}

/// Each key scrolls the policy by its own distance, and the last viewport of it stays visible.
pub proof fn lemma_policy_scrolls_by_its_keys(pane: PolicyPane, key: KeyEvent, sandbox_count: usize)
    requires
        pane.wf(),
        pane.policy_viewport_height > 0,
        pane.policy_lines@.len() >= pane.policy_viewport_height,
        pane.policy_scroll <= pane.policy_lines@.len() - pane.policy_viewport_height,
    ensures
        ({
            let top = pane.policy_scroll as int;
            let height = pane.policy_viewport_height as int;
            let last = pane.policy_lines@.len() - height;
            let moved = pane.after_key(key, sandbox_count).policy_scroll as int;
            &&& 0 <= moved <= last
            &&& key.code == KeyCode::Down || key.code == KeyCode::Char('j') ==> moved == smaller(
                top + 1,
                last,
            )
            &&& key.code == KeyCode::Up || key.code == KeyCode::Char('k') ==> moved == larger(
                top - 1,
                0,
            )
            &&& key.code == KeyCode::PageDown ==> moved == smaller(top + height, last)
            &&& key.code == KeyCode::PageUp ==> moved == larger(top - height, 0)
            &&& key.code == KeyCode::Char('g') ==> moved == 0
            &&& key.code == KeyCode::Char('G') ==> moved == last
            &&& moved != top ==> key.code == KeyCode::Down || key.code == KeyCode::Char('j')
                || key.code == KeyCode::Up || key.code == KeyCode::Char('k') || key.code
                == KeyCode::PageDown || key.code == KeyCode::PageUp || key.code
                == KeyCode::Char('g') || key.code == KeyCode::Char('G')
        }),
{
}

} // verus!
