//! The log pane of the sandbox screen.

use vstd::prelude::*;
use crate::text;
use crate::tui::keys::{KeyCode, KeyEvent};
use crate::tui::model::{LogLine, LogSourceFilter};
use crate::tui::scroll::{
    down, keep_cursor, kept_cursor, larger, less, max_of, min_of, minus, smaller, step_down,
    step_up, up,
};

verus! {

/// The log pane of the sandbox screen.
pub struct LogPane {
    pub sandbox_log_lines: Vec<LogLine>,
    pub sandbox_log_scroll: usize,
    /// Cursor position relative to `sandbox_log_scroll`.
    pub log_cursor: usize,
    pub log_source_filter: LogSourceFilter,
    /// Whether new log lines scroll the pane to the bottom.
    pub log_autoscroll: bool,
    /// Visible lines, set when the pane is drawn.
    pub log_viewport_height: usize,
    /// The filtered log line whose detail popup is shown.
    pub log_detail_index: Option<usize>,
    /// Where a visual selection began, among the filtered log lines.
    pub log_selection_anchor: Option<usize>,
    /// The filtered log lines, from the first number to before the second, that are to go to the
    /// clipboard.
    pub log_copy_request: Option<(usize, usize)>,
    pub pending_log_fetch: bool,
}

/// Where a key pressed in the log pane leads.
#[derive(Debug, Clone, Copy, PartialEq, Eq, Structural)]
pub enum LogOutcome {
    Stay,
    Quit,
    /// To the policy pane, with the log stream ended.
    EndStream,
    ToPolicy,
    ToDraft,
}

/// The lines that `filter` lets through, in order.
pub open spec fn filtered(lines: Seq<LogLine>, filter: LogSourceFilter) -> Seq<LogLine> {
    lines.filter(|l: LogLine| filter.admits(l.source@))
}

/// Rows left free below the last log line.
pub const BOTTOM_PAD: usize = 3;

impl LogPane {
    /// The rows, the cursor and the viewport are small enough to be added to each other.
    pub open spec fn wf(self) -> bool {
        &&& self.sandbox_log_lines@.len() <= isize::MAX
        &&& self.sandbox_log_scroll <= isize::MAX
        &&& self.log_cursor <= isize::MAX
        &&& self.log_viewport_height <= isize::MAX
    }

    /// The number of lines that the source filter lets through.
    pub open spec fn filtered_len(self) -> int {
        filtered(self.sandbox_log_lines@, self.log_source_filter).len() as int
    }

    /// The line, among the filtered ones, on which the cursor stands.
    pub open spec fn cursor_line(self) -> int {
        self.sandbox_log_scroll + self.log_cursor
    }

    /// Whether the lines that `key` copies begin within the log.
    pub open spec fn copies_within(self, key: KeyEvent) -> bool {
        self.log_detail_index is None && self.filtered_len() > 0 ==> {
            &&& key.code == KeyCode::Char('y') ==> (self.log_selection_anchor matches Some(anchor)
                ==> smaller(anchor as int, self.cursor_line()) <= self.filtered_len())
            &&& key.code == KeyCode::Char('Y') ==> self.sandbox_log_scroll <= self.filtered_len()
        }
    }

    /// The offset at which the last line shows, above the free rows.
    pub open spec fn bottom_offset(self) -> int {
        if self.log_viewport_height == 0 || self.filtered_len() == 0 {
            0
        } else {
            less(self.filtered_len(), less(self.log_viewport_height as int, BOTTOM_PAD as int))
        }
    }

    /// Whether the pane is as it starts.
    pub open spec fn fresh(self) -> bool {
        &&& self.sandbox_log_lines@.len() == 0
        &&& self == (LogPane {
            sandbox_log_lines: self.sandbox_log_lines,
            sandbox_log_scroll: 0,
            log_cursor: 0,
            log_source_filter: LogSourceFilter::All,
            log_autoscroll: true,
            log_viewport_height: 0,
            log_detail_index: None,
            log_selection_anchor: None,
            log_copy_request: None,
            pending_log_fetch: false,
        })
    }

    /// A log pane without lines.
    pub fn new() -> (pane: Self)
        ensures
            pane.fresh(),
            pane.wf(),
    {
        LogPane {
            sandbox_log_lines: Vec::new(),
            sandbox_log_scroll: 0,
            log_cursor: 0,
            log_source_filter: LogSourceFilter::All,
            log_autoscroll: true,
            log_viewport_height: 0,
            log_detail_index: None,
            log_selection_anchor: None,
            log_copy_request: None,
            pending_log_fetch: false,
        }
    }

    /// Whether `post` is `self` emptied and about to be filled anew.
    pub open spec fn reopens(self, post: Self) -> bool {
        &&& post.sandbox_log_lines@.len() == 0
        &&& post == (LogPane {
            sandbox_log_lines: post.sandbox_log_lines,
            sandbox_log_scroll: 0,
            log_cursor: 0,
            log_source_filter: LogSourceFilter::All,
            log_autoscroll: true,
            log_detail_index: None,
            pending_log_fetch: true,
            ..self
        })
    }

    /// Empties the pane and asks for the logs.
    pub fn reopen(&mut self)
        ensures
            old(self).reopens(*final(self)),
            old(self).wf() ==> final(self).wf(),
    {
        self.sandbox_log_lines.clear();
        self.sandbox_log_scroll = 0;
        self.log_cursor = 0;
        self.log_source_filter = LogSourceFilter::All;
        self.log_autoscroll = true;
        self.log_detail_index = None;
        self.pending_log_fetch = true;
    }

    /// Whether `post` is `self` emptied.
    pub open spec fn empties(self, post: Self) -> bool {
        &&& post.sandbox_log_lines@.len() == 0
        &&& post == (LogPane {
            sandbox_log_lines: post.sandbox_log_lines,
            sandbox_log_scroll: 0,
            log_cursor: 0,
            log_autoscroll: true,
            log_detail_index: None,
            log_selection_anchor: None,
            ..self
        })
    }

    /// Empties the pane.
    pub fn reset(&mut self)
        ensures
            old(self).empties(*final(self)),
            old(self).wf() ==> final(self).wf(),
    {
        self.sandbox_log_lines.clear();
        self.sandbox_log_scroll = 0;
        self.log_cursor = 0;
        self.log_autoscroll = true;
        self.log_detail_index = None;
        self.log_selection_anchor = None;
    }

    /// The lines that the source filter lets through.
    pub fn filtered_log_lines(&self) -> (lines: Vec<&LogLine>)
        ensures
            lines@.len() == self.filtered_len(),
            forall|i: int|
                0 <= i < lines@.len() ==> *#[trigger] lines@[i] == filtered(
                    self.sandbox_log_lines@,
                    self.log_source_filter,
                )[i],
    {
        let mut lines: Vec<&LogLine> = Vec::new();
        let n: usize = self.sandbox_log_lines.len();
        let mut i: usize = 0;
        proof {
            reveal(Seq::filter);
            assert(self.sandbox_log_lines@.take(0) =~= Seq::empty());
        }
        while i < n
            invariant
                i <= n,
                n == self.sandbox_log_lines@.len(),
                lines@.len() == filtered(
                    self.sandbox_log_lines@.take(i as int),
                    self.log_source_filter,
                ).len(),
                forall|k: int|
                    0 <= k < lines@.len() ==> *#[trigger] lines@[k] == filtered(
                        self.sandbox_log_lines@.take(i as int),
                        self.log_source_filter,
                    )[k],
            decreases n - i,
        {
            let line = &self.sandbox_log_lines[i];
            let admitted = match self.log_source_filter {
                LogSourceFilter::All => true,
                LogSourceFilter::Gateway => text::same(line.source.as_str(), "gateway"),
                LogSourceFilter::Sandbox => text::same(line.source.as_str(), "sandbox"),
            };
            proof {
                reveal(Seq::filter);
                assert(self.sandbox_log_lines@.take(i as int + 1).drop_last()
                    =~= self.sandbox_log_lines@.take(i as int));
            }
            if admitted {
                lines.push(line);
            }
            i = i + 1;
        }
        assert(self.sandbox_log_lines@.take(n as int) =~= self.sandbox_log_lines@);
        lines
    }

    /// Whether the lines that `key` copies begin within the log.
    pub fn can_copy(&self, key: KeyEvent) -> (yes: bool)
        requires
            self.wf(),
        ensures
            yes == self.copies_within(key),
    {
        if self.log_detail_index.is_some() {
            return true;
        }
        let total: usize = self.filtered_log_lines().len();
        if total == 0 {
            return true;
        }
        match key.code {
            KeyCode::Char('y') => match self.log_selection_anchor {
                Some(anchor) => min_of(anchor, self.sandbox_log_scroll + self.log_cursor) <= total,
                None => true,
            },
            KeyCode::Char('Y') => self.sandbox_log_scroll <= total,
            _ => true,
        }
    }

    pub fn log_autoscroll_offset(&self) -> (offset: usize)
        ensures
            offset == self.bottom_offset(),
    {
        let total: usize = self.filtered_log_lines().len();
        let height: usize = self.log_viewport_height;
        if height == 0 || total == 0 {
            return 0;
        }
        minus(total, minus(height, BOTTOM_PAD))
    }

    /// The pane scrolled by `delta` lines, down where it is positive.
    pub open spec fn scrolled_by(self, delta: int) -> Self {
        let scroll = if delta < 0 {
            larger(self.sandbox_log_scroll + delta, 0)
        } else {
            smaller(self.sandbox_log_scroll + delta, self.bottom_offset())
        };
        LogPane {
            sandbox_log_scroll: scroll as usize,
            log_autoscroll: self.log_autoscroll && delta >= 0,
            log_cursor: kept_cursor(
                scroll,
                self.log_cursor as int,
                self.filtered_len(),
                self.log_viewport_height as int,
            ) as usize,
            ..self
        }
    }

    /// Scrolls the pane by `delta` lines, down where it is positive.
    pub fn scroll_logs(&mut self, delta: isize)
        requires
            old(self).sandbox_log_scroll + delta <= usize::MAX,
        ensures
            *final(self) == old(self).scrolled_by(delta as int),
            old(self).wf() ==> final(self).wf(),
    {
        let total: usize = self.filtered_log_lines().len();
        proof {
            self.sandbox_log_lines@.lemma_filter_len(
                |l: LogLine| self.log_source_filter.admits(l.source@),
            );
        }
        let max_scroll: usize = self.log_autoscroll_offset();
        if delta < 0 {
            let back: usize = (-(delta + 1)) as usize;
            self.sandbox_log_scroll = if self.sandbox_log_scroll <= back {
                0
            } else {
                self.sandbox_log_scroll - back - 1
            };
            self.log_autoscroll = false;
        } else {
            self.sandbox_log_scroll = min_of(self.sandbox_log_scroll + delta as usize, max_scroll);
        }
        self.log_cursor = keep_cursor(
            self.sandbox_log_scroll,
            self.log_cursor,
            total,
            self.log_viewport_height,
        );
    }

    /// Where `key` leads from the pane.
    pub open spec fn outcome(self, key: KeyEvent) -> LogOutcome {
        if self.log_detail_index is Some {
            LogOutcome::Stay
        } else if key.code == KeyCode::Esc && self.log_selection_anchor is None {
            LogOutcome::EndStream
        } else if key.code == KeyCode::Char('q') {
            LogOutcome::Quit
        } else if key.code == KeyCode::Char('r') {
            LogOutcome::ToDraft
        } else if key.code == KeyCode::Char('p') {
            LogOutcome::ToPolicy
        } else {
            LogOutcome::Stay
        }
    }

    /// The lines to be copied once `key` was pressed.
    pub open spec fn copied(self, key: KeyEvent) -> Option<(usize, usize)> {
        let total = self.filtered_len();
        if total == 0 {
            self.log_copy_request
        } else if key.code == KeyCode::Char('Y') {
            Some(
                (
                    self.sandbox_log_scroll,
                    smaller(self.sandbox_log_scroll + self.log_viewport_height, total) as usize,
                ),
            )
        } else {
            match self.log_selection_anchor {
                Some(anchor) => Some(
                    (
                        smaller(anchor as int, self.cursor_line()) as usize,
                        (smaller(larger(anchor as int, self.cursor_line()), total - 1)
                            + 1) as usize,
                    ),
                ),
                None => if self.cursor_line() < total {
                    Some((self.cursor_line() as usize, (self.cursor_line() + 1) as usize))
                } else {
                    self.log_copy_request
                },
            }
        }
    }

    /// The pane after one step down or up the list.
    pub open spec fn at(self, place: (int, int)) -> Self {
        LogPane { sandbox_log_scroll: place.0 as usize, log_cursor: place.1 as usize, ..self }
    }

    /// The pane after `key`.
    pub open spec fn after_key(self, key: KeyEvent) -> Self {
        let scroll = self.sandbox_log_scroll as int;
        let cursor = self.log_cursor as int;
        let total = self.filtered_len();
        let height = self.log_viewport_height as int;
        if self.log_detail_index is Some {
            match key.code {
                KeyCode::Esc | KeyCode::Enter => LogPane { log_detail_index: None, ..self },
                _ => self,
            }
        } else {
            match key.code {
                KeyCode::Esc => LogPane { log_selection_anchor: None, ..self },
                KeyCode::Char('y') => LogPane {
                    log_copy_request: self.copied(key),
                    log_selection_anchor: if total == 0 {
                        self.log_selection_anchor
                    } else {
                        None
                    },
                    ..self
                },
                KeyCode::Char('Y') => LogPane { log_copy_request: self.copied(key), ..self },
                KeyCode::Char('v') => if self.log_selection_anchor is Some {
                    LogPane { log_selection_anchor: None, ..self }
                } else {
                    LogPane {
                        log_selection_anchor: Some(self.cursor_line() as usize),
                        log_autoscroll: false,
                        ..self
                    }
                },
                KeyCode::Enter => if self.log_selection_anchor is None && self.cursor_line()
                    < total {
                    LogPane { log_detail_index: Some(self.cursor_line() as usize), ..self }
                } else {
                    self
                },
                KeyCode::Char('j') | KeyCode::Down => self.at(down(scroll, cursor, total, height)),
                KeyCode::Char('k') | KeyCode::Up => LogPane {
                    log_autoscroll: false,
                    ..self.at(up(scroll, cursor))
                },
                KeyCode::PageDown => LogPane {
                    log_autoscroll: false,
                    ..self.scrolled_by(larger(height, 1))
                },
                KeyCode::PageUp => LogPane {
                    log_autoscroll: false,
                    ..self.scrolled_by(-larger(height, 1))
                },
                KeyCode::Char('G') | KeyCode::Char('f') => LogPane {
                    log_selection_anchor: None,
                    sandbox_log_scroll: self.bottom_offset() as usize,
                    log_autoscroll: true,
                    log_cursor: smaller(
                        less(less(total, self.bottom_offset()), 1),
                        less(height, 1),
                    ) as usize,
                    ..self
                },
                KeyCode::Char('g') => LogPane {
                    sandbox_log_scroll: 0,
                    log_cursor: 0,
                    log_autoscroll: false,
                    ..self
                },
                KeyCode::Char('s') => LogPane {
                    log_source_filter: self.log_source_filter.after(),
                    log_selection_anchor: None,
                    sandbox_log_scroll: 0,
                    log_cursor: 0,
                    ..self
                },
                KeyCode::Char('r') | KeyCode::Char('p') => LogPane {
                    log_selection_anchor: None,
                    ..self
                },
                _ => self,
            }
        }
    }

    /// Handles a key pressed in the pane.
    pub fn handle_key(&mut self, key: KeyEvent) -> (outcome: LogOutcome)
        requires
            old(self).wf(),
            old(self).copies_within(key),
        ensures
            outcome == old(self).outcome(key),
            *final(self) == old(self).after_key(key),
            final(self).wf(),
    {
        if self.log_detail_index.is_some() {
            match key.code {
                KeyCode::Esc | KeyCode::Enter => {
                    self.log_detail_index = None;
                },
                _ => {},
            }
            return LogOutcome::Stay;
        }
        let total: usize = self.filtered_log_lines().len();
        proof {
            self.sandbox_log_lines@.lemma_filter_len(
                |l: LogLine| self.log_source_filter.admits(l.source@),
            );
        }
        let height: usize = self.log_viewport_height;
        match key.code {
            KeyCode::Esc => {
                if self.log_selection_anchor.is_some() {
                    self.log_selection_anchor = None;
                } else {
                    return LogOutcome::EndStream;
                }
            },
            KeyCode::Char('q') => {
                return LogOutcome::Quit;
            },
            KeyCode::Char('y') => {
                if total == 0 {
                    return LogOutcome::Stay;
                }
                let line: usize = self.sandbox_log_scroll + self.log_cursor;
                if let Some(anchor) = self.log_selection_anchor {
                    let start: usize = min_of(anchor, line);
                    let end: usize = min_of(max_of(anchor, line), total - 1) + 1;
                    self.log_copy_request = Some((start, end));
                    self.log_selection_anchor = None;
                } else if line < total {
                    self.log_copy_request = Some((line, line + 1));
                }
            },
            KeyCode::Char('Y') => {
                if total == 0 {
                    return LogOutcome::Stay;
                }
                let start: usize = self.sandbox_log_scroll;
                self.log_copy_request = Some((start, min_of(start + height, total)));
            },
            KeyCode::Char('v') => {
                if self.log_selection_anchor.is_some() {
                    self.log_selection_anchor = None;
                } else {
                    self.log_selection_anchor = Some(self.sandbox_log_scroll + self.log_cursor);
                    self.log_autoscroll = false;
                }
            },
            KeyCode::Enter => {
                if total > 0 && self.log_selection_anchor.is_none() {
                    let line: usize = self.sandbox_log_scroll + self.log_cursor;
                    if line < total {
                        self.log_detail_index = Some(line);
                    }
                }
            },
            KeyCode::Char('j') | KeyCode::Down => {
                let (scroll, cursor): (usize, usize) = step_down(
                    self.sandbox_log_scroll,
                    self.log_cursor,
                    total,
                    height,
                );
                self.sandbox_log_scroll = scroll;
                self.log_cursor = cursor;
            },
            KeyCode::Char('k') | KeyCode::Up => {
                let (scroll, cursor): (usize, usize) = step_up(
                    self.sandbox_log_scroll,
                    self.log_cursor,
                );
                self.sandbox_log_scroll = scroll;
                self.log_cursor = cursor;
                self.log_autoscroll = false;
            },
            KeyCode::PageDown => {
                self.scroll_logs(max_of(height, 1) as isize);
                self.log_autoscroll = false;
            },
            KeyCode::PageUp => {
                self.scroll_logs(-(max_of(height, 1) as isize));
                self.log_autoscroll = false;
            },
            KeyCode::Char('G') | KeyCode::Char('f') => {
                self.log_selection_anchor = None;
                self.sandbox_log_scroll = self.log_autoscroll_offset();
                self.log_autoscroll = true;
                self.log_cursor = min_of(
                    minus(minus(total, self.sandbox_log_scroll), 1),
                    minus(height, 1),
                );
            },
            KeyCode::Char('g') => {
                self.sandbox_log_scroll = 0;
                self.log_cursor = 0;
                self.log_autoscroll = false;
            },
            KeyCode::Char('s') => {
                self.log_source_filter = self.log_source_filter.next();
                self.log_selection_anchor = None;
                self.sandbox_log_scroll = 0;
                self.log_cursor = 0;
            },
            KeyCode::Char('r') => {
                self.log_selection_anchor = None;
                return LogOutcome::ToDraft;
            },
            KeyCode::Char('p') => {
                self.log_selection_anchor = None;
                return LogOutcome::ToPolicy;
            },
            _ => {},
        }
        LogOutcome::Stay
    }
}

/// Three presses of the filter key return to the filter before.
pub proof fn lemma_source_filter_cycles(filter: LogSourceFilter)
    ensures
        filter.after().after().after() == filter,
        filter.after() != filter,
{
}

/// What is to go to the clipboard is asked for by `y` and `Y` alone, where there are lines: the
/// lines from where a selection began to the cursor, both of them included; the line under the
/// cursor without a selection; and with `Y` the lines that show.
pub proof fn lemma_lines_are_copied_by_their_keys(pane: LogPane, key: KeyEvent)
    requires
        pane.wf(),
        pane.copies_within(key),
        pane.log_detail_index is None,
    ensures
        ({
            let post = pane.after_key(key);
            let total = pane.filtered_len();
            let line = pane.sandbox_log_scroll + pane.log_cursor;
            &&& key.code != KeyCode::Char('y') && key.code != KeyCode::Char('Y')
                ==> post.log_copy_request == pane.log_copy_request
            &&& total == 0 ==> post.log_copy_request == pane.log_copy_request
            &&& key.code == KeyCode::Char('y') && total > 0 ==> post.log_selection_anchor is None
            &&& key.code == KeyCode::Char('y') && pane.log_selection_anchor is None && line < total
                ==> (post.log_copy_request matches Some((from, to)) && from == line && to == line
                + 1)
            &&& key.code == KeyCode::Char('y') && total > 0 ==> (
            pane.log_selection_anchor matches Some(anchor) ==> (post.log_copy_request matches Some(
                (from, to),
            ) && from <= anchor && from <= line && (from == anchor || from == line) && (anchor
                < total && line < total ==> to == if anchor < line {
                line + 1
            } else {
                anchor + 1
            }) && to <= total))
            &&& key.code == KeyCode::Char('Y') && total > 0 ==> (post.log_copy_request matches Some(
                (from, to),
            ) && from == pane.sandbox_log_scroll && to == if pane.sandbox_log_scroll
                + pane.log_viewport_height < total {
                pane.sandbox_log_scroll + pane.log_viewport_height
            } else {
                total
            })
        }),
{
}

/// A selection begins at the line under the cursor by `v`, and ends by `v`, escape, copying, a
/// change of the filter or a jump to the end; the detail of the line under the cursor is opened by
/// enter, and closed by enter and escape.
pub proof fn lemma_selections_and_details(pane: LogPane, key: KeyEvent)
    requires
        pane.wf(),
    ensures
        ({
            let post = pane.after_key(key);
            let line = pane.sandbox_log_scroll + pane.log_cursor;
            let listed = pane.log_detail_index is None;
            &&& listed && key.code == KeyCode::Char('v') && pane.log_selection_anchor is None
                ==> post.log_selection_anchor == Some(line as usize) && !post.log_autoscroll
            &&& listed && (key.code == KeyCode::Char('v') && pane.log_selection_anchor is Some
                || key.code == KeyCode::Esc || key.code == KeyCode::Char('s') || key.code
                == KeyCode::Char('G') || key.code == KeyCode::Char('f'))
                ==> post.log_selection_anchor is None
            &&& listed && pane.log_selection_anchor is None && post.log_selection_anchor is Some
                ==> key.code == KeyCode::Char('v')
            &&& listed ==> (post.log_detail_index is Some <==> key.code == KeyCode::Enter
                && pane.log_selection_anchor is None && line < pane.filtered_len())
            &&& listed && post.log_detail_index is Some ==> post.log_detail_index == Some(
                line as usize,
            )
            &&& !listed ==> (post.log_detail_index is None <==> key.code == KeyCode::Enter
                || key.code == KeyCode::Esc)
            &&& !listed && post.log_detail_index is Some ==> post == pane
            &&& post.sandbox_log_lines == pane.sandbox_log_lines
            &&& post.pending_log_fetch == pane.pending_log_fetch
        }),
{
}

/// The pane follows new lines once it was told to, by `G` or `f`, and no more once it was moved
/// back; a key that moves the cursor by a row moves it by one.
pub proof fn lemma_log_moves_by_its_keys(pane: LogPane, key: KeyEvent)
    requires
        pane.wf(),
        pane.log_detail_index is None,
        pane.log_cursor < pane.log_viewport_height,
        pane.sandbox_log_scroll + pane.log_cursor < pane.filtered_len(),
    ensures
        ({
            let post = pane.after_key(key);
            let line = pane.sandbox_log_scroll + pane.log_cursor;
            let moved = post.sandbox_log_scroll + post.log_cursor;
            let total = pane.filtered_len();
            &&& key.code == KeyCode::Down || key.code == KeyCode::Char('j') ==> moved == if line + 1
                < total {
                line + 1
            } else {
                line
            }
            &&& key.code == KeyCode::Up || key.code == KeyCode::Char('k') ==> moved == if line > 0 {
                line - 1
            } else {
                0
            }
            &&& key.code == KeyCode::Char('g') ==> moved == 0
            &&& key.code == KeyCode::Char('G') || key.code == KeyCode::Char('f')
                ==> post.log_autoscroll
            &&& post.log_autoscroll && !pane.log_autoscroll ==> key.code == KeyCode::Char('G')
                || key.code == KeyCode::Char('f')
            &&& key.code == KeyCode::Up || key.code == KeyCode::Char('k') || key.code
                == KeyCode::PageUp || key.code == KeyCode::PageDown || key.code
                == KeyCode::Char('g') ==> !post.log_autoscroll
            &&& key.code == KeyCode::PageUp ==> post.sandbox_log_scroll == larger(
                pane.sandbox_log_scroll - pane.log_viewport_height,
                0,
            )
        }),
{
}

/// The filter goes by the source of a line: it lets through all of them, those of the gateway, or
/// those of the sandbox, which `s` asks for in this order.
pub proof fn lemma_lines_are_filtered_by_source(pane: LogPane, line: LogLine)
    ensures
        filtered(pane.sandbox_log_lines@, LogSourceFilter::All) == pane.sandbox_log_lines@,
        LogSourceFilter::Gateway.admits(line.source@) <==> line.source@ == "gateway"@,
        LogSourceFilter::Sandbox.admits(line.source@) <==> line.source@ == "sandbox"@,
        LogSourceFilter::All.after() == LogSourceFilter::Gateway,
        LogSourceFilter::Gateway.after() == LogSourceFilter::Sandbox,
        LogSourceFilter::Sandbox.after() == LogSourceFilter::All,
        filtered(pane.sandbox_log_lines@, pane.log_source_filter).contains(line)
            ==> pane.log_source_filter.admits(line.source@) && pane.sandbox_log_lines@.contains(line),
        pane.sandbox_log_lines@.contains(line) && pane.log_source_filter.admits(line.source@)
            ==> filtered(pane.sandbox_log_lines@, pane.log_source_filter).contains(line),
{
    let all = |l: LogLine| LogSourceFilter::All.admits(l.source@);
    lemma_all_are_kept(pane.sandbox_log_lines@, all);
    let some = |l: LogLine| pane.log_source_filter.admits(l.source@);
    pane.sandbox_log_lines@.filter_lemma(some);
    if filtered(pane.sandbox_log_lines@, pane.log_source_filter).contains(line) {
        pane.sandbox_log_lines@.lemma_filter_contains_rev(some, line);
        let i = choose|i: int|
            0 <= i < filtered(pane.sandbox_log_lines@, pane.log_source_filter).len() && filtered(
                pane.sandbox_log_lines@,
                pane.log_source_filter,
            )[i] == line;
        pane.sandbox_log_lines@.lemma_filter_pred(some, i);
    }
}

proof fn lemma_all_are_kept(lines: Seq<LogLine>, all: spec_fn(LogLine) -> bool)
    requires
        forall|l: LogLine| #[trigger] all(l),
    ensures
        lines.filter(all) == lines,
    decreases lines.len(),
{
    reveal(Seq::filter);
    if lines.len() > 0 {
        lemma_all_are_kept(lines.drop_last(), all);
        assert(all(lines.last()));
        assert(lines.drop_last().push(lines.last()) =~= lines);
    }
}

/// Each way out of the log pane has its own keys, which lead there where no detail is open; escape
/// ends a selection first.
pub proof fn lemma_log_pane_is_left_by_its_keys(pane: LogPane, key: KeyEvent)
    ensures
        ({
            let listed = pane.log_detail_index is None;
            &&& pane.outcome(key) == LogOutcome::Quit <==> listed && key.code == KeyCode::Char('q')
            &&& pane.outcome(key) == LogOutcome::ToDraft <==> listed && key.code
                == KeyCode::Char('r')
            &&& pane.outcome(key) == LogOutcome::ToPolicy <==> listed && key.code
                == KeyCode::Char('p')
            &&& pane.outcome(key) == LogOutcome::EndStream <==> listed && key.code == KeyCode::Esc
                && pane.log_selection_anchor is None
        }),
{
}

} // verus!
