//! What the pane of proposed network rules and its popups show.

use vstd::prelude::*;
use std::sync::Arc;
use crate::text;
use crate::text::{all_together, decimal_of, last_at, repeated, signed_decimal_of, texts, together};
use crate::tui::draft::{pending, pending_chunks, DraftPane};
use crate::tui::measure::{
    cut_to_columns, display_columns, display_width, truncate_display, wrap_value, wrapped,
};
use crate::tui::policy::{NetworkBinary, NetworkEndpoint, NetworkPolicyRule, PolicyChunk};
use crate::tui::rule_text::{
    approval_annotation, format_endpoint_details, format_endpoint_summary, format_short_time,
    rejection_guidance, short_time, ApprovalAnnotationKind,
};
use crate::tui::scroll::{larger, less, max_of, minus, rows_shown, shown_rows};
use crate::tui::styled::{
    add_line, add_span, blank, bold, bold_style, line, line_of, line_of_two, line_views, piece,
    plain, plain_style, row, span, span_views, styled, text_span, Line, LineView, Span, SpanView,
    Style, Tone,
};

verus! {

/// The part of a path behind its last slash.
pub open spec fn file_name(path: Seq<char>) -> Seq<char> {
    path.skip(last_at(path, '/') + 1)
}

fn short_name<'a>(path: &'a str) -> (name: &'a str)
    ensures
        name@ == file_name(path@),
{
    match text::rsplit_once(path, '/') {
        Some((_, name)) => name,
        None => {
            proof {
                assert(path@.skip(0) =~= path@);
            }
            path
        },
    }
}

impl PolicyChunk {
    /// The first endpoint that the rule speaks of, in short.
    pub open spec fn first_endpoint(self) -> Seq<char> {
        match self.proposed_rule {
            Some(rule) => if rule.endpoints@.len() > 0 {
                rule.endpoints@[0].summary()
            } else {
                Seq::empty()
            },
            None => Seq::empty(),
        }
    }
}

pub(crate) fn first_endpoint_summary(chunk: &PolicyChunk) -> (s: String)
    ensures
        s@ == chunk.first_endpoint(),
{
    match &chunk.proposed_rule {
        Some(rule) => if rule.endpoints.len() > 0 {
            format_endpoint_summary(&rule.endpoints[0])
        } else {
            String::new()
        },
        None => String::new(),
    }
}

/// The tone for a rule's status.
pub open spec fn status_tone(status: Seq<char>) -> Tone {
    if status == "pending"@ {
        Tone::StatusWarn
    } else if status == "approved"@ {
        Tone::StatusOk
    } else if status == "rejected"@ {
        Tone::StatusErr
    } else {
        Tone::Muted
    }
}

fn tone_for_status(status: &str) -> (tone: Tone)
    ensures
        tone == status_tone(status@),
{
    if text::same(status, "pending") {
        Tone::StatusWarn
    } else if text::same(status, "approved") {
        Tone::StatusOk
    } else if text::same(status, "rejected") {
        Tone::StatusErr
    } else {
        Tone::Muted
    }
}

/// The tone for what is said of a review.
pub open spec fn review_tone(kind: ApprovalAnnotationKind) -> Tone {
    match kind {
        ApprovalAnnotationKind::AutoApproved => Tone::StatusOk,
        ApprovalAnnotationKind::RequiresReview => Tone::StatusWarn,
        ApprovalAnnotationKind::Reviewed => Tone::Muted,
    }
}

fn tone_for_review(kind: ApprovalAnnotationKind) -> (tone: Tone)
    ensures
        tone == review_tone(kind),
{
    match kind {
        ApprovalAnnotationKind::AutoApproved => Tone::StatusOk,
        ApprovalAnnotationKind::RequiresReview => Tone::StatusWarn,
        ApprovalAnnotationKind::Reviewed => Tone::Muted,
    }
}

/// `tone` in bold, but for the muted one.
pub open spec fn emphasized(tone: Tone) -> Style {
    if tone == Tone::Muted {
        plain(tone)
    } else {
        bold(tone)
    }
}

fn emphasize(tone: Tone) -> (style: Style)
    ensures
        style == emphasized(tone),
{
    if tone == Tone::Muted {
        plain_style(tone)
    } else {
        bold_style(tone)
    }
}

/// The pieces for the program that a rule speaks of.
pub open spec fn binary_spans(binary: Seq<char>) -> Seq<SpanView> {
    if binary.len() == 0 {
        Seq::empty()
    } else {
        seq![piece("  "@, Tone::Muted), piece("("@ + file_name(binary) + ")"@, Tone::Muted)]
    }
}

pub(crate) fn add_binary(spans: &mut Vec<Span>, binary: &str)
    ensures
        span_views(final(spans)@) == span_views(old(spans)@) + binary_spans(binary@),
{
    let ghost before = span_views(spans@);
    if !binary.is_empty() {
        add_span(spans, span("  ", Tone::Muted));
        add_span(spans, text_span(all_together("(", short_name(binary), ")"), Tone::Muted));
    }
    assert(span_views(spans@) =~= before + binary_spans(binary@));
}

/// The pieces before the status: the marker, the rule's name and what it speaks of.
pub open spec fn rule_head(chunk: PolicyChunk, selected: bool, locked: bool) -> Seq<SpanView> {
    let name_tone = if locked {
        Tone::Muted
    } else if selected {
        Tone::Selected
    } else if chunk.status@ == "rejected"@ {
        Tone::Muted
    } else {
        Tone::Text
    };
    let endpoint = chunk.first_endpoint();
    seq![
        if selected {
            piece("▌ "@, Tone::Accent)
        } else {
            piece("  "@, Tone::Raw)
        },
        piece(chunk.rule_name@, name_tone),
    ] + if endpoint.len() > 0 {
        seq![piece("  "@, Tone::Muted), piece(endpoint, Tone::Accent)]
    } else {
        Seq::empty()
    } + binary_spans(chunk.binary@)
}

/// The pieces for the status and what follows it.
pub open spec fn rule_tail(chunk: PolicyChunk, locked: bool) -> Seq<SpanView> {
    let tone = if locked {
        Tone::Muted
    } else {
        status_tone(chunk.status@)
    };
    seq![
        piece("  "@, Tone::Raw),
        piece("["@ + chunk.status@ + "]"@, tone),
        piece("  "@ + chunk.confidence_label@, Tone::Muted),
    ] + match chunk.review() {
        Some((kind, label, _)) => seq![piece("  "@, Tone::Muted), piece(label, review_tone(kind))],
        None => Seq::empty(),
    } + if chunk.hit_count > 1 {
        seq![piece("  "@ + signed_decimal_of(chunk.hit_count as int) + "x"@, Tone::Accent)]
    } else {
        Seq::empty()
    } + match chunk.guidance() {
        Some(reason) => seq![piece("  \""@ + cut_to_columns(reason, 32) + "\""@, Tone::Muted)],
        None => Seq::empty(),
    }
}

/// The row of a rule in the list.
pub open spec fn rule_row(chunk: PolicyChunk, selected: bool, locked: bool) -> LineView {
    LineView {
        spans: rule_head(chunk, selected, locked) + rule_tail(chunk, locked),
        style: if selected {
            plain(Tone::LogCursor)
        } else {
            plain(Tone::Raw)
        },
    }
}

fn add_rule_head(spans: &mut Vec<Span>, chunk: &PolicyChunk, selected: bool, locked: bool)
    ensures
        span_views(final(spans)@) == span_views(old(spans)@) + rule_head(*chunk, selected, locked),
{
    let ghost before = span_views(spans@);
    let name_tone = if locked {
        Tone::Muted
    } else if selected {
        Tone::Selected
    } else if text::same(chunk.status.as_str(), "rejected") {
        Tone::Muted
    } else {
        Tone::Text
    };
    if selected {
        add_span(spans, span("▌ ", Tone::Accent));
    } else {
        add_span(spans, span("  ", Tone::Raw));
    }
    let endpoint = first_endpoint_summary(chunk);
    add_span(spans, span(chunk.rule_name.as_str(), name_tone));
    if !endpoint.as_str().is_empty() {
        add_span(spans, span("  ", Tone::Muted));
        add_span(spans, text_span(endpoint, Tone::Accent));
    }
    add_binary(spans, chunk.binary.as_str());
    assert(span_views(spans@) =~= before + rule_head(*chunk, selected, locked));
}

fn add_rule_tail(spans: &mut Vec<Span>, chunk: &PolicyChunk, locked: bool)
    ensures
        span_views(final(spans)@) == span_views(old(spans)@) + rule_tail(*chunk, locked),
{
    let ghost before = span_views(spans@);
    let tone = if locked {
        Tone::Muted
    } else {
        tone_for_status(chunk.status.as_str())
    };
    add_span(spans, span("  ", Tone::Raw));
    add_span(spans, text_span(all_together("[", chunk.status.as_str(), "]"), tone));
    add_span(
        spans,
        text_span(together("  ", chunk.confidence_label.as_str()), Tone::Muted),
    );
    if let Some(annotation) = approval_annotation(chunk) {
        add_span(spans, span("  ", Tone::Muted));
        add_span(spans, text_span(annotation.short_label, tone_for_review(annotation.kind)));
    }
    if chunk.hit_count > 1 {
        let hits = text::signed_decimal(chunk.hit_count as i64);
        add_span(spans, text_span(all_together("  ", hits.as_str(), "x"), Tone::Accent));
    }
    if let Some(reason) = rejection_guidance(chunk) {
        let shown = truncate_display(reason, 32);
        add_span(spans, text_span(all_together("  \"", shown.as_str(), "\""), Tone::Muted));
    }
    assert(span_views(spans@) =~= before + rule_tail(*chunk, locked));
}

/// The row of a rule in the list.
pub fn show_rule_row(chunk: &PolicyChunk, selected: bool, locked: bool) -> (line: Line)
    ensures
        line@ == rule_row(*chunk, selected, locked),
{
    let mut spans: Vec<Span> = Vec::new();
    assert(span_views(spans@) =~= Seq::empty());
    add_rule_head(&mut spans, chunk, selected, locked);
    add_rule_tail(&mut spans, chunk, locked);
    assert(span_views(spans@) =~= rule_head(*chunk, selected, locked) + rule_tail(
        *chunk,
        locked,
    ));
    let style = if selected {
        plain_style(Tone::LogCursor)
    } else {
        plain_style(Tone::Raw)
    };
    Line { spans, style }
}

/// The title of the pane, with the number of pending rules where there are any.
pub open spec fn draft_title(chunks: Seq<Arc<PolicyChunk>>) -> LineView {
    let waiting = pending(chunks).len();
    if waiting > 0 {
        row(
            seq![
                piece(" Network Rules "@, Tone::Heading),
                piece(" "@ + decimal_of(waiting) + " pending "@, Tone::Badge),
                piece(" "@, Tone::Raw),
            ],
        )
    } else {
        row(seq![piece(" Network Rules "@, Tone::Heading)])
    }
}

/// The rows of the list: as many rules as fit, from the offset on.
pub open spec fn draft_rows(pane: DraftPane, locked: bool) -> Seq<LineView> {
    Seq::new(
        shown_rows(
            pane.draft_chunks@.len() as int,
            pane.draft_scroll as int,
            pane.draft_viewport_height as int,
        ) as nat,
        |i: int|
            rule_row(*pane.draft_chunks@[pane.draft_scroll + i], i == pane.draft_selected, locked),
    )
}

impl DraftPane {
    /// The title of the pane.
    pub fn title(&self) -> (line: Line)
        ensures
            line@ == draft_title(self.draft_chunks@),
    {
        let waiting: usize = pending_chunks(&self.draft_chunks).len();
        if waiting > 0 {
            let count = text::decimal(waiting as u64);
            let mut spans: Vec<Span> = Vec::new();
            spans.push(span(" Network Rules ", Tone::Heading));
            spans.push(text_span(all_together(" ", count.as_str(), " pending "), Tone::Badge));
            spans.push(span(" ", Tone::Raw));
            assert(span_views(spans@) =~= draft_title(self.draft_chunks@).spans);
            line(spans)
        } else {
            line_of(span(" Network Rules ", Tone::Heading))
        }
    }

    /// What is said below the list where a global policy is active.
    pub fn notice(locked: bool) -> (notice: Option<Line>)
        ensures
            match notice {
                Some(line) => locked && line@ == row(
                    seq![
                        piece(
                            " Cannot approve rules while global policy is active "@,
                            Tone::StatusWarn,
                        ),
                    ],
                ),
                None => !locked,
            },
    {
        if locked {
            Some(
                line_of(
                    span(
                        " Cannot approve rules while global policy is active ",
                        Tone::StatusWarn,
                    ),
                ),
            )
        } else {
            None
        }
    }

    /// What is said in place of the list where there are no rules.
    pub fn empty_message(&self) -> (message: Option<Line>)
        ensures
            match message {
                Some(line) => self.draft_chunks@.len() == 0 && line@ == row(
                    seq![
                        piece(
                            "No network rules yet. Denied connections will generate rules automatically."@,
                            Tone::Muted,
                        ),
                    ],
                ),
                None => self.draft_chunks@.len() > 0,
            },
    {
        if self.draft_chunks.len() == 0 {
            Some(
                line_of(
                    span(
                        "No network rules yet. Denied connections will generate rules automatically.",
                        Tone::Muted,
                    ),
                ),
            )
        } else {
            None
        }
    }

    /// The rows of the list.
    pub fn rows(&self, locked: bool) -> (lines: Vec<Line>)
        ensures
            line_views(lines@) == draft_rows(*self, locked),
    {
        let ghost all = draft_rows(*self, locked);
        let total: usize = self.draft_chunks.len();
        let shown: usize = rows_shown(
            total,
            self.draft_scroll,
            self.draft_viewport_height,
        );
        let mut lines: Vec<Line> = Vec::new();
        let mut i: usize = 0;
        assert(line_views(lines@) =~= all.take(0));
        while i < shown
            invariant
                i <= shown,
                all == draft_rows(*self, locked),
                shown == all.len(),
                total == self.draft_chunks@.len(),
                shown > 0 ==> self.draft_scroll + shown <= total,
                line_views(lines@) == all.take(i as int),
            decreases shown - i,
        {
            let chunk = &self.draft_chunks[self.draft_scroll + i];
            let line = show_rule_row(chunk, i == self.draft_selected, locked);
            assert(all.take(i as int + 1) =~= all.take(i as int).push(line@));
            add_line(&mut lines, line);
            i = i + 1;
        }
        assert(all.take(shown as int) =~= all);
        lines
    }

    /// Where the cursor stands in the list, as it is shown below it.
    pub fn position(&self) -> (s: String)
        requires
            self.wf(),
        ensures
            s@ == " ["@ + decimal_of((self.cursor_row() + 1) as nat) + "/"@ + decimal_of(
                self.draft_chunks@.len(),
            ) + "] "@,
    {
        let at: u64 = (self.draft_scroll + self.draft_selected) as u64 + 1;
        let mut s = together(" [", text::decimal(at).as_str());
        s.append("/");
        s.append(text::decimal(self.draft_chunks.len() as u64).as_str());
        s.append("] ");
        s
    }
}

/// `text` wrapped to `width` columns behind `prefix`; further rows are indented by as many
/// columns.
pub open spec fn labelled(
    prefix: Seq<char>,
    prefix_style: Style,
    text: Seq<char>,
    text_style: Style,
    width: int,
) -> Seq<LineView> {
    let indent = display_columns(prefix);
    let rows = wrapped(text, larger(less(width, indent as int), 1));
    Seq::new(
        rows.len(),
        |i: int|
            row(
                seq![
                    if i == 0 {
                        SpanView { content: prefix, style: prefix_style }
                    } else {
                        piece(repeated(' ', indent), Tone::Raw)
                    },
                    SpanView { content: rows[i], style: text_style },
                ],
            ),
    )
}

/// Adds `text`, wrapped to `width` columns behind `prefix`.
pub fn push_wrapped(
    lines: &mut Vec<Line>,
    prefix: &str,
    prefix_style: Style,
    text: &str,
    text_style: Style,
    width: usize,
)
    ensures
        line_views(final(lines)@) == line_views(old(lines)@) + labelled(
            prefix@,
            prefix_style,
            text@,
            text_style,
            width as int,
        ),
{
    let ghost before = line_views(lines@);
    let ghost all = labelled(prefix@, prefix_style, text@, text_style, width as int);
    let indent: usize = display_width(prefix);
    let available: usize = max_of(minus(width, indent), 1);
    let rows = wrap_value(text, available);
    let n: usize = rows.len();
    let mut i: usize = 0;
    assert(line_views(lines@) =~= before + all.take(0));
    while i < n
        invariant
            i <= n,
            n == rows@.len(),
            n == all.len(),
            indent == display_columns(prefix@),
            texts(rows@) == wrapped(text@, larger(less(width as int, indent as int), 1)),
            all == labelled(prefix@, prefix_style, text@, text_style, width as int),
            line_views(lines@) == before + all.take(i as int),
        decreases n - i,
    {
        let head = if i == 0 {
            styled(prefix, prefix_style)
        } else {
            text_span(text::repeat_char(' ', indent), Tone::Raw)
        };
        assert(texts(rows@)[i as int] == rows@[i as int]@);
        let l = line_of_two(head, styled(rows[i].as_str(), text_style));
        assert(all[i as int] == l@);
        assert(before + all.take(i as int + 1) =~= (before + all.take(i as int)).push(l@));
        add_line(lines, l);
        i = i + 1;
    }
    assert(all.take(n as int) =~= all);
}

/// Rows, where `shown` holds.
pub open spec fn rows_if(shown: bool, rows: Seq<LineView>) -> Seq<LineView> {
    if shown {
        rows
    } else {
        Seq::empty()
    }
}

/// What the detail popup says of a rule's status and review.
pub open spec fn status_rows(chunk: PolicyChunk, width: int) -> Seq<LineView> {
    seq![
        row(
            seq![
                piece("Status:     "@, Tone::Muted),
                SpanView {
                    content: chunk.status@,
                    style: emphasized(status_tone(chunk.status@)),
                },
            ],
        ),
        row(
            seq![
                piece("Confidence: "@, Tone::Muted),
                piece(chunk.confidence_label@, Tone::Text),
            ],
        ),
    ] + match chunk.review() {
        Some((kind, _, label)) => labelled(
            "Review:     "@,
            plain(Tone::Muted),
            label,
            emphasized(review_tone(kind)),
            width,
        ),
        None => Seq::empty(),
    } + match chunk.guidance() {
        Some(reason) => labelled(
            "Guidance:   "@,
            plain(Tone::Muted),
            reason,
            plain(Tone::StatusErr),
            width,
        ),
        None => Seq::empty(),
    } + rows_if(
        chunk.binary@.len() > 0,
        labelled("Binary:     "@, plain(Tone::Muted), chunk.binary@, plain(Tone::Text), width),
    )
}

fn add_status(lines: &mut Vec<Line>, chunk: &PolicyChunk, width: usize)
    ensures
        line_views(final(lines)@) == line_views(old(lines)@) + status_rows(*chunk, width as int),
{
    let ghost before = line_views(lines@);
    add_line(
        lines,
        line_of_two(
            span("Status:     ", Tone::Muted),
            styled(chunk.status.as_str(), emphasize(tone_for_status(chunk.status.as_str()))),
        ),
    );
    add_line(
        lines,
        line_of_two(
            span("Confidence: ", Tone::Muted),
            span(chunk.confidence_label.as_str(), Tone::Text),
        ),
    );
    if let Some(annotation) = approval_annotation(chunk) {
        push_wrapped(
            lines,
            "Review:     ",
            plain_style(Tone::Muted),
            annotation.detail_label.as_str(),
            emphasize(tone_for_review(annotation.kind)),
            width,
        );
    }
    if let Some(reason) = rejection_guidance(chunk) {
        push_wrapped(
            lines,
            "Guidance:   ",
            plain_style(Tone::Muted),
            reason,
            plain_style(Tone::StatusErr),
            width,
        );
    }
    if !chunk.binary.as_str().is_empty() {
        push_wrapped(
            lines,
            "Binary:     ",
            plain_style(Tone::Muted),
            chunk.binary.as_str(),
            plain_style(Tone::Text),
            width,
        );
    }
    assert(line_views(lines@) =~= before + status_rows(*chunk, width as int));
}

/// How often connections were denied.
pub open spec fn denied_count(hits: int) -> Seq<char> {
    signed_decimal_of(hits) + " connection"@ + if hits == 1 {
        ""@
    } else {
        "s"@
    }
}

/// When connections were denied first and last.
pub open spec fn denied_seen(chunk: PolicyChunk) -> Seq<char> {
    "(first "@ + short_time(chunk.first_seen_ms as int) + " / last "@ + short_time(
        chunk.last_seen_ms as int,
    ) + ")"@
}

/// What the detail popup says of the denied connections, on one row where that fits.
pub open spec fn denied_rows(chunk: PolicyChunk, width: int) -> Seq<LineView> {
    let label = "Denied:     "@;
    let count = denied_count(chunk.hit_count as int);
    let seen = denied_seen(chunk);
    if display_columns(label) + display_columns(count) + 2 + display_columns(seen) <= width {
        seq![
            row(
                seq![
                    piece(label, Tone::Muted),
                    piece(count, Tone::Accent),
                    piece("  "@ + seen, Tone::Muted),
                ],
            ),
        ]
    } else {
        labelled(label, plain(Tone::Muted), count, plain(Tone::Accent), width) + labelled(
            repeated(' ', display_columns(label)),
            plain(Tone::Muted),
            seen,
            plain(Tone::Muted),
            width,
        )
    }
}

fn add_denied(lines: &mut Vec<Line>, chunk: &PolicyChunk, width: usize)
    ensures
        line_views(final(lines)@) == line_views(old(lines)@) + denied_rows(*chunk, width as int),
{
    let ghost before = line_views(lines@);
    let label = "Denied:     ";
    let hits = text::signed_decimal(chunk.hit_count as i64);
    let count = all_together(
        hits.as_str(),
        " connection",
        if chunk.hit_count == 1 {
            ""
        } else {
            "s"
        },
    );
    let mut seen = all_together(
        "(first ",
        format_short_time(chunk.first_seen_ms).as_str(),
        " / last ",
    );
    seen.append(format_short_time(chunk.last_seen_ms).as_str());
    seen.append(")");
    let label_columns: usize = display_width(label);
    let columns: u128 = label_columns as u128 + display_width(count.as_str()) as u128 + 2
        + display_width(seen.as_str()) as u128;
    if columns <= width as u128 {
        let mut spans: Vec<Span> = Vec::new();
        spans.push(span(label, Tone::Muted));
        spans.push(text_span(count, Tone::Accent));
        spans.push(text_span(together("  ", seen.as_str()), Tone::Muted));
        assert(span_views(spans@) =~= denied_rows(*chunk, width as int)[0].spans);
        add_line(lines, line(spans));
        assert(line_views(lines@) =~= before + denied_rows(*chunk, width as int));
    } else {
        let muted = plain_style(Tone::Muted);
        push_wrapped(lines, label, muted, count.as_str(), plain_style(Tone::Accent), width);
        let indent = text::repeat_char(' ', label_columns);
        push_wrapped(lines, indent.as_str(), muted, seen.as_str(), muted, width);
        assert(line_views(lines@) =~= before + denied_rows(*chunk, width as int));
    }
}

/// Further details of an endpoint.
pub open spec fn detail_texts(details: Seq<Seq<char>>, width: int) -> Seq<LineView>
    decreases details.len(),
{
    if details.len() == 0 {
        Seq::empty()
    } else {
        detail_texts(details.drop_last(), width) + labelled(
            "     "@,
            plain(Tone::Text),
            details.last(),
            plain(Tone::Text),
            width,
        )
    }
}

/// The endpoints of a rule, each with its details.
pub open spec fn endpoint_rows(endpoints: Seq<NetworkEndpoint>, width: int) -> Seq<LineView>
    decreases endpoints.len(),
{
    if endpoints.len() == 0 {
        Seq::empty()
    } else {
        endpoint_rows(endpoints.drop_last(), width) + labelled(
            "  -> "@,
            plain(Tone::Muted),
            endpoints.last().summary(),
            plain(Tone::Accent),
            width,
        ) + detail_texts(endpoints.last().details(), width)
    }
}

/// The programs of a rule.
pub open spec fn program_rows(binaries: Seq<NetworkBinary>, width: int) -> Seq<LineView>
    decreases binaries.len(),
{
    if binaries.len() == 0 {
        Seq::empty()
    } else {
        program_rows(binaries.drop_last(), width) + labelled(
            "  "@,
            plain(Tone::Text),
            binaries.last().path@,
            plain(Tone::Text),
            width,
        )
    }
}

/// A blank row and a heading.
pub open spec fn heading_rows(heading: Seq<char>) -> Seq<LineView> {
    seq![row(Seq::empty()), row(seq![piece(heading, Tone::Muted)])]
}

/// What the detail popup says of the proposed rule.
pub open spec fn proposal_rows(rule: Option<NetworkPolicyRule>, width: int) -> Seq<LineView> {
    match rule {
        Some(rule) => heading_rows("Endpoints:"@) + endpoint_rows(rule.endpoints@, width) + rows_if(
            rule.binaries@.len() > 0,
            heading_rows("Binaries:"@) + program_rows(rule.binaries@, width),
        ),
        None => Seq::empty(),
    }
}

fn add_heading(lines: &mut Vec<Line>, heading: &str)
    ensures
        line_views(final(lines)@) == line_views(old(lines)@) + heading_rows(heading@),
{
    let ghost before = line_views(lines@);
    add_line(lines, blank());
    add_line(lines, line_of(span(heading, Tone::Muted)));
    assert(line_views(lines@) =~= before + heading_rows(heading@));
}

fn add_details(lines: &mut Vec<Line>, details: &Vec<String>, width: usize)
    ensures
        line_views(final(lines)@) == line_views(old(lines)@) + detail_texts(
            texts(details@),
            width as int,
        ),
{
    let ghost before = line_views(lines@);
    let ghost all = texts(details@);
    let n: usize = details.len();
    let mut i: usize = 0;
    assert(line_views(lines@) =~= before + detail_texts(all.take(0), width as int));
    while i < n
        invariant
            i <= n,
            n == details@.len(),
            all == texts(details@),
            line_views(lines@) == before + detail_texts(all.take(i as int), width as int),
        decreases n - i,
    {
        let ghost done = line_views(lines@);
        let style = plain_style(Tone::Text);
        assert(all[i as int] == details@[i as int]@);
        push_wrapped(lines, "     ", style, details[i].as_str(), style, width);
        assert(all.take(i as int + 1).drop_last() =~= all.take(i as int));
        assert(line_views(lines@) =~= before + detail_texts(all.take(i as int + 1), width as int));
        i = i + 1;
    }
    assert(all.take(n as int) =~= all);
}

fn add_endpoints(lines: &mut Vec<Line>, endpoints: &Vec<NetworkEndpoint>, width: usize)
    ensures
        line_views(final(lines)@) == line_views(old(lines)@) + endpoint_rows(
            endpoints@,
            width as int,
        ),
{
    let ghost before = line_views(lines@);
    let n: usize = endpoints.len();
    let mut i: usize = 0;
    assert(line_views(lines@) =~= before + endpoint_rows(endpoints@.take(0), width as int));
    while i < n
        invariant
            i <= n,
            n == endpoints@.len(),
            line_views(lines@) == before + endpoint_rows(endpoints@.take(i as int), width as int),
        decreases n - i,
    {
        let endpoint = &endpoints[i];
        push_wrapped(
            lines,
            "  -> ",
            plain_style(Tone::Muted),
            format_endpoint_summary(endpoint).as_str(),
            plain_style(Tone::Accent),
            width,
        );
        let details = format_endpoint_details(endpoint);
        add_details(lines, &details, width);
        assert(endpoints@.take(i as int + 1).drop_last() =~= endpoints@.take(i as int));
        assert(line_views(lines@) =~= before + endpoint_rows(
            endpoints@.take(i as int + 1),
            width as int,
        ));
        i = i + 1;
    }
    assert(endpoints@.take(n as int) =~= endpoints@);
}

fn add_programs(lines: &mut Vec<Line>, binaries: &Vec<NetworkBinary>, width: usize)
    ensures
        line_views(final(lines)@) == line_views(old(lines)@) + program_rows(
            binaries@,
            width as int,
        ),
{
    let ghost before = line_views(lines@);
    let n: usize = binaries.len();
    let mut i: usize = 0;
    assert(line_views(lines@) =~= before + program_rows(binaries@.take(0), width as int));
    while i < n
        invariant
            i <= n,
            n == binaries@.len(),
            line_views(lines@) == before + program_rows(binaries@.take(i as int), width as int),
        decreases n - i,
    {
        let style = plain_style(Tone::Text);
        push_wrapped(lines, "  ", style, binaries[i].path.as_str(), style, width);
        assert(binaries@.take(i as int + 1).drop_last() =~= binaries@.take(i as int));
        assert(line_views(lines@) =~= before + program_rows(
            binaries@.take(i as int + 1),
            width as int,
        ));
        i = i + 1;
    }
    assert(binaries@.take(n as int) =~= binaries@);
}

fn add_proposal(lines: &mut Vec<Line>, rule: &Option<NetworkPolicyRule>, width: usize)
    ensures
        line_views(final(lines)@) == line_views(old(lines)@) + proposal_rows(*rule, width as int),
{
    let ghost before = line_views(lines@);
    if let Some(rule) = rule {
        add_heading(lines, "Endpoints:");
        add_endpoints(lines, &rule.endpoints, width);
        if rule.binaries.len() > 0 {
            add_heading(lines, "Binaries:");
            add_programs(lines, &rule.binaries, width);
        }
    }
    assert(line_views(lines@) =~= before + proposal_rows(*rule, width as int));
}

/// What the detail popup says of the reasons for a rule.
pub open spec fn reason_rows(chunk: PolicyChunk, width: int) -> Seq<LineView> {
    let gap = seq![row(Seq::empty())];
    rows_if(
        chunk.rationale@.len() > 0,
        gap + labelled(
            "Rationale:  "@,
            plain(Tone::Muted),
            chunk.rationale@,
            plain(Tone::Text),
            width,
        ),
    ) + rows_if(
        chunk.security_notes@.len() > 0,
        gap + labelled(
            "! "@,
            bold(Tone::StatusWarn),
            chunk.security_notes@,
            bold(Tone::StatusWarn),
            width,
        ),
    )
}

fn add_reasons(lines: &mut Vec<Line>, chunk: &PolicyChunk, width: usize)
    ensures
        line_views(final(lines)@) == line_views(old(lines)@) + reason_rows(*chunk, width as int),
{
    let ghost before = line_views(lines@);
    if !chunk.rationale.as_str().is_empty() {
        add_line(lines, blank());
        push_wrapped(
            lines,
            "Rationale:  ",
            plain_style(Tone::Muted),
            chunk.rationale.as_str(),
            plain_style(Tone::Text),
            width,
        );
    }
    if !chunk.security_notes.as_str().is_empty() {
        let warn = bold_style(Tone::StatusWarn);
        add_line(lines, blank());
        push_wrapped(lines, "! ", warn, chunk.security_notes.as_str(), warn, width);
    }
    assert(line_views(lines@) =~= before + reason_rows(*chunk, width as int));
}

/// The rows of the detail popup of a rule, wrapped to `width` columns.
pub open spec fn detail_rows(chunk: PolicyChunk, width: int) -> Seq<LineView> {
    status_rows(chunk, width) + denied_rows(chunk, width) + proposal_rows(
        chunk.proposed_rule,
        width,
    ) + reason_rows(chunk, width)
}

/// The rows of the detail popup of a rule, wrapped to `width` columns.
pub fn detail_lines(chunk: &PolicyChunk, width: usize) -> (lines: Vec<Line>)
    ensures
        line_views(lines@) == detail_rows(*chunk, width as int),
{
    let mut lines: Vec<Line> = Vec::new();
    assert(line_views(lines@) =~= Seq::empty());
    add_status(&mut lines, chunk, width);
    assert(line_views(lines@) =~= status_rows(*chunk, width as int));
    add_denied(&mut lines, chunk, width);
    add_proposal(&mut lines, &chunk.proposed_rule, width);
    add_reasons(&mut lines, chunk, width);
    lines
}

/// The row of a rule shows its name, its status in brackets and the confidence, and a rule that
/// was hit more than once says how often; the row under the cursor has the marker, and no other.
pub proof fn lemma_rule_rows_show_the_rule(chunk: PolicyChunk, selected: bool, locked: bool)
    ensures
        ({
            let shown = rule_row(chunk, selected, locked);
            let head = rule_head(chunk, selected, locked);
            let tail = rule_tail(chunk, locked);
            &&& shown.spans == head + tail
            &&& head[0].content == if selected {
                "▌ "@
            } else {
                "  "@
            }
            &&& head[1].content == chunk.rule_name@
            &&& tail[1].content == "["@ + chunk.status@ + "]"@
            &&& tail[2].content == "  "@ + chunk.confidence_label@
            &&& chunk.review() is None && chunk.hit_count > 1 ==> tail[3].content == "  "@
                + signed_decimal_of(chunk.hit_count as int) + "x"@
            &&& chunk.review() is None && chunk.hit_count <= 1 && chunk.guidance() is None
                ==> tail.len() == 3
        }),
{
}

/// A rule that waits is shown as a warning, one that was approved as in order, and one that was
/// rejected as an error; so is what is said of its review.
pub proof fn lemma_tones_follow_the_status()
    ensures
        status_tone("pending"@) == Tone::StatusWarn,
        status_tone("approved"@) == Tone::StatusOk,
        status_tone("rejected"@) == Tone::StatusErr,
        review_tone(ApprovalAnnotationKind::AutoApproved) == Tone::StatusOk,
        review_tone(ApprovalAnnotationKind::RequiresReview) == Tone::StatusWarn,
        review_tone(ApprovalAnnotationKind::Reviewed) == Tone::Muted,
{
    reveal_strlit("pending");
    reveal_strlit("approved");
    reveal_strlit("rejected");
    assert("pending"@.len() == 7);
    assert("approved"@[0] == 'a' && "rejected"@[0] == 'r');
    assert("approved"@.len() == 8 && "rejected"@.len() == 8);
}

/// The list shows the rules from the offset on, in order, as many as fit; the row under the cursor
/// is the one that is marked.
pub proof fn lemma_list_shows_rules_in_order(pane: DraftPane, locked: bool, i: int)
    ensures
        ({
            let rows = draft_rows(pane, locked);
            let left = pane.draft_chunks@.len() - pane.draft_scroll;
            &&& left >= 0 ==> rows.len() == if left < pane.draft_viewport_height {
                left
            } else {
                pane.draft_viewport_height as int
            }
            &&& 0 <= i < rows.len() ==> rows[i].spans[1].content
                == pane.draft_chunks@[pane.draft_scroll + i].rule_name@
            &&& 0 <= i < rows.len() ==> (rows[i].spans[0].content == "▌ "@ <==> i
                == pane.draft_selected)
        }),
{
    reveal_strlit("▌ ");
    reveal_strlit("  ");
    assert("▌ "@[0] == '▌' && "  "@[0] == ' ');
}

/// The title counts the rules that wait for a decision, where there are any.
pub proof fn lemma_title_counts_pending_rules(chunks: Seq<Arc<PolicyChunk>>)
    ensures
        ({
            let waiting = chunks.filter(|c: Arc<PolicyChunk>| c.status@ == "pending"@).len();
            &&& draft_title(chunks).spans[0].content == " Network Rules "@
            &&& waiting > 0 ==> draft_title(chunks).spans[1].content == " "@ + decimal_of(waiting)
                + " pending "@
            &&& waiting == 0 ==> draft_title(chunks).spans.len() == 1
        }),
{
}

/// The detail says the status and the confidence first, then what is said of the review, the
/// guidance and the program, where there are any.
pub proof fn lemma_detail_says_the_status_first(chunk: PolicyChunk, width: int)
    ensures
        ({
            let rows = status_rows(chunk, width);
            &&& rows.len() >= 2
            &&& rows[0].spans[0].content == "Status:     "@ && rows[0].spans[1].content
                == chunk.status@
            &&& rows[1].spans[0].content == "Confidence: "@ && rows[1].spans[1].content
                == chunk.confidence_label@
            &&& chunk.review() is None && chunk.guidance() is None && chunk.binary@.len() == 0
                ==> rows.len() == 2
            &&& chunk.review() is None && chunk.guidance() is None && chunk.binary@.len() > 0
                ==> rows.skip(2) == labelled(
                "Binary:     "@,
                plain(Tone::Muted),
                chunk.binary@,
                plain(Tone::Text),
                width,
            )
            &&& chunk.review() matches Some(r) ==> (labelled(
                "Review:     "@,
                plain(Tone::Muted),
                r.2,
                emphasized(review_tone(r.0)),
                width,
            )).is_prefix_of(rows.skip(2))
        }),
{
    let rows = status_rows(chunk, width);
    if chunk.review() is None && chunk.guidance() is None && chunk.binary@.len() > 0 {
        assert(rows.skip(2) =~= labelled(
            "Binary:     "@,
            plain(Tone::Muted),
            chunk.binary@,
            plain(Tone::Text),
            width,
        ));
    }
    if let Some(r) = chunk.review() {
        let said = labelled(
            "Review:     "@,
            plain(Tone::Muted),
            r.2,
            emphasized(review_tone(r.0)),
            width,
        );
        assert(rows.skip(2).take(said.len() as int) =~= said);
    }
}

/// The detail says how often a connection was denied, and when first and last.
pub proof fn lemma_detail_says_what_was_denied(chunk: PolicyChunk)
    ensures
        denied_count(1) == signed_decimal_of(1) + " connection"@ + ""@,
        forall|hits: int|
            hits != 1 ==> #[trigger] denied_count(hits) == signed_decimal_of(hits) + " connection"@
                + "s"@,
        denied_seen(chunk) == "(first "@ + short_time(chunk.first_seen_ms as int) + " / last "@
            + short_time(chunk.last_seen_ms as int) + ")"@,
{
}

/// The program of a rule is called by what stands behind the last slash of its path.
pub proof fn lemma_programs_are_called_by_their_file(before: Seq<char>, name: Seq<char>)
    requires
        !name.contains('/'),
    ensures
        file_name(before + seq!['/'] + name) == name,
        file_name(name) == name,
{
    let path = before + seq!['/'] + name;
    let n = before.len() as int;
    assert forall|i: int| n < i < path.len() implies #[trigger] path[i] != '/' by {
        assert(path[i] == name[i - n - 1]);
        assert(name.contains(name[i - n - 1]));
    }
    text::lemma_last_at(path, '/', n);
    assert(path.skip(n + 1) =~= name);
    assert forall|i: int| -1 < i < name.len() implies #[trigger] name[i] != '/' by {
        assert(name.contains(name[i]));
    }
    text::lemma_last_at(name, '/', -1);
    assert(name.skip(0) =~= name);
}

} // verus!
