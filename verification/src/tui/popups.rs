//! The popups over the pane of proposed network rules: their sizes, hints and rows.

use vstd::prelude::*;
use std::sync::Arc;
use crate::text;
use crate::text::{all_together, byte_len, decimal_of, lemma_chars_and_bytes, together};
use crate::tui::draft_view::{
    add_binary, binary_spans, detail_lines, detail_rows, first_endpoint_summary,
};
use crate::tui::measure::{
    cut_to_length, display_columns, display_width, lemma_cut_text_is_short, truncate_str,
};
use crate::tui::policy::PolicyChunk;
use crate::tui::scroll::{larger, less, max_of, min_of, minus, smaller};
use crate::tui::styled::{
    add_line, add_span, blank, bold, bold_style, line, line_views, piece, row, span, span_views,
    styled, text_span, Line, LineView, Span, SpanView, Tone,
};

verus! {

/// The columns of a popup on a screen of `screen` columns.
pub open spec fn popup_columns(screen: int) -> int {
    smaller(screen * 4 / 5, less(screen, 4))
}

/// The columns of a popup on a screen of `screen` columns: four fifths of them, and at least
/// four fewer.
pub fn popup_width(screen: u16) -> (columns: u16)
    ensures
        columns == popup_columns(screen as int),
{
    let part: u32 = screen as u32 * 4 / 5;
    let rest: u32 = if screen < 4 {
        0
    } else {
        screen as u32 - 4
    };
    if part < rest {
        part as u16
    } else {
        rest as u16
    }
}

/// The rows of a popup that wants `wanted` of them, on a screen of `screen` rows.
pub open spec fn popup_rows(wanted: int, screen: int) -> int {
    smaller(wanted, less(screen, 4))
}

/// The rows of a popup that wants `wanted` of them, on a screen of `screen` rows.
pub fn popup_height(wanted: u16, screen: u16) -> (rows: u16)
    ensures
        rows == popup_rows(wanted as int, screen as int),
{
    let rest: u16 = if screen < 4 {
        0
    } else {
        screen - 4
    };
    if wanted < rest {
        wanted
    } else {
        rest
    }
}

/// The rows that the detail popup of a rule wants.
pub const DETAIL_HEIGHT: u16 = 22;

/// The columns left for text in a popup of `popup` columns, inside its borders and padding.
pub open spec fn text_columns(popup: int) -> int {
    larger(less(popup, 4), 1)
}

/// The columns left for text in a popup of `popup` columns.
pub fn text_width(popup: u16) -> (columns: usize)
    ensures
        columns == text_columns(popup as int),
{
    max_of(minus(popup as usize, 4), 1)
}

/// A hint in the footer of a popup, with the columns that it takes.
#[derive(Debug)]
pub struct HintUnit {
    pub key: Span,
    pub label: Span,
    pub columns: u128,
}

impl HintUnit {
    /// The pieces of the hint.
    pub open spec fn spans(self) -> Seq<SpanView> {
        seq![self.key@, self.label@]
    }

    /// Whether the columns are those of the hint's texts.
    pub open spec fn measured(self) -> bool {
        self.columns == display_columns(self.key@.content) + display_columns(self.label@.content)
    }
}

/// A hint: its key and its text, with their tones.
pub open spec fn hint(key: Seq<char>, label: Seq<char>, key_tone: Tone, label_tone: Tone) -> Seq<
    SpanView,
> {
    seq![piece(key, key_tone), piece(label, label_tone)]
}

/// The hints for a rule's status.
pub open spec fn status_hints(status: Seq<char>) -> Seq<Seq<SpanView>> {
    if status == "pending"@ {
        seq![
            hint("[a]"@, " Approve  "@, Tone::KeyHint, Tone::Text),
            hint("[x]"@, " Reject  "@, Tone::KeyHint, Tone::Text),
        ]
    } else if status == "approved"@ {
        seq![hint("[x]"@, " Revoke  "@, Tone::KeyHint, Tone::Text)]
    } else if status == "rejected"@ {
        seq![hint("[a]"@, " Approve  "@, Tone::KeyHint, Tone::Text)]
    } else {
        Seq::empty()
    }
}

/// The hints of the detail popup; the last one says how to close it.
pub open spec fn detail_hints(status: Seq<char>, scrollable: bool) -> Seq<Seq<SpanView>> {
    status_hints(status) + if scrollable {
        seq![hint("[j/k]"@, " Scroll  "@, Tone::KeyHint, Tone::Text)]
    } else {
        Seq::empty()
    } + seq![hint("[Esc]"@, " Close"@, Tone::Muted, Tone::Muted)]
}

/// The pieces of a list of hints.
pub open spec fn unit_spans(units: Seq<HintUnit>) -> Seq<Seq<SpanView>> {
    units.map_values(|u: HintUnit| u.spans())
}

/// Whether the columns of each hint are those of its texts.
pub open spec fn all_measured(units: Seq<HintUnit>) -> bool {
    forall|i: int| 0 <= i < units.len() ==> (#[trigger] units[i]).measured()
}

fn add_hint(units: &mut Vec<HintUnit>, key: &str, label: &str, key_tone: Tone, label_tone: Tone)
    requires
        all_measured(old(units)@),
    ensures
        all_measured(final(units)@),
        unit_spans(final(units)@) == unit_spans(old(units)@).push(
            hint(key@, label@, key_tone, label_tone),
        ),
{
    let unit = HintUnit {
        key: span(key, key_tone),
        label: span(label, label_tone),
        columns: display_width(key) as u128 + display_width(label) as u128,
    };
    let ghost before = units@;
    units.push(unit);
    proof {
        assert(unit.measured());
        assert(unit.spans() =~= hint(key@, label@, key_tone, label_tone));
        assert(unit_spans(units@) =~= unit_spans(before).push(
            hint(key@, label@, key_tone, label_tone),
        ));
    }
}

/// The hints of the detail popup of a rule.
pub fn hint_units(chunk: &PolicyChunk, scrollable: bool) -> (units: Vec<HintUnit>)
    ensures
        unit_spans(units@) == detail_hints(chunk.status@, scrollable),
        all_measured(units@),
{
    let mut units: Vec<HintUnit> = Vec::new();
    assert(unit_spans(units@) =~= Seq::empty());
    let status = chunk.status.as_str();
    if text::same(status, "pending") {
        add_hint(&mut units, "[a]", " Approve  ", Tone::KeyHint, Tone::Text);
        add_hint(&mut units, "[x]", " Reject  ", Tone::KeyHint, Tone::Text);
    } else if text::same(status, "approved") {
        add_hint(&mut units, "[x]", " Revoke  ", Tone::KeyHint, Tone::Text);
    } else if text::same(status, "rejected") {
        add_hint(&mut units, "[a]", " Approve  ", Tone::KeyHint, Tone::Text);
    }
    assert(unit_spans(units@) =~= status_hints(status@));
    if scrollable {
        add_hint(&mut units, "[j/k]", " Scroll  ", Tone::KeyHint, Tone::Text);
    }
    add_hint(&mut units, "[Esc]", " Close", Tone::Muted, Tone::Muted);
    assert(unit_spans(units@) =~= detail_hints(status@, scrollable));
    units
}

/// The columns of a hint.
pub open spec fn hint_columns(spans: Seq<SpanView>) -> int {
    (display_columns(spans[0].content) + display_columns(spans[1].content)) as int
}

/// Rows of hints being filled: the finished ones, and the pieces and columns of the current one.
#[verifier::ext_equal]
pub struct Packing {
    pub rows: Seq<Seq<SpanView>>,
    pub current: Seq<SpanView>,
    pub columns: int,
}

/// The rows of at most `width` columns into which hints are packed: each goes behind the one
/// before where it fits, else into a new row.
pub open spec fn packing(hints: Seq<Seq<SpanView>>, width: int) -> Packing
    decreases hints.len(),
{
    if hints.len() == 0 {
        Packing { rows: Seq::empty(), current: Seq::empty(), columns: 0 }
    } else {
        let p = packing(hints.drop_last(), width);
        let next = hints.last();
        if p.current.len() > 0 && p.columns + hint_columns(next) > width {
            Packing { rows: p.rows.push(p.current), current: next, columns: hint_columns(next) }
        } else {
            Packing {
                rows: p.rows,
                current: p.current + next,
                columns: p.columns + hint_columns(next),
            }
        }
    }
}

/// The rows into which hints are packed.
pub open spec fn packed(hints: Seq<Seq<SpanView>>, width: int) -> Seq<LineView> {
    let p = packing(hints, width);
    let rows = p.rows.map_values(|spans: Seq<SpanView>| row(spans));
    if hints.len() == 0 {
        seq![row(Seq::empty())]
    } else {
        rows.push(row(p.current))
    }
}

fn copy_span(s: &Span) -> (copy: Span)
    ensures
        copy@ == s@,
{
    Span { content: s.content.clone(), style: s.style }
}

/// Packs hints into rows no wider than `width`, without splitting one.
pub fn pack_hints(units: &Vec<HintUnit>, width: usize) -> (rows: Vec<Line>)
    requires
        all_measured(units@),
    ensures
        line_views(rows@) == packed(unit_spans(units@), width as int),
{
    let ghost all = unit_spans(units@);
    let ghost as_row = |spans: Seq<SpanView>| row(spans);
    let mut rows: Vec<Line> = Vec::new();
    let mut current: Vec<Span> = Vec::new();
    let mut columns: u128 = 0;
    let n: usize = units.len();
    let mut i: usize = 0;
    proof {
        assert(line_views(rows@) =~= Seq::empty());
        assert(span_views(current@) =~= Seq::empty());
        assert(packing(all.take(0), width as int).rows.map_values(as_row) =~= Seq::empty());
    }
    while i < n
        invariant
            i <= n,
            n == units@.len(),
            all == unit_spans(units@),
            all_measured(units@),
            as_row == |spans: Seq<SpanView>| row(spans),
            line_views(rows@) == packing(all.take(i as int), width as int).rows.map_values(as_row),
            span_views(current@) == packing(all.take(i as int), width as int).current,
            columns == packing(all.take(i as int), width as int).columns,
            (current@.len() == 0) == (i == 0),
            i == 0 ==> columns == 0,
        decreases n - i,
    {
        let unit = &units[i];
        let ghost p = packing(all.take(i as int), width as int);
        proof {
            assert(unit.measured());
            assert(all.take(i as int + 1).drop_last() =~= all.take(i as int));
            assert(all.take(i as int + 1).last() == unit.spans());
            assert(hint_columns(unit.spans()) == unit.columns);
            assert(span_views(current@).len() == current@.len());
        }
        if current.len() > 0 && (columns > width as u128 || unit.columns > width as u128
            - columns) {
            let mut finished: Vec<Span> = Vec::new();
            std::mem::swap(&mut finished, &mut current);
            assert(span_views(current@) =~= Seq::empty());
            let l = line(finished);
            assert(p.rows.push(p.current).map_values(as_row) =~= p.rows.map_values(as_row).push(
                l@,
            ));
            add_line(&mut rows, l);
            columns = 0;
        }
        let ghost before = span_views(current@);
        add_span(&mut current, copy_span(&unit.key));
        add_span(&mut current, copy_span(&unit.label));
        assert(span_views(current@) =~= before + unit.spans());
        columns = columns + unit.columns;
        i = i + 1;
    }
    assert(all.take(n as int) =~= all);
    if n > 0 {
        add_line(&mut rows, line(current));
    } else {
        add_line(&mut rows, blank());
        assert(line_views(rows@) =~= seq![row(Seq::empty())]);
    }
    rows
}

/// How to close the popup is always the last hint of the last row, however narrow the popup is.
pub proof fn lemma_close_hint_is_last(status: Seq<char>, scrollable: bool, width: int)
    ensures
        ({
            let rows = packed(detail_hints(status, scrollable), width);
            let last = rows.last().spans;
            &&& rows.len() > 0
            &&& last.len() >= 2
            &&& last[last.len() - 2] == piece("[Esc]"@, Tone::Muted)
            &&& last[last.len() - 1] == piece(" Close"@, Tone::Muted)
        }),
{
    let hints = detail_hints(status, scrollable);
    let close = hint("[Esc]"@, " Close"@, Tone::Muted, Tone::Muted);
    assert(hints.last() == close);
    let p = packing(hints.drop_last(), width);
    let q = packing(hints, width);
    assert(q.current == close || q.current == p.current + close);
}

/// The pieces of several rows, one behind the other.
pub open spec fn all_pieces(rows: Seq<Seq<SpanView>>) -> Seq<SpanView>
    decreases rows.len(),
{
    if rows.len() == 0 {
        Seq::empty()
    } else {
        all_pieces(rows.drop_last()) + rows.last()
    }
}

/// Packing loses no hint and keeps them in order.
pub proof fn lemma_packing_keeps_hints(hints: Seq<Seq<SpanView>>, width: int)
    ensures
        all_pieces(packing(hints, width).rows.push(packing(hints, width).current)) == all_pieces(
            hints,
        ),
    decreases hints.len(),
{
    let q = packing(hints, width);
    assert(q.rows.push(q.current).drop_last() =~= q.rows);
    if hints.len() == 0 {
        assert(all_pieces(q.rows) + q.current =~= all_pieces(hints));
    } else {
        lemma_packing_keeps_hints(hints.drop_last(), width);
        let p = packing(hints.drop_last(), width);
        assert(p.rows.push(p.current).drop_last() =~= p.rows);
        assert(all_pieces(p.rows) + p.current == all_pieces(hints.drop_last()));
        assert(all_pieces(q.rows) + q.current =~= all_pieces(p.rows) + p.current + hints.last());
    }
}

/// The footer of the detail popup: its number of rows, and its hints.
#[derive(Debug)]
pub struct Footer {
    pub rows: usize,
    pub hints: Vec<Line>,
}

/// The hints of the detail popup, while its footer takes `footer` of `height` rows.
pub open spec fn hints_beside(
    status: Seq<char>,
    total: int,
    height: int,
    width: int,
    footer: int,
) -> Seq<LineView> {
    packed(detail_hints(status, less(total, less(height, footer)) > 0), width)
}

/// How many rows a footer of `needed` rows gets, of `height`.
pub open spec fn footer_rows(needed: int, height: int) -> int {
    larger(smaller(needed, larger(less(height, 1), 1)), 1)
}

/// Whether `footer` is that of a popup with `total` rows of content, `height` of which fit with
/// the footer. The hints can need a second row, which shrinks the content; so they are settled
/// once more where the first attempt needs another number of rows.
pub open spec fn settles(
    footer: Footer,
    status: Seq<char>,
    total: int,
    height: int,
    width: int,
) -> bool {
    let first = hints_beside(status, total, height, width, 1);
    let needed = footer_rows(first.len() as int, height);
    if needed == 1 {
        footer.rows == 1 && line_views(footer.hints@) == first
    } else {
        let second = hints_beside(status, total, height, width, needed);
        &&& footer.rows == footer_rows(second.len() as int, height)
        &&& line_views(footer.hints@) == second
    }
}

/// Settles the footer of the detail popup.
pub fn detail_footer(chunk: &PolicyChunk, total: usize, height: usize, width: usize) -> (footer:
    Footer)
    ensures
        settles(footer, chunk.status@, total as int, height as int, width as int),
        1 <= footer.rows <= larger(less(height as int, 1), 1),
{
    let max_footer: usize = max_of(minus(height, 1), 1);
    let first = pack_hints(&hint_units(chunk, minus(total, minus(height, 1)) > 0), width);
    assert(line_views(first@).len() == first@.len());
    let needed: usize = max_of(min_of(first.len(), max_footer), 1);
    if needed == 1 {
        return Footer { rows: 1, hints: first };
    }
    let second = pack_hints(&hint_units(chunk, minus(total, minus(height, needed)) > 0), width);
    assert(line_views(second@).len() == second@.len());
    let rows: usize = max_of(min_of(second.len(), max_footer), 1);
    Footer { rows, hints: second }
}

/// What the detail popup laid out, by which its scroll offset is clamped.
#[derive(Debug, Clone, Copy, PartialEq, Eq, Structural)]
pub struct DetailMetrics {
    /// Rows of content, after wrapping.
    pub total_rows: usize,
    /// Rows of content that show, without the footer.
    pub body_height: usize,
}

impl DetailMetrics {
    /// The largest useful scroll offset.
    pub open spec fn max_scroll(self) -> int {
        less(self.total_rows as int, self.body_height as int)
    }

    /// Whether row `i` of the content shows at the offset `scroll`.
    pub open spec fn shows(self, scroll: int, i: int) -> bool {
        scroll <= i < scroll + self.body_height
    }

    /// The scroll offset, clamped to the content.
    pub fn clamped(&self, scroll: usize) -> (offset: usize)
        ensures
            offset == smaller(scroll as int, self.max_scroll()),
    {
        min_of(scroll, minus(self.total_rows, self.body_height))
    }

    /// Where the popup is scrolled to, as it is shown below it where not all content fits.
    pub fn position(&self, scroll: usize) -> (s: Option<String>)
        requires
            self.total_rows < usize::MAX,
        ensures
            s is Some <==> self.max_scroll() > 0,
            s matches Some(t) ==> t@ == " "@ + decimal_of(
                (smaller(scroll as int, self.max_scroll()) + 1) as nat,
            ) + "/"@ + decimal_of(self.total_rows as nat) + " "@,
    {
        let max: usize = minus(self.total_rows, self.body_height);
        if max == 0 {
            return None;
        }
        let offset: u64 = min_of(scroll, max) as u64;
        let mut s = together(" ", text::decimal(offset + 1).as_str());
        s.append("/");
        s.append(text::decimal(self.total_rows as u64).as_str());
        s.append(" ");
        Some(s)
    }
}

/// Whatever row of the content is asked for, there is an offset that shows it.
pub proof fn lemma_every_row_is_reachable(metrics: DetailMetrics, i: int)
    requires
        metrics.body_height > 0,
        0 <= i < metrics.total_rows,
    ensures
        exists|scroll: int|
            0 <= scroll <= metrics.max_scroll() && #[trigger] metrics.shows(scroll, i),
{
    let scroll = smaller(i, metrics.max_scroll());
    assert(metrics.shows(scroll, i));
}

/// The detail popup of a rule as it is laid out.
#[derive(Debug)]
pub struct DetailPopup {
    pub width: u16,
    pub height: u16,
    /// All rows of the content.
    pub lines: Vec<Line>,
    /// The first row that shows.
    pub scroll: usize,
    pub metrics: DetailMetrics,
    /// The rows of hints, which stay below the content.
    pub footer: Footer,
}

/// Lays the detail popup of a rule out on a screen, scrolled as far as there is content.
pub fn detail_popup(chunk: &PolicyChunk, screen_width: u16, screen_height: u16, scroll: usize) -> (popup:
    DetailPopup)
    ensures
        popup.width == popup_columns(screen_width as int),
        popup.height == popup_rows(DETAIL_HEIGHT as int, screen_height as int),
        line_views(popup.lines@) == detail_rows(*chunk, text_columns(popup.width as int)),
        settles(
            popup.footer,
            chunk.status@,
            popup.lines@.len() as int,
            less(popup.height as int, 2),
            text_columns(popup.width as int),
        ),
        popup.metrics.total_rows == popup.lines@.len(),
        popup.metrics.body_height == less(
            less(popup.height as int, 2),
            popup.footer.rows as int,
        ),
        popup.scroll == smaller(scroll as int, popup.metrics.max_scroll()),
{
    let width: u16 = popup_width(screen_width);
    let height: u16 = popup_height(DETAIL_HEIGHT, screen_height);
    let columns: usize = text_width(width);
    let lines = detail_lines(chunk, columns);
    let inner: usize = minus(height as usize, 2);
    let footer = detail_footer(chunk, lines.len(), inner, columns);
    let metrics = DetailMetrics {
        total_rows: lines.len(),
        body_height: minus(inner, footer.rows),
    };
    let scroll: usize = metrics.clamped(scroll);
    DetailPopup { width, height, lines, scroll, metrics, footer }
}

/// How many rules the approval of all lists.
pub const LISTED_RULES: usize = 12;

/// The rows that the approval of `count` rules wants.
pub fn approve_all_height(count: usize) -> (rows: u16)
    ensures
        rows == 7 + smaller(count as int, LISTED_RULES as int),
{
    7 + min_of(count, LISTED_RULES) as u16
}

/// The name and the endpoint of a rule, cut where they have more bytes than there is room left of
/// `width`: the endpoint to half of that, and the name to the rest.
pub open spec fn cut_rule(name: Seq<char>, endpoint: Seq<char>, width: int) -> (Seq<char>, Seq<char>) {
    let budget = less(width, 7);
    if byte_len(name) + byte_len(endpoint) > budget {
        let endpoint_budget = smaller(byte_len(endpoint) as int, budget / 2);
        (
            cut_to_length(name, less(budget, endpoint_budget)),
            cut_to_length(endpoint, endpoint_budget),
        )
    } else {
        (name, endpoint)
    }
}

/// A listed rule, whose name and endpoint are no longer than a text can be, has no more characters
/// than there is room left of `width`.
pub proof fn lemma_listed_rule_fits(name: Seq<char>, endpoint: Seq<char>, width: int)
    requires
        vstd::utf8::encode_utf8(name).len() <= usize::MAX,
        vstd::utf8::encode_utf8(endpoint).len() <= usize::MAX,
    ensures
        ({
            let (n, e) = cut_rule(name, endpoint, width);
            n.len() + e.len() <= less(width, 7)
        }),
{
    let budget = less(width, 7);
    let endpoint_budget = smaller(byte_len(endpoint) as int, budget / 2);
    lemma_chars_and_bytes(name);
    lemma_chars_and_bytes(endpoint);
    lemma_cut_text_is_short(name, less(budget, endpoint_budget));
    lemma_cut_text_is_short(endpoint, endpoint_budget);
}

/// A rule in the list of those to be approved.
pub open spec fn listed_rule(chunk: PolicyChunk, width: int) -> LineView {
    let (name, endpoint) = cut_rule(chunk.rule_name@, chunk.first_endpoint(), width);
    row(
        seq![
            piece("  -> "@, Tone::Muted),
            piece(name, Tone::Text),
            piece("  "@, Tone::Muted),
            piece(endpoint, Tone::Accent),
        ] + binary_spans(chunk.binary@),
    )
}

fn show_listed_rule(chunk: &PolicyChunk, width: usize) -> (line: Line)
    ensures
        line@ == listed_rule(*chunk, width as int),
{
    let endpoint = first_endpoint_summary(chunk);
    let budget: usize = minus(width, 7);
    let name_len: usize = chunk.rule_name.as_str().len();
    let endpoint_len: usize = endpoint.as_str().len();
    let mut spans: Vec<Span> = Vec::new();
    assert(span_views(spans@) =~= Seq::empty());
    add_span(&mut spans, span("  -> ", Tone::Muted));
    if name_len > budget || endpoint_len > budget - name_len {
        let endpoint_budget: usize = min_of(endpoint_len, budget / 2);
        let name = truncate_str(chunk.rule_name.as_str(), minus(budget, endpoint_budget));
        add_span(&mut spans, text_span(name, Tone::Text));
        add_span(&mut spans, span("  ", Tone::Muted));
        add_span(
            &mut spans,
            text_span(truncate_str(endpoint.as_str(), endpoint_budget), Tone::Accent),
        );
    } else {
        add_span(&mut spans, span(chunk.rule_name.as_str(), Tone::Text));
        add_span(&mut spans, span("  ", Tone::Muted));
        add_span(&mut spans, text_span(endpoint, Tone::Accent));
    }
    add_binary(&mut spans, chunk.binary.as_str());
    assert(span_views(spans@) =~= listed_rule(*chunk, width as int).spans);
    line(spans)
}

/// The question of the approval of all.
pub open spec fn approve_question(count: nat) -> LineView {
    row(
        seq![
            piece("Approve "@, Tone::Text),
            SpanView { content: decimal_of(count), style: bold(Tone::StatusWarn) },
            piece(
                " pending policy request"@ + if count == 1 {
                    ""@
                } else {
                    "s"@
                } + "?"@,
                Tone::Text,
            ),
        ],
    )
}

/// The rules listed by the approval of all: the first ones, and how many more there are.
pub open spec fn listed_rules(chunks: Seq<Arc<PolicyChunk>>, width: int) -> Seq<LineView> {
    let n = smaller(chunks.len() as int, LISTED_RULES as int);
    Seq::new(n as nat, |i: int| listed_rule(*chunks[i], width)) + if chunks.len() > LISTED_RULES {
        seq![
            row(
                seq![
                    piece(
                        "  ... and "@ + decimal_of((chunks.len() - LISTED_RULES) as nat)
                            + " more"@,
                        Tone::Muted,
                    ),
                ],
            ),
        ]
    } else {
        Seq::empty()
    }
}

/// The answers to the approval of all.
pub open spec fn approve_answers() -> LineView {
    row(
        seq![
            piece("[y/Enter]"@, Tone::KeyHint),
            piece(" Approve all  "@, Tone::Text),
            piece("[n/Esc]"@, Tone::KeyHint),
            piece(" Cancel"@, Tone::Text),
        ],
    )
}

/// The rows of the approval of all.
pub open spec fn approve_all_rows(chunks: Seq<Arc<PolicyChunk>>, width: int) -> Seq<LineView> {
    seq![approve_question(chunks.len()), row(Seq::empty())] + listed_rules(chunks, width) + seq![
        row(Seq::empty()),
        approve_answers(),
    ]
}

fn show_question(count: usize) -> (l: Line)
    ensures
        l@ == approve_question(count as nat),
{
    let mut spans: Vec<Span> = Vec::new();
    spans.push(span("Approve ", Tone::Text));
    spans.push(
        styled(text::decimal(count as u64).as_str(), bold_style(Tone::StatusWarn)),
    );
    spans.push(
        text_span(
            all_together(
                " pending policy request",
                if count == 1 {
                    ""
                } else {
                    "s"
                },
                "?",
            ),
            Tone::Text,
        ),
    );
    assert(span_views(spans@) =~= approve_question(count as nat).spans);
    line(spans)
}

fn show_answers() -> (l: Line)
    ensures
        l@ == approve_answers(),
{
    let mut spans: Vec<Span> = Vec::new();
    spans.push(span("[y/Enter]", Tone::KeyHint));
    spans.push(span(" Approve all  ", Tone::Text));
    spans.push(span("[n/Esc]", Tone::KeyHint));
    spans.push(span(" Cancel", Tone::Text));
    assert(span_views(spans@) =~= approve_answers().spans);
    line(spans)
}

/// The rows of the approval of all, in a popup with `width` columns for text.
pub fn approve_all_lines(chunks: &Vec<Arc<PolicyChunk>>, width: usize) -> (lines: Vec<Line>)
    ensures
        line_views(lines@) == approve_all_rows(chunks@, width as int),
{
    let count: usize = chunks.len();
    let mut lines: Vec<Line> = Vec::new();
    add_line(&mut lines, show_question(count));
    add_line(&mut lines, blank());
    let ghost head = seq![approve_question(chunks@.len()), row(Seq::empty())];
    assert(line_views(lines@) =~= head);
    let n: usize = min_of(count, LISTED_RULES);
    let ghost listed = Seq::new(n as nat, |i: int| listed_rule(*chunks@[i], width as int));
    let mut i: usize = 0;
    assert(line_views(lines@) =~= head + listed.take(0));
    while i < n
        invariant
            i <= n,
            n <= chunks@.len(),
            listed == Seq::new(n as nat, |i: int| listed_rule(*chunks@[i], width as int)),
            line_views(lines@) == head + listed.take(i as int),
        decreases n - i,
    {
        let l = show_listed_rule(&chunks[i], width);
        assert(head + listed.take(i as int + 1) =~= (head + listed.take(i as int)).push(l@));
        add_line(&mut lines, l);
        i = i + 1;
    }
    assert(listed.take(n as int) =~= listed);
    if count > LISTED_RULES {
        let more = text::decimal((count - LISTED_RULES) as u64);
        let s = text_span(all_together("  ... and ", more.as_str(), " more"), Tone::Muted);
        let mut spans: Vec<Span> = Vec::new();
        spans.push(s);
        assert(span_views(spans@) =~= seq![s@]);
        add_line(&mut lines, line(spans));
    }
    assert(line_views(lines@) =~= head + listed_rules(chunks@, width as int));
    add_line(&mut lines, blank());
    add_line(&mut lines, show_answers());
    assert(line_views(lines@) =~= approve_all_rows(chunks@, width as int));
    lines
}

/// A popup takes as many columns as there are with four fifths of the screen's and four columns
/// left beside it, and as many rows as it wants with four rows left; its text has four columns
/// fewer, and always one.
pub proof fn lemma_popups_leave_room(screen: int, wanted: int, popup: int, n: int)
    requires
        0 <= screen,
        0 <= wanted,
        0 <= popup,
        0 < n,
    ensures
        n <= popup_columns(screen) <==> 5 * n <= 4 * screen && n + 4 <= screen,
        n <= popup_rows(wanted, screen) <==> n <= wanted && n + 4 <= screen,
        n <= text_columns(popup) <==> n == 1 || n + 4 <= popup,
{
}

/// The popup offers to approve a rule that is pending or was rejected, to reject one that is
/// pending, and to revoke one that was approved, each under the key that does it; it offers to
/// scroll where there is something to scroll, and always to close.
pub proof fn lemma_popup_offers_what_the_keys_do(status: Seq<char>, scrollable: bool)
    ensures
        ({
            let hints = detail_hints(status, scrollable);
            let n = hints.len();
            let more: int = if scrollable {
                1
            } else {
                0
            };
            &&& status == "pending"@ ==> {
                &&& n == 3 + more
                &&& hints[0][0].content == "[a]"@
                &&& hints[0][1].content == " Approve  "@
                &&& hints[1][0].content == "[x]"@
                &&& hints[1][1].content == " Reject  "@
            }
            &&& status == "approved"@ ==> {
                &&& n == 2 + more
                &&& hints[0][0].content == "[x]"@
                &&& hints[0][1].content == " Revoke  "@
            }
            &&& status == "rejected"@ ==> {
                &&& n == 2 + more
                &&& hints[0][0].content == "[a]"@
                &&& hints[0][1].content == " Approve  "@
            }
            &&& status != "pending"@ && status != "approved"@ && status != "rejected"@ ==> n == 1
                + more
            &&& scrollable ==> hints[n - 2][0].content == "[j/k]"@
            &&& hints[n - 1][0].content == "[Esc]"@
            &&& hints[n - 1][1].content == " Close"@
        }),
{
    reveal_strlit("pending");
    reveal_strlit("approved");
    reveal_strlit("rejected");
    assert("pending"@.len() == 7 && "approved"@.len() == 8 && "rejected"@.len() == 8);
    assert("approved"@[0] == 'a' && "rejected"@[0] == 'r');
}

/// The footer gets the rows that its hints need, as long as one row is left for the content, and
/// always one.
pub proof fn lemma_footer_leaves_a_row(needed: int, height: int)
    requires
        0 <= needed,
        0 <= height,
    ensures
        1 <= needed < height ==> footer_rows(needed, height) == needed,
        needed >= height > 1 ==> footer_rows(needed, height) == height - 1,
        height <= 1 || needed == 0 ==> footer_rows(needed, height) == 1,
{
}

/// The approval of all asks with the number of the rules, lists the first twelve of them in their
/// order by name and endpoint, says how many more there are, and offers the two answers under the
/// keys that give them.
pub proof fn lemma_all_rules_are_asked_about(chunks: Seq<Arc<PolicyChunk>>, width: int, i: int)
    ensures
        ({
            let rows = approve_all_rows(chunks, width);
            let listed: int = if chunks.len() <= 12 {
                chunks.len() as int
            } else {
                12
            };
            let rest: int = if chunks.len() <= 12 {
                0
            } else {
                1
            };
            let last = rows[rows.len() - 1];
            &&& rows.len() == 4 + listed + rest
            &&& rows[0].spans[0].content == "Approve "@
            &&& rows[0].spans[1].content == decimal_of(chunks.len())
            &&& 0 <= i < listed ==> {
                let name = chunks[i].rule_name@;
                let endpoint = chunks[i].first_endpoint();
                &&& rows[2 + i].spans.len() >= 4
                &&& byte_len(name) + byte_len(endpoint) + 7 <= width ==> {
                    &&& rows[2 + i].spans[1].content == name
                    &&& rows[2 + i].spans[3].content == endpoint
                }
            }
            &&& chunks.len() > 12 ==> rows[14].spans[0].content == "  ... and "@ + decimal_of(
                (chunks.len() - 12) as nat,
            ) + " more"@
            &&& last.spans[0].content == "[y/Enter]"@
            &&& last.spans[1].content == " Approve all  "@
            &&& last.spans[2].content == "[n/Esc]"@
            &&& last.spans[3].content == " Cancel"@
        }),
{
    let rows = approve_all_rows(chunks, width);
    let list = listed_rules(chunks, width);
    assert(rows[0] == approve_question(chunks.len()));
    assert(rows[rows.len() - 1] == approve_answers());
    if 0 <= i < list.len() {
        assert(rows[2 + i] == list[i]);
    }
    if chunks.len() > 12 {
        assert(rows[14] == list[12]);
    }
}

} // verus!
