//! Styled text, as the panes hand it to the screen.

use vstd::prelude::*;

verus! {

/// The role of a piece of text, for which a theme has colors.
#[derive(Debug, Clone, Copy, PartialEq, Eq, Structural)]
pub enum Tone {
    /// No color of its own.
    Raw,
    Text,
    Muted,
    Heading,
    Accent,
    AccentBold,
    Badge,
    Border,
    BorderFocused,
    KeyHint,
    Selected,
    LogCursor,
    TitleBar,
    StatusOk,
    StatusWarn,
    StatusErr,
}

/// How a piece of text is drawn.
#[derive(Debug, Clone, Copy, PartialEq, Eq, Structural)]
pub struct Style {
    pub tone: Tone,
    pub bold: bool,
}

/// A piece of text with its style.
#[derive(Debug)]
pub struct Span {
    pub content: String,
    pub style: Style,
}

/// A line of text.
#[derive(Debug)]
pub struct Line {
    pub spans: Vec<Span>,
    /// The style of the whole line, under that of its spans.
    pub style: Style,
}

/// A piece of text with its style, as contracts speak of it.
#[verifier::ext_equal]
pub struct SpanView {
    pub content: Seq<char>,
    pub style: Style,
}

/// A line of text, as contracts speak of it.
#[verifier::ext_equal]
pub struct LineView {
    pub spans: Seq<SpanView>,
    pub style: Style,
}

impl View for Span {
    type V = SpanView;

    open spec fn view(&self) -> SpanView {
        SpanView { content: self.content@, style: self.style }
    }
}

/// The pieces of a list of spans.
pub open spec fn span_views(spans: Seq<Span>) -> Seq<SpanView> {
    spans.map_values(|s: Span| s@)
}

impl View for Line {
    type V = LineView;

    open spec fn view(&self) -> LineView {
        LineView { spans: span_views(self.spans@), style: self.style }
    }
}

/// The lines of a list.
pub open spec fn line_views(lines: Seq<Line>) -> Seq<LineView> {
    lines.map_values(|l: Line| l@)
}

/// The style for `tone`, not bold.
pub open spec fn plain(tone: Tone) -> Style {
    Style { tone, bold: false }
}

/// The style for `tone`, bold.
pub open spec fn bold(tone: Tone) -> Style {
    Style { tone, bold: true }
}

/// A piece of text in `tone`.
pub open spec fn piece(content: Seq<char>, tone: Tone) -> SpanView {
    SpanView { content, style: plain(tone) }
}

/// A line of the given pieces.
pub open spec fn row(spans: Seq<SpanView>) -> LineView {
    LineView { spans, style: plain(Tone::Raw) }
}

/// The style for `tone`, not bold.
pub fn plain_style(tone: Tone) -> (style: Style)
    ensures
        style == plain(tone),
{
    Style { tone, bold: false }
}

/// The style for `tone`, bold.
pub fn bold_style(tone: Tone) -> (style: Style)
    ensures
        style == bold(tone),
{
    Style { tone, bold: true }
}

/// A copy of `content` in `style`.
pub fn styled(content: &str, style: Style) -> (span: Span)
    ensures
        span@ == (SpanView { content: content@, style }),
{
    Span { content: content.to_string(), style }
}

/// A copy of `content` in `tone`.
pub fn span(content: &str, tone: Tone) -> (span: Span)
    ensures
        span@ == piece(content@, tone),
{
    Span { content: content.to_string(), style: plain_style(tone) }
}

/// `content` in `tone`.
pub fn text_span(content: String, tone: Tone) -> (span: Span)
    ensures
        span@ == piece(content@, tone),
{
    Span { content, style: plain_style(tone) }
}

/// A line of the given pieces.
pub fn line(spans: Vec<Span>) -> (line: Line)
    ensures
        line@ == row(span_views(spans@)),
{
    Line { spans, style: plain_style(Tone::Raw) }
}

/// A line of one piece.
pub fn line_of(span: Span) -> (line: Line)
    ensures
        line@ == row(seq![span@]),
{
    let mut spans: Vec<Span> = Vec::new();
    spans.push(span);
    assert(span_views(spans@) =~= seq![span@]);
    Line { spans, style: plain_style(Tone::Raw) }
}

/// A line of two pieces.
pub fn line_of_two(first: Span, second: Span) -> (line: Line)
    ensures
        line@ == row(seq![first@, second@]),
{
    let mut spans: Vec<Span> = Vec::new();
    spans.push(first);
    spans.push(second);
    assert(span_views(spans@) =~= seq![first@, second@]);
    Line { spans, style: plain_style(Tone::Raw) }
}

/// A line without pieces.
pub fn blank() -> (line: Line)
    ensures
        line@ == row(Seq::empty()),
{
    let spans: Vec<Span> = Vec::new();
    assert(span_views(spans@) =~= Seq::empty());
    Line { spans, style: plain_style(Tone::Raw) }
}

/// Adds a piece to the end of a list.
pub fn add_span(list: &mut Vec<Span>, s: Span)
    ensures
        span_views(final(list)@) == span_views(old(list)@).push(s@),
{
    proof {
        lemma_span_push(list@, s);
    }
    list.push(s);
}

/// Adds a line to the end of a list.
pub fn add_line(list: &mut Vec<Line>, l: Line)
    ensures
        line_views(final(list)@) == line_views(old(list)@).push(l@),
{
    proof {
        lemma_line_push(list@, l);
    }
    list.push(l);
}

/// One more piece goes to the end.
pub proof fn lemma_span_push(spans: Seq<Span>, s: Span)
    ensures
        span_views(spans.push(s)) == span_views(spans).push(s@),
{
    assert(span_views(spans.push(s)) =~= span_views(spans).push(s@));
}

/// One more line goes to the end.
pub proof fn lemma_line_push(lines: Seq<Line>, l: Line)
    ensures
        line_views(lines.push(l)) == line_views(lines).push(l@),
{
    assert(line_views(lines.push(l)) =~= line_views(lines).push(l@));
}

} // verus!
