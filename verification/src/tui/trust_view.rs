//! What the trust tab shows.

use vstd::prelude::*;
use crate::appraisal::{
    GetSandboxAttestationResponse, SandboxAttestationMeasurement,
    SandboxAttestationTrustworthinessVector,
};
use crate::text;
use crate::text::{all_together, decimal_of, repeated, signed_decimal_of, texts, together};
use crate::tui::measure::{display_columns, display_width, wrap_value, wrapped};
use crate::tui::rule_text::{non_empty_or, value_or};
use crate::tui::scroll::{larger, last_offset, max_of, min_of, minus, smaller};
use crate::tui::styled::{
    add_line, line, line_of, line_of_two, line_views, piece, row, span, span_views, text_span, Line,
    LineView, Span, Tone,
};
use crate::tui::trust::TrustPane;

verus! {

/// A field of the tab: the label, then the value wrapped into the columns beside it; where the
/// label leaves none, the value follows below it.
pub open spec fn field_rows(label: Seq<char>, value: Seq<char>, width: int) -> Seq<LineView> {
    let label_columns = display_columns(label);
    if width <= label_columns {
        let rows = wrapped(value, larger(width, 1));
        seq![row(seq![piece(label, Tone::Muted)])] + Seq::new(
            rows.len(),
            |i: int| row(seq![piece(rows[i], Tone::Text)]),
        )
    } else {
        let rows = wrapped(value, width - label_columns);
        Seq::new(
            rows.len(),
            |i: int|
                row(
                    seq![
                        if i == 0 {
                            piece(label, Tone::Muted)
                        } else {
                            piece(repeated(' ', label_columns), Tone::Muted)
                        },
                        piece(rows[i], Tone::Text),
                    ],
                ),
        )
    }
}

/// Adds a field to the tab.
pub fn push_field(lines: &mut Vec<Line>, label: &str, value: &str, width: usize)
    ensures
        line_views(final(lines)@) == line_views(old(lines)@) + field_rows(
            label@,
            value@,
            width as int,
        ),
{
    let ghost before = line_views(lines@);
    let ghost all = field_rows(label@, value@, width as int);
    let label_columns: usize = display_width(label);
    if width <= label_columns {
        add_line(lines, line_of(span(label, Tone::Muted)));
        let rows = wrap_value(value, max_of(width, 1));
        let n: usize = rows.len();
        let mut i: usize = 0;
        assert(line_views(lines@) =~= before + all.take(1));
        while i < n
            invariant
                i <= n,
                n == rows@.len(),
                n + 1 == all.len(),
                width <= display_columns(label@),
                texts(rows@) == wrapped(value@, larger(width as int, 1)),
                all == field_rows(label@, value@, width as int),
                line_views(lines@) == before + all.take(i + 1),
            decreases n - i,
        {
            assert(texts(rows@)[i as int] == rows@[i as int]@);
            let l = line_of(span(rows[i].as_str(), Tone::Text));
            assert(all[i + 1] == l@);
            assert(before + all.take(i + 2) =~= (before + all.take(i + 1)).push(l@));
            add_line(lines, l);
            i = i + 1;
        }
        assert(all.take(n + 1) =~= all);
        return;
    }
    let rows = wrap_value(value, width - label_columns);
    let n: usize = rows.len();
    let mut i: usize = 0;
    assert(line_views(lines@) =~= before + all.take(0));
    while i < n
        invariant
            i <= n,
            n == rows@.len(),
            n == all.len(),
            label_columns == display_columns(label@),
            width > label_columns,
            texts(rows@) == wrapped(value@, width - label_columns),
            all == field_rows(label@, value@, width as int),
            line_views(lines@) == before + all.take(i as int),
        decreases n - i,
    {
        let prefix = if i == 0 {
            span(label, Tone::Muted)
        } else {
            text_span(text::repeat_char(' ', label_columns), Tone::Muted)
        };
        assert(texts(rows@)[i as int] == rows@[i as int]@);
        let l = line_of_two(prefix, span(rows[i].as_str(), Tone::Text));
        assert(all[i as int] == l@);
        assert(before + all.take(i as int + 1) =~= (before + all.take(i as int)).push(l@));
        add_line(lines, l);
        i = i + 1;
    }
    assert(all.take(n as int) =~= all);
}

/// The trustworthiness vector in words.
pub open spec fn vector_text(v: SandboxAttestationTrustworthinessVector) -> Seq<char> {
    "hardware="@ + signed_decimal_of(v.hardware as int) + " executables="@ + signed_decimal_of(
        v.executables as int,
    ) + " configuration="@ + signed_decimal_of(v.configuration as int) + " file-system="@
        + signed_decimal_of(v.file_system as int)
}

fn show_vector(v: &SandboxAttestationTrustworthinessVector) -> (s: String)
    ensures
        s@ == vector_text(*v),
{
    let mut s = together("hardware=", text::signed_decimal(v.hardware as i64).as_str());
    s.append(" executables=");
    s.append(text::signed_decimal(v.executables as i64).as_str());
    s.append(" configuration=");
    s.append(text::signed_decimal(v.configuration as i64).as_str());
    s.append(" file-system=");
    s.append(text::signed_decimal(v.file_system as i64).as_str());
    s
}

/// The expected measurements of a component.
pub open spec fn reference_rows(references: Seq<Seq<char>>, width: int) -> Seq<LineView>
    decreases references.len(),
{
    if references.len() == 0 {
        Seq::empty()
    } else {
        reference_rows(references.drop_last(), width) + field_rows(
            "    Reference: "@,
            references.last(),
            width,
        )
    }
}

/// What was measured of a component, and what was expected.
pub open spec fn measurement_rows(m: SandboxAttestationMeasurement, width: int) -> Seq<LineView> {
    seq![
        row(
            seq![
                piece(
                    "  "@ + m.component@ + " ("@ + value_or(m.algorithm@, "-"@) + ")"@,
                    Tone::Heading,
                ),
            ],
        ),
    ] + field_rows("    Measurement: "@, value_or(m.measurement@, "-"@), width) + if m.references@.len()
        == 0 {
        field_rows("    Reference: "@, "-"@, width)
    } else {
        reference_rows(texts(m.references@), width)
    }
}

/// What was measured of all components.
pub open spec fn all_measurement_rows(
    measurements: Seq<SandboxAttestationMeasurement>,
    width: int,
) -> Seq<LineView>
    decreases measurements.len(),
{
    if measurements.len() == 0 {
        Seq::empty()
    } else {
        all_measurement_rows(measurements.drop_last(), width) + measurement_rows(
            measurements.last(),
            width,
        )
    }
}

/// The rows of an appraisal.
pub open spec fn appraisal_rows(a: GetSandboxAttestationResponse, width: int) -> Seq<LineView> {
    field_rows("EAR status: "@, a.ear_status@, width) + field_rows(
        "Policy ID: "@,
        a.policy_id@,
        width,
    ) + match a.ar4si_vector {
        Some(v) => field_rows("AR4SI vector: "@, vector_text(v), width),
        None => Seq::empty(),
    } + seq![row(seq![piece("Measurements:"@, Tone::Muted)])] + all_measurement_rows(
        a.measurements@,
        width,
    )
}

/// The rows of the tab: that an appraisal is under way, the appraisal, or how to ask for one.
pub open spec fn trust_rows(pane: TrustPane, width: int) -> Seq<LineView> {
    if pane.sandbox_attestation_loading {
        seq![row(seq![piece("Requesting a fresh appraisal..."@, Tone::Muted)])]
    } else {
        match pane.sandbox_attestation {
            Some(appraisal) => appraisal_rows(appraisal, width),
            None => seq![
                row(
                    seq![
                        piece("Press "@, Tone::Muted),
                        piece("[r]"@, Tone::KeyHint),
                        piece(" to request a fresh appraisal."@, Tone::Muted),
                    ],
                ),
            ],
        }
    }
}

fn add_references(lines: &mut Vec<Line>, references: &Vec<String>, width: usize)
    ensures
        line_views(final(lines)@) == line_views(old(lines)@) + reference_rows(
            texts(references@),
            width as int,
        ),
{
    let ghost before = line_views(lines@);
    let ghost all = texts(references@);
    let n: usize = references.len();
    let mut i: usize = 0;
    assert(line_views(lines@) =~= before + reference_rows(all.take(0), width as int));
    while i < n
        invariant
            i <= n,
            n == references@.len(),
            all == texts(references@),
            line_views(lines@) == before + reference_rows(all.take(i as int), width as int),
        decreases n - i,
    {
        assert(all[i as int] == references@[i as int]@);
        push_field(lines, "    Reference: ", references[i].as_str(), width);
        assert(all.take(i as int + 1).drop_last() =~= all.take(i as int));
        assert(line_views(lines@) =~= before + reference_rows(
            all.take(i as int + 1),
            width as int,
        ));
        i = i + 1;
    }
    assert(all.take(n as int) =~= all);
}

fn add_measurement(lines: &mut Vec<Line>, m: &SandboxAttestationMeasurement, width: usize)
    ensures
        line_views(final(lines)@) == line_views(old(lines)@) + measurement_rows(*m, width as int),
{
    let ghost before = line_views(lines@);
    let mut title = all_together("  ", m.component.as_str(), " (");
    title.append(non_empty_or(m.algorithm.as_str(), "-"));
    title.append(")");
    add_line(lines, line_of(text_span(title, Tone::Heading)));
    push_field(lines, "    Measurement: ", non_empty_or(m.measurement.as_str(), "-"), width);
    if m.references.len() == 0 {
        push_field(lines, "    Reference: ", "-", width);
    } else {
        add_references(lines, &m.references, width);
    }
    assert(line_views(lines@) =~= before + measurement_rows(*m, width as int));
}

fn add_measurements(
    lines: &mut Vec<Line>,
    measurements: &Vec<SandboxAttestationMeasurement>,
    width: usize,
)
    ensures
        line_views(final(lines)@) == line_views(old(lines)@) + all_measurement_rows(
            measurements@,
            width as int,
        ),
{
    let ghost before = line_views(lines@);
    let n: usize = measurements.len();
    let mut i: usize = 0;
    assert(line_views(lines@) =~= before + all_measurement_rows(
        measurements@.take(0),
        width as int,
    ));
    while i < n
        invariant
            i <= n,
            n == measurements@.len(),
            line_views(lines@) == before + all_measurement_rows(
                measurements@.take(i as int),
                width as int,
            ),
        decreases n - i,
    {
        add_measurement(lines, &measurements[i], width);
        assert(measurements@.take(i as int + 1).drop_last() =~= measurements@.take(i as int));
        assert(line_views(lines@) =~= before + all_measurement_rows(
            measurements@.take(i as int + 1),
            width as int,
        ));
        i = i + 1;
    }
    assert(measurements@.take(n as int) =~= measurements@);
}

fn appraisal_lines(a: &GetSandboxAttestationResponse, width: usize) -> (lines: Vec<Line>)
    ensures
        line_views(lines@) == appraisal_rows(*a, width as int),
{
    let mut lines: Vec<Line> = Vec::new();
    assert(line_views(lines@) =~= Seq::empty());
    push_field(&mut lines, "EAR status: ", a.ear_status.as_str(), width);
    assert(line_views(lines@) =~= field_rows("EAR status: "@, a.ear_status@, width as int));
    push_field(&mut lines, "Policy ID: ", a.policy_id.as_str(), width);
    let ghost before = line_views(lines@);
    if let Some(v) = &a.ar4si_vector {
        push_field(&mut lines, "AR4SI vector: ", show_vector(v).as_str(), width);
    } else {
        assert(before + Seq::<LineView>::empty() =~= before);
    }
    let ghost head = line_views(lines@);
    add_line(&mut lines, line_of(span("Measurements:", Tone::Muted)));
    assert(line_views(lines@) =~= head + seq![row(seq![piece("Measurements:"@, Tone::Muted)])]);
    add_measurements(&mut lines, &a.measurements, width);
    lines
}

impl TrustPane {
    /// The rows of the tab, wrapped to `width` columns.
    pub fn lines(&self, width: usize) -> (lines: Vec<Line>)
        ensures
            line_views(lines@) == trust_rows(*self, width as int),
    {
        if self.sandbox_attestation_loading {
            let mut lines: Vec<Line> = Vec::new();
            lines.push(line_of(span("Requesting a fresh appraisal...", Tone::Muted)));
            assert(line_views(lines@) =~= trust_rows(*self, width as int));
            return lines;
        }
        match &self.sandbox_attestation {
            Some(appraisal) => appraisal_lines(appraisal, width),
            None => {
                let mut spans: Vec<Span> = Vec::new();
                spans.push(span("Press ", Tone::Muted));
                spans.push(span("[r]", Tone::KeyHint));
                spans.push(span(" to request a fresh appraisal.", Tone::Muted));
                assert(span_views(spans@) =~= trust_rows(*self, width as int)[0].spans);
                let mut lines: Vec<Line> = Vec::new();
                lines.push(line(spans));
                assert(line_views(lines@) =~= trust_rows(*self, width as int));
                lines
            },
        }
    }

    /// The tab drawn with `rows` rows of content in a viewport of `height` rows.
    pub open spec fn fitted(self, rows: usize, height: usize) -> Self {
        TrustPane {
            trust_content_rows: rows,
            trust_viewport_height: height,
            trust_scroll: smaller(
                self.trust_scroll as int,
                last_offset(rows as int, height as int),
            ) as usize,
            ..self
        }
    }

    /// Fits the tab to its content and its viewport.
    pub fn fit(&mut self, rows: usize, height: usize)
        ensures
            *final(self) == old(self).fitted(rows, height),
            old(self).wf() && rows <= isize::MAX && height <= isize::MAX ==> final(self).wf(),
    {
        self.trust_content_rows = rows;
        self.trust_viewport_height = height;
        self.trust_scroll = min_of(self.trust_scroll, minus(rows, max_of(height, 1)));
    }

    /// Where the tab is scrolled to, as it is shown below it.
    pub fn position(&self) -> (s: String)
        requires
            self.wf(),
        ensures
            s@ == " ["@ + decimal_of(
                (if self.trust_content_rows == 0 {
                    0
                } else {
                    self.trust_scroll + 1
                }) as nat,
            ) + "/"@ + decimal_of(self.trust_content_rows as nat) + "] "@,
    {
        let at: u64 = if self.trust_content_rows == 0 {
            0
        } else {
            self.trust_scroll as u64 + 1
        };
        let mut s = together(" [", text::decimal(at).as_str());
        s.append("/");
        s.append(text::decimal(self.trust_content_rows as u64).as_str());
        s.append("] ");
        s
    }
}

/// The trustworthiness vector is said value by value, each behind its own name.
pub proof fn lemma_vector_is_said_by_name(v: SandboxAttestationTrustworthinessVector)
    ensures
        vector_text(v) == "hardware="@ + signed_decimal_of(v.hardware as int) + " executables="@
            + signed_decimal_of(v.executables as int) + " configuration="@ + signed_decimal_of(
            v.configuration as int,
        ) + " file-system="@ + signed_decimal_of(v.file_system as int),
{
}

/// The tab says that an appraisal is under way, shows the one that is there, or says how to ask
/// for one; an appraisal is shown part by part, each behind its own label.
pub proof fn lemma_trust_tab_shows_the_appraisal(pane: TrustPane, width: int)
    ensures
        pane.sandbox_attestation_loading ==> trust_rows(pane, width) == seq![
            row(seq![piece("Requesting a fresh appraisal..."@, Tone::Muted)]),
        ],
        !pane.sandbox_attestation_loading ==> (pane.sandbox_attestation matches Some(a) ==> {
            let head = field_rows("EAR status: "@, a.ear_status@, width) + field_rows(
                "Policy ID: "@,
                a.policy_id@,
                width,
            );
            &&& head.is_prefix_of(trust_rows(pane, width))
            &&& a.ar4si_vector matches Some(v) ==> (head + field_rows(
                "AR4SI vector: "@,
                vector_text(v),
                width,
            )).is_prefix_of(trust_rows(pane, width))
        }),
        !pane.sandbox_attestation_loading && pane.sandbox_attestation is None ==> trust_rows(
            pane,
            width,
        ).len() == 1 && trust_rows(pane, width)[0].spans[1].content == "[r]"@,
{
    if !pane.sandbox_attestation_loading {
        if let Some(a) = pane.sandbox_attestation {
            let head = field_rows("EAR status: "@, a.ear_status@, width) + field_rows(
                "Policy ID: "@,
                a.policy_id@,
                width,
            );
            let rows = trust_rows(pane, width);
            assert(rows.take(head.len() as int) =~= head);
            if let Some(v) = a.ar4si_vector {
                let more = head + field_rows("AR4SI vector: "@, vector_text(v), width);
                assert(rows.take(more.len() as int) =~= more);
            }
        }
    }
}

/// What was measured of a component is shown behind its name and its algorithm, and what was
/// expected behind it, reference by reference; a dash stands for what is not there.
pub proof fn lemma_measurements_are_shown_by_component(
    m: SandboxAttestationMeasurement,
    width: int,
)
    ensures
        ({
            let rows = measurement_rows(m, width);
            let measured = field_rows(
                "    Measurement: "@,
                if m.measurement@.len() == 0 {
                    "-"@
                } else {
                    m.measurement@
                },
                width,
            );
            &&& rows.len() > 0 && rows[0].spans.len() == 1 && rows[0].spans[0].content == "  "@
                + m.component@ + " ("@ + (if m.algorithm@.len() == 0 {
                "-"@
            } else {
                m.algorithm@
            }) + ")"@
            &&& rows.skip(1).take(measured.len() as int) == measured
            &&& m.references@.len() == 0 ==> rows.skip(1 + measured.len() as int) == field_rows(
                "    Reference: "@,
                "-"@,
                width,
            )
            &&& m.references@.len() == 1 ==> rows.skip(1 + measured.len() as int) == field_rows(
                "    Reference: "@,
                m.references@[0]@,
                width,
            )
        }),
{
    reveal_with_fuel(reference_rows, 2);
    let rows = measurement_rows(m, width);
    let measured = field_rows("    Measurement: "@, value_or(m.measurement@, "-"@), width);
    assert(rows.skip(1).take(measured.len() as int) =~= measured);
    if m.references@.len() == 0 {
        assert(rows.skip(1 + measured.len() as int) =~= field_rows(
            "    Reference: "@,
            "-"@,
            width,
        ));
    } else if m.references@.len() == 1 {
        assert(texts(m.references@).drop_last() =~= Seq::empty());
        assert(texts(m.references@).last() == m.references@[0]@);
        assert(rows.skip(1 + measured.len() as int) =~= field_rows(
            "    Reference: "@,
            m.references@[0]@,
            width,
        ));
    }
}

/// A field begins with its label; beside it, or below it where it leaves no room, stand the rows
/// of the value, in order.
pub proof fn lemma_fields_begin_with_their_label(label: Seq<char>, value: Seq<char>, width: int)
    ensures
        width <= display_columns(label) ==> field_rows(label, value, width).len() == 1 + wrapped(
            value,
            larger(width, 1),
        ).len() && field_rows(label, value, width)[0].spans[0].content == label,
        width > display_columns(label) ==> {
            let shown = wrapped(value, width - display_columns(label));
            let rows = field_rows(label, value, width);
            &&& rows.len() == shown.len()
            &&& shown.len() > 0 ==> rows[0].spans[0].content == label
            &&& forall|i: int|
                0 <= i < shown.len() ==> (#[trigger] rows[i]).spans[1].content == shown[i]
        },
{
}

} // verus!
