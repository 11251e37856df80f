//! Reports as people read them.

use crate::doc::{number, plain, Doc, Token};
use crate::report::{phases_model, BenchReport, BenchStatus, Phase, PhaseModel, ReportModel};
use crate::runs::{group_runs, has_run, lemma_run_behind, lemma_run_in_front};
use crate::text::{decimal, decimal_text, left_aligned, pad_left, pad_right, right_aligned};
use vstd::prelude::*;
use vstd::string::*;

verus! {

/// The heading of a printed report.
pub open spec fn report_heading(r: ReportModel) -> Seq<Token> {
    plain("\nbench: "@) + plain(r.name) + plain("  ["@) + plain(r.status.label_text()) + plain(
        "]\n"@,
    )
}

/// The notes of a printed report.
pub open spec fn report_notes(r: ReportModel) -> Seq<Token> {
    match r.notes {
        Some(notes) => plain("  notes: "@) + plain(notes) + plain("\n"@),
        None => Seq::empty(),
    }
}

/// The row of a phase.
pub open spec fn phase_row(p: PhaseModel) -> Seq<Token> {
    plain("  "@) + plain(pad_right(p.name, 16)) + plain(" "@) + plain(
        pad_left(decimal(p.samples as nat), ' ', 10),
    ) + plain(" "@) + number(p.p50_ms, 10, 3) + plain(" "@) + number(p.p95_ms, 10, 3) + plain(
        " "@,
    ) + number(p.throughput_per_s, 14, 1) + plain("\n"@)
}

/// The rows of the phases.
pub open spec fn phase_rows(phases: Seq<PhaseModel>) -> Seq<Token>
    decreases phases.len(),
{
    if phases.len() == 0 {
        Seq::empty()
    } else {
        phase_rows(phases.drop_last()) + phase_row(phases.last())
    }
}

/// The line above the rows of the phases.
pub open spec fn phase_header() -> Seq<Token> {
    plain("  "@) + plain(pad_right("PHASE"@, 16)) + plain(" "@) + plain(
        pad_left("SAMPLES"@, ' ', 10),
    ) + plain(" "@) + plain(pad_left("P50(ms)"@, ' ', 10)) + plain(" "@) + plain(
        pad_left("P95(ms)"@, ' ', 10),
    ) + plain(" "@) + plain(pad_left("THROUGHPUT/s"@, ' ', 14)) + plain("\n"@)
}

/// What printing a report shows.
pub open spec fn report_page(r: ReportModel) -> Seq<Token> {
    report_heading(r) + report_notes(r) + if r.phases.len() == 0 {
        plain("  (no measured phases)\n"@)
    } else {
        phase_header() + phase_rows(r.phases)
    }
}

fn phase_row_doc(p: &Phase) -> (d: Doc)
    ensures
        d@ == phase_row(p@),
{
    let mut d = Doc::of("  ");
    d.text(&left_aligned(&p.name, 16));
    d.text(" ");
    d.text(&right_aligned(&decimal_text(p.samples), ' ', 10));
    d.text(" ");
    d.number(p.p50_ms, 10, 3);
    d.text(" ");
    d.number(p.p95_ms, 10, 3);
    d.text(" ");
    d.number(p.throughput_per_s, 14, 1);
    d.text("\n");
    d
}

fn phase_header_doc() -> (d: Doc)
    ensures
        d@ == phase_header(),
{
    let mut d = Doc::of("  ");
    d.text(&left_aligned("PHASE", 16));
    d.text(" ");
    d.text(&right_aligned("SAMPLES", ' ', 10));
    d.text(" ");
    d.text(&right_aligned("P50(ms)", ' ', 10));
    d.text(" ");
    d.text(&right_aligned("P95(ms)", ' ', 10));
    d.text(" ");
    d.text(&right_aligned("THROUGHPUT/s", ' ', 14));
    d.text("\n");
    d
}

/// The page that shows a report.
pub fn print_report(report: &BenchReport) -> (d: Doc)
    ensures
        d@ == report_page(report@),
{
    let mut d = Doc::of("\nbench: ");
    d.text(&report.name);
    d.text("  [");
    d.text(report.status.label());
    d.text("]\n");
    let mut notes_doc = Doc::new();
    if let Some(notes) = &report.notes {
        notes_doc = Doc::of("  notes: ");
        notes_doc.text(notes);
        notes_doc.text("\n");
    }
    d.append(notes_doc);
    if report.phases.len() == 0 {
        d.text("  (no measured phases)\n");
        return d;
    }
    let mut table = phase_header_doc();
    let mut rows = Doc::new();
    let mut i: usize = 0;
    let ghost phases = phases_model(report.phases@);
    while i < report.phases.len()
        invariant
            i <= report.phases@.len(),
            phases == phases_model(report.phases@),
            rows@ == phase_rows(phases.take(i as int)),
        decreases report.phases.len() - i,
    {
        rows.append(phase_row_doc(&report.phases[i]));
        assert(phases.take(i + 1).drop_last() == phases.take(i as int));
        i += 1;
    }
    assert(phases.take(i as int) == phases);
    table.append(rows);
    d.append(table);
    d
}

/// A phase in a few words.
pub open spec fn phase_brief(p: PhaseModel) -> Seq<Token> {
    plain(p.name) + plain(" p50="@) + number(p.p50_ms, 0, 2) + plain("ms "@) + number(
        p.throughput_per_s,
        0,
        1,
    ) + plain("/s"@)
}

/// The phases in a few words, with semicolons between them.
pub open spec fn phase_briefs(phases: Seq<PhaseModel>) -> Seq<Token>
    decreases phases.len(),
{
    if phases.len() == 0 {
        Seq::empty()
    } else if phases.len() == 1 {
        phase_brief(phases[0])
    } else {
        phase_briefs(phases.drop_last()) + plain("; "@) + phase_brief(phases.last())
    }
}

/// A report in a few words.
pub open spec fn brief(r: ReportModel) -> Seq<Token> {
    if r.phases.len() == 0 {
        plain("ran (no phases)"@)
    } else {
        phase_briefs(r.phases)
    }
}

/// Sums a report up in one line.
pub fn summarize_phases(report: &BenchReport) -> (d: Doc)
    ensures
        d@ == brief(report@),
{
    if report.phases.len() == 0 {
        return Doc::of("ran (no phases)");
    }
    let mut d = Doc::new();
    let mut i: usize = 0;
    let ghost phases = phases_model(report.phases@);
    while i < report.phases.len()
        invariant
            i <= report.phases@.len(),
            phases == phases_model(report.phases@),
            d@ == phase_briefs(phases.take(i as int)),
        decreases report.phases.len() - i,
    {
        let p = &report.phases[i];
        let mut words = Doc::of(&p.name);
        words.text(" p50=");
        words.number(p.p50_ms, 0, 2);
        words.text("ms ");
        words.number(p.throughput_per_s, 0, 1);
        words.text("/s");
        assert(words@ == phase_brief(phases[i as int]));
        assert(phases.take(i + 1).drop_last() == phases.take(i as int));
        if i > 0 {
            d.text("; ");
            d.append(words);
        } else {
            d = words;
        }
        i += 1;
    }
    assert(phases.take(i as int) == phases);
    d
}

/// The rows of phases stand one behind the other, in the order of the phases.
pub proof fn rows_stand_in_order(a: Seq<PhaseModel>, b: Seq<PhaseModel>)
    ensures
        phase_rows(a + b) == phase_rows(a) + phase_rows(b),
    decreases b.len(),
{
    if b.len() == 0 {
        assert(a + b =~= a);
        assert(phase_rows(a) + phase_rows(b) =~= phase_rows(a));
    } else {
        assert((a + b).drop_last() =~= a + b.drop_last());
        rows_stand_in_order(a, b.drop_last());
        assert(phase_rows(a + b) =~= phase_rows(a) + phase_rows(b));
    }
}

/// The row of a phase has its name, its number of samples, both percentiles and its
/// throughput, each as wide as its column, and nothing else; and so have the words about it
/// its name, its median and its throughput.
pub proof fn rows_have_nothing_else(p: PhaseModel)
    ensures
        phase_rows(seq![p]) == plain(
            "  "@ + pad_right(p.name, 16) + " "@ + pad_left(decimal(p.samples as nat), ' ', 10)
                + " "@,
        ) + number(p.p50_ms, 10, 3) + plain(" "@) + number(p.p95_ms, 10, 3) + plain(" "@) + number(
            p.throughput_per_s,
            14,
            1,
        ) + plain("\n"@),
        phase_briefs(seq![p]) == plain(p.name + " p50="@) + number(p.p50_ms, 0, 2) + plain("ms "@)
            + number(p.throughput_per_s, 0, 1) + plain("/s"@),
{
    reveal_with_fuel(phase_rows, 2);
    assert(seq![p].drop_last().len() == 0 && seq![p].last() == p);
    assert(phase_rows(seq![p]) =~= phase_row(p));
    assert(plain(
        "  "@ + pad_right(p.name, 16) + " "@ + pad_left(decimal(p.samples as nat), ' ', 10) + " "@,
    ) =~= plain("  "@) + plain(pad_right(p.name, 16)) + plain(" "@) + plain(
        pad_left(decimal(p.samples as nat), ' ', 10),
    ) + plain(" "@));
    assert(plain(p.name + " p50="@) =~= plain(p.name) + plain(" p50="@));
}

proof fn lemma_run_in_rows(phases: Seq<PhaseModel>, i: int, stretch: Seq<Token>)
    requires
        0 <= i < phases.len(),
        has_run(phase_row(phases[i]), stretch),
    ensures
        has_run(phase_rows(phases), stretch),
    decreases phases.len(),
{
    let front = phases.drop_last();
    if i < front.len() {
        lemma_run_in_rows(front, i, stretch);
        lemma_run_in_front(phase_rows(front), phase_row(phases.last()), stretch);
    } else {
        lemma_run_behind(phase_rows(front), phase_row(phases.last()), stretch);
    }
}

proof fn lemma_run_in_page(r: ReportModel, i: int, stretch: Seq<Token>)
    requires
        0 <= i < r.phases.len(),
        has_run(phase_row(r.phases[i]), stretch),
    ensures
        has_run(report_page(r), stretch),
{
    lemma_run_in_rows(r.phases, i, stretch);
    lemma_run_behind(phase_header(), phase_rows(r.phases), stretch);
    lemma_run_behind(
        report_heading(r) + report_notes(r),
        phase_header() + phase_rows(r.phases),
        stretch,
    );
}

/// The page of a report shows every phase with its own name, number of samples, percentiles
/// and throughput, in this order.
pub proof fn pages_show_every_phase(r: ReportModel, i: int)
    requires
        0 <= i < r.phases.len(),
    ensures
        ({
            let p = r.phases[i];
            let page = report_page(r);
            &&& has_run(
                page,
                plain("  "@) + plain(pad_right(p.name, 16)) + plain(" "@) + plain(
                    pad_left(decimal(p.samples as nat), ' ', 10),
                ),
            )
            &&& has_run(
                page,
                plain(pad_left(decimal(p.samples as nat), ' ', 10)) + plain(" "@) + number(
                    p.p50_ms,
                    10,
                    3,
                ) + plain(" "@),
            )
            &&& has_run(
                page,
                number(p.p50_ms, 10, 3) + plain(" "@) + number(p.p95_ms, 10, 3) + plain(" "@),
            )
            &&& has_run(
                page,
                number(p.p95_ms, 10, 3) + plain(" "@) + number(p.throughput_per_s, 14, 1) + plain(
                    "\n"@,
                ),
            )
        }),
{
    broadcast use group_runs;

    let p = r.phases[i];
    let row = phase_row(p);
    let samples = plain(pad_left(decimal(p.samples as nat), ' ', 10));
    let a = plain("  "@) + plain(pad_right(p.name, 16)) + plain(" "@) + samples;
    let b = samples + plain(" "@) + number(p.p50_ms, 10, 3) + plain(" "@);
    let c = number(p.p50_ms, 10, 3) + plain(" "@) + number(p.p95_ms, 10, 3) + plain(" "@);
    let d = number(p.p95_ms, 10, 3) + plain(" "@) + number(p.throughput_per_s, 14, 1) + plain(
        "\n"@,
    );
    assert(has_run(row, a));
    assert(has_run(row, b));
    assert(has_run(row, c));
    assert(has_run(row, d));
    lemma_run_in_page(r, i, a);
    lemma_run_in_page(r, i, b);
    lemma_run_in_page(r, i, c);
    lemma_run_in_page(r, i, d);
}

/// The page of a report begins with its name and status; the notes follow exactly if it has
/// some, and then a table with one row for each phase, or a remark where there is none.
pub proof fn pages_are_complete(r: ReportModel)
    ensures
        ({
            let page = report_page(r);
            let label = match r.status {
                BenchStatus::Ready => "ready"@,
                BenchStatus::Scaffold => "scaffold"@,
            };
            let front = plain("\nbench: "@) + plain(r.name) + plain("  ["@) + plain(label) + plain(
                "]\n"@,
            );
            let behind = page.skip(front.len() as int);
            let shown = match r.notes {
                Some(notes) => plain("  notes: "@) + plain(notes) + plain("\n"@),
                None => Seq::empty(),
            };
            &&& front.len() <= page.len() && page.take(front.len() as int) == front
            &&& shown.len() <= behind.len() && behind.take(shown.len() as int) == shown
            &&& r.phases.len() == 0 ==> behind.skip(shown.len() as int) == plain(
                "  (no measured phases)\n"@,
            )
            &&& r.phases.len() > 0 ==> behind.skip(shown.len() as int) == phase_header()
                + phase_rows(r.phases)
        }),
{
    let front = report_heading(r);
    let shown = report_notes(r);
    let table = if r.phases.len() == 0 {
        plain("  (no measured phases)\n"@)
    } else {
        phase_header() + phase_rows(r.phases)
    };
    let page = report_page(r);
    assert(page =~= front + shown + table);
    assert(page.take(front.len() as int) =~= front);
    assert(page.skip(front.len() as int) =~= shown + table);
    assert((shown + table).take(shown.len() as int) =~= shown);
    assert((shown + table).skip(shown.len() as int) =~= table);
}

/// The words about some phases stand one behind the other, in the order of the phases, with
/// a semicolon between each two.
pub proof fn briefs_stand_in_order(a: Seq<PhaseModel>, b: Seq<PhaseModel>)
    requires
        a.len() > 0,
        b.len() > 0,
    ensures
        phase_briefs(a + b) == phase_briefs(a) + plain("; "@) + phase_briefs(b),
    decreases b.len(),
{
    assert((a + b).drop_last() =~= a + b.drop_last());
    if b.len() == 1 {
        assert(a + b.drop_last() =~= a);
        assert(b.last() == b[0]);
    } else {
        briefs_stand_in_order(a, b.drop_last());
    }
    assert(phase_briefs(a + b) =~= phase_briefs(a) + plain("; "@) + phase_briefs(b));
}

proof fn lemma_run_in_briefs(phases: Seq<PhaseModel>, i: int, stretch: Seq<Token>)
    requires
        0 <= i < phases.len(),
        has_run(phase_brief(phases[i]), stretch),
    ensures
        has_run(phase_briefs(phases), stretch),
    decreases phases.len(),
{
    let front = phases.drop_last();
    if phases.len() > 1 {
        if i < front.len() {
            lemma_run_in_briefs(front, i, stretch);
            lemma_run_in_front(phase_briefs(front), plain("; "@), stretch);
            lemma_run_in_front(
                phase_briefs(front) + plain("; "@),
                phase_brief(phases.last()),
                stretch,
            );
        } else {
            lemma_run_behind(
                phase_briefs(front) + plain("; "@),
                phase_brief(phases.last()),
                stretch,
            );
        }
    }
}

/// A report in a few words tells of every phase its own name, median and throughput; where
/// there is no phase, it says so.
pub proof fn briefs_tell_every_phase(r: ReportModel, i: int)
    ensures
        r.phases.len() == 0 ==> brief(r) == plain("ran (no phases)"@),
        0 <= i < r.phases.len() ==> {
            let p = r.phases[i];
            &&& has_run(
                brief(r),
                plain(p.name) + plain(" p50="@) + number(p.p50_ms, 0, 2) + plain("ms "@),
            )
            &&& has_run(
                brief(r),
                number(p.p50_ms, 0, 2) + plain("ms "@) + number(p.throughput_per_s, 0, 1) + plain(
                    "/s"@,
                ),
            )
        },
{
    broadcast use group_runs;

    if 0 <= i < r.phases.len() {
        let p = r.phases[i];
        let a = plain(p.name) + plain(" p50="@) + number(p.p50_ms, 0, 2) + plain("ms "@);
        let b = number(p.p50_ms, 0, 2) + plain("ms "@) + number(p.throughput_per_s, 0, 1) + plain(
            "/s"@,
        );
        assert(has_run(phase_brief(p), a));
        assert(has_run(phase_brief(p), b));
        lemma_run_in_briefs(r.phases, i, a);
        lemma_run_in_briefs(r.phases, i, b);
    }
}

} // verus!
