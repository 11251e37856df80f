//! The report that every benchmark of the suite prints.

use crate::json::{copy, optional_model, Json, JsonModel};
use crate::measure::{
    is_percentile, is_rate, percentile, percentile_of, percentile_splits_the_samples, throughput,
    throughput_of, Quantity,
};
use crate::runs::{group_runs, has_run};
use vstd::prelude::*;
use vstd::string::*;

verus! {

/// Whether a benchmark is wired up end-to-end (`Ready`) or still a placeholder awaiting a
/// prerequisite (`Scaffold`).
#[derive(Debug, Clone, Copy, PartialEq, Eq, Structural)]
pub enum BenchStatus {
    /// The benchmark runs real work and produces measured numbers.
    Ready,
    /// The benchmark compiles and emits a report, but the measured work is not wired yet
    /// (see the report's `notes` for the prerequisite).
    Scaffold,
}

impl BenchStatus {
    /// The label of the status.
    pub open spec fn label_text(self) -> Seq<char> {
        match self {
            BenchStatus::Ready => "ready"@,
            BenchStatus::Scaffold => "scaffold"@,
        }
    }

    /// Short label for table output and for the report's JSON.
    pub fn label(self) -> (r: &'static str)
        ensures
            r@ == self.label_text(),
    {
        match self {
            BenchStatus::Ready => "ready",
            BenchStatus::Scaffold => "scaffold",
        }
    }
}

/// A label names one status only.
pub proof fn labels_differ(a: BenchStatus, b: BenchStatus)
    requires
        a.label_text() == b.label_text(),
    ensures
        a == b,
        a.label_text() == (match a {
            BenchStatus::Ready => "ready"@,
            BenchStatus::Scaffold => "scaffold"@,
        }),
{
    reveal_strlit("ready");
    reveal_strlit("scaffold");
    assert("ready"@.len() != "scaffold"@.len());
}

/// One measured phase of a benchmark (e.g. "sequential" vs "concurrent").
#[derive(Debug)]
pub struct Phase {
    pub name: String,
    pub samples: u64,
    pub p50_ms: Quantity,
    pub p95_ms: Quantity,
    pub throughput_per_s: Quantity,
    /// Optional bench-specific metrics (bytes per second, scanned rows, ...).
    pub extra: Option<Json>,
}

/// What a [`Phase`] says.
pub struct PhaseModel {
    pub name: Seq<char>,
    pub samples: u64,
    pub p50_ms: Quantity,
    pub p95_ms: Quantity,
    pub throughput_per_s: Quantity,
    pub extra: Option<JsonModel>,
}

impl View for Phase {
    type V = PhaseModel;

    open spec fn view(&self) -> PhaseModel {
        PhaseModel {
            name: self.name@,
            samples: self.samples,
            p50_ms: self.p50_ms,
            p95_ms: self.p95_ms,
            throughput_per_s: self.throughput_per_s,
            extra: optional_model(self.extra),
        }
    }
}

/// The phase of some samples.
pub open spec fn sampled_phase(name: Seq<char>, samples: Seq<u128>, elapsed: u128) -> PhaseModel {
    PhaseModel {
        name,
        samples: samples.len() as u64,
        p50_ms: Quantity::Millis(percentile_of(samples, 50)),
        p95_ms: Quantity::Millis(percentile_of(samples, 95)),
        throughput_per_s: Quantity::PerSecond(throughput_of(samples.len() as u64, elapsed)),
        extra: None,
    }
}

/// Whether a phase tells of these samples how many they are, and their 50th and 95th
/// percentiles.
pub open spec fn tells_the_samples(p: PhaseModel, samples: Seq<u128>) -> bool {
    &&& p.samples == samples.len() as u64
    &&& exists|x: u128| #[trigger]
        is_percentile(samples, 50, x) && p.p50_ms == Quantity::Millis(x)
    &&& exists|x: u128| #[trigger]
        is_percentile(samples, 95, x) && p.p95_ms == Quantity::Millis(x)
}

/// Whether a number is the rate of `count` events in `nanos` nanoseconds.
pub open spec fn tells_the_rate(q: Quantity, count: u64, nanos: u128) -> bool {
    q matches Quantity::PerSecond(rate) && is_rate(count, nanos, rate)
}

/// A phase of samples has the name that it is given, tells of its samples, and counts them
/// per second of the time that it took.
pub proof fn phases_tell_their_samples(name: Seq<char>, samples: Seq<u128>, elapsed: u128)
    ensures
        ({
            let p = sampled_phase(name, samples, elapsed);
            &&& p.name == name
            &&& tells_the_samples(p, samples)
            &&& tells_the_rate(p.throughput_per_s, samples.len() as u64, elapsed)
            &&& p.extra is None
        }),
{
    percentile_splits_the_samples(samples, 50);
    percentile_splits_the_samples(samples, 95);
}

impl Phase {
    /// Builds a phase from per-sample times and the wall-clock time that the phase took
    /// (used for throughput), both in nanoseconds.
    pub fn from_samples(name: &str, samples: &[u128], elapsed: u128) -> (r: Phase)
        ensures
            r@ == sampled_phase(name@, samples@, elapsed),
    {
        Phase {
            name: name.to_owned(),
            samples: samples.len() as u64,
            p50_ms: Quantity::Millis(percentile(samples, 50)),
            p95_ms: Quantity::Millis(percentile(samples, 95)),
            throughput_per_s: Quantity::PerSecond(throughput(samples.len() as u64, elapsed)),
            extra: None,
        }
    }
}

impl Clone for Phase {
    fn clone(&self) -> (r: Phase)
        ensures
            r@ == self@,
    {
        Phase {
            name: self.name.clone(),
            samples: self.samples,
            p50_ms: self.p50_ms,
            p95_ms: self.p95_ms,
            throughput_per_s: self.throughput_per_s,
            extra: match &self.extra {
                Some(j) => Some(copy(j)),
                None => None,
            },
        }
    }
}

/// What the phases say, in order.
pub open spec fn phases_model(v: Seq<Phase>) -> Seq<PhaseModel> {
    Seq::new(v.len(), |i: int| v[i]@)
}

/// The characters of an optional text.
pub open spec fn optional_text(s: Option<String>) -> Option<Seq<char>> {
    match s {
        Some(s) => Some(s@),
        None => None,
    }
}

/// The machine-readable result a benchmark prints to stdout.
#[derive(Debug)]
pub struct BenchReport {
    pub name: String,
    pub status: BenchStatus,
    pub phases: Vec<Phase>,
    pub notes: Option<String>,
}

/// What a [`BenchReport`] says.
pub struct ReportModel {
    pub name: Seq<char>,
    pub status: BenchStatus,
    pub phases: Seq<PhaseModel>,
    pub notes: Option<Seq<char>>,
}

impl View for BenchReport {
    type V = ReportModel;

    open spec fn view(&self) -> ReportModel {
        ReportModel {
            name: self.name@,
            status: self.status,
            phases: phases_model(self.phases@),
            notes: optional_text(self.notes),
        }
    }
}

impl Clone for BenchReport {
    fn clone(&self) -> (r: BenchReport)
        ensures
            r@ == self@,
    {
        let mut phases: Vec<Phase> = Vec::new();
        let mut i: usize = 0;
        while i < self.phases.len()
            invariant
                i <= self.phases@.len(),
                phases@.len() == i,
                forall|k: int| 0 <= k < i ==> (#[trigger] phases@[k])@ == self.phases@[k]@,
            decreases self.phases.len() - i,
        {
            phases.push(self.phases[i].clone());
            i += 1;
        }
        assert(phases_model(phases@) =~= phases_model(self.phases@));
        BenchReport {
            name: self.name.clone(),
            status: self.status,
            phases,
            notes: self.notes.clone(),
        }
    }
}

/// A report without measured phases.
pub open spec fn scaffold_model(name: Seq<char>, notes: Seq<char>) -> ReportModel {
    ReportModel {
        name,
        status: BenchStatus::Scaffold,
        phases: Seq::empty(),
        notes: Some(notes),
    }
}

/// The report of a placeholder has its name and its notes, and claims nothing measured.
pub proof fn scaffolds_claim_nothing(name: Seq<char>, notes: Seq<char>)
    ensures
        scaffold_model(name, notes).name == name,
        scaffold_model(name, notes).notes == Some(notes),
        scaffold_model(name, notes).status == BenchStatus::Scaffold,
        scaffold_model(name, notes).phases.len() == 0,
{
}

/// The JSON that stands in for a report that could not be serialized.
pub open spec fn minimal_json(name: Seq<char>, status: BenchStatus) -> Seq<char> {
    "{\"name\":\""@ + name + "\",\"status\":\""@ + status.label_text() + "\",\"phases\":[]}"@
}

/// The JSON of a report, given its serialization if there is one.
pub open spec fn json_text(r: ReportModel, pretty: Option<Seq<char>>) -> Seq<char> {
    match pretty {
        Some(text) => text,
        None => minimal_json(r.name, r.status),
    }
}

/// A report is printed as it was serialized; one that could not be is printed with its name
/// and its status, and without phases.
pub proof fn reports_are_always_printed(r: ReportModel, text: Seq<char>)
    ensures
        json_text(r, Some(text)) == text,
        has_run(json_text(r, None), "{\"name\":\""@ + r.name + "\",\"status\":\""@),
        has_run(
            json_text(r, None),
            "\",\"status\":\""@ + (match r.status {
                BenchStatus::Ready => "ready"@,
                BenchStatus::Scaffold => "scaffold"@,
            }) + "\",\"phases\":[]}"@,
        ),
{
    broadcast use group_runs;

}

impl BenchReport {
    /// A `Scaffold` report carrying only the prerequisite `notes` (no measured phases).
    /// Used by the placeholder benches.
    pub fn scaffold(name: &str, notes: &str) -> (r: BenchReport)
        ensures
            r@ == scaffold_model(name@, notes@),
    {
        let r = BenchReport {
            name: name.to_owned(),
            status: BenchStatus::Scaffold,
            phases: Vec::new(),
            notes: Some(notes.to_owned()),
        };
        assert(phases_model(r.phases@) =~= Seq::<PhaseModel>::empty());
        r
    }

    /// The report as JSON: `pretty`, its serialization, or a minimal object if
    /// serialization somehow failed, so a bench never panics on output.
    pub fn to_json(&self, pretty: Option<String>) -> (r: String)
        ensures
            r@ == json_text(self@, optional_text(pretty)),
    {
        match pretty {
            Some(text) => text,
            None => {
                let mut out = "{\"name\":\"".to_owned();
                out.append(&self.name);
                out.append("\",\"status\":\"");
                out.append(self.status.label());
                out.append("\",\"phases\":[]}");
                out
            },
        }
    }
}

} // verus!
