use catalog_bench::catalog::CommitReply;
use catalog_bench::commits::{
    commit_sequence, latency_percentile, CommitRun, Tally, Writer, WARMUP_BASE, WRITER_SPAN,
};
use catalog_bench::doc::{Doc, Piece};
use catalog_bench::json::Json;
use catalog_bench::measure::{Quantity, Rate};
use catalog_bench::plan::Planned;

fn float_of(q: Quantity) -> f64 {
    match q {
        Quantity::Millis(n) => n as f64 / 1e6,
        Quantity::Seconds(n) => n as f64 / 1e9,
        Quantity::PerSecond(r) => r.count as f64 / (r.nanos as f64 / 1e9),
        Quantity::Fraction { part, whole } => part as f64 / whole as f64,
        Quantity::Percent { part, whole } => part as f64 / whole as f64 * 100.0,
        Quantity::Whole(n) => n as f64,
        Quantity::Double(bits) => f64::from_bits(bits),
    }
}

fn render(d: &Doc) -> String {
    let mut out = String::new();
    for p in &d.pieces {
        match p {
            Piece::Text(s) => out.push_str(s),
            Piece::Number { value, width, decimals } => {
                out.push_str(&format!("{:>w$.d$}", float_of(*value), w = *width, d = *decimals))
            }
        }
    }
    out
}

fn run() -> CommitRun {
    CommitRun {
        base_url: "http://h/catalog".to_string(),
        prefix: "main".to_string(),
        namespace: "ns".to_string(),
        table: "t".to_string(),
        idempotency: true,
        iterations: 4,
        latencies: vec![4_000_000, 1_000_000, 3_000_000, 2_500_000],
        seq_elapsed: 20_000_000,
        writers: 8,
        conc_elapsed: 2_000_000_000,
        tally: Tally { ok: 30, conflicts: 10 },
    }
}

fn member<'a>(j: &'a Json, key: &str) -> &'a Json {
    match j {
        Json::Object(members) => &members.iter().find(|m| m.key == key).unwrap().value,
        _ => panic!("not an object"),
    }
}

#[test]
fn commits_are_planned_in_order() {
    let mut s = commit_sequence(2, 3);
    let mut all: Vec<Planned> = Vec::new();
    while let Some(p) = s.next() {
        all.push(p);
    }
    let want: Vec<Planned> = vec![
        Planned { index: 0, number: 1_000_000, measured: false },
        Planned { index: 1, number: 1_000_001, measured: false },
        Planned { index: 0, number: 0, measured: true },
        Planned { index: 1, number: 1, measured: true },
        Planned { index: 2, number: 2, measured: true },
    ];
    assert_eq!(all, want);
    assert_eq!(s.measured, 3);
    assert_eq!(s.next(), None);
    assert_eq!(commit_sequence(0, 0).next(), None);
    assert_eq!(WARMUP_BASE, 1_000_000);
}

#[test]
fn writers_count_in_their_own_span() {
    let mut a = Writer::start(0);
    let mut b = Writer::start(3);
    assert_eq!(a.next_counter(), 1);
    assert_eq!(a.next_counter(), 2);
    assert_eq!(b.next_counter(), 30_000_001);
    assert_eq!(WRITER_SPAN, 10_000_000);
}

#[test]
fn replies_are_counted() {
    let mut t = Tally::new();
    t.record(CommitReply::Committed);
    t.record(CommitReply::Committed);
    t.record(CommitReply::Conflict);
    t.record(CommitReply::Failed);
    assert_eq!(t, Tally { ok: 2, conflicts: 1 });
    assert_eq!(t.conflicts_among(), (1, 3));
    assert_eq!(Tally::new().conflicts_among(), (0, 1));
    let mut full = Tally { ok: u64::MAX, conflicts: 0 };
    full.record(CommitReply::Committed);
    assert_eq!(full.ok, 0);
}

#[test]
fn summary_for_machines() {
    let j = run().to_json();
    let target = member(&j, "target");
    assert!(matches!(member(target, "base_url"), Json::Text(s) if s == "http://h/catalog"));
    assert!(matches!(member(target, "prefix"), Json::Text(s) if s == "main"));
    assert!(matches!(member(target, "namespace"), Json::Text(s) if s == "ns"));
    assert!(matches!(member(target, "table"), Json::Text(s) if s == "t"));
    assert!(matches!(member(target, "idempotency"), Json::Bool(true)));
    let seq = member(&j, "sequential");
    assert!(matches!(member(seq, "iterations"), Json::Unsigned(4)));
    assert!(matches!(member(seq, "elapsed_secs"), Json::Real(q) if float_of(*q) == 0.02));
    assert!(matches!(member(seq, "throughput_commits_per_s"), Json::Real(q) if float_of(*q) == 200.0));
    let lat = member(seq, "latency_ms");
    assert!(matches!(member(lat, "p50"), Json::Real(q) if float_of(*q) == 3.0));
    assert!(matches!(member(lat, "p90"), Json::Real(q) if float_of(*q) == 4.0));
    assert!(matches!(member(lat, "p99"), Json::Real(q) if float_of(*q) == 4.0));
    assert!(matches!(member(lat, "max"), Json::Real(q) if float_of(*q) == 4.0));
    let conc = member(&j, "concurrent");
    assert!(matches!(member(conc, "writers"), Json::Unsigned(8)));
    assert!(matches!(member(conc, "duration_secs"), Json::Real(q) if float_of(*q) == 2.0));
    assert!(matches!(member(conc, "ok"), Json::Unsigned(30)));
    assert!(matches!(member(conc, "conflicts"), Json::Unsigned(10)));
    assert!(matches!(member(conc, "throughput_commits_per_s"), Json::Real(q) if float_of(*q) == 15.0));
    assert!(matches!(member(conc, "conflict_rate"), Json::Real(q) if float_of(*q) == 0.25));
}

#[test]
fn summary_for_people() {
    let want = "catalog-commit-bench  ->  http://h/catalog  (prefix='main', table=ns/t)\n\
\x20 idempotency header: true\n\
\n\
Sequential commit latency (4 commits):\n\
\x20 throughput :    200.0 commits/s\n\
\x20 p50        :    3.000 ms\n\
\x20 p90        :    4.000 ms\n\
\x20 p99        :    4.000 ms\n\
\x20 max        :    4.000 ms\n\
\n\
Concurrent throughput (8 writers, 2.0s):\n\
\x20 committed  : 30\n\
\x20 conflicts  : 10  (rate 25.00%)\n\
\x20 throughput :     15.0 commits/s\n";
    assert_eq!(render(&run().to_text()), want);
}

#[test]
fn latency_ranks_are_rounded() {
    for n in 1u64..=3000 {
        let s: Vec<u128> = (0..n as u128).collect();
        for p in [50u64, 90, 99] {
            let rank = ((p as f64 / 100.0) * (n as f64 - 1.0)).round() as u128;
            assert_eq!(latency_percentile(&s, p), rank, "n={} p={}", n, p);
        }
    }
    assert_eq!(latency_percentile(&[9, 7], 50), 9);
    assert_eq!(latency_percentile(&[9, 7], 0), 7);
    assert_eq!(latency_percentile(&[9, 7], 250), 9);
    assert_eq!(latency_percentile(&[], 50), 0);
}

#[test]
fn rates_keep_their_parts() {
    let d = run().to_text();
    let rates: Vec<&Quantity> = d
        .pieces
        .iter()
        .filter_map(|p| match p {
            Piece::Number { value, .. } => Some(value),
            _ => None,
        })
        .collect();
    assert_eq!(*rates[0], Quantity::PerSecond(Rate { count: 4, nanos: 20_000_000 }));
}
