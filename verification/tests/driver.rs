use catalog_bench::doc::{Doc, Piece};
use catalog_bench::driver::{
    announcement, cargo_args, cargo_program, conclude, first_line, last_lines, print_summary,
    report_texts, run_one, Child, Entry, Outcome, RunAll,
};
use catalog_bench::measure::Quantity;
use catalog_bench::pages::{print_report, summarize_phases};
use catalog_bench::registry::{benches, find_bench, list_text, select, Selection};
use catalog_bench::report::{BenchReport, BenchStatus, Phase};

fn render(d: &Doc) -> String {
    let mut out = String::new();
    for p in &d.pieces {
        match p {
            Piece::Text(s) => out.push_str(s),
            Piece::Number { value, width, decimals } => {
                let x = match value {
                    Quantity::Double(bits) => f64::from_bits(*bits),
                    other => panic!("{:?}", other),
                };
                out.push_str(&format!("{:>w$.d$}", x, w = *width, d = *decimals))
            }
        }
    }
    out
}

fn double(x: f64) -> Quantity {
    Quantity::Double(x.to_bits())
}

fn phase(name: &str) -> Phase {
    Phase {
        name: name.to_string(),
        samples: 200,
        p50_ms: double(1.2345),
        p95_ms: double(20.5),
        throughput_per_s: double(1234.56),
        extra: None,
    }
}

fn measured() -> BenchReport {
    BenchReport {
        name: "write-data".to_string(),
        status: BenchStatus::Ready,
        phases: vec![phase("parquet-write"), phase("catalog-commit")],
        notes: Some("n".to_string()),
    }
}

#[test]
fn the_suite_is_listed() {
    let want = "catalog-bench suite — 5 benchmarks\n\
\n\
\x20 NAME          STATUS    DESCRIPTION\n\
\x20 ----          ------    -----------\n\
\x20 commit        ready     Iceberg REST commit-path latency + throughput (LakeCat/Polaris/Gravitino/Nessie).\n\
\x20 write-data    ready     Real Parquet data files -> MinIO/S3 + a LakeCat commit (partial-real).\n\
\x20 cache-scan    ready     Cold vs warm Parquet scan via Sail's Foyer object-store cache (MinIO/S3).\n\
\x20 rust-vs-jvm   ready     Sail/DataFusion (Rust) vs Spark (JVM): same filter+aggregate over same MinIO Parquet (Spark phase needs Docker; falls back to Rust-only + container recipe otherwise).\n\
\x20 read-write    scaffold  Full INSERT + filtered-scan workload through LakeCat + Sail (scaffold).\n\
\n\
Run one:  catalog-bench run <name> -- <bench args>\n\
Run all:  catalog-bench run all [--include-scaffold]\n";
    assert_eq!(list_text(), want);
}

#[test]
fn benches_are_found_by_name() {
    for b in benches() {
        assert_eq!(find_bench(b.name).unwrap().package, b.package);
    }
    assert!(find_bench("Commit").is_none());
    assert!(matches!(select("all"), Selection::All));
    assert!(matches!(select("commit"), Selection::One(b) if b.package == "catalog-bench-commit"));
    match select("nope") {
        Selection::Unknown(m) => assert_eq!(
            m,
            "error: unknown bench 'nope'. Known benches:\n  - commit\n  - write-data\n  - cache-scan\n  - rust-vs-jvm\n  - read-write\n"
        ),
        other => panic!("{:?}", other),
    }
}

#[test]
fn commands_for_cargo() {
    assert_eq!(cargo_program(None), "cargo");
    assert_eq!(cargo_program(Some("/x/cargo".to_string())), "/x/cargo");
    let spec = find_bench("commit").unwrap();
    let pass = vec!["--json".to_string(), "".to_string()];
    assert_eq!(
        cargo_args(&spec, false, &pass),
        vec!["run", "-q", "-p", "catalog-bench-commit", "--", "--json", ""]
    );
    assert_eq!(
        cargo_args(&spec, true, &vec![]),
        vec!["run", "-q", "-p", "catalog-bench-commit", "--release", "--"]
    );
}

#[test]
fn ends_of_texts() {
    assert_eq!(last_lines("a\nb\r\nc\n", 2), "b\nc");
    assert_eq!(last_lines("a\nb", 8), "a\nb");
    assert_eq!(last_lines("a\nb", 0), "");
    assert_eq!(last_lines("", 3), "");
    assert_eq!(first_line("a\r\nb"), "a");
    assert_eq!(first_line("\nb"), "");
    assert_eq!(first_line(""), "");
    assert_eq!(first_line("a\r"), "a\r");
    assert_eq!(first_line("é\nb"), "é");
}

#[test]
fn outcomes_of_a_child() {
    let spec = find_bench("write-data").unwrap();
    match run_one(&spec, &Child::NotStarted("no such file".to_string()), None, None) {
        Outcome::Failed(m) => assert_eq!(
            m,
            "could not spawn `cargo run -p catalog-bench-write-data`: no such file"
        ),
        other => panic!("{:?}", other),
    }
    let ended = |success: bool| Child::Ended {
        success,
        status: "exit status: 1".to_string(),
        stdout: "é{".to_string(),
        stderr: "1\n2\n3\n4\n5\n6\n7\n8\n9\n".to_string(),
    };
    match run_one(&spec, &ended(false), Some(measured().to_document()), None) {
        Outcome::Failed(m) => assert_eq!(
            m,
            "catalog-bench-write-data exited with exit status: 1 — stderr tail:\n2\n3\n4\n5\n6\n7\n8\n9"
        ),
        other => panic!("{:?}", other),
    }
    match run_one(&spec, &ended(true), None, None) {
        Outcome::Failed(m) => assert_eq!(
            m,
            "catalog-bench-write-data produced no parseable BenchReport on stdout (got 3 bytes)"
        ),
        other => panic!("{:?}", other),
    }
    let found = run_one(&spec, &ended(true), Some(measured().to_document()), None);
    assert!(matches!(found, Outcome::Ran(r) if r.name == "write-data"));
    let found = run_one(&spec, &ended(true), None, Some(measured().to_document()));
    assert!(matches!(found, Outcome::Ran(r) if r.name == "write-data"));
}

#[test]
fn reports_are_found_behind_stray_lines() {
    let t = report_texts("  warming up\ndone\n{\"a\": {}}\n\n");
    assert_eq!(t.whole, "warming up\ndone\n{\"a\": {}}");
    assert_eq!(t.from_brace, Some("{\"a\": {}}".to_string()));
    let t = report_texts("a\n{\"x\": \"}\\\"{\", \"y\": {}}\ndone } {\n");
    assert_eq!(t.from_brace, Some("{\"x\": \"}\\\"{\", \"y\": {}}".to_string()));
    assert_eq!(report_texts("x {\"a\": {}").from_brace, Some("{\"a\": {}".to_string()));
    let t = report_texts(" nothing \n");
    assert_eq!(t.whole, "nothing");
    assert_eq!(t.from_brace, None);
}

#[test]
fn a_report_on_a_page() {
    let want = "\nbench: write-data  [ready]\n\
\x20 notes: n\n\
\x20 PHASE               SAMPLES    P50(ms)    P95(ms)   THROUGHPUT/s\n\
\x20 parquet-write           200      1.234     20.500         1234.6\n\
\x20 catalog-commit          200      1.234     20.500         1234.6\n";
    assert_eq!(render(&print_report(&measured())), want);
    let bare = BenchReport {
        name: "x".to_string(),
        status: BenchStatus::Scaffold,
        phases: vec![],
        notes: None,
    };
    assert_eq!(render(&print_report(&bare)), "\nbench: x  [scaffold]\n  (no measured phases)\n");
}

#[test]
fn a_report_in_a_line() {
    assert_eq!(
        render(&summarize_phases(&measured())),
        "parquet-write p50=1.23ms 1234.6/s; catalog-commit p50=1.23ms 1234.6/s"
    );
    assert_eq!(render(&summarize_phases(&BenchReport::scaffold("x", "n"))), "ran (no phases)");
}

#[test]
fn a_summary_of_all() {
    let entry = |name: &str, outcome: Outcome| Entry { spec: find_bench(name).unwrap(), outcome };
    let mut report = measured();
    report.phases.truncate(1);
    report.notes = None;
    let results = vec![
        entry("commit", Outcome::Failed("bad\nworse".to_string())),
        entry("write-data", Outcome::Ran(report)),
        entry("read-write", Outcome::Skipped("scaffold (use --include-scaffold)".to_string())),
    ];
    let want = "\n=== catalog-bench: combined summary ===\n\
\n\
\x20 NAME          STATUS    RESULT\n\
\x20 ----          ------    ------\n\
\x20 commit        ready     FAILED (bad)\n\
\x20 write-data    ready     parquet-write p50=1.23ms 1234.6/s\n\
\x20 read-write    scaffold  skipped (scaffold (use --include-scaffold))\n\
\n\
bench: write-data  [ready]\n\
\x20 PHASE               SAMPLES    P50(ms)    P95(ms)   THROUGHPUT/s\n\
\x20 parquet-write           200      1.234     20.500         1234.6\n";
    assert_eq!(render(&print_summary(&results)), want);
}

#[test]
fn conclusions_of_one_bench() {
    let spec = find_bench("commit").unwrap();
    let v = conclude(&spec, &Outcome::Failed("bad".to_string()));
    assert!(!v.success);
    assert_eq!(v.stderr, "error: bench 'commit' failed: bad\n");
    assert_eq!(render(&v.stdout), "");
    let v = conclude(&spec, &Outcome::Skipped("why".to_string()));
    assert!(v.success);
    assert_eq!(v.stderr, "");
    assert_eq!(render(&v.stdout), "skipped commit: why\n");
    let v = conclude(&spec, &Outcome::Ran(measured()));
    assert!(v.success);
    assert_eq!(render(&v.stdout), render(&print_report(&measured())));
}

fn run_all(include_scaffold: bool, fails: &[&str]) -> (Vec<&'static str>, RunAll) {
    let mut run = RunAll::new(include_scaffold);
    let mut ran: Vec<&'static str> = Vec::new();
    while let Some(spec) = run.advance() {
        ran.push(spec.name);
        if fails.contains(&spec.name) {
            run.record(Outcome::Failed("bad".to_string()));
        } else {
            run.record(Outcome::Ran(BenchReport::scaffold(spec.name, "n")));
        }
    }
    (ran, run)
}

#[test]
fn all_ready_benches_are_run() {
    let (ran, run) = run_all(false, &[]);
    assert_eq!(ran, vec!["commit", "write-data", "cache-scan", "rust-vs-jvm"]);
    assert_eq!(run.results().len(), 5);
    assert!(matches!(&run.results()[4].outcome, Outcome::Skipped(r) if r == "scaffold (use --include-scaffold)"));
    assert!(run.succeeded());
    let (ran, run) = run_all(true, &[]);
    assert_eq!(ran, vec!["commit", "write-data", "cache-scan", "rust-vs-jvm", "read-write"]);
    assert!(run.succeeded());
}

#[test]
fn a_run_fails_only_if_every_bench_does() {
    let ready = ["commit", "write-data", "cache-scan", "rust-vs-jvm"];
    assert!(!run_all(false, &ready).1.succeeded());
    assert!(run_all(true, &ready).1.succeeded());
    assert!(run_all(false, &ready[..3]).1.succeeded());
    assert!(RunAll::new(false).succeeded());
}

#[test]
fn benches_are_announced() {
    assert_eq!(announcement(&find_bench("commit").unwrap()), "==> running commit (ready)\n");
    assert_eq!(announcement(&find_bench("read-write").unwrap()), "==> running read-write (scaffold)\n");
}
