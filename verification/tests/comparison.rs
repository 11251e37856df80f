use catalog_bench::comparison::{
    head_to_head, print_human_table, Comparison, Next, Options, Reader, Speedup, Stage,
    FAIRNESS_CAVEAT, FAIRNESS_MISMATCH,
};
use catalog_bench::config::BenchConfig;
use catalog_bench::doc::{Doc, Piece};
use catalog_bench::json::{Json, Member};
use catalog_bench::measure::{Quantity, Rate};
use catalog_bench::query::{
    accept_listing, accept_url, dataset_url, is_countable, run_query, rust_phase, store_url,
    table_uri, Batch, CountColumn, Measurement, QueryError, RustPhase, QUERY,
};
use catalog_bench::report::BenchStatus;
use catalog_bench::spark::{
    container_endpoint, container_recipe, jvm_phase, no_result, scrape, spark_job, SparkResult,
};

fn config(pairs: &[(&str, &str)]) -> BenchConfig {
    let vars: Vec<(String, String)> =
        pairs.iter().map(|(k, v)| (k.to_string(), v.to_string())).collect();
    BenchConfig::from_env(&vars)
}

fn double(x: f64) -> Quantity {
    Quantity::Double(x.to_bits())
}

fn render(d: &Doc) -> String {
    let mut out = String::new();
    for p in &d.pieces {
        match p {
            Piece::Text(s) => out.push_str(s),
            Piece::Number { value, width, decimals } => {
                let x = match value {
                    Quantity::Millis(n) => *n as f64 / 1e6,
                    Quantity::PerSecond(r) => r.count as f64 / (r.nanos as f64 / 1e9),
                    Quantity::Double(bits) => f64::from_bits(*bits),
                    other => panic!("{:?}", other),
                };
                out.push_str(&format!("{:>w$.d$}", x, w = *width, d = *decimals))
            }
        }
    }
    out
}

fn counts(v: &[i64]) -> Batch {
    Batch { rows: v.len() as u64, counts: CountColumn::Counts(v.to_vec()) }
}

#[test]
fn the_url_of_the_object_store() {
    assert_eq!(store_url(&config(&[])).unwrap(), "s3://warehouse");
    let e = store_url(&config(&[("BENCH_S3_BUCKET", "a b")])).unwrap_err();
    assert_eq!(e.message, "parsing object-store url for bucket a b");
    assert_eq!(e.source, url::ParseError::InvalidDomainCharacter);
    assert_eq!(store_url(&config(&[("BENCH_S3_BUCKET", "b/../c")])).unwrap(), "s3://b/c");
    let e = accept_url("x", Err(url::ParseError::EmptyHost)).unwrap_err();
    assert_eq!(e.message, "parsing object-store url for bucket x");
    assert_eq!(e.source, url::ParseError::EmptyHost);
    assert_eq!(accept_url("x", Ok("u".to_string())).unwrap(), "u");
}

#[test]
fn the_directory_of_the_dataset() {
    assert_eq!(table_uri(&config(&[]), "s3", "cache-scan"), "s3://warehouse/cache-scan/");
    assert_eq!(table_uri(&config(&[]), "s3a", "//a/b/"), "s3a://warehouse/a/b/");
}

#[test]
fn answers_are_counted() {
    let batches = vec![counts(&[3, 4]), counts(&[]), counts(&[5])];
    assert!(is_countable(&batches));
    assert_eq!(run_query(&batches), Ok((12, 3)));
    assert_eq!(run_query(&vec![]), Ok((0, 0)));
    assert_eq!(run_query(&vec![counts(&[-1])]), Ok((u64::MAX, 1)));
}

#[test]
fn flawed_answers_are_refused() {
    let missing = || Batch { rows: 1, counts: CountColumn::Missing };
    let other = || Batch { rows: 1, counts: CountColumn::NotInt64 };
    assert_eq!(run_query(&vec![counts(&[1]), missing(), other()]), Err(QueryError::MissingColumn));
    assert_eq!(run_query(&vec![other(), missing()]), Err(QueryError::NotInt64));
    assert_eq!(QueryError::MissingColumn.message(), "query result missing column 'n'");
    assert_eq!(QueryError::NotInt64.message(), "column 'n' is not Int64");
}

#[test]
fn large_answers_cannot_be_counted() {
    assert!(!is_countable(&vec![counts(&[-1, 1])]));
    let huge = || Batch { rows: u64::MAX, counts: CountColumn::Counts(vec![]) };
    assert!(is_countable(&vec![huge()]));
    assert!(!is_countable(&vec![huge(), counts(&[0])]));
    let missing = Batch { rows: 0, counts: CountColumn::Missing };
    assert!(is_countable(&vec![missing, counts(&[-1, 1])]));
}

#[test]
fn queries_have_to_agree() {
    let mut m = Measurement::new(2);
    assert!(m.wants_more());
    assert_eq!(m.record(5, 100, 7), Ok(()));
    assert!(m.wants_more());
    assert_eq!(
        m.record(6, 101, 7),
        Err("query result not stable: scanned 101 vs 100, groups 7 vs 7".to_string())
    );
    assert_eq!(
        m.record(6, 100, 8),
        Err("query result not stable: scanned 100 vs 100, groups 8 vs 7".to_string())
    );
    assert_eq!(m.record(6, 100, 7), Ok(()));
    assert!(!m.wants_more());
    let p = m.finish(20);
    assert_eq!(p.per_query, vec![5, 6]);
    assert_eq!((p.scanned_rows, p.groups, p.wall), (100, 7, 20));
    let mut one = Measurement::new(0);
    assert!(one.wants_more());
    assert_eq!(one.record(1, 0, 0), Ok(()));
    assert!(!one.wants_more());
}

fn measured(ms: u128) -> RustPhase {
    RustPhase {
        per_query: vec![ms * 1_000_000, ms * 1_000_000],
        scanned_rows: 1000,
        groups: 8,
        wall: 4_000_000_000,
    }
}

#[test]
fn a_phase_of_queries() {
    let p = rust_phase("rust-warm", &measured(10));
    assert_eq!(p.name, "rust-warm");
    assert_eq!(p.samples, 2);
    assert_eq!(p.p50_ms, Quantity::Millis(10_000_000));
    assert_eq!(p.p95_ms, Quantity::Millis(10_000_000));
    assert_eq!(p.throughput_per_s, Quantity::PerSecond(Rate { count: 2000, nanos: 4_000_000_000 }));
    match &p.extra {
        Some(Json::Object(m)) => {
            assert_eq!(m.len(), 3);
            assert_eq!((m[0].key.as_str(), m[1].key.as_str(), m[2].key.as_str()), ("scanned_rows", "groups", "wall_ms"));
            assert!(matches!(m[0].value, Json::Unsigned(1000)));
            assert!(matches!(m[1].value, Json::Unsigned(8)));
            assert!(matches!(m[2].value, Json::Real(Quantity::Millis(4_000_000_000))));
        }
        other => panic!("{:?}", other),
    }
    let mut huge = measured(10);
    huge.scanned_rows = u64::MAX;
    let p = rust_phase("x", &huge);
    assert_eq!(p.throughput_per_s, Quantity::PerSecond(Rate { count: u64::MAX, nanos: 4_000_000_000 }));
}

#[test]
fn containers_reach_the_host() {
    assert_eq!(container_endpoint("http://127.0.0.1:9000"), "http://host.docker.internal:9000");
    assert_eq!(container_endpoint("http://localhost:9000/x"), "http://host.docker.internal:9000/x");
    assert_eq!(container_endpoint("http://minio:9000"), "http://minio:9000");
    for s in ["127.0.0.1localhost", "127.0.0.127.0.0.1", "http://127.0.0.1:9000/127.0.0.1", "1l27.0.0.1", "o127.0.0.1o"] {
        let want = s
            .replace("127.0.0.1", "host.docker.internal")
            .replace("localhost", "host.docker.internal");
        assert_eq!(container_endpoint(s), want);
        assert!(!container_endpoint(s).contains("127.0.0.1"));
    }
}

#[test]
fn how_spark_is_started() {
    let job = spark_job(&config(&[]), "/d", "/cache-scan/", 8);
    assert_eq!(job.script, "/d/run-spark.sh");
    let env: Vec<(&str, &str)> = job.env.iter().map(|(k, v)| (k.as_str(), v.as_str())).collect();
    assert_eq!(
        env,
        vec![
            ("S3_ENDPOINT", "http://host.docker.internal:9000"),
            ("S3_KEY", "admin"),
            ("S3_SECRET", "password"),
            ("S3_PATH", "s3a://warehouse/cache-scan/"),
            ("ITERS", "8"),
        ]
    );
    assert_eq!(
        job.announce,
        "phase: jvm-warm (Spark via /d/run-spark.sh) — endpoint http://host.docker.internal:9000, path s3a://warehouse/cache-scan/ ...\n"
    );
}

#[test]
fn results_are_scraped() {
    let line = scrape("x\n  SPARK_RESULT   {\"a\":1}  \nSPARK_RESULT 2\n", "SPARK_RESULT 3").unwrap();
    assert_eq!(line.json, "  {\"a\":1}");
    assert_eq!(line.trimmed, "{\"a\":1}");
    assert_eq!(scrape("x\ny SPARK_RESULT 1\n", "a\nSPARK_RESULT {}\n").unwrap().trimmed, "{}");
    assert!(scrape("SPARK_RESULT\n", "").is_none());
    assert!(scrape("", "").is_none());
    let stderr: String = (1..=14).map(|n| format!("{}\n", n)).collect();
    assert_eq!(
        no_result("exit status: 1", &stderr),
        "Spark produced no SPARK_RESULT line (exit exit status: 1). stderr tail:\n3\n4\n5\n6\n7\n8\n9\n10\n11\n12\n13\n14"
    );
}

fn spark() -> SparkResult {
    SparkResult {
        warm_p50_ms: double(40.0),
        warm_p95_ms: double(50.5),
        warm_min_ms: double(39.0),
        samples: 8,
        cold_ms: double(900.0),
        scanned_rows: 1000,
        groups: 8,
        spark_version: "3.5.3".to_string(),
    }
}

#[test]
fn the_phase_of_the_jvm() {
    let p = jvm_phase(&spark(), double(25000.0));
    assert_eq!(p.name, "jvm-warm");
    assert_eq!(p.samples, 8);
    assert_eq!(p.p50_ms, double(40.0));
    assert_eq!(p.p95_ms, double(50.5));
    assert_eq!(p.throughput_per_s, double(25000.0));
    match &p.extra {
        Some(Json::Object(m)) => {
            let keys: Vec<&str> = m.iter().map(|m| m.key.as_str()).collect();
            assert_eq!(keys, vec!["scanned_rows", "groups", "warm_min_ms", "cold_ms", "spark_version"]);
            assert!(matches!(&m[4].value, Json::Text(s) if s == "3.5.3"));
        }
        other => panic!("{:?}", other),
    }
}

#[test]
fn the_recipe_for_a_container() {
    assert_eq!(
        container_recipe(&config(&[]), "cache-scan"),
        "JVM phase status=requires-container. To run it: Docker + internet (Spark fetches \
hadoop-aws via --packages on first run). From crates/rust-vs-jvm:\n\
S3_ENDPOINT=http://host.docker.internal:9000 S3_PATH=s3a://warehouse/cache-scan/ ./run-spark.sh\n\
It runs apache/spark:3.5.3 spark-submit on spark-query.py, reads the SAME Parquet over S3A, \
runs the identical query N+1x in one session, and prints `SPARK_RESULT {json}`. The Rust \
harness scrapes that line; re-run `catalog-bench run rust-vs-jvm` with Docker up for the \
full head-to-head."
    );
}

#[test]
fn the_last_of_doubled_counts_is_reported() {
    let jvm = jvm_phase(&spark(), double(1.0));
    let mut warm = rust_phase("rust-warm", &measured(1));
    let x = Speedup { ratio: double(1.0), faster: true };
    if let Some(Json::Object(members)) = &mut warm.extra {
        let member = Member { key: "groups".to_string(), value: Json::Unsigned(5) };
        members.push(member);
    }
    let text = render(&head_to_head(&jvm, &warm, &warm, &warm, &spark(), x, x, x));
    assert!(text.contains("Sail scanned 1000 rows into 5 groups; "));
}

#[test]
fn the_recipe_reads_the_same_dataset() {
    let cfg = config(&[("AWS_ENDPOINT", "http://minio:9000")]);
    let text = container_recipe(&cfg, "/cache-scan/");
    assert!(text.contains(
        "S3_ENDPOINT=http://minio:9000 S3_PATH=s3a://warehouse/cache-scan/ ./run-spark.sh"
    ));
    assert!(text.contains(&spark_job(&cfg, "/d", "/cache-scan/", 1).env[3].1));
}

#[test]
fn a_match_is_claimed_only_where_there_is_one() {
    let jvm = jvm_phase(&spark(), double(1.0));
    let warm = rust_phase("rust-warm", &measured(1));
    let x = Speedup { ratio: double(1.0), faster: true };
    let compare = |r: &SparkResult| render(&head_to_head(&jvm, &warm, &warm, &warm, r, x, x, x));
    assert!(compare(&spark()).contains("groups (matched)"));
    for (rows, groups) in [(999, 8), (1000, 7), (0, 0)] {
        let mut r = spark();
        r.scanned_rows = rows;
        r.groups = groups;
        let text = compare(&r);
        assert!(!text.contains("groups (matched)"));
        assert!(!text.contains("matched exactly"));
        assert!(text.contains("Sail scanned 1000 rows into 8 groups; "));
    }
}

fn options(skip_jvm: bool) -> Options {
    Options { prefix: "cache-scan".to_string(), no_cache_iters: 5, warm_iters: 8, skip_jvm }
}

fn up_to_warm(skip_jvm: bool) -> (Comparison, Next) {
    let cfg = config(&[]);
    let (c, first) = Comparison::start(options(skip_jvm));
    assert_eq!(first.reader, Reader::Raw);
    assert_eq!(first.iters, 5);
    assert_eq!(first.announce, "phase: rust-no-cache (5 iters)...\n");
    let (c, next) = c.measured(&cfg, measured(80));
    match next {
        Next::Measure(m) => {
            assert_eq!(m.reader, Reader::FreshCache);
            assert_eq!(m.iters, 1);
            assert_eq!(m.announce, "phase: rust-cold (fresh Foyer cache, populating from MinIO)...\n");
        }
        other => panic!("{:?}", other),
    }
    let (c, next) = c.measured(&cfg, measured(100));
    match next {
        Next::Measure(m) => {
            assert_eq!(m.reader, Reader::SameCache);
            assert_eq!(m.iters, 8);
            assert_eq!(
                m.announce,
                "phase: rust-warm (same Foyer cache, now populated; 8 iters)...\n"
            );
        }
        other => panic!("{:?}", other),
    }
    c.measured(&cfg, measured(10))
}

fn names(phases: &[catalog_bench::report::Phase]) -> Vec<&str> {
    phases.iter().map(|p| p.name.as_str()).collect()
}

#[test]
fn a_comparison_without_spark() {
    let (c, next) = up_to_warm(true);
    assert!(matches!(c.stage, Stage::Finished));
    match next {
        Next::Report(r) => {
            assert_eq!(r.name, "rust-vs-jvm");
            assert_eq!(r.status, BenchStatus::Scaffold);
            assert_eq!(names(&r.phases), vec!["rust-cold", "rust-warm", "rust-no-cache"]);
            assert_eq!(r.phases[0].p50_ms, Quantity::Millis(100_000_000));
            assert_eq!(r.phases[1].p50_ms, Quantity::Millis(10_000_000));
            assert_eq!(r.phases[2].p50_ms, Quantity::Millis(80_000_000));
            let want = format!(
                "QUERY (identical both engines): {}. Rust-only run (--skip-jvm). Rust phases measured. {}",
                QUERY,
                container_recipe(&config(&[]), "cache-scan")
            );
            assert_eq!(r.notes.unwrap(), want);
        }
        other => panic!("{:?}", other),
    }
}

#[test]
fn a_comparison_of_nothing() {
    let (c, _) = Comparison::start(options(false));
    let mut empty = measured(1);
    empty.scanned_rows = 0;
    let (c, next) = c.measured(&config(&[]), empty);
    assert!(matches!(c.stage, Stage::Finished));
    match next {
        Next::Fail(m) => assert_eq!(
            m,
            "query scanned 0 rows under prefix 'cache-scan' — is the dataset present? (run `catalog-bench run cache-scan` first)"
        ),
        other => panic!("{:?}", other),
    }
}

#[test]
fn a_comparison_with_failing_spark() {
    let (c, next) = up_to_warm(false);
    assert!(matches!(next, Next::Spark));
    let r = c.spark_failed(&config(&[]), "no docker");
    assert_eq!(r.status, BenchStatus::Scaffold);
    assert_eq!(names(&r.phases), vec!["rust-cold", "rust-warm", "rust-no-cache"]);
    let want = format!(
        "QUERY (identical both engines): {}. Rust phases measured; JVM phase did NOT run: no docker. {} {}",
        QUERY,
        container_recipe(&config(&[]), "cache-scan"),
        FAIRNESS_CAVEAT
    );
    assert_eq!(r.notes.unwrap(), want);
}

#[test]
fn a_comparison_with_spark() {
    let (c, next) = up_to_warm(false);
    assert!(matches!(next, Next::Spark));
    assert_eq!(
        c.medians(),
        (Quantity::Millis(80_000_000), Quantity::Millis(100_000_000), Quantity::Millis(10_000_000))
    );
    let slow = Speedup { ratio: double(0.5), faster: false };
    let slower = Speedup { ratio: double(0.4), faster: false };
    let fast = Speedup { ratio: double(4.0), faster: true };
    let text = render(&c.compare(&spark(), double(25000.0), slow, slower, fast));
    let want = format!(
        "HEAD-TO-HEAD (p50, same query/files/MinIO): jvm-warm=40.0ms | rust-no-cache=80.0ms | \
rust-cold=100.0ms | rust-warm=10.0ms. ENGINE-TO-ENGINE (both re-read MinIO, no local cache): \
Sail/DataFusion no-cache is 0.50x slower than Spark warm. Sail cold (fresh Foyer cache) is 0.40x \
slower than Spark warm. Sail WARM (Foyer cache hit) is 4.0x faster than Spark warm — but that \
margin is Sail's local byte cache, which this Spark setup lacks (see fairness note). Both \
engines scanned 1000 rows into 8 groups; Spark scanned 1000 / 8 groups (matched). Spark 3.5.3. {}",
        FAIRNESS_CAVEAT
    );
    assert_eq!(text, want);
    let r = c.spark_ran(&spark(), double(25000.0), &text);
    assert_eq!(r.status, BenchStatus::Ready);
    assert_eq!(names(&r.phases), vec!["jvm-warm", "rust-cold", "rust-warm", "rust-no-cache"]);
    assert_eq!(r.notes.as_ref().unwrap(), &format!("QUERY (identical both engines): {}. {}", QUERY, want));
    let table = "\n=== rust-vs-jvm: Sail/DataFusion (Rust) vs Spark (JVM) ===\n\
\n\
\x20 PHASE           SAMPLES    P50(ms)    P95(ms)           ROWS/s\n\
\x20 -------------- -------- ---------- ---------- ----------------\n\
\x20 jvm-warm              8      40.00      50.50            25000\n\
\x20 rust-cold             2     100.00     100.00              500\n\
\x20 rust-warm             2      10.00      10.00              500\n\
\x20 rust-no-cache         2      80.00      80.00              500\n\
\n";
    assert_eq!(render(&print_human_table(&r)), table);
}

#[test]
fn counts_are_taken_from_the_warm_phase() {
    let jvm = jvm_phase(&spark(), double(1.0));
    let cold = rust_phase("rust-cold", &measured(1));
    let mut warm = rust_phase("rust-warm", &measured(1));
    let x = Speedup { ratio: double(1.0), faster: true };
    warm.extra = None;
    let text = render(&head_to_head(&jvm, &cold, &warm, &cold, &spark(), x, x, x));
    assert!(text.contains("Sail scanned 0 rows into 0 groups; Spark scanned 1000 / 8 groups (NOT MATCHED)."));
    assert!(!text.contains("groups (matched)"));
    assert!(!text.contains("row counts matched exactly"));
    assert!(text.ends_with(FAIRNESS_MISMATCH));
    assert!(text.contains("no-cache is 1.00x faster than Spark warm"));
}

#[test]
fn the_url_of_the_dataset() {
    assert_eq!(dataset_url(&config(&[]), "/cache-scan").unwrap(), "s3://warehouse/cache-scan/");
    assert_eq!(dataset_url(&config(&[]), "a/../b c").unwrap(), "s3://warehouse/b%20c/");
    let e = dataset_url(&config(&[("BENCH_S3_BUCKET", "a b")]), "x").unwrap_err();
    assert_eq!(e.message, "parsing s3://a b/x/");
    let e = accept_listing("u", Err(e.source)).unwrap_err();
    assert_eq!(e.message, "parsing u");
    assert_eq!(accept_listing("u", Ok("v".to_string())).unwrap(), "v");
}
