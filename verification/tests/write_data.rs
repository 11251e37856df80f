use catalog_bench::columns::{batch_columns, dataset_schema, ColumnKind};
use catalog_bench::config::BenchConfig;
use catalog_bench::doc::Piece;
use catalog_bench::json::Json;
use catalog_bench::measure::{Quantity, Rate};
use catalog_bench::report::BenchStatus;
use catalog_bench::write_data::{
    batch_ids, batch_names, data_file, data_key, file_sequence, rows_are_numbered, warmup_key,
    warmup_path, write_catalog, WriteTally, WARMUP_SEED,
};

fn config() -> BenchConfig {
    BenchConfig::from_env(&vec![])
}

#[test]
fn columns_of_a_data_file() {
    let names: Vec<(&str, ColumnKind, bool)> =
        batch_columns().iter().map(|c| (c.name, c.kind, c.nullable)).collect();
    assert_eq!(
        names,
        vec![
            ("id", ColumnKind::Int64, false),
            ("name", ColumnKind::Utf8, false),
            ("value", ColumnKind::Float64, false),
        ]
    );
    let names: Vec<(&str, ColumnKind, bool)> =
        dataset_schema().iter().map(|c| (c.name, c.kind, c.nullable)).collect();
    assert_eq!(
        names,
        vec![
            ("id", ColumnKind::Int64, false),
            ("measure_a", ColumnKind::Int64, false),
            ("measure_b", ColumnKind::Float64, false),
            ("grp", ColumnKind::Utf8, false),
        ]
    );
}

#[test]
fn rows_of_a_data_file() {
    assert_eq!(batch_ids(3, 2), vec![6, 7, 8]);
    assert_eq!(batch_ids(0, 2), Vec::<i64>::new());
    assert_eq!(batch_ids(1, u64::MAX), vec![-1]);
    assert_eq!(batch_names(2, 7), vec!["row-7-0", "row-7-1"]);
    let mut all: Vec<i64> = Vec::new();
    for seed in 0..20 {
        all.extend(batch_ids(13, seed));
    }
    all.sort();
    all.dedup();
    assert_eq!(all.len(), 260);
    assert_eq!(WARMUP_SEED, 9_000_000);
}

#[test]
fn files_are_planned_in_order() {
    let mut s = file_sequence(2, 2);
    let mut all: Vec<(u64, u64, bool)> = Vec::new();
    while let Some(p) = s.next() {
        all.push((p.index, p.number, p.measured));
    }
    assert_eq!(
        all,
        vec![(0, 9_000_000, false), (1, 9_000_001, false), (0, 0, true), (1, 1, true)]
    );
}

#[test]
fn rows_need_a_number_of_64_bits() {
    assert!(rows_are_numbered(1000, 9_000_004));
    assert!(rows_are_numbered(0, u64::MAX));
    assert!(rows_are_numbered(1, u64::MAX));
    assert!(!rows_are_numbered(2, u64::MAX / 2 + 1));
    assert!(rows_are_numbered(2, u64::MAX / 2));
    assert!(!rows_are_numbered(u64::MAX, u64::MAX));
}

#[test]
fn keys_of_data_files() {
    assert_eq!(warmup_key("ns", 3), "ns/data/warmup-3.parquet");
    assert_eq!(data_key("ns", 3), "ns/data/part-00000003.parquet");
    assert_eq!(data_key("ns", 123456789), "ns/data/part-123456789.parquet");
    assert_ne!(data_key("ns", 3), data_key("ns", 30));
}

#[test]
fn paths_of_data_files() {
    assert_eq!(warmup_path("/a//b c%", 12), "a/b c%25/data/warmup-12.parquet");
    let f = data_file(&config(), "/a//b%", 12);
    assert_eq!(f.path, "a/b%25/data/part-00000012.parquet");
    assert_eq!(f.uri, "s3://warehouse/a//b%/data/part-00000012.parquet");
    assert_ne!(data_file(&config(), "..", 1).path, data_file(&config(), "..", 2).path);
    assert_eq!(data_file(&config(), "..", 1).path, "%2E%2E/data/part-00000001.parquet");
}

#[test]
fn the_catalog_that_is_written_to() {
    let c = write_catalog(&config(), None, "p", None, None);
    assert_eq!(c.base_url, "http://127.0.0.1:8181/catalog");
    assert_eq!(c.prefix, "p");
    assert_eq!(c.token, None);
    assert_eq!(c.commit_suffix, "");
    assert_eq!(c.location, Some("s3://warehouse/write_bench".to_string()));
    let c = write_catalog(
        &config(),
        Some("http://x".to_string()),
        "",
        Some("t".to_string()),
        Some("s3://y".to_string()),
    );
    assert_eq!(c.base_url, "http://x");
    assert_eq!(c.token, Some("t".to_string()));
    assert_eq!(c.location, Some("s3://y".to_string()));
}

fn tally() -> WriteTally {
    let mut t = WriteTally::new();
    t.record_write(1_500, 4_000_000);
    t.record_commit(7_000_000);
    t.record_write(500, 2_000_000);
    t.record_commit(5_000_000);
    t
}

#[test]
fn writes_and_commits_are_counted() {
    let t = tally();
    assert_eq!(t.writes, vec![4_000_000, 2_000_000]);
    assert_eq!(t.commits, vec![7_000_000, 5_000_000]);
    assert_eq!(t.bytes, 2_000);
}

#[test]
fn report_on_writes() {
    let r = tally().report(1000, 500_000_000);
    assert_eq!(r.name, "write-data");
    assert_eq!(r.status, BenchStatus::Ready);
    assert_eq!(r.phases.len(), 2);
    let w = &r.phases[0];
    assert_eq!(w.name, "parquet-write");
    assert_eq!(w.samples, 2);
    assert_eq!(w.p50_ms, Quantity::Millis(2_000_000));
    assert_eq!(w.p95_ms, Quantity::Millis(4_000_000));
    assert_eq!(w.throughput_per_s, Quantity::PerSecond(Rate { count: 2, nanos: 500_000_000 }));
    match &w.extra {
        Some(Json::Object(m)) => {
            assert_eq!(m.len(), 3);
            assert_eq!(m[0].key, "rows_per_file");
            assert!(matches!(m[0].value, Json::Unsigned(1000)));
            assert_eq!(m[1].key, "total_bytes");
            assert!(matches!(m[1].value, Json::Unsigned(2000)));
            assert_eq!(m[2].key, "bytes_per_s");
            assert!(matches!(m[2].value, Json::Real(Quantity::PerSecond(r))
                if r.count == 2000 && r.nanos == 500_000_000));
        }
        other => panic!("{:?}", other),
    }
    let c = &r.phases[1];
    assert_eq!(c.name, "catalog-commit");
    assert_eq!(c.samples, 2);
    assert_eq!(c.p50_ms, Quantity::Millis(5_000_000));
    assert_eq!(c.p95_ms, Quantity::Millis(7_000_000));
    assert!(c.extra.is_none());
    assert_eq!(
        r.notes.unwrap(),
        "REAL: Arrow->Parquet encode + S3 PUT to MinIO + a LakeCat set-properties commit. \
         SIMPLIFIED: the Parquet file is written to object storage but NOT registered into \
         the table manifest (this is not a full Iceberg add-data-file append, which needs \
         Sail's write path); the commit advances catalog metadata only."
    );
}

#[test]
fn no_time_gives_no_throughput() {
    let r = WriteTally::new().report(1, 0);
    assert_eq!(r.phases[0].throughput_per_s, Quantity::PerSecond(Rate { count: 0, nanos: 1 }));
    assert_eq!(r.phases[0].p50_ms, Quantity::Millis(0));
}

#[test]
fn lines_on_writes() {
    let mut out = String::new();
    for p in tally().to_text("http://h", 1000, 500_000_000).pieces {
        match p {
            Piece::Text(s) => out.push_str(&s),
            Piece::Number { value, width, decimals } => {
                let x = match value {
                    Quantity::Millis(n) => n as f64 / 1e6,
                    Quantity::PerSecond(r) => r.count as f64 / (r.nanos as f64 / 1e9),
                    other => panic!("{:?}", other),
                };
                out.push_str(&format!("{:>w$.d$}", x, w = width, d = decimals));
            }
        }
    }
    let want = "catalog-bench-write-data -> http://h (2 files × 1000 rows)\n\
\x20 parquet bytes written : 2000\n\
\x20 files/s               :      4.0\n\
\x20 write  p50/p95 ms     : 2.000 / 4.000\n\
\x20 commit p50/p95 ms     : 5.000 / 7.000\n";
    assert_eq!(out, want);
}
