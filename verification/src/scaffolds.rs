//! The benchmarks that are not wired up yet.

use crate::registry::{every_bench_is_found, named, registry};
use crate::report::{scaffold_model, BenchReport, BenchStatus, ReportModel};
use vstd::prelude::*;

verus! {

/// What the scan benchmark waits for.
pub const CACHE_SCAN_NOTES: &'static str = "Cold vs warm scan via Sail + the Foyer object-store cache. Requires: the Sail foyer cache layer (querygraph/sail branch feat/object-store-foyer-cache) + Sail scan wiring. Phases: cold-scan (S3 miss), warm-scan (Foyer hit), measuring p50/p95 latency + rows/s.";

/// What the read-write benchmark waits for.
pub const READ_WRITE_NOTES: &'static str = "Full INSERT + filtered-scan workload through LakeCat + Sail. Requires: verification of Sail's write path through the LakeCat REST catalog.";

/// The report of the cold-vs-warm scan benchmark.
pub open spec fn cache_scan_report() -> ReportModel {
    scaffold_model("cache-scan"@, CACHE_SCAN_NOTES@)
}

/// The report of the read-write workload benchmark.
pub open spec fn read_write_report() -> ReportModel {
    scaffold_model("read-write"@, READ_WRITE_NOTES@)
}

/// Each placeholder reports under the name of its own benchmark of the suite, and says in
/// its notes what that benchmark waits for, which nothing but a scaffold does.
pub proof fn placeholders_are_in_the_suite()
    ensures
        named(registry(), cache_scan_report().name) == Some(registry()[2]),
        named(registry(), read_write_report().name) == Some(registry()[4]),
        registry()[4].status == read_write_report().status,
        cache_scan_report().status == BenchStatus::Scaffold,
        cache_scan_report().notes == Some(CACHE_SCAN_NOTES@),
        read_write_report().notes == Some(READ_WRITE_NOTES@),
        cache_scan_report().phases.len() == 0 && read_write_report().phases.len() == 0,
{
    every_bench_is_found(2);
    every_bench_is_found(4);
}

/// The report of the cold-vs-warm scan benchmark: no measured phases yet, only what it
/// waits for.
pub fn cache_scan() -> (r: BenchReport)
    ensures
        r@ == cache_scan_report(),
{
    BenchReport::scaffold("cache-scan", CACHE_SCAN_NOTES)
}

/// The report of the read-write workload benchmark: no measured phases yet, only what it
/// waits for.
pub fn read_write() -> (r: BenchReport)
    ensures
        r@ == read_write_report(),
{
    BenchReport::scaffold("read-write", READ_WRITE_NOTES)
}

} // verus!
