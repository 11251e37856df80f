# catalog_bench

Building blocks of a benchmark suite for Iceberg REST catalogs, verified with
[Verus](https://github.com/verus-lang/verus).

The suite measures what query-engine benchmarks leave out: the catalog's commit
transaction (`commit`), writing real Parquet files followed by a commit
(`write-data`), and one filter+aggregate query on two engines (`rust-vs-jvm`). Two
more benchmarks (`cache-scan`, `read-write`) are placeholders that report what they
wait for. A driver lists them, runs one or all, and sums their reports up.

## Layout

| Where | What |
|---|---|
| `src/` | the library: every decision, every request, command, message and report, proved against its contract |
| `tests/` | tests of the library, with the outside crates linked |
| `app/` | the programs: arguments, HTTP, object store, processes, clocks, floating point |

| Module | What it holds |
|---|---|
| `text` | trimming, lines, joining, padding, decimal digits, replacing |
| `measure` | percentiles, throughput, and numbers by the integers that determine them |
| `json`, `doc` | JSON documents, and text with places for numbers |
| `report`, `wire`, `pages` | the report of a benchmark: its parts, its JSON form, its printed form |
| `config` | the shared environment |
| `catalog` | requests to a catalog and the meaning of its replies |
| `plan` | the order of warmup and measured work |
| `commits` | the commit benchmark |
| `columns`, `write_data` | the write benchmark |
| `query`, `spark`, `comparison` | the comparison of the engines |
| `scaffolds` | the placeholder benchmarks |
| `registry`, `driver` | the suite and its driver |

## How numbers are kept

Times are whole nanoseconds, so ranking and counting are exact. A number that is shown
as a decimal fraction is a `Quantity`, which names the integers it comes from; the
programs turn it into a floating-point number when they print it.

## What is trusted

Contracts of outside functions are believed, not proved. Each stands with a doc comment
that says what it claims: `String::push`; in `catalog`, `serde_json::from_slice`,
`Value::pointer` and `Value::as_str`; in `write_data`, `object_store::path::Path::from`;
in `query`, `url::Url::parse` and DataFusion's `ListingTableUrl::parse`.
