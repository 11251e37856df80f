//! The benchmarks of the suite.

use crate::report::BenchStatus;
use crate::runs::{group_runs, has_run, lemma_run_behind, lemma_run_inside};
use crate::text::{decimal, decimal_text, left_aligned, pad_right, same};
use vstd::prelude::*;
use vstd::string::*;

verus! {

/// Static description of one benchmark in the suite.
#[derive(Debug, Clone, Copy)]
pub struct BenchSpec {
    /// Short name used on the command line.
    pub name: &'static str,
    /// Cargo package and binary name.
    pub package: &'static str,
    /// Whether the bench does real measured work yet.
    pub status: BenchStatus,
    /// One-line description.
    pub description: &'static str,
}

/// What a [`BenchSpec`] says.
pub struct SpecModel {
    pub name: Seq<char>,
    pub package: Seq<char>,
    pub status: BenchStatus,
    pub description: Seq<char>,
}

impl View for BenchSpec {
    type V = SpecModel;

    open spec fn view(&self) -> SpecModel {
        SpecModel {
            name: self.name@,
            package: self.package@,
            status: self.status,
            description: self.description@,
        }
    }
}

/// The benchmarks of the suite, in the order in which they are shown and run.
pub open spec fn registry() -> Seq<SpecModel> {
    seq![
        SpecModel {
            name: "commit"@,
            package: "catalog-bench-commit"@,
            status: BenchStatus::Ready,
            description: "Iceberg REST commit-path latency + throughput (LakeCat/Polaris/Gravitino/Nessie)."@,
        },
        SpecModel {
            name: "write-data"@,
            package: "catalog-bench-write-data"@,
            status: BenchStatus::Ready,
            description: "Real Parquet data files -> MinIO/S3 + a LakeCat commit (partial-real)."@,
        },
        SpecModel {
            name: "cache-scan"@,
            package: "catalog-bench-cache-scan"@,
            status: BenchStatus::Ready,
            description: "Cold vs warm Parquet scan via Sail's Foyer object-store cache (MinIO/S3)."@,
        },
        SpecModel {
            name: "rust-vs-jvm"@,
            package: "catalog-bench-rust-vs-jvm"@,
            status: BenchStatus::Ready,
            description: "Sail/DataFusion (Rust) vs Spark (JVM): same filter+aggregate over same MinIO Parquet (Spark phase needs Docker; falls back to Rust-only + container recipe otherwise)."@,
        },
        SpecModel {
            name: "read-write"@,
            package: "catalog-bench-read-write"@,
            status: BenchStatus::Scaffold,
            description: "Full INSERT + filtered-scan workload through LakeCat + Sail (scaffold)."@,
        },
    ]
}

/// What the descriptions say, in order.
pub open spec fn specs_model(v: Seq<BenchSpec>) -> Seq<SpecModel> {
    Seq::new(v.len(), |i: int| v[i]@)
}

/// The suite registry.
pub fn benches() -> (r: Vec<BenchSpec>)
    ensures
        specs_model(r@) == registry(),
{
    let mut r: Vec<BenchSpec> = Vec::new();
    r.push(
        BenchSpec {
            name: "commit",
            package: "catalog-bench-commit",
            status: BenchStatus::Ready,
            description: "Iceberg REST commit-path latency + throughput (LakeCat/Polaris/Gravitino/Nessie).",
        },
    );
    r.push(
        BenchSpec {
            name: "write-data",
            package: "catalog-bench-write-data",
            status: BenchStatus::Ready,
            description: "Real Parquet data files -> MinIO/S3 + a LakeCat commit (partial-real).",
        },
    );
    r.push(
        BenchSpec {
            name: "cache-scan",
            package: "catalog-bench-cache-scan",
            status: BenchStatus::Ready,
            description: "Cold vs warm Parquet scan via Sail's Foyer object-store cache (MinIO/S3).",
        },
    );
    r.push(
        BenchSpec {
            name: "rust-vs-jvm",
            package: "catalog-bench-rust-vs-jvm",
            status: BenchStatus::Ready,
            description: "Sail/DataFusion (Rust) vs Spark (JVM): same filter+aggregate over same MinIO Parquet (Spark phase needs Docker; falls back to Rust-only + container recipe otherwise).",
        },
    );
    r.push(
        BenchSpec {
            name: "read-write",
            package: "catalog-bench-read-write",
            status: BenchStatus::Scaffold,
            description: "Full INSERT + filtered-scan workload through LakeCat + Sail (scaffold).",
        },
    );
    assert(specs_model(r@) =~= registry());
    r
}

/// The first of the benchmarks with this name.
pub open spec fn named(specs: Seq<SpecModel>, name: Seq<char>) -> Option<SpecModel>
    decreases specs.len(),
{
    if specs.len() == 0 {
        None
    } else if specs[0].name == name {
        Some(specs[0])
    } else {
        named(specs.skip(1), name)
    }
}

/// Looks a benchmark up by its name.
pub fn find_bench(name: &str) -> (r: Option<BenchSpec>)
    ensures
        match r {
            Some(b) => named(registry(), name@) == Some(b@),
            None => named(registry(), name@) is None,
        },
{
    let all = benches();
    let mut i: usize = 0;
    let ghost specs = specs_model(all@);
    assert(specs.skip(0) == specs);
    while i < all.len()
        invariant
            i <= all@.len(),
            specs == specs_model(all@),
            specs == registry(),
            named(specs, name@) == named(specs.skip(i as int), name@),
        decreases all.len() - i,
    {
        if same(all[i].name, name) {
            return Some(all[i]);
        }
        assert(specs.skip(i as int).skip(1) == specs.skip(i + 1));
        i += 1;
    }
    None
}

/// Every benchmark of the suite is found under its own name, so no two share one.
pub proof fn every_bench_is_found(i: int)
    requires
        0 <= i < registry().len(),
    ensures
        named(registry(), registry()[i].name) == Some(registry()[i]),
{
    reveal_strlit("commit");
    reveal_strlit("write-data");
    reveal_strlit("cache-scan");
    reveal_strlit("rust-vs-jvm");
    reveal_strlit("read-write");
    let r = registry();
    assert("write-data"@[0] == 'w' && "cache-scan"@[0] == 'c' && "rust-vs-jvm"@[0] == 'r');
    assert("read-write"@[1] == 'e' && "read-write"@[0] == 'r' && "rust-vs-jvm"@[1] == 'u');
    assert("commit"@.len() == 6 && "cache-scan"@.len() == 10);
    reveal_with_fuel(named, 6);
    assert(r.skip(1)[0] == r[1]);
    assert(r.skip(1).skip(1)[0] == r[2]);
    assert(r.skip(1).skip(1).skip(1)[0] == r[3]);
    assert(r.skip(1).skip(1).skip(1).skip(1)[0] == r[4]);
}

/// A name finds the first benchmark that has it, and nothing exactly if none has it.
pub proof fn names_find_their_bench(specs: Seq<SpecModel>, name: Seq<char>, i: int)
    ensures
        named(specs, name) is None <==> forall|k: int|
            0 <= k < specs.len() ==> (#[trigger] specs[k]).name != name,
        0 <= i < specs.len() && specs[i].name == name && (forall|k: int|
            0 <= k < i ==> (#[trigger] specs[k]).name != name) ==> named(specs, name) == Some(
            specs[i],
        ),
        named(specs, name) matches Some(b) ==> b.name == name && specs.contains(b),
    decreases specs.len(),
{
    if specs.len() > 0 && specs[0].name != name {
        let rest = specs.skip(1);
        names_find_their_bench(rest, name, i - 1);
        assert(forall|k: int| 0 <= k < rest.len() ==> #[trigger] rest[k] == specs[k + 1]);
        assert(forall|k: int| 1 <= k < specs.len() ==> #[trigger] specs[k] == rest[k - 1]);
        if let Some(b) = named(specs, name) {
            let k = choose|k: int| 0 <= k < rest.len() && rest[k] == b;
            assert(specs[k + 1] == b);
        }
    } else if specs.len() > 0 {
        assert(specs.contains(specs[0]));
    }
}

/// Every benchmark of the suite is a package of its own, called by its name behind that of
/// the suite; all of them are ready, but for the one that reads and writes.
pub proof fn benches_have_packages_of_their_own(i: int)
    requires
        0 <= i < registry().len(),
    ensures
        registry()[i].package == "catalog-bench-"@ + registry()[i].name,
        registry()[i].status == BenchStatus::Scaffold <==> registry()[i].name == "read-write"@,
{
    reveal_strlit("catalog-bench-");
    reveal_strlit("commit");
    reveal_strlit("write-data");
    reveal_strlit("cache-scan");
    reveal_strlit("rust-vs-jvm");
    reveal_strlit("read-write");
    reveal_strlit("catalog-bench-commit");
    reveal_strlit("catalog-bench-write-data");
    reveal_strlit("catalog-bench-cache-scan");
    reveal_strlit("catalog-bench-rust-vs-jvm");
    reveal_strlit("catalog-bench-read-write");
    let base = "catalog-bench-"@;
    assert("catalog-bench-commit"@ =~= base + "commit"@);
    assert("catalog-bench-write-data"@ =~= base + "write-data"@);
    assert("catalog-bench-cache-scan"@ =~= base + "cache-scan"@);
    assert("catalog-bench-rust-vs-jvm"@ =~= base + "rust-vs-jvm"@);
    assert("catalog-bench-read-write"@ =~= base + "read-write"@);
    assert("read-write"@[0] == 'r' && "read-write"@[1] == 'e');
    assert("write-data"@[0] == 'w' && "cache-scan"@[0] == 'c' && "commit"@[0] == 'c');
    assert("rust-vs-jvm"@[1] == 'u');
}

/// One row of a table of benchmarks.
pub open spec fn row(name: Seq<char>, status: Seq<char>, rest: Seq<char>) -> Seq<char> {
    "  "@ + pad_right(name, 13) + " "@ + pad_right(status, 9) + " "@ + rest + "\n"@
}

/// Writes one row of a table of benchmarks.
pub fn row_text(name: &str, status: &str, rest: &str) -> (out: String)
    ensures
        out@ == row(name@, status@, rest@),
{
    let mut out = "  ".to_owned();
    out.append(&left_aligned(name, 13));
    out.append(" ");
    out.append(&left_aligned(status, 9));
    out.append(" ");
    out.append(rest);
    out.append("\n");
    out
}

/// The rows of the benchmarks.
pub open spec fn list_rows(specs: Seq<SpecModel>) -> Seq<char>
    decreases specs.len(),
{
    if specs.len() == 0 {
        Seq::empty()
    } else {
        list_rows(specs.drop_last()) + row(
            specs.last().name,
            specs.last().status.label_text(),
            specs.last().description,
        )
    }
}

/// What listing the suite prints.
pub open spec fn listing() -> Seq<char> {
    "catalog-bench suite — "@ + decimal(registry().len()) + " benchmarks\n\n"@ + row(
        "NAME"@,
        "STATUS"@,
        "DESCRIPTION"@,
    ) + row("----"@, "------"@, "-----------"@) + list_rows(registry())
        + "\nRun one:  catalog-bench run <name> -- <bench args>\nRun all:  catalog-bench run all [--include-scaffold]\n"@
}

/// The rows of benchmarks stand one behind the other, in their order.
pub proof fn lists_keep_the_order(a: Seq<SpecModel>, b: Seq<SpecModel>)
    ensures
        list_rows(a + b) == list_rows(a) + list_rows(b),
        name_rows(a + b) == name_rows(a) + name_rows(b),
    decreases b.len(),
{
    if b.len() == 0 {
        assert(a + b =~= a);
        assert(list_rows(a) + list_rows(b) =~= list_rows(a));
        assert(name_rows(a) + name_rows(b) =~= name_rows(a));
    } else {
        assert((a + b).drop_last() =~= a + b.drop_last());
        lists_keep_the_order(a, b.drop_last());
        assert(list_rows(a + b) =~= list_rows(a) + list_rows(b));
        assert(name_rows(a + b) =~= name_rows(a) + name_rows(b));
    }
}

proof fn lemma_run_in_lists(specs: Seq<SpecModel>, i: int)
    requires
        0 <= i < specs.len(),
    ensures
        has_run(
            list_rows(specs),
            row(specs[i].name, specs[i].status.label_text(), specs[i].description),
        ),
        has_run(name_rows(specs), "  - "@ + specs[i].name + "\n"@),
    decreases specs.len(),
{
    broadcast use group_runs;

    let front = specs.drop_last();
    if i < front.len() {
        lemma_run_in_lists(front, i);
    } else {
        let last = row(specs[i].name, specs[i].status.label_text(), specs[i].description);
        assert(has_run(last, last));
        lemma_run_behind(list_rows(front), last, last);
    }
}

/// The list of the suite says how many benchmarks there are, and shows each of them with its
/// own name, status and description, in this order; and the message about a name that is
/// none repeats it and gives the name of each.
pub proof fn lists_show_every_bench(i: int, name: Seq<char>)
    requires
        0 <= i < registry().len(),
    ensures
        ({
            let b = registry()[i];
            let label = match b.status {
                BenchStatus::Ready => "ready"@,
                BenchStatus::Scaffold => "scaffold"@,
            };
            &&& has_run(listing(), "  "@ + pad_right(b.name, 13) + " "@ + pad_right(label, 9))
            &&& has_run(listing(), pad_right(label, 9) + " "@ + b.description + "\n"@)
            &&& has_run(
                listing(),
                "catalog-bench suite — "@ + decimal(registry().len()) + " benchmarks\n\n"@,
            )
            &&& has_run(unknown_message(name), "error: unknown bench '"@ + name + "'. Known benches:\n"@)
            &&& has_run(unknown_message(name), "  - "@ + b.name + "\n"@)
        }),
{
    broadcast use group_runs;

    let b = registry()[i];
    let label = b.status.label_text();
    let line = row(b.name, label, b.description);
    lemma_run_in_lists(registry(), i);
    let rows = list_rows(registry());
    let head = "catalog-bench suite — "@ + decimal(registry().len()) + " benchmarks\n\n"@ + row(
        "NAME"@,
        "STATUS"@,
        "DESCRIPTION"@,
    ) + row("----"@, "------"@, "-----------"@);
    let x = "  "@ + pad_right(b.name, 13) + " "@ + pad_right(label, 9);
    let y = pad_right(label, 9) + " "@ + b.description + "\n"@;
    assert(has_run(line, x));
    assert(has_run(line, y));
    lemma_run_inside(rows, line, x);
    lemma_run_inside(rows, line, y);
    lemma_run_behind(head, rows, x);
    lemma_run_behind(head, rows, y);
    lemma_run_behind(
        "error: unknown bench '"@ + name + "'. Known benches:\n"@,
        name_rows(registry()),
        "  - "@ + b.name + "\n"@,
    );
}

/// The list is a heading that names the columns, a row for each benchmark, and how to run
/// one or all. A row has a name and a status, each as wide as its column, and what stands
/// behind them, and nothing else.
pub proof fn lists_have_nothing_else(name: Seq<char>, status: Seq<char>, rest: Seq<char>)
    requires
        name.len() <= 13,
        status.len() <= 9,
    ensures
        ({
            let line = row(name, status, rest);
            &&& line.len() == 26 + rest.len() + 1
            &&& line.subrange(2, 2int + name.len()) == name
            &&& line.subrange(16, 16int + status.len()) == status
            &&& line.subrange(26, 26int + rest.len()) == rest
            &&& line.last() == '\n'
            &&& forall|i: int|
                0 <= i < 26 && !(2 <= i < 2 + name.len()) && !(16 <= i < 16 + status.len())
                    ==> #[trigger] line[i] == ' '
            &&& listing() == "catalog-bench suite — "@ + decimal(registry().len())
                + " benchmarks\n\n"@ + row("NAME"@, "STATUS"@, "DESCRIPTION"@) + row(
                "----"@,
                "------"@,
                "-----------"@,
            ) + list_rows(registry())
                + "\nRun one:  catalog-bench run <name> -- <bench args>\nRun all:  catalog-bench run all [--include-scaffold]\n"@
        }),
{
    reveal_strlit("  ");
    reveal_strlit(" ");
    reveal_strlit("\n");
    let line = row(name, status, rest);
    assert(line.subrange(2, 2int + name.len()) =~= name);
    assert(line.subrange(16, 16int + status.len()) =~= status);
    assert(line.subrange(26, 26int + rest.len()) =~= rest);
}

/// Lists every benchmark with its status and description.
pub fn list_text() -> (r: String)
    ensures
        r@ == listing(),
{
    let all = benches();
    let mut rows = String::new();
    let mut i: usize = 0;
    let ghost specs = specs_model(all@);
    while i < all.len()
        invariant
            i <= all@.len(),
            specs == specs_model(all@),
            rows@ == list_rows(specs.take(i as int)),
        decreases all.len() - i,
    {
        rows.append(&row_text(all[i].name, all[i].status.label(), all[i].description));
        assert(specs.take(i + 1).drop_last() == specs.take(i as int));
        i += 1;
    }
    assert(specs.take(i as int) == specs);
    let mut out = "catalog-bench suite — ".to_owned();
    out.append(&decimal_text(all.len() as u64));
    out.append(" benchmarks\n\n");
    out.append(&row_text("NAME", "STATUS", "DESCRIPTION"));
    out.append(&row_text("----", "------", "-----------"));
    out.append(&rows);
    out.append(
        "\nRun one:  catalog-bench run <name> -- <bench args>\nRun all:  catalog-bench run all [--include-scaffold]\n",
    );
    out
}

/// The names of the benchmarks, one to a line.
pub open spec fn name_rows(specs: Seq<SpecModel>) -> Seq<char>
    decreases specs.len(),
{
    if specs.len() == 0 {
        Seq::empty()
    } else {
        name_rows(specs.drop_last()) + "  - "@ + specs.last().name + "\n"@
    }
}

/// The message about a benchmark that does not exist.
pub open spec fn unknown_message(name: Seq<char>) -> Seq<char> {
    "error: unknown bench '"@ + name + "'. Known benches:\n"@ + name_rows(registry())
}

/// What a name on the command line asks for.
#[derive(Debug)]
pub enum Selection {
    /// Every benchmark.
    All,
    /// One benchmark.
    One(BenchSpec),
    /// No benchmark, with the message about it.
    Unknown(String),
}

/// What a [`Selection`] says.
pub enum SelectionModel {
    All,
    One(SpecModel),
    Unknown(Seq<char>),
}

impl View for Selection {
    type V = SelectionModel;

    open spec fn view(&self) -> SelectionModel {
        match *self {
            Selection::All => SelectionModel::All,
            Selection::One(b) => SelectionModel::One(b@),
            Selection::Unknown(m) => SelectionModel::Unknown(m@),
        }
    }
}

/// What a name asks for.
pub open spec fn selected(name: Seq<char>) -> SelectionModel {
    if name == "all"@ {
        SelectionModel::All
    } else {
        match named(registry(), name) {
            Some(spec) => SelectionModel::One(spec),
            None => SelectionModel::Unknown(unknown_message(name)),
        }
    }
}

/// All benchmarks are selected by `all` and nothing else, and each benchmark of the suite by
/// its own name. Any other name is unknown, which the message says of it.
pub proof fn names_select_their_bench(name: Seq<char>, i: int)
    requires
        0 <= i < registry().len(),
    ensures
        selected(name) is All <==> name == seq!['a', 'l', 'l'],
        selected(registry()[i].name) == SelectionModel::One(registry()[i]),
        selected(name) matches SelectionModel::One(b) ==> b.name == name && registry().contains(b),
        selected(name) is Unknown <==> name != seq!['a', 'l', 'l'] && forall|k: int|
            0 <= k < registry().len() ==> (#[trigger] registry()[k]).name != name,
        selected(name) matches SelectionModel::Unknown(m) ==> has_run(
            m,
            "error: unknown bench '"@ + name + "'. Known benches:\n"@,
        ),
{
    reveal_strlit("all");
    reveal_strlit("commit");
    reveal_strlit("write-data");
    reveal_strlit("cache-scan");
    reveal_strlit("rust-vs-jvm");
    reveal_strlit("read-write");
    assert("all"@ =~= seq!['a', 'l', 'l']);
    assert("commit"@.len() == 6 && "write-data"@.len() == 10 && "cache-scan"@.len() == 10);
    assert("rust-vs-jvm"@.len() == 11 && "read-write"@.len() == 10);
    every_bench_is_found(i);
    names_find_their_bench(registry(), name, i);
    lists_show_every_bench(i, name);
}

/// Finds what to run: `all`, or a benchmark by its name.
pub fn select(name: &str) -> (r: Selection)
    ensures
        r@ == selected(name@),
{
    if same(name, "all") {
        return Selection::All;
    }
    match find_bench(name) {
        Some(spec) => Selection::One(spec),
        None => {
            let all = benches();
            let mut rows = String::new();
            let mut i: usize = 0;
            let ghost specs = specs_model(all@);
            while i < all.len()
                invariant
                    i <= all@.len(),
                    specs == specs_model(all@),
                    rows@ == name_rows(specs.take(i as int)),
                decreases all.len() - i,
            {
                rows.append("  - ");
                rows.append(all[i].name);
                rows.append("\n");
                assert(specs.take(i + 1).drop_last() == specs.take(i as int));
                i += 1;
            }
            assert(specs.take(i as int) == specs);
            let mut out = "error: unknown bench '".to_owned();
            out.append(name);
            out.append("'. Known benches:\n");
            out.append(&rows);
            Selection::Unknown(out)
        },
    }
}

} // verus!
