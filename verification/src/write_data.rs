//! The write benchmark: real Parquet files in the object store, each recorded in the
//! catalog by a commit.

use crate::catalog::Catalog;
use crate::config::{s3_address, BenchConfig, ConfigModel};
use crate::doc::{number, plain, Doc, Token};
use crate::json::{
    has_members, holds, keys_differ, members_model, names_no_key_twice, no_members, object,
    objects_hold_their_members, put, Json, JsonModel,
};
use crate::measure::{
    is_percentile, percentile, percentile_of, percentile_splits_the_samples, throughput,
    throughput_of, Quantity,
};
use crate::plan::Sequence;
use crate::report::{
    optional_text, phases_model, tells_the_rate, tells_the_samples, BenchReport, BenchStatus, Phase,
    PhaseModel, ReportModel,
};
use crate::runs::{group_runs, has_run};
use crate::text::{
    decimal, decimal_text, digit, lemma_decimal_digits, lemma_decimal_value, lemma_leading_zeros,
    lemma_padded_decimal_injective, pad_left, right_aligned, value,
};
use crate::wire::{report_of, report_tree, reports_round_trip};
use vstd::prelude::*;
use vstd::string::*;

verus! {

/// The signed number with the same 64 bits.
pub open spec fn signed(n: int) -> int {
    if n < 0x8000_0000_0000_0000 {
        n
    } else {
        n - 0x1_0000_0000_0000_0000
    }
}

/// Whether every row of a file has a number of 64 bits.
pub open spec fn rows_fit(rows: u64, seed: u64) -> bool {
    rows > 0 ==> seed * rows + (rows - 1) <= u64::MAX
}

/// Tests whether every row of a file has a number of 64 bits.
pub fn rows_are_numbered(rows: u64, seed: u64) -> (r: bool)
    ensures
        r == rows_fit(rows, seed),
{
    if rows == 0 {
        return true;
    }
    proof {
        assert(0 <= seed * rows <= 0xffff_ffff_ffff_ffff * 0xffff_ffff_ffff_ffff)
            by (nonlinear_arith)
            requires
                0 <= seed <= 0xffff_ffff_ffff_ffff,
                0 <= rows <= 0xffff_ffff_ffff_ffff,
        ;
    }
    (seed as u128) * (rows as u128) + ((rows - 1) as u128) <= 0xffff_ffff_ffff_ffff
}

/// The `id` of a row.
pub open spec fn row_id(rows: u64, seed: u64, r: int) -> int {
    signed(seed * rows + r)
}

/// The first row of the first file has the `id` zero, every row has the `id` behind that of
/// the row before it, and every file goes on where the one before it ended.
pub proof fn row_ids_are_consecutive(rows: u64, seed: u64, r: int)
    requires
        0 <= r < rows,
        0 < seed,
        seed * rows + r < 0x8000_0000_0000_0000,
    ensures
        row_id(rows, 0, 0) == 0,
        r > 0 ==> row_id(rows, seed, r) == row_id(rows, seed, r - 1) + 1,
        row_id(rows, seed, 0) == row_id(rows, (seed - 1) as u64, rows - 1) + 1,
{
    let (s, n) = (seed as int, rows as int);
    assert(0 <= s * n && (s - 1) * n + n == s * n && 0 * n == 0) by (nonlinear_arith)
        requires
            s > 0,
            n > 0,
    ;
}

/// The `id` of a row is its number over all files, in the range of signed numbers: above
/// that range it goes on at its lower end.
pub proof fn row_ids_keep_their_bits(rows: u64, seed: u64, r: int)
    requires
        rows_fit(rows, seed),
        0 <= r < rows,
    ensures
        i64::MIN <= row_id(rows, seed, r) <= i64::MAX,
        row_id(rows, seed, r) == seed * rows + r || row_id(rows, seed, r) == seed * rows + r
            - 0x1_0000_0000_0000_0000,
{
    assert(0 <= seed * rows) by (nonlinear_arith)
        requires
            0 <= seed,
            0 <= rows,
    ;
}

/// A file can be written exactly if every one of its rows has a number of 64 bits.
pub proof fn every_row_has_to_fit(rows: u64, seed: u64)
    ensures
        rows_fit(rows, seed) <==> forall|r: int|
            0 <= r < rows ==> #[trigger] row_number(rows, seed, r) <= u64::MAX,
{
    if !rows_fit(rows, seed) {
        assert(row_number(rows, seed, rows - 1) > u64::MAX);
    }
}

/// The number of a row over all files.
pub open spec fn row_number(rows: u64, seed: u64, r: int) -> int {
    seed * rows + r
}

/// The `id` column of the file with this seed.
pub fn batch_ids(rows: u64, seed: u64) -> (ids: Vec<i64>)
    requires
        rows_fit(rows, seed),
    ensures
        ids@.len() == rows,
        forall|r: int| 0 <= r < rows ==> #[trigger] ids@[r] == row_id(rows, seed, r),
{
    let mut ids: Vec<i64> = Vec::new();
    let mut r: u64 = 0;
    while r < rows
        invariant
            r <= rows,
            rows_fit(rows, seed),
            ids@.len() == r,
            forall|k: int| 0 <= k < r ==> #[trigger] ids@[k] == row_id(rows, seed, k),
        decreases rows - r,
    {
        proof {
            assert(0 <= seed * rows) by (nonlinear_arith)
                requires
                    0 <= seed,
                    0 <= rows,
            ;
        }
        let n: u64 = seed * rows + r;
        assert(n < 0x8000_0000_0000_0000 ==> n as i64 == n) by (bit_vector);
        assert(n >= 0x8000_0000_0000_0000 ==> n as i64 == n - 0x1_0000_0000_0000_0000)
            by (bit_vector);
        ids.push(n as i64);
        r += 1;
    }
    ids
}

/// The name of a row.
pub open spec fn row_name(seed: nat, r: nat) -> Seq<char> {
    "row-"@ + decimal(seed) + "-"@ + decimal(r)
}

/// The `name` column of the file with this seed.
pub fn batch_names(rows: u64, seed: u64) -> (names: Vec<String>)
    ensures
        names@.len() == rows,
        forall|r: int|
            0 <= r < rows ==> (#[trigger] names@[r])@ == row_name(seed as nat, r as nat),
{
    let mut names: Vec<String> = Vec::new();
    let mut r: u64 = 0;
    while r < rows
        invariant
            r <= rows,
            names@.len() == r,
            forall|k: int|
                0 <= k < r ==> (#[trigger] names@[k])@ == row_name(seed as nat, k as nat),
        decreases rows - r,
    {
        let mut name = "row-".to_owned();
        name.append(&decimal_text(seed));
        name.append("-");
        name.append(&decimal_text(r));
        names.push(name);
        r += 1;
    }
    names
}

/// No two rows of any files with the same number of rows have the same `id`.
pub proof fn row_ids_are_unique(rows: u64, seed1: u64, r1: int, seed2: u64, r2: int)
    requires
        rows_fit(rows, seed1),
        rows_fit(rows, seed2),
        0 <= r1 < rows,
        0 <= r2 < rows,
        row_id(rows, seed1, r1) == row_id(rows, seed2, r2),
    ensures
        seed1 == seed2,
        r1 == r2,
{
    let (a, b) = (seed1 as int, seed2 as int);
    let n = rows as int;
    assert(0 <= a * n && 0 <= b * n) by (nonlinear_arith)
        requires
            0 <= a,
            0 <= b,
            0 <= n,
    ;
    assert(a * n + r1 == b * n + r2);
    if a < b {
        assert(a * n + n <= b * n) by (nonlinear_arith)
            requires
                a + 1 <= b,
                0 <= n,
        ;
    } else if b < a {
        assert(b * n + n <= a * n) by (nonlinear_arith)
            requires
                b + 1 <= a,
                0 <= n,
        ;
    }
}

/// The name of a row tells its file and its place in it.
pub proof fn row_names_tell_the_row(seed: nat, r: nat)
    ensures
        row_name(seed, r) == row_name(seed, 0).drop_last() + decimal(r),
        row_name(seed, 0) == "row-"@ + decimal(seed) + "-0"@,
{
    reveal_strlit("-0");
    reveal_strlit("-");
    assert(decimal(0) =~= seq!['0']) by {
        assert(digit(0) == '0');
    }
    assert("-0"@ =~= "-"@ + decimal(0));
    let front = "row-"@ + decimal(seed);
    assert(row_name(seed, 0) =~= front + "-0"@);
    assert(row_name(seed, 0).drop_last() =~= front + "-"@);
}

/// No two rows have the same name.
pub proof fn row_names_are_unique(seed1: nat, r1: nat, seed2: nat, r2: nat)
    requires
        row_name(seed1, r1) == row_name(seed2, r2),
    ensures
        seed1 == seed2,
        r1 == r2,
{
    let (s, t) = (row_name(seed1, r1), row_name(seed2, r2));
    let (d1, d2) = (decimal(seed1), decimal(seed2));
    lemma_decimal_digits(seed1);
    lemma_decimal_digits(seed2);
    reveal_strlit("row-");
    reveal_strlit("-");
    let (k1, k2) = (4 + d1.len() as int, 4 + d2.len() as int);
    assert(s[k1] == '-' && t[k2] == '-');
    if k1 < k2 {
        assert(t[k1] == d2[k1 - 4]);
    } else if k2 < k1 {
        assert(s[k2] == d1[k2 - 4]);
    }
    assert(d1 =~= s.subrange(4, k1));
    assert(d2 =~= t.subrange(4, k2));
    assert(decimal(r1) =~= s.skip(k1 + 1));
    assert(decimal(r2) =~= t.skip(k2 + 1));
    lemma_decimal_value(seed1);
    lemma_decimal_value(seed2);
    lemma_decimal_value(r1);
    lemma_decimal_value(r2);
}

/// The seed of the first warmup file.
pub const WARMUP_SEED: u64 = 9_000_000;

/// The files that are written one after the other, before the first.
pub open spec fn file_plan(warmup: u64, iterations: u64) -> Sequence {
    Sequence { base: WARMUP_SEED, warmup, iterations, warmed: 0, measured: 0 }
}

/// As many files are written as asked for. Those that warm up have the seeds from nine
/// million on, and those that are measured the seeds from zero on.
pub proof fn files_are_planned_as_asked(warmup: u64, iterations: u64)
    requires
        9_000_000 + warmup <= u64::MAX + 1,
    ensures
        ({
            let s = file_plan(warmup, iterations);
            &&& s.wf()
            &&& s.warmed == 0 && s.measured == 0
            &&& s.warmup == warmup && s.iterations == iterations
            &&& s.planned() is None <==> warmup + iterations == 0
            &&& s.planned() matches Some(p) ==> {
                &&& p.index == 0
                &&& p.measured <==> warmup == 0
                &&& p.number == if warmup == 0 {
                    0int
                } else {
                    9_000_000
                }
            }
        }),
{
}

/// The files that are written one after the other; the number of each is its seed.
pub fn file_sequence(warmup: u64, iterations: u64) -> (r: Sequence)
    requires
        WARMUP_SEED + warmup <= u64::MAX + 1,
    ensures
        r == file_plan(warmup, iterations),
        r.wf(),
{
    Sequence::new(WARMUP_SEED, warmup, iterations)
}

/// The object key of the `i`th warmup file.
pub open spec fn warmup_key_of(ns: Seq<char>, i: nat) -> Seq<char> {
    ns + "/data/warmup-"@ + decimal(i) + ".parquet"@
}

/// The object key of the `i`th measured file.
pub open spec fn data_key_of(ns: Seq<char>, i: nat) -> Seq<char> {
    ns + "/data/part-"@ + pad_left(decimal(i), '0', 8) + ".parquet"@
}

/// The object key of the `i`th warmup file.
pub fn warmup_key(ns: &str, i: u64) -> (r: String)
    ensures
        r@ == warmup_key_of(ns@, i as nat),
{
    let mut out = ns.to_owned();
    out.append("/data/warmup-");
    out.append(&decimal_text(i));
    out.append(".parquet");
    out
}

/// The object key of the `i`th measured file.
pub fn data_key(ns: &str, i: u64) -> (r: String)
    ensures
        r@ == data_key_of(ns@, i as nat),
{
    let mut out = ns.to_owned();
    out.append("/data/part-");
    out.append(&right_aligned(&decimal_text(i), '0', 8));
    out.append(".parquet");
    out
}

/// No two measured files of a namespace have the same object key.
pub proof fn data_keys_differ(ns: Seq<char>, i: nat, j: nat)
    requires
        data_key_of(ns, i) == data_key_of(ns, j),
    ensures
        i == j,
{
    let (s, t) = (data_key_of(ns, i), data_key_of(ns, j));
    let from = (ns.len() + "/data/part-"@.len()) as int;
    let to = s.len() - ".parquet"@.len();
    assert(pad_left(decimal(i), '0', 8) =~= s.subrange(from, to));
    assert(pad_left(decimal(j), '0', 8) =~= t.subrange(from, to));
    lemma_padded_decimal_injective(i, j, 8);
}

/// A data file is kept in the directory `data` of its namespace, under its own name.
pub proof fn keys_lie_in_the_namespace(ns: Seq<char>, i: nat)
    ensures
        warmup_key_of(ns, i) == ns + "/data/"@ + warmup_name(i),
        data_key_of(ns, i) == ns + "/data/"@ + data_name(i),
{
    reveal_strlit("/data/warmup-");
    reveal_strlit("/data/part-");
    reveal_strlit("/data/");
    reveal_strlit("warmup-");
    reveal_strlit("part-");
    assert(warmup_key_of(ns, i) =~= ns + "/data/"@ + warmup_name(i));
    assert(data_key_of(ns, i) =~= ns + "/data/"@ + data_name(i));
}

/// The name of a measured file is a Parquet file's, with the number of the file in at least
/// eight digits.
pub proof fn data_names_tell_the_number(i: nat)
    ensures
        ({
            let name = data_name(i);
            let digits = name.subrange(5, name.len() - 8);
            &&& name.len() >= 21
            &&& name.take(5) == "part-"@
            &&& name.skip(name.len() - 8) == ".parquet"@
            &&& value(digits) == i
        }),
{
    reveal_strlit("part-");
    reveal_strlit(".parquet");
    let name = data_name(i);
    let padded = pad_left(decimal(i), '0', 8);
    assert(name.take(5) =~= "part-"@);
    assert(name.skip(name.len() - 8) =~= ".parquet"@);
    assert(name.subrange(5, name.len() - 8) =~= padded);
    lemma_decimal_value(i);
    if decimal(i).len() < 8 {
        lemma_leading_zeros(decimal(i), (8 - decimal(i).len()) as nat);
    }
}

/// What stands behind the last `/` of a path.
pub open spec fn file_name(path: Seq<char>) -> Seq<char>
    decreases path.len(),
{
    if path.len() == 0 || path.last() == '/' {
        Seq::empty()
    } else {
        file_name(path.drop_last()).push(path.last())
    }
}

/// Whether a character stands for itself in every object store.
pub open spec fn is_safe(c: char) -> bool {
    ||| 'a' <= c <= 'z'
    ||| 'A' <= c <= 'Z'
    ||| '0' <= c <= '9'
    ||| c == '-'
    ||| c == '.'
}

/// Whether an object store keeps a file name as it is: it is longer than the names of the
/// directory itself and of the one above it, and made of safe characters.
pub open spec fn is_safe_name(name: Seq<char>) -> bool {
    &&& name.len() > 2
    &&& forall|i: int| 0 <= i < name.len() ==> is_safe(#[trigger] name[i])
}

/// The file name of the `i`th warmup file.
pub open spec fn warmup_name(i: nat) -> Seq<char> {
    "warmup-"@ + decimal(i) + ".parquet"@
}

/// The file name of the `i`th measured file.
pub open spec fn data_name(i: nat) -> Seq<char> {
    "part-"@ + pad_left(decimal(i), '0', 8) + ".parquet"@
}

proof fn lemma_file_name(front: Seq<char>, name: Seq<char>)
    requires
        front.len() > 0,
        front.last() == '/',
        !name.contains('/'),
    ensures
        file_name(front + name) == name,
    decreases name.len(),
{
    let path = front + name;
    if name.len() == 0 {
        assert(path.last() == '/');
        assert(name =~= Seq::<char>::empty());
    } else {
        let short = name.drop_last();
        assert forall|i: int| 0 <= i < short.len() implies short[i] != '/' by {
            assert(name.contains(name[i]));
        }
        assert(name.contains(name.last()));
        assert(path.drop_last() =~= front + short);
        lemma_file_name(front, short);
        assert(short.push(name.last()) =~= name);
    }
}

proof fn lemma_warmup_name(ns: Seq<char>, i: nat)
    ensures
        file_name(warmup_key_of(ns, i)) == warmup_name(i),
        is_safe_name(warmup_name(i)),
{
    reveal_strlit("/data/warmup-");
    reveal_strlit("/data/");
    reveal_strlit("warmup-");
    reveal_strlit(".parquet");
    lemma_decimal_digits(i);
    let (d, name) = (decimal(i), warmup_name(i));
    assert forall|k: int| 0 <= k < name.len() implies is_safe(#[trigger] name[k]) by {
        if 7 <= k < 7 + d.len() {
            assert(name[k] == d[k - 7]);
        }
    }
    lemma_safe_has_no_slash(name);
    assert(warmup_key_of(ns, i) =~= (ns + "/data/"@) + name);
    lemma_file_name(ns + "/data/"@, name);
}

proof fn lemma_data_name(ns: Seq<char>, i: nat)
    ensures
        file_name(data_key_of(ns, i)) == data_name(i),
        is_safe_name(data_name(i)),
{
    reveal_strlit("/data/part-");
    reveal_strlit("/data/");
    reveal_strlit("part-");
    reveal_strlit(".parquet");
    lemma_decimal_digits(i);
    let (d, padded, name) = (decimal(i), pad_left(decimal(i), '0', 8), data_name(i));
    assert forall|k: int| 0 <= k < name.len() implies is_safe(#[trigger] name[k]) by {
        if 5 <= k < 5 + padded.len() {
            assert(name[k] == padded[k - 5]);
            if padded.len() > d.len() && k - 5 >= padded.len() - d.len() {
                assert(padded[k - 5] == d[k - 5 - (padded.len() - d.len())]);
            }
        }
    }
    lemma_safe_has_no_slash(name);
    assert(data_key_of(ns, i) =~= (ns + "/data/"@) + name);
    lemma_file_name(ns + "/data/"@, name);
}

proof fn lemma_safe_has_no_slash(name: Seq<char>)
    requires
        is_safe_name(name),
    ensures
        !name.contains('/'),
{
    assert forall|i: int| 0 <= i < name.len() implies name[i] != '/' by {
        assert(is_safe(name[i]));
    }
}

/// The path under which the object store keeps the object with this key.
pub uninterp spec fn object_path_of(key: Seq<char>) -> Seq<char>;

/// `object_store::path::Path::from` makes a path of a key: it drops empty segments and
/// percent-encodes what object stores should not be given. A key whose last segment holds
/// nothing of the kind keeps it. Nothing else is said of what the path looks like, only
/// that it is a function of the key.
#[verifier::external_body]
fn encode_path(key: String) -> (r: String)
    ensures
        r@ == object_path_of(key@),
        is_safe_name(file_name(key@)) ==> file_name(r@) == file_name(key@),
{
    String::from(object_store::path::Path::from(key))
}

/// Where the `i`th warmup file goes.
pub fn warmup_path(ns: &str, i: u64) -> (r: String)
    ensures
        r@ == object_path_of(warmup_key_of(ns@, i as nat)),
        file_name(r@) == warmup_name(i as nat),
{
    proof {
        lemma_warmup_name(ns@, i as nat);
    }
    encode_path(warmup_key(ns, i))
}

/// No measured file overwrites another one: files with different numbers have different
/// names, and so different paths.
pub proof fn data_files_are_kept(path1: Seq<char>, i: nat, path2: Seq<char>, j: nat)
    requires
        file_name(path1) == data_name(i),
        file_name(path2) == data_name(j),
        i != j,
    ensures
        path1 != path2,
{
    if path1 == path2 {
        let (s, t) = (data_name(i), data_name(j));
        let from = "part-"@.len() as int;
        let to = s.len() - ".parquet"@.len();
        assert(pad_left(decimal(i), '0', 8) =~= s.subrange(from, to));
        assert(pad_left(decimal(j), '0', 8) =~= t.subrange(from, to));
        lemma_padded_decimal_injective(i, j, 8);
    }
}

/// No warmup file overwrites a measured one.
pub proof fn warmup_files_are_apart(path1: Seq<char>, i: nat, path2: Seq<char>, j: nat)
    requires
        file_name(path1) == warmup_name(i),
        file_name(path2) == data_name(j),
    ensures
        path1 != path2,
{
    reveal_strlit("warmup-");
    reveal_strlit("part-");
    assert(warmup_name(i)[0] == 'w');
    assert(data_name(j)[0] == 'p');
}

/// A data file: where it goes, and how the catalog is told about it.
#[derive(Debug)]
pub struct DataFile {
    /// Its path in the object store.
    pub path: String,
    /// Its URI.
    pub uri: String,
}

/// The `i`th measured file.
pub fn data_file(cfg: &BenchConfig, ns: &str, i: u64) -> (r: DataFile)
    ensures
        r.path@ == object_path_of(data_key_of(ns@, i as nat)),
        file_name(r.path@) == data_name(i as nat),
        r.uri@ == s3_address(cfg.s3_bucket@, data_key_of(ns@, i as nat)),
{
    proof {
        lemma_data_name(ns@, i as nat);
    }
    let key = data_key(ns, i);
    let uri = cfg.s3_uri(&key);
    DataFile { path: encode_path(key), uri }
}

/// The base URL of the catalog that the benchmark commits to.
pub open spec fn write_base(cfg: ConfigModel, base_url: Option<Seq<char>>) -> Seq<char> {
    match base_url {
        Some(url) => url,
        None => cfg.lakecat_base,
    }
}

/// Where the benchmark's table is created.
pub open spec fn write_location(cfg: ConfigModel, location: Option<Seq<char>>) -> Seq<char> {
    match location {
        Some(at) => at,
        None => s3_address(cfg.s3_bucket, "write_bench"@),
    }
}

/// A base URL and a location that are given are used as they are; else it is LakeCat, and
/// `s3://<bucket>/write_bench`.
pub proof fn given_targets_are_used(cfg: ConfigModel, given: Seq<char>)
    ensures
        write_base(cfg, Some(given)) == given,
        write_base(cfg, None) == cfg.lakecat_base,
        write_location(cfg, Some(given)) == given,
        write_location(cfg, None) == "s3://"@ + cfg.s3_bucket + "/write_bench"@,
{
    reveal_strlit("/");
    reveal_strlit("write_bench");
    reveal_strlit("/write_bench");
    assert("write_bench"@[0] == 'w');
    assert("/write_bench"@ =~= "/"@ + "write_bench"@);
    assert(write_location(cfg, None) =~= "s3://"@ + cfg.s3_bucket + "/write_bench"@);
}

/// The catalog that the benchmark commits to: LakeCat unless another base URL is given,
/// with its table at `s3://<bucket>/write_bench` unless another location is given.
pub fn write_catalog(
    cfg: &BenchConfig,
    base_url: Option<String>,
    prefix: &str,
    token: Option<String>,
    location: Option<String>,
) -> (r: Catalog)
    ensures
        r.base_url@ == write_base(cfg@, optional_text(base_url)),
        r.prefix@ == prefix@,
        r.token == token,
        r.commit_suffix@ == Seq::<char>::empty(),
        optional_text(r.location) == Some(write_location(cfg@, optional_text(location))),
{
    let at = match location {
        Some(at) => at,
        None => cfg.s3_uri("write_bench"),
    };
    Catalog {
        base_url: match base_url {
            Some(url) => url,
            None => cfg.lakecat_base.clone(),
        },
        prefix: prefix.to_owned(),
        token,
        commit_suffix: String::new(),
        location: Some(at),
    }
}

/// What the benchmark has measured so far.
#[derive(Debug)]
pub struct WriteTally {
    /// How long each write took, in nanoseconds.
    pub writes: Vec<u128>,
    /// How long each commit took, in nanoseconds.
    pub commits: Vec<u128>,
    /// How many bytes were written.
    pub bytes: u64,
}

/// What a [`WriteTally`] says.
pub struct WriteTallyModel {
    pub writes: Seq<u128>,
    pub commits: Seq<u128>,
    pub bytes: int,
}

impl View for WriteTally {
    type V = WriteTallyModel;

    open spec fn view(&self) -> WriteTallyModel {
        WriteTallyModel { writes: self.writes@, commits: self.commits@, bytes: self.bytes as int }
    }
}

/// The tally with one more write.
pub open spec fn with_write(t: WriteTallyModel, bytes: u64, nanos: u128) -> WriteTallyModel {
    WriteTallyModel { writes: t.writes.push(nanos), bytes: t.bytes + bytes, ..t }
}

/// The tally with one more commit.
pub open spec fn with_commit(t: WriteTallyModel, nanos: u128) -> WriteTallyModel {
    WriteTallyModel { commits: t.commits.push(nanos), ..t }
}

/// A write counts once among the writes, with all its bytes, and a commit once among the
/// commits; neither touches what was counted before, nor the other.
pub proof fn writes_and_commits_are_counted_apart(
    t: WriteTallyModel,
    bytes: u64,
    nanos: u128,
    other: u128,
)
    ensures
        with_write(t, bytes, nanos).writes.drop_last() == t.writes,
        with_write(t, bytes, nanos).writes.len() == t.writes.len() + 1,
        with_write(t, bytes, nanos).writes.last() == nanos,
        with_write(t, bytes, nanos).bytes - t.bytes == bytes,
        with_write(t, bytes, nanos).commits == t.commits,
        with_commit(t, nanos).commits.drop_last() == t.commits,
        with_commit(t, nanos).commits.len() == t.commits.len() + 1,
        with_commit(t, nanos).commits.last() == nanos,
        with_commit(t, nanos).writes == t.writes,
        with_commit(t, nanos).bytes == t.bytes,
        with_commit(with_write(t, bytes, nanos), other) == with_write(
            with_commit(t, other),
            bytes,
            nanos,
        ),
{
    assert(with_write(t, bytes, nanos).writes.drop_last() =~= t.writes);
    assert(with_commit(t, nanos).commits.drop_last() =~= t.commits);
}

/// What the report says about the writes besides their latency.
pub open spec fn write_extra(t: WriteTally, rows: u64, elapsed: u128) -> Seq<
    (Seq<char>, JsonModel),
> {
    seq![
        ("rows_per_file"@, JsonModel::Unsigned(rows)),
        ("total_bytes"@, JsonModel::Unsigned(t.bytes)),
        (
            "bytes_per_s"@,
            JsonModel::Real(Quantity::PerSecond(throughput_of(t.bytes, elapsed))),
        ),
    ]
}

/// The phase of the writes.
pub open spec fn write_phase(t: WriteTally, rows: u64, elapsed: u128) -> PhaseModel {
    PhaseModel {
        name: "parquet-write"@,
        samples: t.writes@.len() as u64,
        p50_ms: Quantity::Millis(percentile_of(t.writes@, 50)),
        p95_ms: Quantity::Millis(percentile_of(t.writes@, 95)),
        throughput_per_s: Quantity::PerSecond(throughput_of(t.writes@.len() as u64, elapsed)),
        extra: Some(JsonModel::Object(write_extra(t, rows, elapsed))),
    }
}

/// The phase of the commits.
pub open spec fn commit_phase(t: WriteTally, elapsed: u128) -> PhaseModel {
    PhaseModel {
        name: "catalog-commit"@,
        samples: t.commits@.len() as u64,
        p50_ms: Quantity::Millis(percentile_of(t.commits@, 50)),
        p95_ms: Quantity::Millis(percentile_of(t.commits@, 95)),
        throughput_per_s: Quantity::PerSecond(throughput_of(t.commits@.len() as u64, elapsed)),
        extra: None,
    }
}

/// What the report says about how real the writes are.
pub open spec fn write_notes() -> Seq<char> {
    "REAL: Arrow->Parquet encode + S3 PUT to MinIO + a LakeCat set-properties commit. SIMPLIFIED: the Parquet file is written to object storage but NOT registered into the table manifest (this is not a full Iceberg add-data-file append, which needs Sail's write path); the commit advances catalog metadata only."@
}

/// The report of the benchmark.
pub open spec fn write_report(t: WriteTally, rows: u64, elapsed: u128) -> ReportModel {
    ReportModel {
        name: "write-data"@,
        status: BenchStatus::Ready,
        phases: seq![write_phase(t, rows, elapsed), commit_phase(t, elapsed)],
        notes: Some(write_notes()),
    }
}

/// The report tells of the writes and of the commits, each phase of its own samples: how
/// many they are, their 50th and 95th percentiles, and how many per second; and of the
/// writes how many rows and bytes they were, and how many bytes per second.
pub proof fn write_reports_tell_the_samples(t: WriteTally, rows: u64, elapsed: u128)
    ensures
        ({
            let r = write_report(t, rows, elapsed);
            let (writes, commits) = (r.phases[0], r.phases[1]);
            &&& r.name == "write-data"@
            &&& r.status == BenchStatus::Ready
            &&& r.phases.len() == 2
            &&& r.notes == Some(write_notes())
            &&& writes.name == "parquet-write"@
            &&& tells_the_samples(writes, t.writes@)
            &&& tells_the_rate(writes.throughput_per_s, t.writes@.len() as u64, elapsed)
            &&& writes.extra is Some
            &&& has_members(writes.extra->0, 3)
            &&& holds(writes.extra->0, "rows_per_file"@, JsonModel::Unsigned(rows))
            &&& holds(writes.extra->0, "total_bytes"@, JsonModel::Unsigned(t.bytes))
            &&& exists|q: Quantity| #[trigger]
                tells_the_rate(q, t.bytes, elapsed) && holds(
                    writes.extra->0,
                    "bytes_per_s"@,
                    JsonModel::Real(q),
                )
            &&& commits.name == "catalog-commit"@
            &&& tells_the_samples(commits, t.commits@)
            &&& tells_the_rate(commits.throughput_per_s, t.commits@.len() as u64, elapsed)
            &&& commits.extra is None
        }),
{
    percentile_splits_the_samples(t.writes@, 50);
    percentile_splits_the_samples(t.writes@, 95);
    percentile_splits_the_samples(t.commits@, 50);
    percentile_splits_the_samples(t.commits@, 95);
    let m = write_extra(t, rows, elapsed);
    lemma_write_extra(t, rows, elapsed);
    objects_hold_their_members(m);
    assert(m[0].0 == "rows_per_file"@ && m[1].0 == "total_bytes"@ && m[2].0 == "bytes_per_s"@);
    assert(tells_the_rate(
        Quantity::PerSecond(throughput_of(t.bytes, elapsed)),
        t.bytes,
        elapsed,
    ));
}

proof fn lemma_write_extra(t: WriteTally, rows: u64, elapsed: u128)
    ensures
        keys_differ(write_extra(t, rows, elapsed)),
{
    reveal_strlit("rows_per_file");
    reveal_strlit("total_bytes");
    reveal_strlit("bytes_per_s");
    assert("rows_per_file"@.len() == 13 && "total_bytes"@[0] == 't' && "bytes_per_s"@[0] == 'b');
    assert("total_bytes"@.len() == 11 && "bytes_per_s"@.len() == 11);
}

/// The report of the benchmark is read back as it was written.
pub proof fn write_reports_round_trip(t: WriteTally, rows: u64, elapsed: u128)
    ensures
        report_of(report_tree(write_report(t, rows, elapsed))) == Some(
            write_report(t, rows, elapsed),
        ),
{
    lemma_write_extra(t, rows, elapsed);
    reveal_with_fuel(names_no_key_twice, 2);
    assert(keys_differ(write_extra(t, rows, elapsed)));
    reports_round_trip(write_report(t, rows, elapsed));
}

/// The lines that a person sees at the end of the benchmark.
pub open spec fn write_lines(t: WriteTally, base_url: Seq<char>, rows: u64, elapsed: u128) -> Seq<
    Token,
> {
    plain("catalog-bench-write-data -> "@) + plain(base_url) + plain(" ("@) + plain(
        decimal((t.writes@.len() as u64) as nat),
    ) + plain(" files × "@) + plain(decimal(rows as nat)) + plain(
        " rows)\n  parquet bytes written : "@,
    ) + plain(decimal(t.bytes as nat)) + plain("\n  files/s               : "@) + number(
        Quantity::PerSecond(throughput_of(t.writes@.len() as u64, elapsed)),
        8,
        1,
    ) + plain("\n  write  p50/p95 ms     : "@) + number(
        Quantity::Millis(percentile_of(t.writes@, 50)),
        0,
        3,
    ) + plain(" / "@) + number(Quantity::Millis(percentile_of(t.writes@, 95)), 0, 3) + plain(
        "\n  commit p50/p95 ms     : "@,
    ) + number(Quantity::Millis(percentile_of(t.commits@, 50)), 0, 3) + plain(" / "@) + number(
        Quantity::Millis(percentile_of(t.commits@, 95)),
        0,
        3,
    ) + plain("\n"@)
}

/// Whether a text has behind a label the 50th and the 95th percentile of some samples.
pub open spec fn shows_percentiles(page: Seq<Token>, label: Seq<char>, s: Seq<u128>) -> bool {
    exists|x: u128, y: u128|
        #![trigger is_percentile(s, 50, x), is_percentile(s, 95, y)]
        is_percentile(s, 50, x) && is_percentile(s, 95, y) && has_run(
            page,
            plain(label) + number(Quantity::Millis(x), 0, 3) + plain(" / "@) + number(
                Quantity::Millis(y),
                0,
                3,
            ),
        )
}

/// The printed lines show the catalog, how many files of how many rows were written, how
/// many bytes that is, how many files per second, and the percentiles of the writes and of
/// the commits, each behind its own label.
pub proof fn lines_show_the_writes(
    t: WriteTally,
    base_url: Seq<char>,
    rows: u64,
    elapsed: u128,
)
    ensures
        ({
            let page = write_lines(t, base_url, rows, elapsed);
            let files = t.writes@.len() as u64;
            &&& has_run(
                page,
                plain("catalog-bench-write-data -> "@) + plain(base_url) + plain(" ("@) + plain(
                    decimal(files as nat),
                ),
            )
            &&& has_run(
                page,
                plain(" files × "@) + plain(decimal(rows as nat)) + plain(
                    " rows)\n  parquet bytes written : "@,
                ) + plain(decimal(t.bytes as nat)),
            )
            &&& exists|q: Quantity| #[trigger]
                tells_the_rate(q, files, elapsed) && has_run(
                    page,
                    plain("\n  files/s               : "@) + number(q, 8, 1),
                )
            &&& shows_percentiles(page, "\n  write  p50/p95 ms     : "@, t.writes@)
            &&& shows_percentiles(page, "\n  commit p50/p95 ms     : "@, t.commits@)
        }),
{
    broadcast use group_runs;

    percentile_splits_the_samples(t.writes@, 50);
    percentile_splits_the_samples(t.writes@, 95);
    percentile_splits_the_samples(t.commits@, 50);
    percentile_splits_the_samples(t.commits@, 95);
    let files = t.writes@.len() as u64;
    assert(tells_the_rate(Quantity::PerSecond(throughput_of(files, elapsed)), files, elapsed));
}

impl WriteTally {
    /// Nothing written yet.
    pub fn new() -> (r: WriteTally)
        ensures
            r.writes@ == Seq::<u128>::empty(),
            r.commits@ == Seq::<u128>::empty(),
            r.bytes == 0,
    {
        WriteTally { writes: Vec::new(), commits: Vec::new(), bytes: 0 }
    }

    /// Counts a file of this many bytes that took this long to write.
    pub fn record_write(&mut self, bytes: u64, nanos: u128)
        requires
            old(self).bytes + bytes <= u64::MAX,
        ensures
            final(self)@ == with_write(old(self)@, bytes, nanos),
    {
        self.bytes = self.bytes + bytes;
        self.writes.push(nanos);
    }

    /// Counts a commit that took this long.
    pub fn record_commit(&mut self, nanos: u128)
        ensures
            final(self)@ == with_commit(old(self)@, nanos),
    {
        self.commits.push(nanos);
    }

    /// The report of the benchmark, which ran for `elapsed` nanoseconds.
    pub fn report(&self, rows: u64, elapsed: u128) -> (r: BenchReport)
        ensures
            r@ == write_report(*self, rows, elapsed),
    {
        let mut extra = no_members();
        put(&mut extra, "rows_per_file", Json::Unsigned(rows));
        put(&mut extra, "total_bytes", Json::Unsigned(self.bytes));
        put(
            &mut extra,
            "bytes_per_s",
            Json::Real(Quantity::PerSecond(throughput(self.bytes, elapsed))),
        );
        assert(members_model(extra@) =~= write_extra(*self, rows, elapsed));
        let mut writes = Phase::from_samples("parquet-write", &self.writes, elapsed);
        writes.extra = Some(object(extra));
        let commits = Phase::from_samples("catalog-commit", &self.commits, elapsed);
        let mut phases: Vec<Phase> = Vec::new();
        phases.push(writes);
        phases.push(commits);
        assert(phases_model(phases@) =~= seq![
            write_phase(*self, rows, elapsed),
            commit_phase(*self, elapsed),
        ]);
        BenchReport {
            name: "write-data".to_owned(),
            status: BenchStatus::Ready,
            phases,
            notes: Some(
                "REAL: Arrow->Parquet encode + S3 PUT to MinIO + a LakeCat set-properties commit. SIMPLIFIED: the Parquet file is written to object storage but NOT registered into the table manifest (this is not a full Iceberg add-data-file append, which needs Sail's write path); the commit advances catalog metadata only.".to_owned(),
            ),
        }
    }

    /// What a person sees at the end of the benchmark.
    pub fn to_text(&self, base_url: &str, rows: u64, elapsed: u128) -> (d: Doc)
        ensures
            d@ == write_lines(*self, base_url@, rows, elapsed),
    {
        let files: u64 = self.writes.len() as u64;
        let mut d = Doc::of("catalog-bench-write-data -> ");
        d.text(base_url);
        d.text(" (");
        d.text(&decimal_text(files));
        d.text(" files × ");
        d.text(&decimal_text(rows));
        d.text(" rows)\n  parquet bytes written : ");
        d.text(&decimal_text(self.bytes));
        d.text("\n  files/s               : ");
        d.number(Quantity::PerSecond(throughput(files, elapsed)), 8, 1);
        d.text("\n  write  p50/p95 ms     : ");
        d.number(Quantity::Millis(percentile(&self.writes, 50)), 0, 3);
        d.text(" / ");
        d.number(Quantity::Millis(percentile(&self.writes, 95)), 0, 3);
        d.text("\n  commit p50/p95 ms     : ");
        d.number(Quantity::Millis(percentile(&self.commits, 50)), 0, 3);
        d.text(" / ");
        d.number(Quantity::Millis(percentile(&self.commits, 95)), 0, 3);
        d.text("\n");
        d
    }
}

} // verus!
