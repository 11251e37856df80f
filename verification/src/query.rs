//! The query that both engines run, and what one engine's answers amount to.

use crate::config::BenchConfig;
use crate::json::{
    has_members, holds, keys_differ, members_model, no_members, object, objects_hold_their_members, put, Json,
    JsonModel,
};
use crate::measure::{
    percentile, percentile_of, percentile_splits_the_samples, throughput, throughput_of, Quantity,
};
use crate::report::{tells_the_rate, tells_the_samples, Phase, PhaseModel};
use crate::runs::{group_runs, has_run};
use crate::text::{
    begins, decimal, decimal_text, repeat, strip, surroundings_are_trimmed, trim,
    trimmed_text_is_kept, CharClass,
};
use vstd::prelude::*;
use vstd::string::*;

verus! {

/// The query that both engines run.
pub const QUERY: &'static str = "SELECT grp, count(*) AS n, sum(measure_a) AS s1, avg(measure_b) AS a2 FROM cache_scan WHERE measure_a > 0 GROUP BY grp ORDER BY grp";

/// The address of the bucket that holds the dataset.
pub open spec fn bucket_address(bucket: Seq<char>) -> Seq<char> {
    "s3://"@ + bucket
}

/// The directory of the dataset, under some scheme.
pub open spec fn dataset_address(
    scheme: Seq<char>,
    bucket: Seq<char>,
    prefix: Seq<char>,
) -> Seq<char> {
    scheme + "://"@ + bucket + "/"@ + trim(prefix, CharClass::Slash) + "/"@
}

/// The dataset lies in the directory of its prefix, inside the bucket; slashes around the
/// prefix make no difference.
pub proof fn datasets_lie_below_the_bucket(
    scheme: Seq<char>,
    bucket: Seq<char>,
    prefix: Seq<char>,
    front: nat,
    end: nat,
)
    requires
        prefix.len() > 0 ==> prefix[0] != '/' && prefix.last() != '/',
    ensures
        dataset_address(scheme, bucket, repeat('/', front) + prefix + repeat('/', end)) == scheme
            + "://"@ + bucket + "/"@ + prefix + "/"@,
{
    surroundings_are_trimmed(repeat('/', front), prefix, repeat('/', end), CharClass::Slash);
    trimmed_text_is_kept(prefix, CharClass::Slash);
}

/// Both engines read the same dataset: its addresses differ in the scheme only.
pub proof fn engines_read_the_same(
    one: Seq<char>,
    other: Seq<char>,
    bucket: Seq<char>,
    prefix: Seq<char>,
)
    ensures
        dataset_address(one, bucket, prefix).skip(one.len() as int) == dataset_address(
            other,
            bucket,
            prefix,
        ).skip(other.len() as int),
        dataset_address(one, bucket, prefix).take(one.len() as int) == one,
{
    let rest = "://"@ + bucket + "/"@ + trim(prefix, CharClass::Slash) + "/"@;
    assert(dataset_address(one, bucket, prefix) =~= one + rest);
    assert(dataset_address(other, bucket, prefix) =~= other + rest);
    assert((one + rest).skip(one.len() as int) =~= rest);
    assert((other + rest).skip(other.len() as int) =~= rest);
    assert((one + rest).take(one.len() as int) =~= one);
}

/// The dataset lies in the bucket under whose address the object store is known.
pub proof fn the_store_holds_the_dataset(bucket: Seq<char>, prefix: Seq<char>)
    ensures
        begins(dataset_address("s3"@, bucket, prefix), bucket_address(bucket) + "/"@),
{
    reveal_strlit("s3");
    reveal_strlit("://");
    reveal_strlit("s3://");
    assert("s3://"@ =~= "s3"@ + "://"@);
    let front = bucket_address(bucket) + "/"@;
    assert(dataset_address("s3"@, bucket, prefix).take(front.len() as int) =~= front);
}

/// The reason for which the `url` crate refuses a text.
#[verifier::external_type_specification]
#[verifier::external_body]
pub struct ExParseError(url::ParseError);

/// The URL that a text stands for, as the `url` crate writes it; none where it refuses
/// the text.
pub uninterp spec fn url_of(text: Seq<char>) -> Option<Seq<char>>;

/// `url::Url::parse` reads an absolute URL, and `String::from` writes it again. Nothing is
/// said of which texts are URLs, of how they are written, or of the reason for which a
/// text is refused; only that the text alone decides.
#[verifier::external_body]
fn parse_url(text: &str) -> (r: Result<String, url::ParseError>)
    ensures
        match r {
            Ok(url) => url_of(text@) == Some(url@),
            Err(_) => url_of(text@) is None,
        },
{
    url::Url::parse(text).map(String::from)
}

/// A bucket whose address is not a URL.
#[derive(Debug)]
pub struct UrlError {
    pub message: String,
    pub source: url::ParseError,
}

/// Accepts the URL of the bucket, or says which bucket has none.
pub fn accept_url(bucket: &str, parsed: Result<String, url::ParseError>) -> (r: Result<
    String,
    UrlError,
>)
    ensures
        match parsed {
            Ok(url) => r matches Ok(u) && u@ == url@,
            Err(source) => {
                &&& r matches Err(e)
                &&& e.message@ == "parsing object-store url for bucket "@ + bucket@
                &&& e.source == source
            },
        },
{
    match parsed {
        Ok(url) => Ok(url),
        Err(source) => {
            let mut message = "parsing object-store url for bucket ".to_owned();
            message.append(bucket);
            Err(UrlError { message, source })
        },
    }
}

/// The URL under which a query engine knows the object store.
pub fn store_url(cfg: &BenchConfig) -> (r: Result<String, UrlError>)
    ensures
        match url_of(bucket_address(cfg.s3_bucket@)) {
            Some(url) => r matches Ok(u) && u@ == url,
            None => r matches Err(e) && e.message@ == "parsing object-store url for bucket "@
                + cfg.s3_bucket@,
        },
{
    let mut text = "s3://".to_owned();
    text.append(&cfg.s3_bucket);
    accept_url(&cfg.s3_bucket, parse_url(&text))
}

/// The directory of the dataset in the object store.
pub fn table_uri(cfg: &BenchConfig, scheme: &str, prefix: &str) -> (r: String)
    ensures
        r@ == dataset_address(scheme@, cfg.s3_bucket@, prefix@),
{
    let mut out = scheme.to_owned();
    out.append("://");
    out.append(&cfg.s3_bucket);
    out.append("/");
    out.append(&strip(prefix, CharClass::Slash));
    out.append("/");
    out
}

/// The reason for which DataFusion refuses something.
#[verifier::external_type_specification]
#[verifier::external_body]
pub struct ExDataFusionError(datafusion::error::DataFusionError);

/// The URL of a table of files that a text stands for, as DataFusion writes it; none
/// where it refuses the text.
pub uninterp spec fn listing_url_of(text: Seq<char>) -> Option<Seq<char>>;

/// `ListingTableUrl::parse` reads the URL of a table of files, and `to_string` writes it
/// again. A text without a scheme would be looked up in the file system, so there has to
/// be one. Nothing is said of which texts are accepted, of how the URL is written, or of
/// the reason for which a text is refused; only that the text alone decides.
#[verifier::external_body]
fn parse_listing_url(text: &str) -> (r: Result<String, datafusion::error::DataFusionError>)
    requires
        begins(text@, "s3://"@),
    ensures
        match r {
            Ok(url) => listing_url_of(text@) == Some(url@),
            Err(_) => listing_url_of(text@) is None,
        },
{
    datafusion::datasource::listing::ListingTableUrl::parse(text).map(|url| url.to_string())
}

/// A dataset whose address is not the URL of a table of files.
#[derive(Debug)]
pub struct ListingError {
    pub message: String,
    pub source: datafusion::error::DataFusionError,
}

/// Accepts the URL of the dataset, or says which address is none.
pub fn accept_listing(
    uri: &str,
    parsed: Result<String, datafusion::error::DataFusionError>,
) -> (r: Result<String, ListingError>)
    ensures
        match parsed {
            Ok(url) => r matches Ok(u) && u@ == url@,
            Err(source) => {
                &&& r matches Err(e)
                &&& e.message@ == "parsing "@ + uri@
                &&& e.source == source
            },
        },
{
    match parsed {
        Ok(url) => Ok(url),
        Err(source) => {
            let mut message = "parsing ".to_owned();
            message.append(uri);
            Err(ListingError { message, source })
        },
    }
}

/// The URL under which a query engine reads the dataset.
pub fn dataset_url(cfg: &BenchConfig, prefix: &str) -> (r: Result<String, ListingError>)
    ensures
        match listing_url_of(dataset_address("s3"@, cfg.s3_bucket@, prefix@)) {
            Some(url) => r matches Ok(u) && u@ == url,
            None => r matches Err(e) && e.message@ == "parsing "@ + dataset_address(
                "s3"@,
                cfg.s3_bucket@,
                prefix@,
            ),
        },
{
    let uri = table_uri(cfg, "s3", prefix);
    proof {
        reveal_strlit("s3");
        reveal_strlit("://");
        reveal_strlit("s3://");
        assert(uri@.take(5) =~= "s3://"@);
    }
    accept_listing(&uri, parse_listing_url(&uri))
}

/// The column `n` of a batch of answers.
#[derive(Debug)]
pub enum CountColumn {
    /// There is none.
    Missing,
    /// It does not hold 64-bit integers.
    NotInt64,
    /// Its values.
    Counts(Vec<i64>),
}

/// A batch of answers to the query: one row for each group.
#[derive(Debug)]
pub struct Batch {
    pub rows: u64,
    pub counts: CountColumn,
}

/// Why a batch cannot be counted.
#[derive(Debug, Clone, Copy, PartialEq, Eq, Structural)]
pub enum QueryError {
    MissingColumn,
    NotInt64,
}

impl QueryError {
    /// The error in words.
    pub fn message(self) -> (r: &'static str)
        ensures
            r@ == (match self {
                QueryError::MissingColumn => "query result missing column 'n'"@,
                QueryError::NotInt64 => "column 'n' is not Int64"@,
            }),
    {
        match self {
            QueryError::MissingColumn => "query result missing column 'n'",
            QueryError::NotInt64 => "column 'n' is not Int64",
        }
    }
}

/// What is wrong with a batch.
pub open spec fn flaw(b: Batch) -> Option<QueryError> {
    match b.counts {
        CountColumn::Missing => Some(QueryError::MissingColumn),
        CountColumn::NotInt64 => Some(QueryError::NotInt64),
        CountColumn::Counts(_) => None,
    }
}

/// The unsigned number with the same 64 bits.
pub open spec fn unsigned(n: i64) -> int {
    if n >= 0 {
        n as int
    } else {
        n + 0x1_0000_0000_0000_0000
    }
}

/// The sum of some counts.
pub open spec fn sum(counts: Seq<i64>) -> int
    decreases counts.len(),
{
    if counts.len() == 0 {
        0
    } else {
        sum(counts.drop_last()) + unsigned(counts.last())
    }
}

/// The rows of the dataset that the batches account for.
pub open spec fn scanned(batches: Seq<Batch>) -> int
    decreases batches.len(),
{
    if batches.len() == 0 {
        0
    } else {
        scanned(batches.drop_last()) + match batches.last().counts {
            CountColumn::Counts(counts) => sum(counts@),
            _ => 0,
        }
    }
}

/// The groups in the batches.
pub open spec fn groups(batches: Seq<Batch>) -> int
    decreases batches.len(),
{
    if batches.len() == 0 {
        0
    } else {
        groups(batches.drop_last()) + batches.last().rows
    }
}

/// The index of the first batch that cannot be counted, or the number of batches.
pub open spec fn first_flaw(batches: Seq<Batch>) -> nat
    decreases batches.len(),
{
    if batches.len() == 0 {
        0
    } else {
        let k = first_flaw(batches.drop_last());
        if k == batches.len() - 1 && flaw(batches.last()) is None {
            batches.len()
        } else {
            k
        }
    }
}

/// The batches up to the first that cannot be counted, which is one of them.
pub open spec fn looked_at(batches: Seq<Batch>) -> Seq<Batch> {
    if first_flaw(batches) < batches.len() {
        batches.take(first_flaw(batches) as int + 1)
    } else {
        batches
    }
}

/// What the batches say: rows and groups, or what is wrong with the first batch that cannot
/// be counted.
pub open spec fn answer(batches: Seq<Batch>) -> Result<(int, int), QueryError> {
    if first_flaw(batches) < batches.len() {
        Err(flaw(batches[first_flaw(batches) as int])->0)
    } else {
        Ok((scanned(batches), groups(batches)))
    }
}

proof fn lemma_first_flaw_is_first(batches: Seq<Batch>)
    ensures
        first_flaw(batches) <= batches.len(),
        first_flaw(batches) < batches.len() ==> flaw(batches[first_flaw(batches) as int]) is Some,
        forall|i: int| 0 <= i < first_flaw(batches) ==> flaw(#[trigger] batches[i]) is None,
    decreases batches.len(),
{
    if batches.len() > 0 {
        let front = batches.drop_last();
        lemma_first_flaw_is_first(front);
        assert forall|i: int| 0 <= i < first_flaw(batches) implies flaw(
            #[trigger] batches[i],
        ) is None by {
            if i < front.len() {
                assert(front[i] == batches[i]);
            }
        }
        if first_flaw(front) < front.len() {
            assert(front[first_flaw(front) as int] == batches[first_flaw(front) as int]);
        }
    }
}

/// The first batch without a column of counts decides what is wrong; where every batch has
/// one, nothing is.
pub proof fn the_first_flaw_decides(batches: Seq<Batch>, k: int)
    requires
        0 <= k < batches.len(),
        forall|i: int| 0 <= i < k ==> (#[trigger] batches[i]).counts is Counts,
    ensures
        batches[k].counts is Missing ==> answer(batches) == Err::<(int, int), QueryError>(
            QueryError::MissingColumn,
        ),
        batches[k].counts is NotInt64 ==> answer(batches) == Err::<(int, int), QueryError>(
            QueryError::NotInt64,
        ),
        batches[k].counts is Counts && k == batches.len() - 1 ==> answer(batches) == Ok::<
            (int, int),
            QueryError,
        >((scanned(batches), groups(batches))),
{
    lemma_first_flaw_is_first(batches);
    let f = first_flaw(batches) as int;
    if f < k {
        assert(batches[f].counts is Counts);
    }
}

/// No batches have no rows and no groups.
pub proof fn no_batches_have_no_rows()
    ensures
        answer(Seq::empty()) == Ok::<(int, int), QueryError>((0, 0)),
        countable(Seq::empty()),
{
}

/// Counting needs numbers of 64 bits for all batches, or, where one cannot be counted, for
/// those up to it; what stands behind it does not matter.
pub proof fn batches_behind_a_flaw_do_not_matter(a: Seq<Batch>, bad: Batch, b: Seq<Batch>)
    requires
        forall|i: int| 0 <= i < a.len() ==> (#[trigger] a[i]).counts is Counts,
        !(bad.counts is Counts),
    ensures
        countable(a) <==> scanned(a) <= u64::MAX && groups(a) <= u64::MAX,
        countable(a + seq![bad] + b) <==> scanned(a) <= u64::MAX && groups(a) + bad.rows
            <= u64::MAX,
        answer(a + seq![bad] + b) == answer(a + seq![bad]),
{
    let all = a + seq![bad] + b;
    let k = a.len() as int;
    lemma_first_flaw_is_first(a);
    lemma_first_flaw_is_first(all);
    lemma_first_flaw_is_first(a + seq![bad]);
    assert(all[k] == bad && (a + seq![bad])[k] == bad);
    assert forall|i: int| 0 <= i < k implies flaw(#[trigger] all[i]) is None by {
        assert(all[i] == a[i]);
    }
    assert forall|i: int| 0 <= i < k implies flaw(#[trigger] (a + seq![bad])[i]) is None by {
        assert((a + seq![bad])[i] == a[i]);
    }
    assert(first_flaw(a) == k) by {
        if first_flaw(a) < k {
            assert(flaw(a[first_flaw(a) as int]) is None);
        }
    }
    assert(first_flaw(all) == k) by {
        if first_flaw(all) < k {
            assert(flaw(all[first_flaw(all) as int]) is None);
        }
    }
    assert(first_flaw(a + seq![bad]) == k) by {
        let f = first_flaw(a + seq![bad]) as int;
        if f < k {
            assert(flaw((a + seq![bad])[f]) is None);
        }
    }
    assert(looked_at(all) =~= a + seq![bad]);
    lemma_totals_add(a, seq![bad]);
    let one = seq![bad];
    assert(one.drop_last().len() == 0 && one.last() == bad);
    assert(scanned(one.drop_last()) == 0 && groups(one.drop_last()) == 0);
}

proof fn lemma_totals_add(a: Seq<Batch>, b: Seq<Batch>)
    ensures
        scanned(a + b) == scanned(a) + scanned(b),
        groups(a + b) == groups(a) + groups(b),
    decreases b.len(),
{
    if b.len() == 0 {
        assert(a + b =~= a);
    } else {
        assert((a + b).drop_last() =~= a + b.drop_last());
        assert((a + b).last() == b.last());
        lemma_totals_add(a, b.drop_last());
    }
}

/// Every batch adds its rows to the groups and its counts to the scanned rows, and so does
/// every count, as a number without a sign.
pub proof fn answers_add_up(a: Seq<Batch>, b: Seq<Batch>, x: Seq<i64>, n: i64)
    ensures
        scanned(a + b) == scanned(a) + scanned(b),
        groups(a + b) == groups(a) + groups(b),
        groups(a) == 0 && scanned(a) == 0 || a.len() > 0,
        b.len() == 1 ==> groups(b) == b[0].rows,
        b.len() == 1 && b[0].counts is Counts ==> scanned(b) == sum(b[0].counts->Counts_0@),
        sum(x.push(n)) == sum(x) + if n >= 0 {
            n as int
        } else {
            n + 0x1_0000_0000_0000_0000
        },
        sum(Seq::empty()) == 0,
{
    lemma_totals_add(a, b);
    assert(x.push(n).drop_last() =~= x);
    if b.len() == 1 {
        assert(b.drop_last().len() == 0);
        assert(scanned(b.drop_last()) == 0 && groups(b.drop_last()) == 0);
        assert(b.last() == b[0]);
    }
}

/// Whether the rows and groups that are counted are numbers of 64 bits.
pub open spec fn countable(batches: Seq<Batch>) -> bool {
    &&& scanned(looked_at(batches)) <= u64::MAX
    &&& groups(looked_at(batches)) <= u64::MAX
}

proof fn lemma_sum(counts: Seq<i64>, k: int)
    requires
        0 <= k <= counts.len(),
    ensures
        0 <= sum(counts.take(k)) <= sum(counts),
    decreases counts.len(),
{
    if counts.len() > 0 {
        if k == counts.len() {
            assert(counts.take(k) == counts);
            lemma_sum(counts.drop_last(), k - 1);
        } else {
            assert(counts.take(k) == counts.drop_last().take(k));
            lemma_sum(counts.drop_last(), k);
        }
    }
}

proof fn lemma_totals(batches: Seq<Batch>, k: int)
    requires
        0 <= k <= batches.len(),
    ensures
        0 <= scanned(batches.take(k)) <= scanned(batches),
        0 <= groups(batches.take(k)) <= groups(batches),
    decreases batches.len(),
{
    if batches.len() > 0 {
        if let CountColumn::Counts(counts) = batches.last().counts {
            lemma_sum(counts@, 0);
        }
        if k == batches.len() {
            assert(batches.take(k) == batches);
            lemma_totals(batches.drop_last(), k - 1);
        } else {
            assert(batches.take(k) == batches.drop_last().take(k));
            lemma_totals(batches.drop_last(), k);
        }
    }
}

proof fn lemma_first_flaw(batches: Seq<Batch>, k: int)
    requires
        0 <= k <= batches.len(),
    ensures
        first_flaw(batches) <= batches.len(),
        first_flaw(batches.take(k)) == k || first_flaw(batches) == first_flaw(batches.take(k)),
        first_flaw(batches) >= first_flaw(batches.take(k)),
    decreases batches.len(),
{
    if batches.len() > 0 {
        if k == batches.len() {
            assert(batches.take(k) == batches);
            lemma_first_flaw(batches.drop_last(), k - 1);
        } else {
            assert(batches.take(k) == batches.drop_last().take(k));
            lemma_first_flaw(batches.drop_last(), k);
            lemma_first_flaw(batches.take(k), k);
        }
    }
}

/// The sum of some counts, where it is a number of 64 bits behind `start`.
fn sum_from(start: u64, counts: &Vec<i64>) -> (r: Option<u64>)
    ensures
        match r {
            Some(total) => total == start + sum(counts@),
            None => start + sum(counts@) > u64::MAX,
        },
{
    let mut total: u64 = start;
    let mut i: usize = 0;
    while i < counts.len()
        invariant
            i <= counts@.len(),
            total == start + sum(counts@.take(i as int)),
        decreases counts.len() - i,
    {
        let n: i64 = counts[i];
        assert(n >= 0 ==> n as u64 == n) by (bit_vector);
        assert(n < 0 ==> n as u64 == n + 0x1_0000_0000_0000_0000) by (bit_vector);
        let bits: u64 = n as u64;
        assert(counts@.take(i + 1).drop_last() == counts@.take(i as int));
        match total.checked_add(bits) {
            Some(t) => {
                total = t;
            },
            None => {
                proof {
                    lemma_sum(counts@, i + 1);
                }
                return None;
            },
        }
        i += 1;
    }
    assert(counts@.take(i as int) == counts@);
    Some(total)
}

/// What the batches amount to.
enum Count {
    /// Rows and groups.
    Done(u64, u64),
    /// A batch that cannot be counted.
    Flawed(QueryError),
    /// A sum that is not a number of 64 bits.
    TooLarge,
}

fn count(batches: &Vec<Batch>) -> (r: Count)
    ensures
        r is TooLarge <==> !countable(batches@),
        r matches Count::Done(s, g) ==> {
            &&& first_flaw(batches@) == batches@.len()
            &&& s == scanned(batches@)
            &&& g == groups(batches@)
        },
        r matches Count::Flawed(e) ==> {
            &&& first_flaw(batches@) < batches@.len()
            &&& flaw(batches@[first_flaw(batches@) as int]) == Some(e)
        },
{
    let mut rows: u64 = 0;
    let mut seen: u64 = 0;
    let mut i: usize = 0;
    let ghost all = batches@;
    while i < batches.len()
        invariant
            i <= all.len(),
            all == batches@,
            first_flaw(all.take(i as int)) == i,
            rows == scanned(all.take(i as int)),
            seen == groups(all.take(i as int)),
        decreases batches.len() - i,
    {
        let b = &batches[i];
        let ghost up_to = all.take(i + 1);
        proof {
            assert(up_to.drop_last() == all.take(i as int));
            lemma_first_flaw(all, i + 1);
            lemma_first_flaw(all, i as int);
            lemma_totals(looked_at(all), i + 1);
            assert(looked_at(all).take(i + 1) == up_to);
        }
        match seen.checked_add(b.rows) {
            Some(n) => {
                seen = n;
            },
            None => {
                return Count::TooLarge;
            },
        }
        match &b.counts {
            CountColumn::Missing => {
                assert(looked_at(all) == up_to);
                return Count::Flawed(QueryError::MissingColumn);
            },
            CountColumn::NotInt64 => {
                assert(looked_at(all) == up_to);
                return Count::Flawed(QueryError::NotInt64);
            },
            CountColumn::Counts(counts) => match sum_from(rows, counts) {
                Some(n) => {
                    rows = n;
                },
                None => {
                    return Count::TooLarge;
                },
            },
        }
        i += 1;
    }
    assert(all.take(i as int) == all);
    Count::Done(rows, seen)
}

/// Tests whether the rows and groups of the batches can be counted in 64 bits.
pub fn is_countable(batches: &Vec<Batch>) -> (r: bool)
    ensures
        r == countable(batches@),
{
    match count(batches) {
        Count::TooLarge => false,
        _ => true,
    }
}

/// What the answers say: the rows that passed the filter, and the number of groups.
pub fn run_query(batches: &Vec<Batch>) -> (r: Result<(u64, u64), QueryError>)
    requires
        countable(batches@),
    ensures
        match answer(batches@) {
            Ok((rows, found)) => r is Ok && r->Ok_0.0 == rows && r->Ok_0.1 == found,
            Err(e) => r is Err && r->Err_0 == e,
        },
{
    match count(batches) {
        Count::Done(rows, seen) => Ok((rows, seen)),
        Count::Flawed(e) => Err(e),
        Count::TooLarge => vstd::pervasive::unreached(),
    }
}

/// One Rust phase's measurement: per-query times and the invariants that are checked across
/// engines (the rows that passed the filter, and the number of groups).
#[derive(Debug)]
pub struct RustPhase {
    /// How long each query took, in nanoseconds.
    pub per_query: Vec<u128>,
    pub scanned_rows: u64,
    pub groups: u64,
    /// How long the phase took, in nanoseconds.
    pub wall: u128,
}

/// A measurement under way.
#[derive(Debug)]
pub struct Measurement {
    /// How many queries are run.
    pub rounds: usize,
    pub per_query: Vec<u128>,
    pub scanned_rows: u64,
    pub groups: u64,
}

/// The message about a query that found something else than the first one.
pub open spec fn unstable_message(scanned: u64, first: u64, groups: u64, first_groups: u64) -> Seq<
    char,
> {
    "query result not stable: scanned "@ + decimal(scanned as nat) + " vs "@ + decimal(first as nat)
        + ", groups "@ + decimal(groups as nat) + " vs "@ + decimal(first_groups as nat)
}

/// The message about an unstable query tells what it found beside what the first one found.
pub proof fn instability_is_told(scanned: u64, first: u64, groups: u64, first_groups: u64)
    ensures
        ({
            let m = unstable_message(scanned, first, groups, first_groups);
            &&& has_run(
                m,
                "query result not stable: scanned "@ + decimal(scanned as nat) + " vs "@ + decimal(
                    first as nat,
                ),
            )
            &&& has_run(
                m,
                ", groups "@ + decimal(groups as nat) + " vs "@ + decimal(first_groups as nat),
            )
        }),
{
    broadcast use group_runs;

}

/// How many queries are run where `iters` are asked for: at least one.
pub open spec fn rounds_of(iters: usize) -> usize {
    if iters == 0 {
        1
    } else {
        iters
    }
}

/// A query is run as often as asked for, but at least once.
pub proof fn at_least_one_query_is_run(iters: usize)
    ensures
        rounds_of(iters) >= 1,
        iters >= 1 ==> rounds_of(iters) == iters,
        iters == 0 ==> rounds_of(iters) == 1,
{
}

/// What a [`Measurement`] has found so far.
pub struct Found {
    pub per_query: Seq<u128>,
    pub scanned_rows: u64,
    pub groups: u64,
}

impl View for Measurement {
    type V = Found;

    open spec fn view(&self) -> Found {
        Found {
            per_query: self.per_query@,
            scanned_rows: self.scanned_rows,
            groups: self.groups,
        }
    }
}

/// What is found with one more query, if it agrees with the first one.
pub open spec fn with_query(f: Found, nanos: u128, scanned: u64, groups: u64) -> Option<Found> {
    if f.per_query.len() == 0 || (scanned == f.scanned_rows && groups == f.groups) {
        Some(Found { per_query: f.per_query.push(nanos), scanned_rows: scanned, groups })
    } else {
        None
    }
}

/// Every query behind the first one has to find as many rows and groups as the first, and
/// each that does is timed once.
pub proof fn queries_agree_with_the_first(
    f: Found,
    nanos: u128,
    scanned: u64,
    groups: u64,
)
    ensures
        f.per_query.len() > 0 ==> (with_query(f, nanos, scanned, groups) is Some <==> (scanned
            == f.scanned_rows && groups == f.groups)),
        f.per_query.len() == 0 ==> with_query(f, nanos, scanned, groups) is Some,
        with_query(f, nanos, scanned, groups) matches Some(g) ==> {
            &&& g.per_query.len() == f.per_query.len() + 1
            &&& g.per_query.drop_last() == f.per_query
            &&& g.per_query.last() == nanos
            &&& g.scanned_rows == scanned
            &&& g.groups == groups
        },
{
    assert(f.per_query.push(nanos).drop_last() =~= f.per_query);
}

impl Measurement {
    /// At least one query is run, and no more than asked for.
    pub open spec fn wf(&self) -> bool {
        1 <= self.rounds && self.per_query@.len() <= self.rounds
    }

    /// Whether every query was run.
    pub open spec fn is_complete(&self) -> bool {
        self.per_query@.len() == self.rounds
    }

    /// A measurement of `iters` queries, but at least of one.
    pub fn new(iters: usize) -> (r: Measurement)
        ensures
            r.wf(),
            r.rounds == rounds_of(iters),
            r.per_query@ == Seq::<u128>::empty(),
    {
        let rounds: usize = if iters == 0 {
            1
        } else {
            iters
        };
        Measurement { rounds, per_query: Vec::new(), scanned_rows: 0, groups: 0 }
    }

    /// Whether another query is to be run.
    pub fn wants_more(&self) -> (r: bool)
        requires
            self.wf(),
        ensures
            r == !self.is_complete(),
    {
        self.per_query.len() < self.rounds
    }

    /// Takes the result of a query. It has to find what the first one found.
    pub fn record(&mut self, nanos: u128, scanned: u64, groups: u64) -> (r: Result<(), String>)
        requires
            old(self).wf(),
            !old(self).is_complete(),
        ensures
            final(self).wf(),
            final(self).rounds == old(self).rounds,
            match with_query(old(self)@, nanos, scanned, groups) {
                Some(found) => r is Ok && final(self)@ == found,
                None => {
                    &&& r matches Err(m)
                    &&& m@ == unstable_message(
                        scanned,
                        old(self).scanned_rows,
                        groups,
                        old(self).groups,
                    )
                    &&& *final(self) == *old(self)
                },
            },
    {
        if self.per_query.len() == 0 {
            self.scanned_rows = scanned;
            self.groups = groups;
        } else if scanned != self.scanned_rows || groups != self.groups {
            let mut m = "query result not stable: scanned ".to_owned();
            m.append(&decimal_text(scanned));
            m.append(" vs ");
            m.append(&decimal_text(self.scanned_rows));
            m.append(", groups ");
            m.append(&decimal_text(groups));
            m.append(" vs ");
            m.append(&decimal_text(self.groups));
            return Err(m);
        }
        self.per_query.push(nanos);
        Ok(())
    }

    /// The finished measurement, which took `wall` nanoseconds.
    pub fn finish(self, wall: u128) -> (r: RustPhase)
        requires
            self.wf(),
            self.is_complete(),
        ensures
            r.per_query@.len() == self.rounds,
            r.per_query@ == self.per_query@,
            r.scanned_rows == self.scanned_rows,
            r.groups == self.groups,
            r.wall == wall,
    {
        RustPhase {
            per_query: self.per_query,
            scanned_rows: self.scanned_rows,
            groups: self.groups,
            wall,
        }
    }
}

/// A complete measurement holds one sample for each query that was asked for; asked for
/// one query, as for a cold cache, it holds exactly one.
pub proof fn measurements_are_complete(m: Measurement, iters: usize)
    requires
        m.wf(),
        m.is_complete(),
        m.rounds == rounds_of(iters),
    ensures
        m.per_query@.len() == rounds_of(iters),
        iters == 1 ==> m.per_query@.len() == 1,
{
}

/// The rows that all queries of a phase scanned together; the largest number of 64 bits
/// where they are more.
pub open spec fn total_scanned(m: RustPhase) -> u64 {
    if m.scanned_rows * m.per_query@.len() > u64::MAX {
        u64::MAX
    } else {
        (m.scanned_rows * m.per_query@.len()) as u64
    }
}

/// What a phase says besides its latency.
pub open spec fn scan_extra(m: RustPhase) -> Seq<(Seq<char>, JsonModel)> {
    seq![
        ("scanned_rows"@, JsonModel::Unsigned(m.scanned_rows)),
        ("groups"@, JsonModel::Unsigned(m.groups)),
        ("wall_ms"@, JsonModel::Real(Quantity::Millis(m.wall))),
    ]
}

/// A measured phase as it is reported, with scanned rows per second as its throughput.
pub open spec fn scan_phase(name: Seq<char>, m: RustPhase) -> PhaseModel {
    PhaseModel {
        name,
        samples: m.per_query@.len() as u64,
        p50_ms: Quantity::Millis(percentile_of(m.per_query@, 50)),
        p95_ms: Quantity::Millis(percentile_of(m.per_query@, 95)),
        throughput_per_s: Quantity::PerSecond(throughput_of(total_scanned(m), m.wall)),
        extra: Some(JsonModel::Object(scan_extra(m))),
    }
}

proof fn lemma_scan_keys(m: RustPhase)
    ensures
        keys_differ(scan_extra(m)),
{
    reveal_strlit("scanned_rows");
    reveal_strlit("groups");
    reveal_strlit("wall_ms");
    assert("scanned_rows"@.len() == 12 && "groups"@.len() == 6 && "wall_ms"@.len() == 7);
}

/// A phase of queries has the name that it is given, tells of its queries how many they are
/// and their 50th and 95th percentiles, counts the rows that all of them scanned per second
/// of the time that they took, and tells how many rows and groups each found.
pub proof fn scans_tell_their_queries(name: Seq<char>, m: RustPhase)
    ensures
        ({
            let p = scan_phase(name, m);
            let rows = m.scanned_rows * m.per_query@.len();
            &&& p.name == name
            &&& tells_the_samples(p, m.per_query@)
            &&& rows <= u64::MAX ==> tells_the_rate(p.throughput_per_s, rows as u64, m.wall)
            &&& rows > u64::MAX ==> tells_the_rate(p.throughput_per_s, u64::MAX, m.wall)
            &&& p.extra is Some
            &&& has_members(p.extra->0, 3)
            &&& holds(p.extra->0, "scanned_rows"@, JsonModel::Unsigned(m.scanned_rows))
            &&& holds(p.extra->0, "groups"@, JsonModel::Unsigned(m.groups))
            &&& holds(p.extra->0, "wall_ms"@, JsonModel::Real(Quantity::Millis(m.wall)))
        }),
{
    percentile_splits_the_samples(m.per_query@, 50);
    percentile_splits_the_samples(m.per_query@, 95);
    lemma_scan_keys(m);
    let e = scan_extra(m);
    objects_hold_their_members(e);
    assert(e[0].0 == "scanned_rows"@ && e[1].0 == "groups"@ && e[2].0 == "wall_ms"@);
}

fn saturating_product(a: u64, b: usize) -> (r: u64)
    ensures
        r == (if a * b > u64::MAX { u64::MAX as int } else { a * b }),
{
    assert(0 <= a * b <= 0xffff_ffff_ffff_ffff * 0xffff_ffff_ffff_ffff) by (nonlinear_arith)
        requires
            0 <= a <= 0xffff_ffff_ffff_ffff,
            0 <= b <= 0xffff_ffff_ffff_ffff,
    ;
    let product: u128 = (a as u128) * (b as u128);
    if product > 0xffff_ffff_ffff_ffff {
        u64::MAX
    } else {
        product as u64
    }
}

/// Turns a measurement into a reportable phase.
pub fn rust_phase(name: &str, m: &RustPhase) -> (r: Phase)
    ensures
        r@ == scan_phase(name@, *m),
{
    let total: u64 = saturating_product(m.scanned_rows, m.per_query.len());
    let mut extra = no_members();
    put(&mut extra, "scanned_rows", Json::Unsigned(m.scanned_rows));
    put(&mut extra, "groups", Json::Unsigned(m.groups));
    put(&mut extra, "wall_ms", Json::Real(Quantity::Millis(m.wall)));
    assert(members_model(extra@) =~= scan_extra(*m));
    Phase {
        name: name.to_owned(),
        samples: m.per_query.len() as u64,
        p50_ms: Quantity::Millis(percentile(&m.per_query, 50)),
        p95_ms: Quantity::Millis(percentile(&m.per_query, 95)),
        throughput_per_s: Quantity::PerSecond(throughput(total, m.wall)),
        extra: Some(object(extra)),
    }
}

} // verus!
