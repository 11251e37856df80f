//! The commit benchmark: how many `set-properties` commits a catalog takes, how long each
//! takes, and how often concurrent writers get in each other's way.

use crate::catalog::CommitReply;
use crate::doc::{number, plain, Doc, Token};
use crate::json::{
    has_members, holds, keys_differ, members_model, no_members, object, objects_hold_their_members, put, text,
    Json, JsonModel,
};
use crate::measure::{
    at_most, below, is_largest, largest, largest_is_largest, largest_of, lemma_ordered, ordered,
    ranks_count_the_samples, sorted, Quantity, Rate,
};
use crate::plan::Sequence;
use crate::runs::{group_runs, has_run, lemma_run_behind, lemma_run_in_front};
use crate::text::{decimal, decimal_text};
use vstd::prelude::*;
use vstd::string::*;

verus! {

/// The counter of the first warmup commit.
pub const WARMUP_BASE: u64 = 1_000_000;

/// How far apart the counters of two neighbouring writers start.
pub const WRITER_SPAN: u64 = 10_000_000;

/// The commits that are made one after the other, before the first.
pub open spec fn commit_plan(warmup: u64, iterations: u64) -> Sequence {
    Sequence { base: WARMUP_BASE, warmup, iterations, warmed: 0, measured: 0 }
}

/// As many commits are made as asked for. Those that warm up write the counters from one
/// million on, and those that are measured the counters from zero on.
pub proof fn commits_are_planned_as_asked(warmup: u64, iterations: u64)
    requires
        1_000_000 + warmup <= u64::MAX + 1,
    ensures
        ({
            let s = commit_plan(warmup, iterations);
            &&& s.wf()
            &&& s.warmed == 0 && s.measured == 0
            &&& s.warmup == warmup && s.iterations == iterations
            &&& s.planned() is None <==> warmup + iterations == 0
            &&& s.planned() matches Some(p) ==> {
                &&& p.index == 0
                &&& p.measured <==> warmup == 0
                &&& p.number == if warmup == 0 {
                    0int
                } else {
                    1_000_000
                }
            }
        }),
{
}

/// The commits that are made one after the other; the number of each is the counter that
/// it writes.
pub fn commit_sequence(warmup: u64, iterations: u64) -> (r: Sequence)
    requires
        WARMUP_BASE + warmup <= u64::MAX + 1,
    ensures
        r == commit_plan(warmup, iterations),
        r.wf(),
{
    Sequence::new(WARMUP_BASE, warmup, iterations)
}

/// The counters of one concurrent writer.
#[derive(Debug, Clone, Copy, PartialEq, Eq, Structural)]
pub struct Writer {
    /// The counter of the latest commit.
    pub latest: u64,
}

impl Writer {
    /// The `w`th writer, before its first commit.
    pub fn start(w: u64) -> (r: Writer)
        requires
            w * WRITER_SPAN <= u64::MAX,
        ensures
            r.latest == writer_counter(w as nat, 0),
    {
        Writer { latest: w * WRITER_SPAN }
    }

    /// The counter of the writer's next commit.
    pub fn next_counter(&mut self) -> (n: u64)
        requires
            old(self).latest < u64::MAX,
        ensures
            n == old(self).latest + 1,
            final(self).latest == n,
    {
        self.latest = self.latest + 1;
        self.latest
    }
}

/// The counter of the `k`th commit of the `w`th writer, counting from one.
pub open spec fn writer_counter(w: nat, k: nat) -> nat {
    w * WRITER_SPAN as nat + k
}

/// Concurrent writers never use the same counter, as long as none makes more than
/// [`WRITER_SPAN`] commits.
pub proof fn writers_use_different_counters(w1: nat, k1: nat, w2: nat, k2: nat)
    requires
        1 <= k1 <= WRITER_SPAN,
        1 <= k2 <= WRITER_SPAN,
        writer_counter(w1, k1) == writer_counter(w2, k2),
    ensures
        w1 == w2,
        k1 == k2,
{
}

/// A writer counts its commits one by one, from ten million times its own number on.
pub proof fn writers_count_one_by_one(w: nat, k: nat)
    ensures
        writer_counter(w, 0) == w * 10_000_000,
        writer_counter(w, k + 1) == writer_counter(w, k) + 1,
{
}

/// What became of the commits of all concurrent writers.
#[derive(Debug, Clone, Copy, PartialEq, Eq, Structural)]
pub struct Tally {
    /// How many commits the catalog took.
    pub ok: u64,
    /// How many ended in a conflict.
    pub conflicts: u64,
}

/// One more, starting over at zero behind the largest number.
pub open spec fn one_more(n: u64) -> u64 {
    if n == u64::MAX {
        0
    } else {
        (n + 1) as u64
    }
}

impl Tally {
    /// Nothing committed yet.
    pub fn new() -> (r: Tally)
        ensures
            r == (Tally { ok: 0, conflicts: 0 }),
    {
        Tally { ok: 0, conflicts: 0 }
    }

    /// The tally with one more commit.
    pub open spec fn counting(self, reply: CommitReply) -> Tally {
        match reply {
            CommitReply::Committed => Tally { ok: one_more(self.ok), conflicts: self.conflicts },
            CommitReply::Conflict => Tally { ok: self.ok, conflicts: one_more(self.conflicts) },
            CommitReply::Failed => self,
        }
    }

    /// Counts one commit. A failure is transient and not counted.
    pub fn record(&mut self, reply: CommitReply)
        ensures
            *final(self) == old(self).counting(reply),
    {
        match reply {
            CommitReply::Committed => {
                self.ok = self.ok.wrapping_add(1);
            },
            CommitReply::Conflict => {
                self.conflicts = self.conflicts.wrapping_add(1);
            },
            CommitReply::Failed => {},
        }
    }

    /// The part of the commits that ended in a conflict, and their number; no part of one
    /// where there were none.
    pub open spec fn conflict_share(self) -> (u64, u64) {
        if self.ok + self.conflicts > 0 {
            (self.conflicts, (self.ok + self.conflicts) as u64)
        } else {
            (0, 1)
        }
    }

    /// The conflicts among the commits.
    pub fn conflicts_among(&self) -> (r: (u64, u64))
        requires
            self.ok + self.conflicts <= u64::MAX,
        ensures
            r == self.conflict_share(),
    {
        if self.ok + self.conflicts > 0 {
            (self.conflicts, self.ok + self.conflicts)
        } else {
            (0, 1)
        }
    }
}

/// Every commit that was taken or ended in a conflict is counted once, under its own kind,
/// and no other commit is.
pub proof fn each_commit_is_counted_once(t: Tally, reply: CommitReply)
    requires
        t.ok < u64::MAX,
        t.conflicts < u64::MAX,
    ensures
        t.counting(reply).ok - t.ok == (if reply == CommitReply::Committed {
            1int
        } else {
            0
        }),
        t.counting(reply).conflicts - t.conflicts == (if reply == CommitReply::Conflict {
            1int
        } else {
            0
        }),
{
}

/// A count that has reached the largest number of 64 bits starts over, and the other count
/// stays what it is.
pub proof fn counts_start_over(t: Tally)
    ensures
        t.ok == u64::MAX ==> t.counting(CommitReply::Committed).ok == 0,
        t.conflicts == u64::MAX ==> t.counting(CommitReply::Conflict).conflicts == 0,
        t.counting(CommitReply::Committed).conflicts == t.conflicts,
        t.counting(CommitReply::Conflict).ok == t.ok,
        t.counting(CommitReply::Failed) == t,
{
}

/// The conflict rate is the number of conflicts over that of all counted commits.
pub proof fn conflict_rate_is_exact(t: Tally)
    requires
        t.ok + t.conflicts <= u64::MAX,
    ensures
        t.conflict_share().0 * (t.ok + t.conflicts) == t.conflicts * t.conflict_share().1,
        t.conflict_share().0 == t.conflicts,
{
    let (part, whole) = (t.conflict_share().0 as int, t.conflict_share().1 as int);
    if t.ok + t.conflicts == 0 {
        assert(part * 0 == 0 * whole) by (nonlinear_arith);
    }
}

/// The conflict rate lies between nothing and all, and can always be computed.
pub proof fn conflict_rate_is_a_share(t: Tally)
    requires
        t.ok + t.conflicts <= u64::MAX,
    ensures
        0 <= t.conflict_share().0 <= t.conflict_share().1,
        t.conflict_share().1 > 0,
{
}

/// All that one run of the benchmark measured.
#[derive(Debug)]
pub struct CommitRun {
    pub base_url: String,
    pub prefix: String,
    pub namespace: String,
    pub table: String,
    pub idempotency: bool,
    /// How many sequential commits were asked for.
    pub iterations: u64,
    /// How long each sequential commit took, in nanoseconds.
    pub latencies: Vec<u128>,
    /// How long the sequential commits took together, in nanoseconds.
    pub seq_elapsed: u128,
    /// How many concurrent writers there were.
    pub writers: u64,
    /// How long the writers ran, in nanoseconds.
    pub conc_elapsed: u128,
    pub tally: Tally,
}

/// The rank, among `n` ranks that start at zero, that is closest to `p` per cent of the
/// way from the first to the last; halfway between two ranks it is the higher one. More
/// than 100 per cent count as 100.
pub open spec fn latency_rank(n: nat, p: nat) -> int {
    (2 * (if p > 100 { 100 } else { p }) * (n - 1) + 100) / 200
}

/// The latency at the rank of `p` per cent, or 0 of none.
pub open spec fn latency_at(s: Seq<u128>, p: nat) -> u128 {
    if s.len() == 0 {
        0
    } else {
        ordered(s)[latency_rank(s.len(), p)]
    }
}

/// The rank of a percentage is one of the ranks.
proof fn lemma_latency_rank(n: nat, p: nat)
    requires
        n > 0,
    ensures
        0 <= latency_rank(n, p) < n,
{
    let q = if p > 100 {
        100
    } else {
        p
    };
    assert(0 <= 2 * q * (n - 1) <= 200 * (n - 1)) by (nonlinear_arith)
        requires
            0 <= q <= 100,
            n >= 1,
    ;
}

/// The latency at the rank of `p` per cent of the way from the shortest to the longest, or
/// `0` for an empty input.
pub fn latency_percentile(latencies: &[u128], p: u64) -> (r: u128)
    ensures
        r == latency_at(latencies@, p as nat),
{
    if latencies.len() == 0 {
        return 0;
    }
    let n: usize = latencies.len();
    let in_order = sorted(latencies);
    let q: u64 = if p > 100 {
        100
    } else {
        p
    };
    proof {
        lemma_ordered(latencies@);
        lemma_latency_rank(n as nat, p as nat);
        assert(0 <= 2 * q * (n - 1) <= 200 * (n - 1)) by (nonlinear_arith)
            requires
                0 <= q <= 100,
                n >= 1,
        ;
    }
    let rank: u128 = (2 * (q as u128) * ((n - 1) as u128) + 100) / 200;
    in_order[rank as usize]
}

/// Whether `x` is the latency at the rank of `p` per cent of the way from the first of the
/// ascending latencies to the last, rounded half up: there is such a rank, with no more
/// latencies below `x` and more at or below it. Of no latencies it is 0.
pub open spec fn is_latency_percentile(s: Seq<u128>, p: nat, x: u128) -> bool {
    if s.len() == 0 {
        x == 0
    } else {
        exists|r: int| #[trigger] is_rank_near(r, s.len(), p) && below(s, x) <= r < at_most(s, x)
    }
}

/// Whether `r` is the rank of `p` per cent of the way from rank 0 to rank `n - 1`, rounded
/// half up.
pub open spec fn is_rank_near(r: int, n: nat, p: nat) -> bool {
    -50 < 100 * r - p * (n - 1) <= 50
}

/// The computed latency percentile stands at the rank that it has to.
pub proof fn latency_percentile_has_its_rank(s: Seq<u128>, p: nat)
    requires
        p <= 100,
    ensures
        is_latency_percentile(s, p, latency_at(s, p)),
{
    if s.len() > 0 {
        let r = latency_rank(s.len(), p);
        lemma_latency_rank(s.len(), p);
        ranks_count_the_samples(s, r);
        let y = p * (s.len() - 1);
        assert(2 * p * (s.len() - 1) == 2 * y) by (nonlinear_arith)
            requires
                y == p * (s.len() - 1),
        ;
        assert(r == (2 * y + 100) / 200);
        assert(is_rank_near(r, s.len(), p));
    }
}

/// More than 100 per cent of the way is the whole way: the longest latency.
pub proof fn no_percentile_lies_above_the_longest(s: Seq<u128>, p: nat)
    requires
        p >= 100,
    ensures
        latency_at(s, p) == latency_at(s, 100),
        is_largest(s, latency_at(s, p)),
{
    latency_percentile_has_its_rank(s, 100);
    largest_is_largest(s);
    if s.len() > 0 {
        let n = s.len() as int;
        let m = n - 1;
        assert((200 * m + 100) / 200 == m);
        assert(2 * 100 * m == 200 * m) by (nonlinear_arith);
        lemma_ordered(s);
        let top = ordered(s)[n - 1];
        assert(latency_at(s, p) == top);
        assert(s.contains(top)) by {
            assert(ordered(s).to_multiset().contains(top)) by {
                broadcast use vstd::seq_lib::group_to_multiset_ensures;

                assert(ordered(s).contains(ordered(s)[n - 1]));
            }
            broadcast use vstd::seq_lib::group_to_multiset_ensures;

        }
        assert forall|i: int| 0 <= i < s.len() implies #[trigger] s[i] <= top by {
            broadcast use vstd::seq_lib::group_to_multiset_ensures;

            assert(s.contains(s[i]));
            assert(ordered(s).to_multiset().contains(s[i]));
            let k = choose|k: int| 0 <= k < n && ordered(s)[k] == s[i];
        }
    }
}

/// The number of latencies that rank above a percentile: for 90 per cent of 1000 latencies
/// at least 100, for 99 per cent at least 10.
pub proof fn tails_lie_above_their_percentile(s: Seq<u128>, p: nat, x: u128)
    requires
        s.len() > 0,
        p <= 100,
        is_latency_percentile(s, p, x),
    ensures
        100 * below(s, x) <= p * (s.len() - 1) + 50,
        100 * at_most(s, x) > p * (s.len() - 1) + 50,
{
    let r = choose|r: int| #[trigger] is_rank_near(r, s.len(), p) && below(s, x) <= r < at_most(
        s,
        x,
    );
    assert(100 * below(s, x) <= 100 * r);
    assert(100 * at_most(s, x) >= 100 * r + 100);
}

/// The percentile of the sequential commits.
pub open spec fn latency(run: CommitRun, p: nat) -> Quantity {
    Quantity::Millis(latency_at(run.latencies@, p))
}

/// The longest sequential commit.
pub open spec fn max_latency(run: CommitRun) -> Quantity {
    Quantity::Millis(largest_of(run.latencies@))
}

/// Sequential commits per second.
pub open spec fn seq_throughput(run: CommitRun) -> Quantity {
    Quantity::PerSecond(Rate { count: run.iterations, nanos: run.seq_elapsed })
}

/// Concurrent commits per second.
pub open spec fn conc_throughput(run: CommitRun) -> Quantity {
    Quantity::PerSecond(Rate { count: run.tally.ok, nanos: run.conc_elapsed })
}

/// The catalog and table that were measured.
pub open spec fn target_members(run: CommitRun) -> Seq<(Seq<char>, JsonModel)> {
    seq![
        ("base_url"@, JsonModel::Text(run.base_url@)),
        ("prefix"@, JsonModel::Text(run.prefix@)),
        ("namespace"@, JsonModel::Text(run.namespace@)),
        ("table"@, JsonModel::Text(run.table@)),
        ("idempotency"@, JsonModel::Bool(run.idempotency)),
    ]
}

/// The latencies of the sequential commits.
pub open spec fn latency_members(run: CommitRun) -> Seq<(Seq<char>, JsonModel)> {
    seq![
        ("p50"@, JsonModel::Real(latency(run, 50))),
        ("p90"@, JsonModel::Real(latency(run, 90))),
        ("p99"@, JsonModel::Real(latency(run, 99))),
        ("max"@, JsonModel::Real(max_latency(run))),
    ]
}

/// The sequential commits.
pub open spec fn sequential_members(run: CommitRun) -> Seq<(Seq<char>, JsonModel)> {
    seq![
        ("iterations"@, JsonModel::Unsigned(run.iterations)),
        ("elapsed_secs"@, JsonModel::Real(Quantity::Seconds(run.seq_elapsed))),
        ("throughput_commits_per_s"@, JsonModel::Real(seq_throughput(run))),
        ("latency_ms"@, JsonModel::Object(latency_members(run))),
    ]
}

/// The concurrent commits.
pub open spec fn concurrent_members(run: CommitRun) -> Seq<(Seq<char>, JsonModel)> {
    let (part, whole) = run.tally.conflict_share();
    seq![
        ("writers"@, JsonModel::Unsigned(run.writers)),
        ("duration_secs"@, JsonModel::Real(Quantity::Seconds(run.conc_elapsed))),
        ("ok"@, JsonModel::Unsigned(run.tally.ok)),
        ("conflicts"@, JsonModel::Unsigned(run.tally.conflicts)),
        ("throughput_commits_per_s"@, JsonModel::Real(conc_throughput(run))),
        ("conflict_rate"@, JsonModel::Real(Quantity::Fraction { part, whole })),
    ]
}

/// The machine-readable summary.
pub open spec fn summary_members(run: CommitRun) -> Seq<(Seq<char>, JsonModel)> {
    seq![
        ("target"@, JsonModel::Object(target_members(run))),
        ("sequential"@, JsonModel::Object(sequential_members(run))),
        ("concurrent"@, JsonModel::Object(concurrent_members(run))),
    ]
}

/// Whether a document holds under a key the latency percentile of some latencies.
pub open spec fn holds_percentile(j: JsonModel, key: Seq<char>, s: Seq<u128>, p: nat) -> bool {
    exists|x: u128| #[trigger]
        is_latency_percentile(s, p, x) && holds(j, key, JsonModel::Real(Quantity::Millis(x)))
}

/// The summary names the catalog and table that were measured, each under its own key.
pub proof fn summary_names_the_target(run: CommitRun)
    ensures
        ({
            let target = JsonModel::Object(target_members(run));
            &&& holds(JsonModel::Object(summary_members(run)), "target"@, target)
            &&& holds(target, "base_url"@, JsonModel::Text(run.base_url@))
            &&& holds(target, "prefix"@, JsonModel::Text(run.prefix@))
            &&& holds(target, "namespace"@, JsonModel::Text(run.namespace@))
            &&& holds(target, "table"@, JsonModel::Text(run.table@))
            &&& holds(target, "idempotency"@, JsonModel::Bool(run.idempotency))
            &&& has_members(target, 5)
            &&& has_members(JsonModel::Object(summary_members(run)), 3)
        }),
{
    lemma_summary_keys(run);
    let m = target_members(run);
    objects_hold_their_members(m);
    objects_hold_their_members(summary_members(run));
    assert(m[0].0 == "base_url"@ && m[1].0 == "prefix"@ && m[2].0 == "namespace"@);
    assert(m[3].0 == "table"@ && m[4].0 == "idempotency"@);
    assert(summary_members(run)[0].0 == "target"@);
}

/// The summary tells of the sequential commits how many there were, how long they took,
/// how many that is per second, and the latency at 50, 90 and 99 per cent and at most.
pub proof fn summary_tells_the_latencies(run: CommitRun)
    ensures
        ({
            let sequential = JsonModel::Object(sequential_members(run));
            let latencies = JsonModel::Object(latency_members(run));
            let s = run.latencies@;
            &&& holds(JsonModel::Object(summary_members(run)), "sequential"@, sequential)
            &&& holds(sequential, "iterations"@, JsonModel::Unsigned(run.iterations))
            &&& holds(
                sequential,
                "elapsed_secs"@,
                JsonModel::Real(Quantity::Seconds(run.seq_elapsed)),
            )
            &&& holds(
                sequential,
                "throughput_commits_per_s"@,
                JsonModel::Real(
                    Quantity::PerSecond(Rate { count: run.iterations, nanos: run.seq_elapsed }),
                ),
            )
            &&& holds(sequential, "latency_ms"@, latencies)
            &&& holds_percentile(latencies, "p50"@, s, 50)
            &&& holds_percentile(latencies, "p90"@, s, 90)
            &&& holds_percentile(latencies, "p99"@, s, 99)
            &&& exists|x: u128| #[trigger]
                is_largest(s, x) && holds(
                    latencies,
                    "max"@,
                    JsonModel::Real(Quantity::Millis(x)),
                )
            &&& has_members(sequential, 4)
            &&& has_members(latencies, 4)
        }),
{
    lemma_summary_keys(run);
    let s = run.latencies@;
    latency_percentile_has_its_rank(s, 50);
    latency_percentile_has_its_rank(s, 90);
    latency_percentile_has_its_rank(s, 99);
    largest_is_largest(s);
    let m = sequential_members(run);
    let l = latency_members(run);
    objects_hold_their_members(m);
    objects_hold_their_members(l);
    objects_hold_their_members(summary_members(run));
    assert(summary_members(run)[1].0 == "sequential"@);
    assert(m[0].0 == "iterations"@ && m[1].0 == "elapsed_secs"@);
    assert(m[2].0 == "throughput_commits_per_s"@ && m[3].0 == "latency_ms"@);
    assert(l[0].0 == "p50"@ && l[1].0 == "p90"@ && l[2].0 == "p99"@ && l[3].0 == "max"@);
}

/// The summary tells of the concurrent commits how many writers there were, how long they
/// ran, how many commits were taken and how many ended in a conflict, how many were taken
/// per second, and the share of conflicts.
pub proof fn summary_tells_the_conflicts(run: CommitRun)
    requires
        run.tally.ok + run.tally.conflicts <= u64::MAX,
    ensures
        ({
            let concurrent = JsonModel::Object(concurrent_members(run));
            let t = run.tally;
            &&& holds(JsonModel::Object(summary_members(run)), "concurrent"@, concurrent)
            &&& has_members(concurrent, 6)
            &&& holds(concurrent, "writers"@, JsonModel::Unsigned(run.writers))
            &&& holds(
                concurrent,
                "duration_secs"@,
                JsonModel::Real(Quantity::Seconds(run.conc_elapsed)),
            )
            &&& holds(concurrent, "ok"@, JsonModel::Unsigned(t.ok))
            &&& holds(concurrent, "conflicts"@, JsonModel::Unsigned(t.conflicts))
            &&& holds(
                concurrent,
                "throughput_commits_per_s"@,
                JsonModel::Real(
                    Quantity::PerSecond(Rate { count: t.ok, nanos: run.conc_elapsed }),
                ),
            )
            &&& exists|whole: u64|
                whole == (if t.ok + t.conflicts > 0 {
                    t.ok + t.conflicts
                } else {
                    1
                }) && #[trigger] holds(
                    concurrent,
                    "conflict_rate"@,
                    JsonModel::Real(Quantity::Fraction { part: t.conflicts, whole }),
                )
        }),
{
    lemma_summary_keys(run);
    conflict_rate_is_exact(run.tally);
    let m = concurrent_members(run);
    let whole = run.tally.conflict_share().1;
    objects_hold_their_members(m);
    objects_hold_their_members(summary_members(run));
    assert(summary_members(run)[2].0 == "concurrent"@);
    assert(m[0].0 == "writers"@ && m[1].0 == "duration_secs"@ && m[2].0 == "ok"@);
    assert(m[3].0 == "conflicts"@ && m[4].0 == "throughput_commits_per_s"@);
    assert(m[5].0 == "conflict_rate"@);
    assert(holds(
        JsonModel::Object(m),
        "conflict_rate"@,
        JsonModel::Real(Quantity::Fraction { part: run.tally.conflicts, whole }),
    ));
}

proof fn lemma_summary_keys(run: CommitRun)
    ensures
        keys_differ(summary_members(run)),
        keys_differ(target_members(run)),
        keys_differ(sequential_members(run)),
        keys_differ(latency_members(run)),
        keys_differ(concurrent_members(run)),
{
    reveal_strlit("target");
    reveal_strlit("sequential");
    reveal_strlit("concurrent");
    assert("target"@.len() == 6 && "sequential"@[0] == 's' && "concurrent"@[0] == 'c');
    assert("sequential"@.len() == 10 && "concurrent"@.len() == 10);
    reveal_strlit("base_url");
    reveal_strlit("prefix");
    reveal_strlit("namespace");
    reveal_strlit("table");
    reveal_strlit("idempotency");
    assert("base_url"@.len() == 8 && "prefix"@.len() == 6 && "namespace"@.len() == 9);
    assert("table"@.len() == 5 && "idempotency"@.len() == 11);
    reveal_strlit("iterations");
    reveal_strlit("elapsed_secs");
    reveal_strlit("throughput_commits_per_s");
    reveal_strlit("latency_ms");
    assert("iterations"@[0] == 'i' && "latency_ms"@[0] == 'l');
    assert("elapsed_secs"@.len() == 12 && "throughput_commits_per_s"@.len() == 24);
    assert("iterations"@.len() == 10 && "latency_ms"@.len() == 10);
    reveal_strlit("p50");
    reveal_strlit("p90");
    reveal_strlit("p99");
    reveal_strlit("max");
    assert("p50"@[1] == '5' && "p90"@[1] == '9' && "p90"@[2] == '0' && "p99"@[2] == '9');
    assert("p99"@[1] == '9' && "max"@[0] == 'm' && "p50"@[0] == 'p' && "p90"@[0] == 'p');
    assert("p99"@[0] == 'p');
    reveal_strlit("writers");
    reveal_strlit("duration_secs");
    reveal_strlit("ok");
    reveal_strlit("conflicts");
    reveal_strlit("conflict_rate");
    assert("writers"@.len() == 7 && "duration_secs"@[0] == 'd' && "ok"@.len() == 2);
    assert("conflicts"@.len() == 9 && "conflict_rate"@[0] == 'c');
    assert("duration_secs"@.len() == 13 && "conflict_rate"@.len() == 13);
}

/// How a switch is printed.
pub open spec fn switch_text(b: bool) -> Seq<char> {
    if b {
        "true"@
    } else {
        "false"@
    }
}

/// The summary's heading.
pub open spec fn heading(run: CommitRun) -> Seq<Token> {
    plain("catalog-commit-bench  ->  "@) + plain(run.base_url@) + plain("  (prefix='"@) + plain(
        run.prefix@,
    ) + plain("', table="@) + plain(run.namespace@) + plain("/"@) + plain(run.table@) + plain(
        ")\n  idempotency header: "@,
    ) + plain(switch_text(run.idempotency)) + plain("\n\n"@)
}

/// The summary's lines on the sequential commits.
pub open spec fn sequential_lines(run: CommitRun) -> Seq<Token> {
    plain("Sequential commit latency ("@) + plain(decimal(run.iterations as nat)) + plain(
        " commits):\n  throughput : "@,
    ) + number(seq_throughput(run), 8, 1) + plain(" commits/s\n  p50        : "@) + number(
        latency(run, 50),
        8,
        3,
    ) + plain(" ms\n  p90        : "@) + number(latency(run, 90), 8, 3) + plain(
        " ms\n  p99        : "@,
    ) + number(latency(run, 99), 8, 3) + plain(" ms\n  max        : "@) + number(
        max_latency(run),
        8,
        3,
    ) + plain(" ms\n\n"@)
}

/// The summary's lines on the concurrent commits.
pub open spec fn concurrent_lines(run: CommitRun) -> Seq<Token> {
    let (part, whole) = run.tally.conflict_share();
    plain("Concurrent throughput ("@) + plain(decimal(run.writers as nat)) + plain(" writers, "@)
        + number(Quantity::Seconds(run.conc_elapsed), 0, 1) + plain("s):\n  committed  : "@)
        + plain(decimal(run.tally.ok as nat)) + plain("\n  conflicts  : "@) + plain(
        decimal(run.tally.conflicts as nat),
    ) + plain("  (rate "@) + number(Quantity::Percent { part, whole }, 0, 2) + plain(
        "%)\n  throughput : "@,
    ) + number(conc_throughput(run), 8, 1) + plain(" commits/s\n"@)
}

/// The summary for people to read.
pub open spec fn summary_page(run: CommitRun) -> Seq<Token> {
    heading(run) + sequential_lines(run) + concurrent_lines(run)
}

proof fn lemma_in_sequential(run: CommitRun, stretch: Seq<Token>)
    requires
        has_run(sequential_lines(run), stretch),
    ensures
        has_run(summary_page(run), stretch),
{
    lemma_run_behind(heading(run), sequential_lines(run), stretch);
    lemma_run_in_front(heading(run) + sequential_lines(run), concurrent_lines(run), stretch);
}

/// Whether a text has behind a label the latency percentile of some latencies.
pub open spec fn shows_percentile(
    page: Seq<Token>,
    label: Seq<char>,
    s: Seq<u128>,
    p: nat,
) -> bool {
    exists|x: u128| #[trigger]
        is_latency_percentile(s, p, x) && has_run(
            page,
            plain(label) + number(Quantity::Millis(x), 8, 3),
        )
}

/// The printed summary shows behind each label of the sequential commits what was measured:
/// how many there were, how many per second, and the latency at 50, 90 and 99 per cent and
/// at most.
pub proof fn page_shows_the_latencies(run: CommitRun)
    ensures
        ({
            let page = summary_page(run);
            let s = run.latencies@;
            &&& has_run(
                page,
                plain("Sequential commit latency ("@) + plain(decimal(run.iterations as nat)),
            )
            &&& has_run(
                page,
                plain(" commits):\n  throughput : "@) + number(
                    Quantity::PerSecond(Rate { count: run.iterations, nanos: run.seq_elapsed }),
                    8,
                    1,
                ),
            )
            &&& shows_percentile(page, " commits/s\n  p50        : "@, s, 50)
            &&& shows_percentile(page, " ms\n  p90        : "@, s, 90)
            &&& shows_percentile(page, " ms\n  p99        : "@, s, 99)
            &&& exists|x: u128| #[trigger]
                is_largest(s, x) && has_run(
                    page,
                    plain(" ms\n  max        : "@) + number(Quantity::Millis(x), 8, 3),
                )
        }),
{
    broadcast use group_runs;

    let s = run.latencies@;
    let lines = sequential_lines(run);
    let count = plain("Sequential commit latency ("@) + plain(decimal(run.iterations as nat));
    let rate = plain(" commits):\n  throughput : "@) + number(
        Quantity::PerSecond(Rate { count: run.iterations, nanos: run.seq_elapsed }),
        8,
        1,
    );
    let at = |label: Seq<char>, x: u128| plain(label) + number(Quantity::Millis(x), 8, 3);
    let p50 = at(" commits/s\n  p50        : "@, latency_at(s, 50));
    let p90 = at(" ms\n  p90        : "@, latency_at(s, 90));
    let p99 = at(" ms\n  p99        : "@, latency_at(s, 99));
    let max = at(" ms\n  max        : "@, largest_of(s));
    assert(has_run(lines, count));
    assert(has_run(lines, rate));
    assert(has_run(lines, p50));
    assert(has_run(lines, p90));
    assert(has_run(lines, p99));
    assert(has_run(lines, max));
    lemma_in_sequential(run, count);
    lemma_in_sequential(run, rate);
    lemma_in_sequential(run, p50);
    lemma_in_sequential(run, p90);
    lemma_in_sequential(run, p99);
    lemma_in_sequential(run, max);
    latency_percentile_has_its_rank(s, 50);
    latency_percentile_has_its_rank(s, 90);
    latency_percentile_has_its_rank(s, 99);
    largest_is_largest(s);
}

/// The printed summary shows behind each label of the concurrent commits what was measured:
/// how many writers there were, how long they ran, how many commits were taken and how many
/// ended in a conflict, the share of these, and how many were taken per second.
pub proof fn page_shows_the_conflicts(run: CommitRun)
    requires
        run.tally.ok + run.tally.conflicts <= u64::MAX,
    ensures
        ({
            let page = summary_page(run);
            let t = run.tally;
            &&& has_run(
                page,
                plain("Concurrent throughput ("@) + plain(decimal(run.writers as nat)) + plain(
                    " writers, "@,
                ) + number(Quantity::Seconds(run.conc_elapsed), 0, 1),
            )
            &&& has_run(page, plain("s):\n  committed  : "@) + plain(decimal(t.ok as nat)))
            &&& has_run(page, plain("\n  conflicts  : "@) + plain(decimal(t.conflicts as nat)))
            &&& exists|whole: u64|
                whole == (if t.ok + t.conflicts > 0 {
                    t.ok + t.conflicts
                } else {
                    1
                }) && #[trigger] has_run(
                    page,
                    plain("  (rate "@) + number(
                        Quantity::Percent { part: t.conflicts, whole },
                        0,
                        2,
                    ),
                )
            &&& has_run(
                page,
                plain("%)\n  throughput : "@) + number(
                    Quantity::PerSecond(Rate { count: t.ok, nanos: run.conc_elapsed }),
                    8,
                    1,
                ),
            )
        }),
{
    broadcast use group_runs;

    let lines = concurrent_lines(run);
    let front = heading(run) + sequential_lines(run);
    let t = run.tally;
    let whole = t.conflict_share().1;
    conflict_rate_is_exact(t);
    let writers = plain("Concurrent throughput ("@) + plain(decimal(run.writers as nat)) + plain(
        " writers, "@,
    ) + number(Quantity::Seconds(run.conc_elapsed), 0, 1);
    let ok = plain("s):\n  committed  : "@) + plain(decimal(t.ok as nat));
    let conflicts = plain("\n  conflicts  : "@) + plain(decimal(t.conflicts as nat));
    let share = plain("  (rate "@) + number(Quantity::Percent { part: t.conflicts, whole }, 0, 2);
    let rate = plain("%)\n  throughput : "@) + number(
        Quantity::PerSecond(Rate { count: t.ok, nanos: run.conc_elapsed }),
        8,
        1,
    );
    assert(has_run(lines, writers));
    assert(has_run(lines, ok));
    assert(has_run(lines, conflicts));
    assert(has_run(lines, share));
    assert(has_run(lines, rate));
    lemma_run_behind(front, lines, writers);
    lemma_run_behind(front, lines, ok);
    lemma_run_behind(front, lines, conflicts);
    lemma_run_behind(front, lines, share);
    lemma_run_behind(front, lines, rate);
}

/// The printed summary shows which catalog and table were measured, and whether with
/// idempotency keys.
pub proof fn page_shows_the_target(run: CommitRun)
    ensures
        ({
            let page = summary_page(run);
            &&& has_run(page, plain("catalog-commit-bench  ->  "@) + plain(run.base_url@))
            &&& has_run(
                page,
                plain("  (prefix='"@) + plain(run.prefix@) + plain("', table="@) + plain(
                    run.namespace@,
                ),
            )
            &&& has_run(
                page,
                plain(run.namespace@) + plain("/"@) + plain(run.table@) + plain(
                    ")\n  idempotency header: "@,
                ),
            )
            &&& has_run(
                page,
                plain(")\n  idempotency header: "@) + plain(
                    if run.idempotency {
                        "true"@
                    } else {
                        "false"@
                    },
                ),
            )
        }),
{
    broadcast use group_runs;

}

impl CommitRun {
    /// The machine-readable summary of the run.
    pub fn to_json(&self) -> (j: Json)
        requires
            self.tally.ok + self.tally.conflicts <= u64::MAX,
        ensures
            j@ == JsonModel::Object(summary_members(*self)),
    {
        let mut target = no_members();
        put(&mut target, "base_url", text(&self.base_url));
        put(&mut target, "prefix", text(&self.prefix));
        put(&mut target, "namespace", text(&self.namespace));
        put(&mut target, "table", text(&self.table));
        put(&mut target, "idempotency", Json::Bool(self.idempotency));
        assert(members_model(target@) =~= target_members(*self));

        let p50 = Quantity::Millis(latency_percentile(&self.latencies, 50));
        let p90 = Quantity::Millis(latency_percentile(&self.latencies, 90));
        let p99 = Quantity::Millis(latency_percentile(&self.latencies, 99));
        let max = Quantity::Millis(largest(&self.latencies));
        let mut latencies = no_members();
        put(&mut latencies, "p50", Json::Real(p50));
        put(&mut latencies, "p90", Json::Real(p90));
        put(&mut latencies, "p99", Json::Real(p99));
        put(&mut latencies, "max", Json::Real(max));
        assert(members_model(latencies@) =~= latency_members(*self));

        let seq_rate = Rate { count: self.iterations, nanos: self.seq_elapsed };
        let mut sequential = no_members();
        put(&mut sequential, "iterations", Json::Unsigned(self.iterations));
        put(&mut sequential, "elapsed_secs", Json::Real(Quantity::Seconds(self.seq_elapsed)));
        put(
            &mut sequential,
            "throughput_commits_per_s",
            Json::Real(Quantity::PerSecond(seq_rate)),
        );
        put(&mut sequential, "latency_ms", object(latencies));
        assert(members_model(sequential@) =~= sequential_members(*self));

        let (part, whole) = self.tally.conflicts_among();
        let conc_rate = Rate { count: self.tally.ok, nanos: self.conc_elapsed };
        let mut concurrent = no_members();
        put(&mut concurrent, "writers", Json::Unsigned(self.writers));
        put(&mut concurrent, "duration_secs", Json::Real(Quantity::Seconds(self.conc_elapsed)));
        put(&mut concurrent, "ok", Json::Unsigned(self.tally.ok));
        put(&mut concurrent, "conflicts", Json::Unsigned(self.tally.conflicts));
        put(
            &mut concurrent,
            "throughput_commits_per_s",
            Json::Real(Quantity::PerSecond(conc_rate)),
        );
        put(&mut concurrent, "conflict_rate", Json::Real(Quantity::Fraction { part, whole }));
        assert(members_model(concurrent@) =~= concurrent_members(*self));

        let mut out = no_members();
        put(&mut out, "target", object(target));
        put(&mut out, "sequential", object(sequential));
        put(&mut out, "concurrent", object(concurrent));
        assert(members_model(out@) =~= summary_members(*self));
        object(out)
    }

    fn heading_doc(&self) -> (d: Doc)
        ensures
            d@ == heading(*self),
    {
        let mut d = Doc::of("catalog-commit-bench  ->  ");
        d.text(&self.base_url);
        d.text("  (prefix='");
        d.text(&self.prefix);
        d.text("', table=");
        d.text(&self.namespace);
        d.text("/");
        d.text(&self.table);
        d.text(")\n  idempotency header: ");
        if self.idempotency {
            d.text("true");
        } else {
            d.text("false");
        }
        d.text("\n\n");
        d
    }

    fn sequential_doc(&self) -> (d: Doc)
        ensures
            d@ == sequential_lines(*self),
    {
        let rate = Rate { count: self.iterations, nanos: self.seq_elapsed };
        let mut d = Doc::of("Sequential commit latency (");
        d.text(&decimal_text(self.iterations));
        d.text(" commits):\n  throughput : ");
        d.number(Quantity::PerSecond(rate), 8, 1);
        d.text(" commits/s\n  p50        : ");
        d.number(Quantity::Millis(latency_percentile(&self.latencies, 50)), 8, 3);
        d.text(" ms\n  p90        : ");
        d.number(Quantity::Millis(latency_percentile(&self.latencies, 90)), 8, 3);
        d.text(" ms\n  p99        : ");
        d.number(Quantity::Millis(latency_percentile(&self.latencies, 99)), 8, 3);
        d.text(" ms\n  max        : ");
        d.number(Quantity::Millis(largest(&self.latencies)), 8, 3);
        d.text(" ms\n\n");
        d
    }

    fn concurrent_doc(&self) -> (d: Doc)
        requires
            self.tally.ok + self.tally.conflicts <= u64::MAX,
        ensures
            d@ == concurrent_lines(*self),
    {
        let rate = Rate { count: self.tally.ok, nanos: self.conc_elapsed };
        let (part, whole) = self.tally.conflicts_among();
        let mut d = Doc::of("Concurrent throughput (");
        d.text(&decimal_text(self.writers));
        d.text(" writers, ");
        d.number(Quantity::Seconds(self.conc_elapsed), 0, 1);
        d.text("s):\n  committed  : ");
        d.text(&decimal_text(self.tally.ok));
        d.text("\n  conflicts  : ");
        d.text(&decimal_text(self.tally.conflicts));
        d.text("  (rate ");
        d.number(Quantity::Percent { part, whole }, 0, 2);
        d.text("%)\n  throughput : ");
        d.number(Quantity::PerSecond(rate), 8, 1);
        d.text(" commits/s\n");
        d
    }

    /// The summary of the run for people to read.
    pub fn to_text(&self) -> (d: Doc)
        requires
            self.tally.ok + self.tally.conflicts <= u64::MAX,
        ensures
            d@ == summary_page(*self),
    {
        let mut d = self.heading_doc();
        d.append(self.sequential_doc());
        d.append(self.concurrent_doc());
        d
    }
}

} // verus!
