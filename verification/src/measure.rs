//! Latency and throughput, measured in whole nanoseconds.
//!
//! Times are counts of nanoseconds, so ranking and counting are exact. A number that a
//! report shows as a decimal fraction is kept as the [`Quantity`] it stands for; turning
//! it into a floating-point number is left to whoever prints it.

use vstd::prelude::*;
use vstd::relations::*;
use vstd::seq_lib::*;

verus! {

/// A number of events over a span of time.
#[derive(Debug, Clone, Copy, PartialEq, Eq, Structural)]
pub struct Rate {
    /// How many events there were.
    pub count: u64,
    /// How long they took, in nanoseconds.
    pub nanos: u128,
}

/// A number that need not be whole, by the integers that determine it.
#[derive(Debug, Clone, Copy, PartialEq, Eq, Structural)]
pub enum Quantity {
    /// This many nanoseconds, given in milliseconds.
    Millis(u128),
    /// This many nanoseconds, given in seconds.
    Seconds(u128),
    /// Events per second.
    PerSecond(Rate),
    /// `part` divided by `whole`.
    Fraction { part: u64, whole: u64 },
    /// `part` divided by `whole`, in per cent.
    Percent { part: u64, whole: u64 },
    /// A whole number.
    Whole(i128),
    /// A double-precision number by its IEEE 754 bits.
    Double(u64),
}

/// The samples with `x` put behind the last one that is not larger.
pub open spec fn insert(s: Seq<u128>, x: u128) -> Seq<u128>
    decreases s.len(),
{
    if s.len() == 0 || s.last() <= x {
        s.push(x)
    } else {
        insert(s.drop_last(), x).push(s.last())
    }
}

/// The samples from the smallest to the largest.
pub open spec fn ordered(s: Seq<u128>) -> Seq<u128>
    decreases s.len(),
{
    if s.len() == 0 {
        s
    } else {
        insert(ordered(s.drop_last()), s.last())
    }
}

/// The nearest rank of `p` per cent among `n` ranks that start at zero: the lowest one at
/// and below which at least `p` per cent of the ranks lie. More than 100 per cent count as
/// 100.
pub open spec fn nearest_rank(n: nat, p: nat) -> int {
    let q = if p > 100 {
        100
    } else {
        p
    };
    if q == 0 {
        0
    } else {
        (q * n + 99) / 100 - 1
    }
}

/// The `p`th percentile of the samples: the one at the nearest rank, or 0 of none.
pub open spec fn percentile_of(s: Seq<u128>, p: nat) -> u128 {
    if s.len() == 0 {
        0
    } else {
        ordered(s)[nearest_rank(s.len(), p)]
    }
}

/// The nearest rank of `part / whole` per cent among `n` ranks that start at zero.
pub open spec fn fraction_rank(n: nat, part: nat, whole: nat) -> int {
    if part == 0 {
        0
    } else if part >= 100 * whole {
        n - 1
    } else {
        (part * n - 1) / (100 * whole as int)
    }
}

/// The percentile of `part / whole` per cent of the samples: the one at the nearest rank,
/// or 0 of none.
pub open spec fn fraction_percentile_of(s: Seq<u128>, part: nat, whole: nat) -> u128 {
    if s.len() == 0 {
        0
    } else {
        ordered(s)[fraction_rank(s.len(), part, whole)]
    }
}

/// The largest sample, or 0 of none.
pub open spec fn largest_of(s: Seq<u128>) -> u128 {
    if s.len() == 0 {
        0
    } else {
        ordered(s).last()
    }
}

spec fn leq() -> spec_fn(u128, u128) -> bool {
    |a: u128, b: u128| a <= b
}

proof fn lemma_leq_total()
    ensures
        total_ordering(leq()),
{
}

proof fn lemma_insert(s: Seq<u128>, x: u128)
    requires
        sorted_by(s, leq()),
    ensures
        sorted_by(insert(s, x), leq()),
        insert(s, x).to_multiset() == s.to_multiset().insert(x),
        insert(s, x).len() == s.len() + 1,
        forall|i: int|
            0 <= i < insert(s, x).len() ==> #[trigger] insert(s, x)[i] == x || s.contains(
                insert(s, x)[i],
            ),
    decreases s.len(),
{
    broadcast use group_to_multiset_ensures;

    let out = insert(s, x);
    if s.len() == 0 || s.last() <= x {
        assert forall|i: int, j: int| 0 <= i < j < out.len() implies #[trigger] leq()(
            out[i],
            out[j],
        ) by {
            if j == s.len() && i < s.len() - 1 {
                assert(leq()(s[i], s[s.len() - 1]));
            } else if j < s.len() {
                assert(leq()(s[i], s[j]));
            }
        }
    } else {
        let front = s.drop_last();
        assert forall|i: int, j: int| 0 <= i < j < front.len() implies #[trigger] leq()(
            front[i],
            front[j],
        ) by {
            assert(leq()(s[i], s[j]));
        }
        lemma_insert(front, x);
        let rest = insert(front, x);
        assert(s == front.push(s.last()));
        assert(out.to_multiset() == rest.to_multiset().insert(s.last()));
        assert(out.to_multiset() =~= s.to_multiset().insert(x));
        assert forall|i: int| 0 <= i < rest.len() implies rest[i] <= s.last() by {
            if rest[i] != x {
                let k = choose|k: int| 0 <= k < front.len() && front[k] == rest[i];
                assert(leq()(s[k], s[s.len() - 1]));
            }
        }
        assert forall|i: int, j: int| 0 <= i < j < out.len() implies #[trigger] leq()(
            out[i],
            out[j],
        ) by {
            if j < rest.len() {
                assert(leq()(rest[i], rest[j]));
            }
        }
        assert forall|i: int| 0 <= i < out.len() implies #[trigger] out[i] == x || s.contains(
            out[i],
        ) by {
            if i < rest.len() {
                if rest[i] != x {
                    let k = choose|k: int| 0 <= k < front.len() && front[k] == rest[i];
                    assert(s[k] == out[i]);
                }
            } else {
                assert(s[s.len() - 1] == out[i]);
            }
        }
    }
}

/// `ordered` puts the samples in ascending order and keeps each of them.
pub proof fn lemma_ordered(s: Seq<u128>)
    ensures
        forall|i: int, j: int|
            0 <= i <= j < ordered(s).len() ==> #[trigger] ordered(s)[i] <= #[trigger] ordered(s)[j],
        ordered(s).to_multiset() == s.to_multiset(),
        ordered(s).len() == s.len(),
{
    lemma_ordered_by(s);
    let o = ordered(s);
    assert forall|i: int, j: int| 0 <= i <= j < o.len() implies #[trigger] o[i]
        <= #[trigger] o[j] by {
        if i < j {
            assert(leq()(o[i], o[j]));
        }
    }
}

proof fn lemma_ordered_by(s: Seq<u128>)
    ensures
        sorted_by(ordered(s), leq()),
        ordered(s).to_multiset() == s.to_multiset(),
        ordered(s).len() == s.len(),
    decreases s.len(),
{
    broadcast use group_to_multiset_ensures;

    if s.len() > 0 {
        lemma_ordered_by(s.drop_last());
        lemma_insert(ordered(s.drop_last()), s.last());
        assert(s == s.drop_last().push(s.last()));
    }
}

/// The nearest rank is one of the ranks, and does not fall as the percentage grows.
pub proof fn lemma_nearest_rank(n: nat, p: nat, q: nat)
    requires
        n > 0,
        p <= q,
    ensures
        0 <= nearest_rank(n, p) <= nearest_rank(n, q) < n,
{
    let a: nat = if p > 100 {
        100
    } else {
        p
    };
    let b: nat = if q > 100 {
        100
    } else {
        q
    };
    assert(a <= a * n <= b * n <= 100 * n) by (nonlinear_arith)
        requires
            0 <= a <= b <= 100,
            n >= 1,
    ;
    assert(b <= b * n) by (nonlinear_arith)
        requires
            n >= 1,
    ;
}

/// At least `p` per cent of `n` samples lie at or below the nearest rank, and fewer lie
/// below it.
pub proof fn nearest_rank_covers_the_percentage(n: nat, p: nat)
    requires
        n > 0,
        1 <= p <= 100,
    ensures
        100 * (nearest_rank(n, p) + 1) >= p * n > 100 * nearest_rank(n, p),
{
    assert(p * n >= 1) by (nonlinear_arith)
        requires
            p >= 1,
            n >= 1,
    ;
}

/// The nearest rank of a fraction is one of the ranks; at least that share of `n` samples
/// lie at or below it, and fewer lie below it.
pub proof fn fraction_rank_covers_the_percentage(n: nat, part: nat, whole: nat)
    requires
        n > 0,
        whole > 0,
    ensures
        0 <= fraction_rank(n, part, whole) < n,
        0 < part <= 100 * whole ==> 100 * whole * (fraction_rank(n, part, whole) + 1) >= part * n,
        0 < part <= 100 * whole ==> 100 * whole * fraction_rank(n, part, whole) < part * n,
{
    let d = 100 * whole as int;
    if part == d {
        assert(d * (n - 1 + 1) >= part * n && d * (n - 1) < part * n) by (nonlinear_arith)
            requires
                part == d,
                d > 0,
        ;
    } else if 0 < part < d {
        let x = part * n - 1;
        let r = x / d;
        assert(0 <= x < d * n) by (nonlinear_arith)
            requires
                x == part * n - 1,
                0 < part < d,
                n > 0,
        ;
        vstd::arithmetic::div_mod::lemma_fundamental_div_mod(x, d);
        assert(0 <= r < n) by (nonlinear_arith)
            requires
                x == d * r + x % d,
                0 <= x % d < d,
                0 <= x < d * n,
                d > 0,
        ;
        assert(d * (r + 1) == d * r + d) by (nonlinear_arith);
    }
}

/// A whole percentage is a fraction over one.
pub proof fn whole_percentages_are_fractions(s: Seq<u128>, p: nat)
    ensures
        percentile_of(s, p) == fraction_percentile_of(s, p, 1),
{
    if s.len() > 0 && 0 < p {
        let n = s.len();
        assert(p * n >= 1) by (nonlinear_arith)
            requires
                p >= 1,
                n >= 1,
        ;
        assert(nearest_rank(n, p) == fraction_rank(n, p, 1));
    }
}

/// Nothing lies above all of the samples: more than 100 per cent are 100 per cent, the
/// largest sample, also of a fraction; and no per cent are the smallest.
pub proof fn percentages_end_at_all(s: Seq<u128>, p: nat, part: nat, whole: nat)
    requires
        whole > 0,
    ensures
        p >= 100 ==> percentile_of(s, p) == largest_of(s),
        part >= 100 * whole ==> fraction_percentile_of(s, part, whole) == largest_of(s),
        fraction_percentile_of(s, 0, whole) == percentile_of(s, 0),
{
    if s.len() > 0 {
        lemma_ordered(s);
        assert(nearest_rank(s.len(), 100) == s.len() - 1);
        assert(p >= 100 ==> nearest_rank(s.len(), p) == nearest_rank(s.len(), 100));
    }
}

/// Whether `x` is the percentile of `part / whole` per cent of the samples: with at least
/// that share of them at or below it, and less than that share below it. Of no samples it
/// is 0.
pub open spec fn is_fraction_percentile(s: Seq<u128>, part: nat, whole: nat, x: u128) -> bool {
    if s.len() == 0 {
        x == 0
    } else {
        &&& s.contains(x)
        &&& 100 * whole * at_most(s, x) >= part * s.len()
        &&& 100 * whole * below(s, x) < part * s.len()
    }
}

/// The computed percentile of a fraction splits the samples as it has to.
pub proof fn fraction_percentile_splits_the_samples(s: Seq<u128>, part: nat, whole: nat)
    requires
        whole > 0,
        0 < part <= 100 * whole,
    ensures
        is_fraction_percentile(s, part, whole, fraction_percentile_of(s, part, whole)),
{
    broadcast use group_to_multiset_ensures;

    if s.len() > 0 {
        let r = fraction_rank(s.len(), part, whole);
        let x = ordered(s)[r];
        fraction_rank_covers_the_percentage(s.len(), part, whole);
        ranks_count_the_samples(s, r);
        lemma_ordered(s);
        assert(ordered(s).contains(x));
        assert(s.to_multiset().count(x) > 0);
        let d = (100 * whole) as int;
        let (a, b) = (at_most(s, x) as int, below(s, x) as int);
        assert(d * a >= d * (r + 1) && d * b <= d * r) by (nonlinear_arith)
            requires
                d > 0,
                a >= r + 1,
                b <= r,
        ;
    }
}

/// The order in which the samples were taken does not matter: the same samples have the
/// same percentiles.
pub proof fn percentile_ignores_order(s: Seq<u128>, t: Seq<u128>, p: nat)
    requires
        s.to_multiset() == t.to_multiset(),
    ensures
        percentile_of(s, p) == percentile_of(t, p),
{
    lemma_ordered_by(s);
    lemma_ordered_by(t);
    lemma_leq_total();
    lemma_sorted_unique(ordered(s), ordered(t), leq());
}

/// Every percentile of some samples is one of them.
pub proof fn percentile_is_a_sample(s: Seq<u128>, p: nat)
    requires
        s.len() > 0,
    ensures
        s.contains(percentile_of(s, p)),
{
    broadcast use group_to_multiset_ensures;

    lemma_ordered(s);
    lemma_nearest_rank(s.len(), p, p);
    let o = ordered(s);
    assert(o.contains(o[nearest_rank(s.len(), p)]));
    assert(o.to_multiset().count(o[nearest_rank(s.len(), p)]) > 0);
}

/// A higher percentile is not smaller.
pub proof fn percentile_is_monotone(s: Seq<u128>, p: nat, q: nat)
    requires
        p <= q,
    ensures
        percentile_of(s, p) <= percentile_of(s, q),
{
    if s.len() > 0 {
        lemma_ordered(s);
        lemma_nearest_rank(s.len(), p, q);
    }
}

/// No sample lies below the 0th percentile or above the 100th.
pub proof fn percentile_spans_the_samples(s: Seq<u128>, x: u128)
    requires
        s.contains(x),
    ensures
        percentile_of(s, 0) <= x <= percentile_of(s, 100),
        percentile_of(s, 100) == largest_of(s),
{
    broadcast use group_to_multiset_ensures;

    lemma_ordered(s);
    let o = ordered(s);
    assert(s.to_multiset().count(x) > 0);
    assert(o.contains(x));
    let k = choose|k: int| 0 <= k < o.len() && o[k] == x;
    let last = s.len() - 1;
    assert(nearest_rank(s.len(), 0) == 0 && nearest_rank(s.len(), 100) == last);
    assert(o[0] <= o[k] <= o[o.len() - 1]);
}

/// How many of the samples are not larger than `x`.
pub open spec fn at_most(s: Seq<u128>, x: u128) -> nat
    decreases s.len(),
{
    if s.len() == 0 {
        0
    } else if s.last() <= x {
        at_most(s.drop_last(), x) + 1
    } else {
        at_most(s.drop_last(), x)
    }
}

/// How many of the samples are smaller than `x`.
pub open spec fn below(s: Seq<u128>, x: u128) -> nat
    decreases s.len(),
{
    if s.len() == 0 {
        0
    } else if s.last() < x {
        below(s.drop_last(), x) + 1
    } else {
        below(s.drop_last(), x)
    }
}

proof fn lemma_insert_counts(s: Seq<u128>, x: u128, y: u128)
    ensures
        at_most(insert(s, x), y) == at_most(s, y) + if x <= y {
            1nat
        } else {
            0
        },
        below(insert(s, x), y) == below(s, y) + if x < y {
            1nat
        } else {
            0
        },
    decreases s.len(),
{
    let out = insert(s, x);
    if s.len() == 0 || s.last() <= x {
        assert(out.drop_last() =~= s);
    } else {
        assert(out.drop_last() =~= insert(s.drop_last(), x));
        lemma_insert_counts(s.drop_last(), x, y);
    }
}

proof fn lemma_ordered_counts(s: Seq<u128>, y: u128)
    ensures
        at_most(ordered(s), y) == at_most(s, y),
        below(ordered(s), y) == below(s, y),
    decreases s.len(),
{
    if s.len() > 0 {
        lemma_ordered_counts(s.drop_last(), y);
        lemma_insert_counts(ordered(s.drop_last()), s.last(), y);
    }
}

proof fn lemma_counts_in_order(o: Seq<u128>, r: int)
    requires
        0 <= r < o.len(),
        forall|i: int, j: int| 0 <= i <= j < o.len() ==> #[trigger] o[i] <= #[trigger] o[j],
    ensures
        below(o, o[r]) <= r < at_most(o, o[r]) <= o.len(),
    decreases o.len(),
{
    let front = o.drop_last();
    if r < front.len() {
        assert forall|i: int, j: int| 0 <= i <= j < front.len() implies #[trigger] front[i]
            <= #[trigger] front[j] by {
            assert(o[i] <= o[j]);
        }
        lemma_counts_in_order(front, r);
        assert(o[r] <= o[o.len() - 1]);
    } else {
        lemma_counts_bounded(front, o[r]);
        assert forall|i: int| 0 <= i < front.len() implies #[trigger] front[i] <= o[r] by {
            assert(o[i] <= o[r]);
        }
        lemma_counts_all(front, o[r]);
    }
}

proof fn lemma_counts_bounded(s: Seq<u128>, x: u128)
    ensures
        below(s, x) <= at_most(s, x) <= s.len(),
    decreases s.len(),
{
    if s.len() > 0 {
        lemma_counts_bounded(s.drop_last(), x);
    }
}

proof fn lemma_counts_all(s: Seq<u128>, x: u128)
    requires
        forall|i: int| 0 <= i < s.len() ==> #[trigger] s[i] <= x,
    ensures
        at_most(s, x) == s.len(),
    decreases s.len(),
{
    if s.len() > 0 {
        assert forall|i: int| 0 <= i < s.drop_last().len() implies #[trigger] s.drop_last()[i]
            <= x by {
            assert(s[i] <= x);
        }
        lemma_counts_all(s.drop_last(), x);
        assert(s[s.len() - 1] <= x);
    }
}

/// The sample at a rank has no more than that many samples below it, and more than that
/// many at or below it.
pub proof fn ranks_count_the_samples(s: Seq<u128>, r: int)
    requires
        0 <= r < s.len(),
    ensures
        below(s, ordered(s)[r]) <= r < at_most(s, ordered(s)[r]) <= s.len(),
{
    lemma_ordered(s);
    lemma_counts_in_order(ordered(s), r);
    lemma_ordered_counts(s, ordered(s)[r]);
}

/// Whether `x` is the `p`th percentile of the samples: one of them, with at least `p` per
/// cent of them at or below it and fewer than `p` per cent below it. Of no samples it is 0.
pub open spec fn is_percentile(s: Seq<u128>, p: nat, x: u128) -> bool {
    if s.len() == 0 {
        x == 0
    } else {
        &&& s.contains(x)
        &&& 100 * at_most(s, x) >= p * s.len()
        &&& 100 * below(s, x) < p * s.len() || (p == 0 && below(s, x) == 0)
    }
}

/// The computed percentile splits the samples as a percentile has to.
pub proof fn percentile_splits_the_samples(s: Seq<u128>, p: nat)
    requires
        p <= 100,
    ensures
        is_percentile(s, p, percentile_of(s, p)),
{
    if s.len() > 0 {
        let r = nearest_rank(s.len(), p);
        lemma_nearest_rank(s.len(), p, p);
        ranks_count_the_samples(s, r);
        percentile_is_a_sample(s, p);
        if p > 0 {
            nearest_rank_covers_the_percentage(s.len(), p);
        } else {
            assert(p * s.len() == 0) by (nonlinear_arith)
                requires
                    p == 0,
            ;
        }
    }
}

proof fn lemma_counts_between(s: Seq<u128>, x: u128, y: u128)
    requires
        x < y,
    ensures
        at_most(s, x) <= below(s, y),
    decreases s.len(),
{
    if s.len() > 0 {
        lemma_counts_between(s.drop_last(), x, y);
    }
}

/// Samples have no more than one `p`th percentile.
pub proof fn percentiles_are_unique(s: Seq<u128>, p: nat, x: u128, y: u128)
    requires
        is_percentile(s, p, x),
        is_percentile(s, p, y),
    ensures
        x == y,
{
    if s.len() > 0 {
        if x < y {
            lemma_counts_between(s, x, y);
            lemma_counts_sample(s, x);
        } else if y < x {
            lemma_counts_between(s, y, x);
            lemma_counts_sample(s, y);
        }
    }
}

proof fn lemma_counts_sample(s: Seq<u128>, x: u128)
    requires
        s.contains(x),
    ensures
        at_most(s, x) > 0,
    decreases s.len(),
{
    let k = choose|k: int| 0 <= k < s.len() && s[k] == x;
    if k < s.len() - 1 {
        assert(s.drop_last()[k] == x);
        lemma_counts_sample(s.drop_last(), x);
    }
}

/// Whether `x` is the largest of the samples; of no samples it is 0.
pub open spec fn is_largest(s: Seq<u128>, x: u128) -> bool {
    if s.len() == 0 {
        x == 0
    } else {
        s.contains(x) && forall|i: int| 0 <= i < s.len() ==> #[trigger] s[i] <= x
    }
}

/// No sample is larger than the largest, which is one of them.
pub proof fn largest_is_largest(s: Seq<u128>)
    ensures
        is_largest(s, largest_of(s)),
{
    if s.len() > 0 {
        percentile_is_a_sample(s, 100);
        percentile_spans_the_samples(s, s[0]);
        assert forall|i: int| 0 <= i < s.len() implies #[trigger] s[i] <= largest_of(s) by {
            percentile_spans_the_samples(s, s[i]);
        }
    }
}

/// Merges two ascending runs into one.
fn merge(a: &Vec<u128>, b: &Vec<u128>) -> (out: Vec<u128>)
    requires
        sorted_by(a@, leq()),
        sorted_by(b@, leq()),
    ensures
        sorted_by(out@, leq()),
        out@.to_multiset() == a@.to_multiset().add(b@.to_multiset()),
{
    let mut out: Vec<u128> = Vec::new();
    let mut i: usize = 0;
    let mut j: usize = 0;
    assert(a@.take(0) == Seq::<u128>::empty());
    assert(b@.take(0) == Seq::<u128>::empty());
    assert(out@.to_multiset() =~= a@.take(0).to_multiset().add(b@.take(0).to_multiset())) by {
        broadcast use group_to_multiset_ensures;

    }
    while i < a.len() || j < b.len()
        invariant
            i <= a@.len(),
            j <= b@.len(),
            sorted_by(a@, leq()),
            sorted_by(b@, leq()),
            sorted_by(out@, leq()),
            forall|k: int, m: int|
                0 <= k < out@.len() && i <= m < a@.len() ==> #[trigger] out@[k] <= #[trigger] a@[m],
            forall|k: int, m: int|
                0 <= k < out@.len() && j <= m < b@.len() ==> #[trigger] out@[k] <= #[trigger] b@[m],
            out@.to_multiset() == a@.take(i as int).to_multiset().add(
                b@.take(j as int).to_multiset(),
            ),
        decreases a.len() - i + b.len() - j,
    {
        let ghost before = out@;
        let from_a: bool = j == b.len() || (i < a.len() && a[i] <= b[j]);
        let x: u128 = if from_a {
            a[i]
        } else {
            b[j]
        };
        out.push(x);
        proof {
            broadcast use group_to_multiset_ensures;

            assert forall|k: int, m: int| 0 <= k < m < out@.len() implies #[trigger] leq()(
                out@[k],
                out@[m],
            ) by {
                if m < before.len() {
                    assert(leq()(before[k], before[m]));
                }
            }
            assert forall|m: int| i <= m < a@.len() implies x <= #[trigger] a@[m] by {
                if m > i {
                    assert(leq()(a@[i as int], a@[m]));
                }
            }
            assert forall|m: int| j <= m < b@.len() implies x <= #[trigger] b@[m] by {
                if m > j {
                    assert(leq()(b@[j as int], b@[m]));
                }
            }
            if from_a {
                assert(a@.take(i + 1) == a@.take(i as int).push(x));
                assert(out@.to_multiset() =~= a@.take(i + 1).to_multiset().add(
                    b@.take(j as int).to_multiset(),
                ));
            } else {
                assert(b@.take(j + 1) == b@.take(j as int).push(x));
                assert(out@.to_multiset() =~= a@.take(i as int).to_multiset().add(
                    b@.take(j + 1).to_multiset(),
                ));
            }
        }
        if from_a {
            i += 1;
        } else {
            j += 1;
        }
    }
    assert(a@.take(i as int) == a@);
    assert(b@.take(j as int) == b@);
    out
}

/// Sorts the samples from index `lo` up to `hi`.
fn sort_between(s: &[u128], lo: usize, hi: usize) -> (out: Vec<u128>)
    requires
        lo <= hi <= s@.len(),
    ensures
        sorted_by(out@, leq()),
        out@.to_multiset() == s@.subrange(lo as int, hi as int).to_multiset(),
    decreases hi - lo,
{
    if hi - lo <= 1 {
        let mut out: Vec<u128> = Vec::new();
        if lo < hi {
            out.push(s[lo]);
        }
        assert(out@ == s@.subrange(lo as int, hi as int));
        out
    } else {
        let mid: usize = lo + (hi - lo) / 2;
        let left = sort_between(s, lo, mid);
        let right = sort_between(s, mid, hi);
        proof {
            let l = s@.subrange(lo as int, mid as int);
            let r = s@.subrange(mid as int, hi as int);
            assert(l + r == s@.subrange(lo as int, hi as int));
            lemma_multiset_commutative(l, r);
        }
        merge(&left, &right)
    }
}

/// Sorts the samples in ascending order.
pub fn sorted(s: &[u128]) -> (out: Vec<u128>)
    ensures
        out@ == ordered(s@),
{
    let out = sort_between(s, 0, s.len());
    proof {
        assert(s@.subrange(0, s@.len() as int) == s@);
        lemma_ordered_by(s@);
        lemma_leq_total();
        lemma_sorted_unique(out@, ordered(s@), leq());
    }
    out
}

/// The `p`th percentile of a set of times, in the unit of the times. Uses nearest-rank on
/// a sorted copy; returns `0` for an empty input.
pub fn percentile(samples: &[u128], p: u64) -> (r: u128)
    ensures
        r == percentile_of(samples@, p as nat),
{
    if samples.len() == 0 {
        return 0;
    }
    let n: usize = samples.len();
    let in_order = sorted(samples);
    let q: u64 = if p > 100 {
        100
    } else {
        p
    };
    proof {
        lemma_ordered(samples@);
        lemma_nearest_rank(n as nat, p as nat, p as nat);
        assert(q <= q * n <= 100 * n) by (nonlinear_arith)
            requires
                0 <= q <= 100,
                n >= 1,
        ;
    }
    let rank: u128 = if q == 0 {
        0
    } else {
        ((q as u128) * (n as u128) + 99) / 100 - 1
    };
    in_order[rank as usize]
}

/// The percentile of `part / whole` per cent of a set of times, such as `999 / 10` for 99.9
/// per cent. Uses nearest-rank on a sorted copy; returns `0` for an empty input.
pub fn percentile_at(samples: &[u128], part: u64, whole: u64) -> (r: u128)
    requires
        whole > 0,
    ensures
        r == fraction_percentile_of(samples@, part as nat, whole as nat),
{
    if samples.len() == 0 {
        return 0;
    }
    let n: usize = samples.len();
    let in_order = sorted(samples);
    proof {
        lemma_ordered(samples@);
        fraction_rank_covers_the_percentage(n as nat, part as nat, whole as nat);
        assert(part <= part * n <= 0xffff_ffff_ffff_ffff * 0xffff_ffff_ffff_ffff)
            by (nonlinear_arith)
            requires
                0 <= part <= 0xffff_ffff_ffff_ffff,
                1 <= n <= 0xffff_ffff_ffff_ffff,
        ;
    }
    let d: u128 = 100 * (whole as u128);
    let rank: u128 = if part == 0 {
        0
    } else if (part as u128) >= d {
        (n - 1) as u128
    } else {
        ((part as u128) * (n as u128) - 1) / d
    };
    in_order[rank as usize]
}

/// The longest of a set of times, or `0` for an empty input.
pub fn largest(samples: &[u128]) -> (r: u128)
    ensures
        r == largest_of(samples@),
{
    let in_order = sorted(samples);
    proof {
        lemma_ordered(samples@);
    }
    if in_order.len() == 0 {
        0
    } else {
        in_order[in_order.len() - 1]
    }
}

/// The rate that is reported for `count` events in `nanos` nanoseconds: no events per
/// second where no time has passed.
pub open spec fn throughput_of(count: u64, nanos: u128) -> Rate {
    if nanos == 0 {
        Rate { count: 0, nanos: 1 }
    } else {
        Rate { count, nanos }
    }
}

/// Operations per second for `count` operations over `elapsed` nanoseconds.
pub fn throughput(count: u64, elapsed: u128) -> (r: Rate)
    ensures
        r == throughput_of(count, elapsed),
{
    if elapsed == 0 {
        Rate { count: 0, nanos: 1 }
    } else {
        Rate { count, nanos: elapsed }
    }
}

/// Whether `r` is the rate of `count` events in `nanos` nanoseconds: the same quotient, or
/// zero where no time has passed.
pub open spec fn is_rate(count: u64, nanos: u128, r: Rate) -> bool {
    &&& r.nanos > 0
    &&& if nanos == 0 {
        r.count == 0
    } else {
        r.count * nanos == count * r.nanos && r.nanos == nanos
    }
}

/// A reported throughput is the number of events over the time they took.
pub proof fn throughput_is_the_rate(count: u64, nanos: u128)
    ensures
        is_rate(count, nanos, throughput_of(count, nanos)),
{
}

/// A reported throughput always has a span of time to divide by.
pub proof fn throughput_is_defined(count: u64, nanos: u128)
    ensures
        throughput_of(count, nanos).nanos > 0,
        nanos == 0 ==> throughput_of(count, nanos).count == 0,
{
}

} // verus!
