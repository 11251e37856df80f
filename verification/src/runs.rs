//! Stretches of a sequence: what stands next to what in a text.

use vstd::prelude::*;

verus! {

/// Whether `run` stands in `s`, in one piece.
pub open spec fn has_run<T>(s: Seq<T>, run: Seq<T>) -> bool {
    exists|i: int|
        0 <= i <= s.len() - run.len() && #[trigger] s.subrange(i, i + run.len()) == run
}

/// What stands in a text stands in it still with more behind it.
pub broadcast proof fn lemma_run_in_front<T>(a: Seq<T>, b: Seq<T>, run: Seq<T>)
    requires
        has_run(a, run),
    ensures
        #[trigger] has_run(a + b, run),
{
    let i = choose|i: int|
        0 <= i <= a.len() - run.len() && #[trigger] a.subrange(i, i + run.len()) == run;
    assert((a + b).subrange(i, i + run.len()) =~= run);
}

/// What stands in a text stands in it still with more in front of it.
pub proof fn lemma_run_behind<T>(a: Seq<T>, b: Seq<T>, run: Seq<T>)
    requires
        has_run(b, run),
    ensures
        has_run(a + b, run),
{
    let i = choose|i: int|
        0 <= i <= b.len() - run.len() && #[trigger] b.subrange(i, i + run.len()) == run;
    assert((a + b).subrange(a.len() + i, a.len() + i + run.len()) =~= run);
}

/// The last two parts of a text stand in it.
pub broadcast proof fn lemma_run_of_two<T>(a: Seq<T>, x: Seq<T>, y: Seq<T>)
    ensures
        #[trigger] has_run(a + x + y, x + y),
{
    assert((a + x + y).subrange(a.len() as int, a.len() as int + (x + y).len()) =~= x + y);
}

/// The last three parts of a text stand in it.
pub broadcast proof fn lemma_run_of_three<T>(a: Seq<T>, x: Seq<T>, y: Seq<T>, z: Seq<T>)
    ensures
        #[trigger] has_run(a + x + y + z, x + y + z),
{
    assert((a + x + y + z).subrange(a.len() as int, a.len() as int + (x + y + z).len()) =~= x + y + z);
}

/// The last four parts of a text stand in it.
pub broadcast proof fn lemma_run_of_four<T>(
    a: Seq<T>,
    x: Seq<T>,
    y: Seq<T>,
    z: Seq<T>,
    w: Seq<T>,
)
    ensures
        #[trigger] has_run(a + x + y + z + w, x + y + z + w),
{
    assert((a + x + y + z + w).subrange(a.len() as int, a.len() as int + (x + y + z + w).len()) =~= x + y
        + z + w);
}

/// A text stands in itself.
pub broadcast proof fn lemma_run_of_all<T>(s: Seq<T>)
    ensures
        #[trigger] has_run(s, s),
{
    assert(s.subrange(0, 0int + s.len()) =~= s);
}

pub broadcast group group_runs {
    lemma_run_in_front,
    lemma_run_of_two,
    lemma_run_of_three,
    lemma_run_of_four,
    lemma_run_of_all,
}

/// What stands in a part of a text stands in the text.
pub proof fn lemma_run_inside<T>(s: Seq<T>, part: Seq<T>, run: Seq<T>)
    requires
        has_run(s, part),
        has_run(part, run),
    ensures
        has_run(s, run),
{
    let i = choose|i: int|
        0 <= i <= s.len() - part.len() && #[trigger] s.subrange(i, i + part.len()) == part;
    let k = choose|k: int|
        0 <= k <= part.len() - run.len() && #[trigger] part.subrange(k, k + run.len()) == run;
    assert(s.subrange(i + k, i + k + run.len()) =~= run);
}

} // verus!
