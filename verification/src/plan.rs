//! The order in which a benchmark does its work: first what warms things up, then what is
//! measured.

use vstd::prelude::*;

verus! {

/// Work that is done one piece after the other: warmup pieces first, then measured ones.
/// Each piece has a number: warmup pieces count from `base`, measured ones from zero.
#[derive(Debug, Clone, Copy, PartialEq, Eq, Structural)]
pub struct Sequence {
    /// The number of the first warmup piece.
    pub base: u64,
    /// How many warmup pieces there are.
    pub warmup: u64,
    /// How many measured pieces there are.
    pub iterations: u64,
    /// How many warmup pieces were given out.
    pub warmed: u64,
    /// How many measured pieces were given out.
    pub measured: u64,
}

/// The next piece of a [`Sequence`].
#[derive(Debug, Clone, Copy, PartialEq, Eq, Structural)]
pub struct Planned {
    /// How many pieces of its kind come before it.
    pub index: u64,
    /// Its number.
    pub number: u64,
    /// Whether it is measured.
    pub measured: bool,
}

impl Sequence {
    /// Neither kind of piece is given out more often than planned, measured ones only
    /// behind all warmup ones, and every number has 64 bits.
    pub open spec fn wf(&self) -> bool {
        &&& self.warmed <= self.warmup
        &&& self.measured <= self.iterations
        &&& self.measured > 0 ==> self.warmed == self.warmup
        &&& self.base + self.warmup <= u64::MAX + 1
    }

    /// The next piece, or none behind the last.
    pub open spec fn planned(&self) -> Option<Planned> {
        if self.warmed < self.warmup {
            Some(
                Planned {
                    index: self.warmed,
                    number: (self.base + self.warmed) as u64,
                    measured: false,
                },
            )
        } else if self.measured < self.iterations {
            Some(Planned { index: self.measured, number: self.measured, measured: true })
        } else {
            None
        }
    }

    /// The sequence behind its next piece.
    pub open spec fn rest(&self) -> Sequence {
        match self.planned() {
            Some(p) => if p.measured {
                Sequence { measured: (self.measured + 1) as u64, ..*self }
            } else {
                Sequence { warmed: (self.warmed + 1) as u64, ..*self }
            },
            None => *self,
        }
    }

    /// The sequence before its first piece.
    pub fn new(base: u64, warmup: u64, iterations: u64) -> (r: Sequence)
        requires
            base + warmup <= u64::MAX + 1,
        ensures
            r == (Sequence { base, warmup, iterations, warmed: 0, measured: 0 }),
            r.wf(),
    {
        Sequence { base, warmup, iterations, warmed: 0, measured: 0 }
    }

    /// Gives out the next piece.
    pub fn next(&mut self) -> (r: Option<Planned>)
        requires
            old(self).wf(),
        ensures
            final(self).wf(),
            r == old(self).planned(),
            *final(self) == old(self).rest(),
    {
        if self.warmed < self.warmup {
            let index: u64 = self.warmed;
            self.warmed = index + 1;
            Some(Planned { index, number: self.base + index, measured: false })
        } else if self.measured < self.iterations {
            let index: u64 = self.measured;
            self.measured = index + 1;
            Some(Planned { index, number: index, measured: true })
        } else {
            None
        }
    }
}

/// Exactly the planned number of pieces is given out by the time none is left.
pub proof fn all_iterations_are_measured(s: Sequence)
    requires
        s.wf(),
        s.planned() is None,
    ensures
        s.measured == s.iterations,
        s.warmed == s.warmup,
{
}

/// No two pieces of a sequence have the same number, as long as no more are measured than
/// the number from which the warmup pieces count.
pub proof fn sequence_numbers_differ(s: Sequence, t: Sequence)
    requires
        s.wf(),
        t.wf(),
        s.base == t.base,
        s.warmup == t.warmup,
        s.iterations == t.iterations,
        s.iterations <= s.base,
        s.planned() matches Some(a) && t.planned() matches Some(b) && a.number == b.number,
    ensures
        s == t,
{
}

/// What comes next is measured exactly if all warmup is done; up to there the numbers count
/// from the base of the warmup, and from there on from zero, one by one.
pub proof fn warmup_comes_first(s: Sequence)
    requires
        s.wf(),
    ensures
        s.planned() is None <==> s.warmed + s.measured == s.warmup + s.iterations,
        s.planned() matches Some(p) ==> {
            &&& p.measured <==> s.warmed == s.warmup
            &&& !p.measured ==> p.index == s.warmed && p.number == s.base + s.warmed
            &&& p.measured ==> p.index == s.measured && p.number == s.measured
        },
{
}

/// One piece after the other is given out: the next one counts once, for its own kind, and
/// what is planned stays the same.
pub proof fn pieces_are_given_out_once(s: Sequence)
    requires
        s.wf(),
    ensures
        ({
            let t = s.rest();
            &&& t.wf()
            &&& t.base == s.base && t.warmup == s.warmup && t.iterations == s.iterations
            &&& s.planned() is None ==> t == s
            &&& s.planned() matches Some(p) ==> {
                &&& t.warmed + t.measured == s.warmed + s.measured + 1
                &&& p.measured ==> t.measured == p.index + 1 && t.warmed == s.warmed
                &&& !p.measured ==> t.warmed == p.index + 1 && t.measured == s.measured
            }
        }),
{
}

} // verus!
