use crate::context::{can_fail, Context, Parser, ParserExt};
use core::ops::{Bound, RangeBounds};
use vstd::prelude::*;

verus! {

/// One end of a range of repetition counts.
#[derive(Copy, Clone, Debug)]
pub enum CountBound {
    Included(usize),
    Excluded(usize),
    Unbounded,
}

/// `qs` holds the start and end positions, and `vs` the values, of back-to-back successful
/// runs of `p`.
pub open spec fn run_chain<P: Parser>(p: P, input: Seq<u8>, limit: int, qs: Seq<int>, vs: Seq<P::O>) -> bool {
    &&& qs.len() == vs.len() + 1
    &&& forall|i: int|
        #![trigger vs[i]]
        0 <= i < vs.len() ==> p.accepts(input, limit, qs[i], Some(vs[i]), qs[i + 1])
}

/// A successful run of the repetition: `p` succeeded `vs.len()` times back to back from `pos`,
/// at least `min` times and at most `max` times in all (or exactly `min` times when `min` is the
/// larger); when it stopped short of `max`, the next run of `p` could fail; the cursor ends
/// after the last successful run.
pub open spec fn many_succeeds<P: Parser>(p: P, min: int, max: int, input: Seq<u8>, limit: int, pos: int, vs: Seq<P::O>, end: int) -> bool {
    exists|qs: Seq<int>|
        #![trigger run_chain(p, input, limit, qs, vs)]
        {
            &&& qs[0] == pos
            &&& run_chain(p, input, limit, qs, vs)
            &&& min <= vs.len()
            &&& (vs.len() == min || vs.len() <= max)
            &&& end == qs.last()
            &&& (vs.len() < max ==> can_fail(p, input, limit, qs.last()))
        }
}

/// A failed run of the repetition: fewer than `min` runs of `p` succeeded before one failed,
/// and the cursor ends where that failing run left it.
pub open spec fn many_fails<P: Parser>(p: P, min: int, input: Seq<u8>, limit: int, pos: int, end: int) -> bool {
    exists|qs: Seq<int>, vs: Seq<P::O>|
        #![trigger run_chain(p, input, limit, qs, vs)]
        {
            &&& qs[0] == pos
            &&& run_chain(p, input, limit, qs, vs)
            &&& vs.len() < min
            &&& p.accepts(input, limit, qs.last(), None, end)
        }
}

/// Runs a parser repeatedly: at least `.1` times, and at most `.2` times in all.
#[derive(Copy, Clone)]
pub struct Many<P>(pub P, pub usize, pub usize);

/// `n + 1`, or `usize::MAX` where that does not fit.
pub open spec fn succ_sat(n: usize) -> int {
    if n < usize::MAX {
        n + 1
    } else {
        usize::MAX as int
    }
}

/// The least count that a start bound admits.
pub open spec fn count_min(b: CountBound) -> int {
    match b {
        CountBound::Included(n) => n as int,
        CountBound::Excluded(n) => succ_sat(n),
        CountBound::Unbounded => 0,
    }
}

/// The count that an end bound stops at: the repetition makes at most this many runs.
pub open spec fn count_max(b: CountBound) -> int {
    match b {
        CountBound::Included(n) => succ_sat(n),
        CountBound::Excluded(n) => n as int,
        CountBound::Unbounded => usize::MAX as int,
    }
}

/// The start bound of a range.
#[verifier::external_body]
fn start_bound_of<R: RangeBounds<usize>>(r: &R) -> CountBound {
    match r.start_bound() {
        Bound::Included(n) => CountBound::Included(*n),
        Bound::Excluded(n) => CountBound::Excluded(*n),
        Bound::Unbounded => CountBound::Unbounded,
    }
}

/// The end bound of a range.
#[verifier::external_body]
fn end_bound_of<R: RangeBounds<usize>>(r: &R) -> CountBound {
    match r.end_bound() {
        Bound::Included(n) => CountBound::Included(*n),
        Bound::Excluded(n) => CountBound::Excluded(*n),
        Bound::Unbounded => CountBound::Unbounded,
    }
}

/// The counts of both bounds can be written: a start after `usize::MAX` or an end that includes
/// `usize::MAX` would need a count past `usize::MAX`.
pub open spec fn bounds_fit(start: CountBound, end: CountBound) -> bool {
    &&& !(start matches CountBound::Excluded(n) && n == usize::MAX)
    &&& !(end matches CountBound::Included(n) && n == usize::MAX)
}

impl<P> Many<P> {
    /// The repetition of `p` between the two bounds.
    pub fn from_bounds(p: P, start: CountBound, end: CountBound) -> (m: Many<P>)
        requires
            bounds_fit(start, end),
        ensures
            m.0 == p,
            m.1 == count_min(start),
            m.2 == count_max(end),
    {
        let min = match start {
            CountBound::Included(n) => n,
            CountBound::Excluded(n) => n + 1,
            CountBound::Unbounded => 0,
        };
        let max = match end {
            CountBound::Included(n) => n + 1,
            CountBound::Excluded(n) => n,
            CountBound::Unbounded => usize::MAX,
        };
        Many(p, min, max)
    }

    /// The repetition of `p` over the counts of the range `r`. A bound whose count cannot be
    /// written (a start after `usize::MAX`, an end that includes it) counts as `usize::MAX`.
    /// Which bounds `r` has is up to its `RangeBounds` impl; `from_bounds` takes them as values.
    pub fn new<R: RangeBounds<usize>>(p: P, r: R) -> (m: Many<P>)
        ensures
            m.0 == p,
    {
        let start = match start_bound_of(&r) {
            CountBound::Excluded(n) => if n == usize::MAX {
                CountBound::Included(usize::MAX)
            } else {
                CountBound::Excluded(n)
            },
            b => b,
        };
        let end = match end_bound_of(&r) {
            CountBound::Included(n) => if n == usize::MAX {
                CountBound::Unbounded
            } else {
                CountBound::Included(n)
            },
            b => b,
        };
        Many::from_bounds(p, start, end)
    }
}

impl<P: Parser> Parser for Many<P> {
    type O = Vec<P::O>;

    open spec fn well_formed(&self) -> bool {
        self.0.well_formed()
    }

    open spec fn accepts(&self, input: Seq<u8>, limit: int, pos: int, res: Option<Vec<P::O>>, end: int) -> bool {
        match res {
            Some(v) => many_succeeds(self.0, self.1 as int, self.2 as int, input, limit, pos, v@, end),
            None => many_fails(self.0, self.1 as int, input, limit, pos, end),
        }
    }

    fn impl_parse(&self, ctx: &Context, limit: usize, pos: &mut usize) -> (res: Option<Vec<P::O>>) {
        let start = *pos;
        let ghost input = ctx.input();
        let mut v: Vec<P::O> = Vec::new();
        let ghost mut qs: Seq<int> = seq![start as int];
        let mut i: usize = 0;
        while i < self.1
            invariant
                self.0.well_formed(),
                start == *old(pos),
                start <= *pos <= limit <= ctx.input().len(),
                input == ctx.input(),
                i <= self.1,
                v@.len() == i,
                qs[0] == start,
                qs.last() == *pos,
                run_chain(self.0, input, limit as int, qs, v@),
            decreases self.1 - i,
        {
            let before = *pos;
            match self.0.parse(ctx, limit, pos) {
                Some(x) => {
                    let ghost old_v = v@;
                    v.push(x);
                    proof {
                        let old_qs = qs;
                        qs = qs.push(*pos as int);
                        assert forall|k: int| #![trigger v@[k]] 0 <= k < v@.len() implies self.0.accepts(
                            input,
                            limit as int,
                            qs[k],
                            Some(v@[k]),
                            qs[k + 1],
                        ) by {
                            if k < v@.len() - 1 {
                                assert(v@[k] == old_v[k]);
                            }
                        }
                    }
                },
                None => {
                    assert(self.0.accepts(input, limit as int, qs.last(), None, *pos as int));
                    assert(run_chain(self.0, input, limit as int, qs, v@));
                    return None;
                },
            }
            i = i + 1;
        }
        let mut j: usize = self.1;
        while j < self.2
            invariant
                self.0.well_formed(),
                start == *old(pos),
                start <= *pos <= limit <= ctx.input().len(),
                input == ctx.input(),
                self.1 <= j,
                j <= self.2 || j == self.1,
                v@.len() == j,
                qs[0] == start,
                qs.last() == *pos,
                run_chain(self.0, input, limit as int, qs, v@),
            decreases self.2 - j,
        {
            let rewind = *pos;
            match self.0.parse(ctx, limit, pos) {
                Some(x) => {
                    let ghost old_v = v@;
                    v.push(x);
                    proof {
                        qs = qs.push(*pos as int);
                        assert forall|k: int| #![trigger v@[k]] 0 <= k < v@.len() implies self.0.accepts(
                            input,
                            limit as int,
                            qs[k],
                            Some(v@[k]),
                            qs[k + 1],
                        ) by {
                            if k < v@.len() - 1 {
                                assert(v@[k] == old_v[k]);
                            }
                        }
                    }
                },
                None => {
                    assert(self.0.accepts(input, limit as int, rewind as int, None, *pos as int));
                    *pos = rewind;
                    assert(run_chain(self.0, input, limit as int, qs, v@));
                    return Some(v);
                },
            }
            j = j + 1;
        }
        assert(run_chain(self.0, input, limit as int, qs, v@));
        Some(v)
    }
}

} // verus!
