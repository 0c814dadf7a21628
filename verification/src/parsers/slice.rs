use crate::context::{can_fail, Context, Parser, ParserExt};
use vstd::prelude::*;

verus! {

/// Every parser of `ps` before index `i` can fail from `pos`.
pub open spec fn all_fail_before<P: Parser>(ps: Seq<P>, i: int, input: Seq<u8>, limit: int, pos: int) -> bool {
    forall|j: int| 0 <= j < i ==> can_fail(#[trigger] ps[j], input, limit, pos)
}

/// The outcome of trying the parsers of `ps` in order from the same start, the first success
/// winning; when all fail, the cursor is back at the start.
pub open spec fn first_success<P: Parser>(ps: Seq<P>, input: Seq<u8>, limit: int, pos: int, res: Option<P::O>, end: int) -> bool {
    match res {
        Some(r) => exists|i: int|
            0 <= i < ps.len() && all_fail_before(ps, i, input, limit, pos) && #[trigger] ps[i].accepts(
                input,
                limit,
                pos,
                Some(r),
                end,
            ),
        None => end == pos && all_fail_before(ps, ps.len() as int, input, limit, pos),
    }
}

/// Every parser of `ps` is well formed.
pub open spec fn all_well_formed<P: Parser>(ps: Seq<P>) -> bool {
    forall|i: int| 0 <= i < ps.len() ==> #[trigger] ps[i].well_formed()
}

impl<P: Parser> Parser for [P] {
    type O = P::O;

    open spec fn well_formed(&self) -> bool {
        all_well_formed(self@)
    }

    open spec fn accepts(&self, input: Seq<u8>, limit: int, pos: int, res: Option<P::O>, end: int) -> bool {
        first_success(self@, input, limit, pos, res, end)
    }

    fn impl_parse(&self, ctx: &Context, limit: usize, pos: &mut usize) -> (res: Option<P::O>) {
        let reset = *pos;
        let mut i: usize = 0;
        while i < self.len()
            invariant
                i <= self@.len(),
                *pos == reset,
                *old(pos) == reset,
                reset <= limit <= ctx.input().len(),
                all_well_formed(self@),
                all_fail_before(self@, i as int, ctx.input(), limit as int, reset as int),
            decreases self@.len() - i,
        {
            match self[i].parse(ctx, limit, pos) {
                Some(x) => {
                    assert(self@[i as int].accepts(ctx.input(), limit as int, reset as int, Some(x), *pos as int));
                    return Some(x);
                },
                None => {
                    assert(self@[i as int].accepts(ctx.input(), limit as int, reset as int, None, *pos as int));
                    *pos = reset;
                },
            }
            i = i + 1;
        }
        None
    }
}

impl<P: Parser, const N: usize> Parser for [P; N] {
    type O = P::O;

    open spec fn well_formed(&self) -> bool {
        all_well_formed(self@)
    }

    open spec fn accepts(&self, input: Seq<u8>, limit: int, pos: int, res: Option<P::O>, end: int) -> bool {
        first_success(self@, input, limit, pos, res, end)
    }

    fn impl_parse(&self, ctx: &Context, limit: usize, pos: &mut usize) -> (res: Option<P::O>) {
        self.as_slice().parse(ctx, limit, pos)
    }
}

} // verus!
