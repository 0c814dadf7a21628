use crate::context::{Context, Parser};
use vstd::prelude::*;

verus! {

/// A parser given by a function: from the context, the limit and the start position, it
/// returns the result and the position where the cursor ends.
pub struct FnParser<F>(pub F, pub Option<&'static str>);

impl<O, F: Fn(&Context, usize, usize) -> (Option<O>, usize)> Parser for FnParser<F> {
    type O = O;

    /// The function accepts every start at or before the limit, and never moves the cursor
    /// back or past the limit.
    open spec fn well_formed(&self) -> bool {
        &&& forall|ctx: &Context, limit: usize, pos: usize|
            pos <= limit <= ctx.input().len() ==> #[trigger] call_requires(self.0, (ctx, limit, pos))
        &&& forall|ctx: &Context, limit: usize, pos: usize, r: (Option<O>, usize)|
            pos <= limit <= ctx.input().len() && #[trigger] call_ensures(self.0, (ctx, limit, pos), r)
                ==> pos <= r.1 <= limit
    }

    open spec fn accepts(&self, input: Seq<u8>, limit: int, pos: int, res: Option<O>, end: int) -> bool {
        &&& 0 <= pos <= end <= limit <= usize::MAX
        &&& exists|ctx: &Context|
            ctx.input() == input && #[trigger] call_ensures(self.0, (ctx, limit as usize, pos as usize), (res, end as usize))
    }

    fn impl_parse(&self, ctx: &Context, limit: usize, pos: &mut usize) -> (res: Option<O>) {
        let start = *pos;
        let out = (self.0)(ctx, limit, start);
        assert(call_ensures(self.0, (ctx, limit, start), out));
        assert(out == (out.0, out.1));
        let (r, end) = out;
        *pos = end;
        assert(ctx.input() == ctx.input() && call_ensures(self.0, (ctx, limit as int as usize, start as int as usize), (r, end as int as usize)));
        r
    }
}

} // verus!
