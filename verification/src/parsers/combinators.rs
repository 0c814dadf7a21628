use crate::context::{copy_range, can_fail, can_succeed, Context, Parser, ParserExt};
use std::rc::Rc;
use vstd::prelude::*;

verus! {

/// Runs the first parser and keeps its result, if the second one also matches from the same
/// start; the cursor ends where the first parser left it.
#[derive(Copy, Clone)]
pub struct And<P, F>(pub P, pub F);

impl<P: Parser, F: Parser> Parser for And<P, F> {
    type O = P::O;

    open spec fn well_formed(&self) -> bool {
        self.0.well_formed() && self.1.well_formed()
    }

    open spec fn accepts(&self, input: Seq<u8>, limit: int, pos: int, res: Option<P::O>, end: int) -> bool {
        match res {
            Some(v) => self.0.accepts(input, limit, pos, Some(v), end) && can_succeed(
                self.1,
                input,
                limit,
                pos,
            ),
            None => self.0.accepts(input, limit, pos, None, end) || (exists|v: P::O|
                #[trigger] self.0.accepts(input, limit, pos, Some(v), end)) && can_fail(
                self.1,
                input,
                limit,
                pos,
            ),
        }
    }

    fn impl_parse(&self, ctx: &Context, limit: usize, pos: &mut usize) -> (res: Option<P::O>) {
        let mut start = *pos;
        let res = self.0.parse(ctx, limit, pos);
        match res {
            None => None,
            Some(v) => {
                let ghost gv = v;
                let ghost s0 = start;
                match self.1.parse(ctx, limit, &mut start) {
                    None => {
                        assert(self.0.accepts(ctx.input(), limit as int, s0 as int, Some(gv), *pos as int));
                        assert(can_fail(self.1, ctx.input(), limit as int, s0 as int));
                        None
                    },
                    Some(w) => {
                        assert(self.1.accepts(ctx.input(), limit as int, s0 as int, Some(w), start as int));
                        Some(v)
                    },
                }
            },
        }
    }
}

/// Succeeds, consuming nothing, exactly when the inner parser fails.
#[derive(Copy, Clone)]
pub struct Not<P>(pub P);

impl<P: Parser> Parser for Not<P> {
    type O = ();

    open spec fn well_formed(&self) -> bool {
        self.0.well_formed()
    }

    open spec fn accepts(&self, input: Seq<u8>, limit: int, pos: int, res: Option<()>, end: int) -> bool {
        &&& end == pos
        &&& match res {
            Some(_) => can_fail(self.0, input, limit, pos),
            None => can_succeed(self.0, input, limit, pos),
        }
    }

    fn impl_parse(&self, ctx: &Context, limit: usize, pos: &mut usize) -> (res: Option<()>) {
        let rewind = *pos;
        let res = self.0.parse(ctx, limit, pos);
        let ghost after = *pos;
        *pos = rewind;
        match res {
            Some(v) => {
                assert(self.0.accepts(ctx.input(), limit as int, rewind as int, Some(v), after as int));
                None
            },
            None => {
                assert(self.0.accepts(ctx.input(), limit as int, rewind as int, None, after as int));
                Some(())
            },
        }
    }
}

/// Always succeeds, with the inner parser's result as an `Option`.
#[derive(Copy, Clone)]
pub struct Opt<P>(pub P);

impl<P: Parser> Parser for Opt<P> {
    type O = Option<P::O>;

    open spec fn well_formed(&self) -> bool {
        self.0.well_formed()
    }

    open spec fn accepts(&self, input: Seq<u8>, limit: int, pos: int, res: Option<Option<P::O>>, end: int) -> bool {
        match res {
            Some(r) => self.0.accepts(input, limit, pos, r, end),
            None => false,
        }
    }

    fn impl_parse(&self, ctx: &Context, limit: usize, pos: &mut usize) -> (res: Option<Option<P::O>>) {
        Some(self.0.parse(ctx, limit, pos))
    }
}

/// Runs the inner parser and applies a function to its result.
#[derive(Copy, Clone)]
pub struct Mapped<P, F>(pub P, pub F);

impl<T, P: Parser, F: Fn(P::O) -> T> Parser for Mapped<P, F> {
    type O = T;

    open spec fn well_formed(&self) -> bool {
        &&& self.0.well_formed()
        &&& forall|v: P::O| call_requires(self.1, (v,))
    }

    open spec fn accepts(&self, input: Seq<u8>, limit: int, pos: int, res: Option<T>, end: int) -> bool {
        match res {
            Some(r) => exists|v: P::O|
                #[trigger] self.0.accepts(input, limit, pos, Some(v), end) && call_ensures(
                    self.1,
                    (v,),
                    r,
                ),
            None => self.0.accepts(input, limit, pos, None, end),
        }
    }

    fn impl_parse(&self, ctx: &Context, limit: usize, pos: &mut usize) -> (res: Option<T>) {
        match self.0.parse(ctx, limit, pos) {
            Some(v) => Some((self.1)(v)),
            None => None,
        }
    }
}

/// Runs the inner parser and fails when the predicate rejects its result.
#[derive(Copy, Clone)]
pub struct Filter<P, F>(pub P, pub F);

impl<P: Parser, F: Fn(&P::O) -> bool> Parser for Filter<P, F> {
    type O = P::O;

    open spec fn well_formed(&self) -> bool {
        &&& self.0.well_formed()
        &&& forall|v: &P::O| call_requires(self.1, (v,))
    }

    open spec fn accepts(&self, input: Seq<u8>, limit: int, pos: int, res: Option<P::O>, end: int) -> bool {
        match res {
            Some(r) => self.0.accepts(input, limit, pos, Some(r), end) && call_ensures(
                self.1,
                (&r,),
                true,
            ),
            None => self.0.accepts(input, limit, pos, None, end) || exists|v: P::O|
                #[trigger] self.0.accepts(input, limit, pos, Some(v), end) && call_ensures(
                    self.1,
                    (&v,),
                    false,
                ),
        }
    }

    fn impl_parse(&self, ctx: &Context, limit: usize, pos: &mut usize) -> (res: Option<P::O>) {
        match self.0.parse(ctx, limit, pos) {
            Some(r) => {
                if (self.1)(&r) {
                    Some(r)
                } else {
                    None
                }
            },
            None => None,
        }
    }
}

/// Runs the inner parser and passes its result through a function that may reject it.
#[derive(Copy, Clone)]
pub struct FilterMap<P, F>(pub P, pub F);

impl<T, P: Parser, F: Fn(P::O) -> Option<T>> Parser for FilterMap<P, F> {
    type O = T;

    open spec fn well_formed(&self) -> bool {
        &&& self.0.well_formed()
        &&& forall|v: P::O| call_requires(self.1, (v,))
    }

    open spec fn accepts(&self, input: Seq<u8>, limit: int, pos: int, res: Option<T>, end: int) -> bool {
        ||| res is None && self.0.accepts(input, limit, pos, None, end)
        ||| exists|v: P::O|
            #[trigger] self.0.accepts(input, limit, pos, Some(v), end) && call_ensures(
                self.1,
                (v,),
                res,
            )
    }

    fn impl_parse(&self, ctx: &Context, limit: usize, pos: &mut usize) -> (res: Option<T>) {
        match self.0.parse(ctx, limit, pos) {
            Some(r) => (self.1)(r),
            None => None,
        }
    }
}

/// Runs a parser, builds the next parser from its result, and runs that one.
#[derive(Copy, Clone)]
pub struct Then<P, F>(pub P, pub F);

impl<Q: Parser, P: Parser, F: Fn(P::O) -> Q> Parser for Then<P, F> {
    type O = Q::O;

    open spec fn well_formed(&self) -> bool {
        &&& self.0.well_formed()
        &&& forall|v: P::O| call_requires(self.1, (v,))
        &&& forall|v: P::O, q: Q| call_ensures(self.1, (v,), q) ==> q.well_formed()
    }

    open spec fn accepts(&self, input: Seq<u8>, limit: int, pos: int, res: Option<Q::O>, end: int) -> bool {
        ||| res is None && self.0.accepts(input, limit, pos, None, end)
        ||| exists|v: P::O, mid: int, q: Q|
            #[trigger] self.0.accepts(input, limit, pos, Some(v), mid) && #[trigger] call_ensures(
                self.1,
                (v,),
                q,
            ) && q.accepts(input, limit, mid, res, end)
    }

    fn impl_parse(&self, ctx: &Context, limit: usize, pos: &mut usize) -> (res: Option<Q::O>) {
        let start = *pos;
        match self.0.parse(ctx, limit, pos) {
            Some(v) => {
                let ghost gv = v;
                let mid = *pos;
                let q = (self.1)(v);
                let r = q.parse(ctx, limit, pos);
                assert(self.0.accepts(ctx.input(), limit as int, start as int, Some(gv), mid as int)
                    && call_ensures(self.1, (gv,), q) && q.accepts(ctx.input(), limit as int, mid as int, r, *pos as int));
                r
            },
            None => None,
        }
    }
}

/// Runs the inner parser and yields the bytes that it consumed.
#[derive(Copy, Clone)]
pub struct Recognize<T>(pub T);

impl<P: Parser> Parser for Recognize<P> {
    type O = Vec<u8>;

    open spec fn well_formed(&self) -> bool {
        self.0.well_formed()
    }

    open spec fn accepts(&self, input: Seq<u8>, limit: int, pos: int, res: Option<Vec<u8>>, end: int) -> bool {
        match res {
            Some(b) => b@ == input.subrange(pos, end) && exists|v: P::O|
                #[trigger] self.0.accepts(input, limit, pos, Some(v), end),
            None => self.0.accepts(input, limit, pos, None, end),
        }
    }

    fn impl_parse(&self, ctx: &Context, limit: usize, pos: &mut usize) -> (res: Option<Vec<u8>>) {
        let start = *pos;
        match self.0.parse(ctx, limit, pos) {
            Some(v) => {
                let end = *pos;
                assert(self.0.accepts(ctx.input(), limit as int, start as int, Some(v), end as int));
                let out = copy_range(ctx.bytes(), start, end);
                Some(out)
            },
            None => None,
        }
    }
}

/// A parser with a name; it parses as the inner parser does.
#[derive(Copy, Clone)]
pub struct Named<P, N>(pub P, pub N);

impl<P: Parser, N> Parser for Named<P, N> {
    type O = P::O;

    open spec fn well_formed(&self) -> bool {
        self.0.well_formed()
    }

    open spec fn accepts(&self, input: Seq<u8>, limit: int, pos: int, res: Option<P::O>, end: int) -> bool {
        self.0.accepts(input, limit, pos, res, end)
    }

    fn impl_parse(&self, ctx: &Context, limit: usize, pos: &mut usize) -> (res: Option<P::O>) {
        self.0.parse(ctx, limit, pos)
    }

    /// A named parser carries a name.
    fn is_named(&self) -> (b: bool)
        ensures
            b,
    {
        true
    }
}

impl<P: Parser> Parser for Rc<P> {
    type O = P::O;

    open spec fn well_formed(&self) -> bool {
        (**self).well_formed()
    }

    open spec fn accepts(&self, input: Seq<u8>, limit: int, pos: int, res: Option<P::O>, end: int) -> bool {
        (**self).accepts(input, limit, pos, res, end)
    }

    fn impl_parse(&self, ctx: &Context, limit: usize, pos: &mut usize) -> (res: Option<P::O>) {
        (**self).parse(ctx, limit, pos)
    }
}

} // verus!
