use crate::context::{gen_parser, parser, Context, Generator, Parse, Parser, ParserExt};
use crate::parsers::combinators::Recognize;
use crate::parsers::many::{many_fails, many_succeeds, run_chain, Many};
use crate::parsers::sep::Sep;
use crate::parsers::tuple::Alt;
use vstd::prelude::*;

verus! {

impl<A: Generator> Generator for (A,) {
    type O = (A::O,);

    type P = (Parse<A>,);

    open spec fn gen_accepts(input: Seq<u8>, limit: int, pos: int, res: Option<(A::O,)>, end: int) -> bool {
        (gen_parser::<A>(),).accepts(input, limit, pos, res, end)
    }

    fn generate(ctx: &Context) -> (p: (Parse<A>,)) {
        (parser::<A>(),)
    }
}

impl<A: Generator, B: Generator> Generator for (A, B) {
    type O = (A::O, B::O);

    type P = (Parse<A>, Parse<B>);

    open spec fn gen_accepts(input: Seq<u8>, limit: int, pos: int, res: Option<(A::O, B::O)>, end: int) -> bool {
        (gen_parser::<A>(), gen_parser::<B>()).accepts(input, limit, pos, res, end)
    }

    fn generate(ctx: &Context) -> (p: (Parse<A>, Parse<B>)) {
        (parser::<A>(), parser::<B>())
    }
}

impl<A: Generator, B: Generator, C: Generator> Generator for (A, B, C) {
    type O = (A::O, B::O, C::O);

    type P = (Parse<A>, Parse<B>, Parse<C>);

    open spec fn gen_accepts(input: Seq<u8>, limit: int, pos: int, res: Option<(A::O, B::O, C::O)>, end: int) -> bool {
        (gen_parser::<A>(), gen_parser::<B>(), gen_parser::<C>()).accepts(input, limit, pos, res, end)
    }

    fn generate(ctx: &Context) -> (p: (Parse<A>, Parse<B>, Parse<C>)) {
        (parser::<A>(), parser::<B>(), parser::<C>())
    }
}

impl<A: Generator, B: Generator, C: Generator, D: Generator> Generator for (A, B, C, D) {
    type O = (A::O, B::O, C::O, D::O);

    type P = (Parse<A>, Parse<B>, Parse<C>, Parse<D>);

    open spec fn gen_accepts(input: Seq<u8>, limit: int, pos: int, res: Option<(A::O, B::O, C::O, D::O)>, end: int) -> bool {
        (gen_parser::<A>(), gen_parser::<B>(), gen_parser::<C>(), gen_parser::<D>()).accepts(input, limit, pos, res, end)
    }

    fn generate(ctx: &Context) -> (p: (Parse<A>, Parse<B>, Parse<C>, Parse<D>)) {
        (parser::<A>(), parser::<B>(), parser::<C>(), parser::<D>())
    }
}

impl<A: Generator, B: Generator, C: Generator, D: Generator, E: Generator> Generator for (A, B, C, D, E) {
    type O = (A::O, B::O, C::O, D::O, E::O);

    type P = (Parse<A>, Parse<B>, Parse<C>, Parse<D>, Parse<E>);

    open spec fn gen_accepts(input: Seq<u8>, limit: int, pos: int, res: Option<(A::O, B::O, C::O, D::O, E::O)>, end: int) -> bool {
        (gen_parser::<A>(), gen_parser::<B>(), gen_parser::<C>(), gen_parser::<D>(), gen_parser::<E>()).accepts(input, limit, pos, res, end)
    }

    fn generate(ctx: &Context) -> (p: (Parse<A>, Parse<B>, Parse<C>, Parse<D>, Parse<E>)) {
        (parser::<A>(), parser::<B>(), parser::<C>(), parser::<D>(), parser::<E>())
    }
}

impl<A: Generator, B: Generator, C: Generator, D: Generator, E: Generator, F: Generator> Generator for (A, B, C, D, E, F) {
    type O = (A::O, B::O, C::O, D::O, E::O, F::O);

    type P = (Parse<A>, Parse<B>, Parse<C>, Parse<D>, Parse<E>, Parse<F>);

    open spec fn gen_accepts(input: Seq<u8>, limit: int, pos: int, res: Option<(A::O, B::O, C::O, D::O, E::O, F::O)>, end: int) -> bool {
        (gen_parser::<A>(), gen_parser::<B>(), gen_parser::<C>(), gen_parser::<D>(), gen_parser::<E>(), gen_parser::<F>()).accepts(input, limit, pos, res, end)
    }

    fn generate(ctx: &Context) -> (p: (Parse<A>, Parse<B>, Parse<C>, Parse<D>, Parse<E>, Parse<F>)) {
        (parser::<A>(), parser::<B>(), parser::<C>(), parser::<D>(), parser::<E>(), parser::<F>())
    }
}

impl<A: Generator, B: Generator, C: Generator, D: Generator, E: Generator, F: Generator, G: Generator> Generator for (A, B, C, D, E, F, G) {
    type O = (A::O, B::O, C::O, D::O, E::O, F::O, G::O);

    type P = (Parse<A>, Parse<B>, Parse<C>, Parse<D>, Parse<E>, Parse<F>, Parse<G>);

    open spec fn gen_accepts(input: Seq<u8>, limit: int, pos: int, res: Option<(A::O, B::O, C::O, D::O, E::O, F::O, G::O)>, end: int) -> bool {
        (gen_parser::<A>(), gen_parser::<B>(), gen_parser::<C>(), gen_parser::<D>(), gen_parser::<E>(), gen_parser::<F>(), gen_parser::<G>()).accepts(input, limit, pos, res, end)
    }

    fn generate(ctx: &Context) -> (p: (Parse<A>, Parse<B>, Parse<C>, Parse<D>, Parse<E>, Parse<F>, Parse<G>)) {
        (parser::<A>(), parser::<B>(), parser::<C>(), parser::<D>(), parser::<E>(), parser::<F>(), parser::<G>())
    }
}

impl<A: Generator, B: Generator, C: Generator, D: Generator, E: Generator, F: Generator, G: Generator, H: Generator> Generator for (A, B, C, D, E, F, G, H) {
    type O = (A::O, B::O, C::O, D::O, E::O, F::O, G::O, H::O);

    type P = (Parse<A>, Parse<B>, Parse<C>, Parse<D>, Parse<E>, Parse<F>, Parse<G>, Parse<H>);

    open spec fn gen_accepts(input: Seq<u8>, limit: int, pos: int, res: Option<(A::O, B::O, C::O, D::O, E::O, F::O, G::O, H::O)>, end: int) -> bool {
        (gen_parser::<A>(), gen_parser::<B>(), gen_parser::<C>(), gen_parser::<D>(), gen_parser::<E>(), gen_parser::<F>(), gen_parser::<G>(), gen_parser::<H>()).accepts(input, limit, pos, res, end)
    }

    fn generate(ctx: &Context) -> (p: (Parse<A>, Parse<B>, Parse<C>, Parse<D>, Parse<E>, Parse<F>, Parse<G>, Parse<H>)) {
        (parser::<A>(), parser::<B>(), parser::<C>(), parser::<D>(), parser::<E>(), parser::<F>(), parser::<G>(), parser::<H>())
    }
}

impl<A: Generator, B: Generator, C: Generator, D: Generator, E: Generator, F: Generator, G: Generator, H: Generator, I: Generator> Generator for (A, B, C, D, E, F, G, H, I) {
    type O = (A::O, B::O, C::O, D::O, E::O, F::O, G::O, H::O, I::O);

    type P = (Parse<A>, Parse<B>, Parse<C>, Parse<D>, Parse<E>, Parse<F>, Parse<G>, Parse<H>, Parse<I>);

    open spec fn gen_accepts(input: Seq<u8>, limit: int, pos: int, res: Option<(A::O, B::O, C::O, D::O, E::O, F::O, G::O, H::O, I::O)>, end: int) -> bool {
        (gen_parser::<A>(), gen_parser::<B>(), gen_parser::<C>(), gen_parser::<D>(), gen_parser::<E>(), gen_parser::<F>(), gen_parser::<G>(), gen_parser::<H>(), gen_parser::<I>()).accepts(input, limit, pos, res, end)
    }

    fn generate(ctx: &Context) -> (p: (Parse<A>, Parse<B>, Parse<C>, Parse<D>, Parse<E>, Parse<F>, Parse<G>, Parse<H>, Parse<I>)) {
        (parser::<A>(), parser::<B>(), parser::<C>(), parser::<D>(), parser::<E>(), parser::<F>(), parser::<G>(), parser::<H>(), parser::<I>())
    }
}

impl<T, A: Generator<O = T>> Generator for Alt<(A,)> {
    type O = T;

    type P = Alt<(Parse<A>,)>;

    open spec fn gen_accepts(input: Seq<u8>, limit: int, pos: int, res: Option<T>, end: int) -> bool {
        Alt((gen_parser::<A>(),)).accepts(input, limit, pos, res, end)
    }

    fn generate(ctx: &Context) -> (p: Alt<(Parse<A>,)>) {
        Alt((parser::<A>(),))
    }
}

impl<T, A: Generator<O = T>, B: Generator<O = T>> Generator for Alt<(A, B)> {
    type O = T;

    type P = Alt<(Parse<A>, Parse<B>)>;

    open spec fn gen_accepts(input: Seq<u8>, limit: int, pos: int, res: Option<T>, end: int) -> bool {
        Alt((gen_parser::<A>(), gen_parser::<B>())).accepts(input, limit, pos, res, end)
    }

    fn generate(ctx: &Context) -> (p: Alt<(Parse<A>, Parse<B>)>) {
        Alt((parser::<A>(), parser::<B>()))
    }
}

impl<T, A: Generator<O = T>, B: Generator<O = T>, C: Generator<O = T>> Generator for Alt<(A, B, C)> {
    type O = T;

    type P = Alt<(Parse<A>, Parse<B>, Parse<C>)>;

    open spec fn gen_accepts(input: Seq<u8>, limit: int, pos: int, res: Option<T>, end: int) -> bool {
        Alt((gen_parser::<A>(), gen_parser::<B>(), gen_parser::<C>())).accepts(input, limit, pos, res, end)
    }

    fn generate(ctx: &Context) -> (p: Alt<(Parse<A>, Parse<B>, Parse<C>)>) {
        Alt((parser::<A>(), parser::<B>(), parser::<C>()))
    }
}

impl<T, A: Generator<O = T>, B: Generator<O = T>, C: Generator<O = T>, D: Generator<O = T>> Generator for Alt<(A, B, C, D)> {
    type O = T;

    type P = Alt<(Parse<A>, Parse<B>, Parse<C>, Parse<D>)>;

    open spec fn gen_accepts(input: Seq<u8>, limit: int, pos: int, res: Option<T>, end: int) -> bool {
        Alt((gen_parser::<A>(), gen_parser::<B>(), gen_parser::<C>(), gen_parser::<D>())).accepts(input, limit, pos, res, end)
    }

    fn generate(ctx: &Context) -> (p: Alt<(Parse<A>, Parse<B>, Parse<C>, Parse<D>)>) {
        Alt((parser::<A>(), parser::<B>(), parser::<C>(), parser::<D>()))
    }
}

impl<T, A: Generator<O = T>, B: Generator<O = T>, C: Generator<O = T>, D: Generator<O = T>, E: Generator<O = T>> Generator for Alt<(A, B, C, D, E)> {
    type O = T;

    type P = Alt<(Parse<A>, Parse<B>, Parse<C>, Parse<D>, Parse<E>)>;

    open spec fn gen_accepts(input: Seq<u8>, limit: int, pos: int, res: Option<T>, end: int) -> bool {
        Alt((gen_parser::<A>(), gen_parser::<B>(), gen_parser::<C>(), gen_parser::<D>(), gen_parser::<E>())).accepts(input, limit, pos, res, end)
    }

    fn generate(ctx: &Context) -> (p: Alt<(Parse<A>, Parse<B>, Parse<C>, Parse<D>, Parse<E>)>) {
        Alt((parser::<A>(), parser::<B>(), parser::<C>(), parser::<D>(), parser::<E>()))
    }
}

impl<T, A: Generator<O = T>, B: Generator<O = T>, C: Generator<O = T>, D: Generator<O = T>, E: Generator<O = T>, F: Generator<O = T>> Generator for Alt<(A, B, C, D, E, F)> {
    type O = T;

    type P = Alt<(Parse<A>, Parse<B>, Parse<C>, Parse<D>, Parse<E>, Parse<F>)>;

    open spec fn gen_accepts(input: Seq<u8>, limit: int, pos: int, res: Option<T>, end: int) -> bool {
        Alt((gen_parser::<A>(), gen_parser::<B>(), gen_parser::<C>(), gen_parser::<D>(), gen_parser::<E>(), gen_parser::<F>())).accepts(input, limit, pos, res, end)
    }

    fn generate(ctx: &Context) -> (p: Alt<(Parse<A>, Parse<B>, Parse<C>, Parse<D>, Parse<E>, Parse<F>)>) {
        Alt((parser::<A>(), parser::<B>(), parser::<C>(), parser::<D>(), parser::<E>(), parser::<F>()))
    }
}

impl<T, A: Generator<O = T>, B: Generator<O = T>, C: Generator<O = T>, D: Generator<O = T>, E: Generator<O = T>, F: Generator<O = T>, G: Generator<O = T>> Generator for Alt<(A, B, C, D, E, F, G)> {
    type O = T;

    type P = Alt<(Parse<A>, Parse<B>, Parse<C>, Parse<D>, Parse<E>, Parse<F>, Parse<G>)>;

    open spec fn gen_accepts(input: Seq<u8>, limit: int, pos: int, res: Option<T>, end: int) -> bool {
        Alt((gen_parser::<A>(), gen_parser::<B>(), gen_parser::<C>(), gen_parser::<D>(), gen_parser::<E>(), gen_parser::<F>(), gen_parser::<G>())).accepts(input, limit, pos, res, end)
    }

    fn generate(ctx: &Context) -> (p: Alt<(Parse<A>, Parse<B>, Parse<C>, Parse<D>, Parse<E>, Parse<F>, Parse<G>)>) {
        Alt((parser::<A>(), parser::<B>(), parser::<C>(), parser::<D>(), parser::<E>(), parser::<F>(), parser::<G>()))
    }
}

impl<T, A: Generator<O = T>, B: Generator<O = T>, C: Generator<O = T>, D: Generator<O = T>, E: Generator<O = T>, F: Generator<O = T>, G: Generator<O = T>, H: Generator<O = T>> Generator for Alt<(A, B, C, D, E, F, G, H)> {
    type O = T;

    type P = Alt<(Parse<A>, Parse<B>, Parse<C>, Parse<D>, Parse<E>, Parse<F>, Parse<G>, Parse<H>)>;

    open spec fn gen_accepts(input: Seq<u8>, limit: int, pos: int, res: Option<T>, end: int) -> bool {
        Alt((gen_parser::<A>(), gen_parser::<B>(), gen_parser::<C>(), gen_parser::<D>(), gen_parser::<E>(), gen_parser::<F>(), gen_parser::<G>(), gen_parser::<H>())).accepts(input, limit, pos, res, end)
    }

    fn generate(ctx: &Context) -> (p: Alt<(Parse<A>, Parse<B>, Parse<C>, Parse<D>, Parse<E>, Parse<F>, Parse<G>, Parse<H>)>) {
        Alt((parser::<A>(), parser::<B>(), parser::<C>(), parser::<D>(), parser::<E>(), parser::<F>(), parser::<G>(), parser::<H>()))
    }
}

impl<T, A: Generator<O = T>, B: Generator<O = T>, C: Generator<O = T>, D: Generator<O = T>, E: Generator<O = T>, F: Generator<O = T>, G: Generator<O = T>, H: Generator<O = T>, I: Generator<O = T>> Generator for Alt<(A, B, C, D, E, F, G, H, I)> {
    type O = T;

    type P = Alt<(Parse<A>, Parse<B>, Parse<C>, Parse<D>, Parse<E>, Parse<F>, Parse<G>, Parse<H>, Parse<I>)>;

    open spec fn gen_accepts(input: Seq<u8>, limit: int, pos: int, res: Option<T>, end: int) -> bool {
        Alt((gen_parser::<A>(), gen_parser::<B>(), gen_parser::<C>(), gen_parser::<D>(), gen_parser::<E>(), gen_parser::<F>(), gen_parser::<G>(), gen_parser::<H>(), gen_parser::<I>())).accepts(input, limit, pos, res, end)
    }

    fn generate(ctx: &Context) -> (p: Alt<(Parse<A>, Parse<B>, Parse<C>, Parse<D>, Parse<E>, Parse<F>, Parse<G>, Parse<H>, Parse<I>)>) {
        Alt((parser::<A>(), parser::<B>(), parser::<C>(), parser::<D>(), parser::<E>(), parser::<F>(), parser::<G>(), parser::<H>(), parser::<I>()))
    }
}

impl Generator for bool {
    type O = bool;

    type P = [bool; 2];

    open spec fn gen_accepts(input: Seq<u8>, limit: int, pos: int, res: Option<bool>, end: int) -> bool {
        [true, false].accepts(input, limit, pos, res, end)
    }

    fn generate(ctx: &Context) -> (p: [bool; 2]) {
        [true, false]
    }
}

impl<G: Generator> Generator for Recognize<G> {
    type O = Vec<u8>;

    type P = Recognize<Parse<G>>;

    open spec fn gen_accepts(input: Seq<u8>, limit: int, pos: int, res: Option<Vec<u8>>, end: int) -> bool {
        Recognize(gen_parser::<G>()).accepts(input, limit, pos, res, end)
    }

    fn generate(ctx: &Context) -> (p: Recognize<Parse<G>>) {
        Recognize(parser::<G>())
    }
}

impl<G: Generator, S: Generator> Generator for Sep<G, S> {
    type O = Vec<G::O>;

    type P = Sep<Parse<G>, Parse<S>>;

    open spec fn gen_accepts(input: Seq<u8>, limit: int, pos: int, res: Option<Vec<G::O>>, end: int) -> bool {
        Sep(gen_parser::<G>(), gen_parser::<S>()).accepts(input, limit, pos, res, end)
    }

    fn generate(ctx: &Context) -> (p: Sep<Parse<G>, Parse<S>>) {
        Sep(parser::<G>(), parser::<S>())
    }
}

impl<G: Generator> Generator for Vec<G> {
    type O = Vec<G::O>;

    type P = Many<Parse<G>>;

    open spec fn gen_accepts(input: Seq<u8>, limit: int, pos: int, res: Option<Vec<G::O>>, end: int) -> bool {
        Many(gen_parser::<G>(), 0, usize::MAX).accepts(input, limit, pos, res, end)
    }

    fn generate(ctx: &Context) -> (p: Many<Parse<G>>) {
        Many(parser::<G>(), 0, usize::MAX)
    }
}

/// Calls `array_init::from_iter` on the items of `v`, which fills an array with the first `N`
/// items, or gives `None` when there are fewer.
#[verifier::external_body]
fn array_from_vec<T, const N: usize>(v: Vec<T>) -> (r: Option<[T; N]>)
    ensures
        v@.len() >= N ==> r is Some && r->0@ == v@.take(N as int),
        v@.len() < N ==> r is None,
{
    array_init::from_iter(v)
}

/// Runs a parser `N` times in a row and yields the results as an array; fails where a run fails.
#[derive(Copy, Clone)]
pub struct ArrayOf<P, const N: usize>(pub P);

impl<P: Parser, const N: usize> Parser for ArrayOf<P, N> {
    type O = [P::O; N];

    open spec fn well_formed(&self) -> bool {
        self.0.well_formed()
    }

    open spec fn accepts(&self, input: Seq<u8>, limit: int, pos: int, res: Option<[P::O; N]>, end: int) -> bool {
        match res {
            Some(a) => many_succeeds(self.0, N as int, N as int, input, limit, pos, a@, end),
            None => many_fails(self.0, N as int, input, limit, pos, end),
        }
    }

    fn impl_parse(&self, ctx: &Context, limit: usize, pos: &mut usize) -> (res: Option<[P::O; N]>) {
        let start = *pos;
        let ghost input = ctx.input();
        let mut v: Vec<P::O> = Vec::new();
        let ghost mut qs: Seq<int> = seq![start as int];
        let mut i: usize = 0;
        while i < N
            invariant
                self.0.well_formed(),
                start == *old(pos),
                start <= *pos <= limit <= ctx.input().len(),
                input == ctx.input(),
                i <= N,
                v@.len() == i,
                qs[0] == start,
                qs.last() == *pos,
                run_chain(self.0, input, limit as int, qs, v@),
            decreases N - i,
        {
            match self.0.parse(ctx, limit, pos) {
                Some(x) => {
                    let ghost old_v = v@;
                    v.push(x);
                    proof {
                        qs = qs.push(*pos as int);
                        assert forall|k: int| #![trigger v@[k]] 0 <= k < v@.len() implies self.0.accepts(
                            input,
                            limit as int,
                            qs[k],
                            Some(v@[k]),
                            qs[k + 1],
                        ) by {
                            if k < v@.len() - 1 {
                                assert(v@[k] == old_v[k]);
                            }
                        }
                    }
                },
                None => {
                    assert(self.0.accepts(input, limit as int, qs.last(), None, *pos as int));
                    assert(run_chain(self.0, input, limit as int, qs, v@));
                    return None;
                },
            }
            i = i + 1;
        }
        let ghost vs = v@;
        assert(run_chain(self.0, input, limit as int, qs, vs));
        match array_from_vec::<P::O, N>(v) {
            Some(a) => {
                assert(a@ =~= vs);
                Some(a)
            },
            None => {
                assert(false);
                None
            },
        }
    }
}

impl<G: Generator, const N: usize> Generator for [G; N] {
    type O = [G::O; N];

    type P = ArrayOf<Parse<G>, N>;

    open spec fn gen_accepts(input: Seq<u8>, limit: int, pos: int, res: Option<[G::O; N]>, end: int) -> bool {
        ArrayOf::<Parse<G>, N>(gen_parser::<G>()).accepts(input, limit, pos, res, end)
    }

    fn generate(ctx: &Context) -> (p: ArrayOf<Parse<G>, N>) {
        ArrayOf(parser::<G>())
    }
}

} // verus!
