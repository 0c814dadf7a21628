use crate::context::{can_fail, Context, Parser, ParserExt};
use vstd::prelude::*;

verus! {

/// Back-to-back runs of an element parser `p` and a separator `s` from `pos`: element `i` ends
/// at `es[i]`; for `i > 0` it is preceded by separator `ss[i]`, which ran from `es[i - 1]` to
/// `ms[i]`; every round but the last moved the cursor.
pub open spec fn sep_chain<P: Parser, S: Parser>(p: P, s: S, input: Seq<u8>, limit: int, pos: int, es: Seq<int>, ms: Seq<int>, vs: Seq<P::O>, ss: Seq<S::O>) -> bool {
    &&& vs.len() >= 1
    &&& es.len() == vs.len()
    &&& ms.len() == vs.len()
    &&& ss.len() == vs.len()
    &&& p.accepts(input, limit, pos, Some(vs[0]), es[0])
    &&& forall|i: int| 1 <= i < vs.len() ==> #[trigger] sep_round(p, s, input, limit, es, ms, vs, ss, i)
    &&& forall|i: int| #![trigger es[i]] 1 <= i < vs.len() - 1 ==> es[i] != es[i - 1]
}

/// Round `i` of a separated list: separator `ss[i]` ran from `es[i - 1]` to `ms[i]`, then
/// element `vs[i]` ran from `ms[i]` to `es[i]`.
pub open spec fn sep_round<P: Parser, S: Parser>(p: P, s: S, input: Seq<u8>, limit: int, es: Seq<int>, ms: Seq<int>, vs: Seq<P::O>, ss: Seq<S::O>, i: int) -> bool {
    s.accepts(input, limit, es[i - 1], Some(ss[i]), ms[i]) && p.accepts(input, limit, ms[i], Some(vs[i]), es[i])
}

/// Why a separated list stopped after the element that ended at `e`: the last round did not
/// move the cursor, or the next separator failed, or the element after it failed.
pub open spec fn sep_stops<P: Parser, S: Parser>(p: P, s: S, input: Seq<u8>, limit: int, es: Seq<int>) -> bool {
    ||| (es.len() >= 2 && es[es.len() - 1] == es[es.len() - 2])
    ||| can_fail(s, input, limit, es.last())
    ||| exists|m: int, sv: S::O| #[trigger] s.accepts(input, limit, es.last(), Some(sv), m) && can_fail(p, input, limit, m)
}

/// The outcome of a separated list: the elements that were read, and the cursor after the last
/// element (at the start when the first element fails).
pub open spec fn sep_outcome<P: Parser, S: Parser>(p: P, s: S, input: Seq<u8>, limit: int, pos: int, vs: Seq<P::O>, end: int) -> bool {
    ||| (vs.len() == 0 && end == pos && can_fail(p, input, limit, pos))
    ||| exists|es: Seq<int>, ms: Seq<int>, ss: Seq<S::O>|
        #![trigger sep_chain(p, s, input, limit, pos, es, ms, vs, ss)]
        sep_chain(p, s, input, limit, pos, es, ms, vs, ss) && end == es.last() && sep_stops(
            p,
            s,
            input,
            limit,
            es,
        )
}

/// A list of elements parsed by `.0`, separated by what `.1` parses; it always succeeds.
///
/// A round whose separator and element together consume nothing would repeat forever; the
/// list stops after such a round.
#[derive(Copy, Clone)]
pub struct Sep<P, S>(pub P, pub S);

impl<P: Parser, S: Parser> Parser for Sep<P, S> {
    type O = Vec<P::O>;

    open spec fn well_formed(&self) -> bool {
        self.0.well_formed() && self.1.well_formed()
    }

    open spec fn accepts(&self, input: Seq<u8>, limit: int, pos: int, res: Option<Vec<P::O>>, end: int) -> bool {
        match res {
            Some(v) => sep_outcome(self.0, self.1, input, limit, pos, v@, end),
            None => false,
        }
    }

    fn impl_parse(&self, ctx: &Context, limit: usize, pos: &mut usize) -> (res: Option<Vec<P::O>>) {
        let ghost input = ctx.input();
        let start = *pos;
        let mut v: Vec<P::O> = Vec::new();
        let mut reset = *pos;
        match self.0.parse(ctx, limit, pos) {
            Some(val) => {
                v.push(val);
            },
            None => {
                assert(self.0.accepts(input, limit as int, start as int, None, *pos as int));
                *pos = reset;
                return Some(v);
            },
        }
        let ghost mut es: Seq<int> = seq![*pos as int];
        let ghost mut ms: Seq<int> = seq![start as int];
        let ghost mut ss: Seq<S::O> = seq![arbitrary()];
        assert(sep_chain(self.0, self.1, input, limit as int, start as int, es, ms, v@, ss));
        loop
            invariant_except_break
                es.last() == *pos,
                v@.len() >= 2 ==> es[v@.len() - 1] != es[v@.len() - 2],
            invariant
                self.0.well_formed(),
                self.1.well_formed(),
                input == ctx.input(),
                start == *old(pos),
                start <= *pos <= limit <= input.len(),
                start <= es.last() <= limit,
                sep_chain(self.0, self.1, input, limit as int, start as int, es, ms, v@, ss),
            ensures
                reset == es.last(),
                sep_stops(self.0, self.1, input, limit as int, es),
            decreases limit - *pos,
        {
            reset = *pos;
            let sv = match self.1.parse(ctx, limit, pos) {
                Some(sv) => sv,
                None => {
                    assert(self.1.accepts(input, limit as int, reset as int, None, *pos as int));
                    break;
                },
            };
            let ghost gsv = sv;
            let mid = *pos;
            match self.0.parse(ctx, limit, pos) {
                Some(val) => {
                    let ghost old_v = v@;
                    let ghost old_es = es;
                    let ghost old_ms = ms;
                    let ghost old_ss = ss;
                    v.push(val);
                    proof {
                        es = es.push(*pos as int);
                        ms = ms.push(mid as int);
                        ss = ss.push(gsv);
                        assert forall|i: int| 1 <= i < v@.len() implies #[trigger] sep_round(self.0, self.1, input, limit as int, es, ms, v@, ss, i) by {
                            if i < v@.len() - 1 {
                                assert(sep_round(self.0, self.1, input, limit as int, old_es, old_ms, old_v, old_ss, i));
                                assert(v@[i] == old_v[i]);
                                assert(es[i - 1] == old_es[i - 1]);
                                assert(es[i] == old_es[i]);
                                assert(ms[i] == old_ms[i]);
                                assert(ss[i] == old_ss[i]);
                            }
                        }
                        assert(v@[0] == old_v[0]);
                        assert forall|i: int| #![trigger es[i]] 1 <= i < v@.len() - 1 implies es[i] != es[i - 1] by {
                            assert(es[i] == old_es[i] && es[i - 1] == old_es[i - 1]);
                            if i == old_v.len() - 1 {
                                assert(old_es[old_v.len() - 1] != old_es[old_v.len() - 2]);
                            } else {
                                assert(old_es[i] != old_es[i - 1]);
                            }
                        }
                        assert(es[0] == old_es[0]);
                        assert(v@.len() >= 1);
                        assert(es.len() == v@.len());
                        assert(ms.len() == v@.len());
                        assert(ss.len() == v@.len());
                        assert(self.0.accepts(input, limit as int, start as int, Some(v@[0]), es[0]));
                        assert(forall|i: int| #![trigger es[i]] 1 <= i < v@.len() - 1 ==> es[i] != es[i - 1]);
                    }
                    if *pos == reset {
                        assert(sep_chain(self.0, self.1, input, limit as int, start as int, es, ms, v@, ss));
                        return Some(v);
                    }
                },
                None => {
                    assert(self.1.accepts(input, limit as int, reset as int, Some(gsv), mid as int));
                    assert(self.0.accepts(input, limit as int, mid as int, None, *pos as int));
                    break;
                },
            }
        }
        *pos = reset;
        Some(v)
    }
}

} // verus!
