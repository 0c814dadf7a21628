use crate::context::{can_fail, Context, Parser, ParserExt};
use vstd::prelude::*;

verus! {

/// A run of the 1 parsers one after the other from `pos` yields the values `x0`.. and ends at `end`.
pub open spec fn seq1_ok<A: Parser>(a: A, input: Seq<u8>, limit: int, pos: int, x0: A::O, end: int) -> bool {
    a.accepts(input, limit, pos, Some(x0), end)
}

/// A run of the 1 parsers one after the other from `pos` fails at one of them, ending at `end`.
pub open spec fn seq1_fails<A: Parser>(a: A, input: Seq<u8>, limit: int, pos: int, end: int) -> bool {
    ||| a.accepts(input, limit, pos, None, end)
}

/// A run of the 2 parsers one after the other from `pos` yields the values `x0`.. and ends at `end`.
pub open spec fn seq2_ok<A: Parser, B: Parser>(a: A, b: B, input: Seq<u8>, limit: int, pos: int, x0: A::O, x1: B::O, end: int) -> bool {
    exists|m1: int| a.accepts(input, limit, pos, Some(x0), m1) && b.accepts(input, limit, m1, Some(x1), end)
}

/// A run of the 2 parsers one after the other from `pos` fails at one of them, ending at `end`.
pub open spec fn seq2_fails<A: Parser, B: Parser>(a: A, b: B, input: Seq<u8>, limit: int, pos: int, end: int) -> bool {
    ||| a.accepts(input, limit, pos, None, end)
    ||| (exists|m1: int, v0: A::O| a.accepts(input, limit, pos, Some(v0), m1) && b.accepts(input, limit, m1, None, end))
}

/// A run of the 3 parsers one after the other from `pos` yields the values `x0`.. and ends at `end`.
pub open spec fn seq3_ok<A: Parser, B: Parser, C: Parser>(a: A, b: B, c: C, input: Seq<u8>, limit: int, pos: int, x0: A::O, x1: B::O, x2: C::O, end: int) -> bool {
    exists|m1: int, m2: int| a.accepts(input, limit, pos, Some(x0), m1) && b.accepts(input, limit, m1, Some(x1), m2) && c.accepts(input, limit, m2, Some(x2), end)
}

/// A run of the 3 parsers one after the other from `pos` fails at one of them, ending at `end`.
pub open spec fn seq3_fails<A: Parser, B: Parser, C: Parser>(a: A, b: B, c: C, input: Seq<u8>, limit: int, pos: int, end: int) -> bool {
    ||| a.accepts(input, limit, pos, None, end)
    ||| (exists|m1: int, v0: A::O| a.accepts(input, limit, pos, Some(v0), m1) && b.accepts(input, limit, m1, None, end))
    ||| (exists|m1: int, m2: int, v0: A::O, v1: B::O| a.accepts(input, limit, pos, Some(v0), m1) && b.accepts(input, limit, m1, Some(v1), m2) && c.accepts(input, limit, m2, None, end))
}

/// A run of the 4 parsers one after the other from `pos` yields the values `x0`.. and ends at `end`.
pub open spec fn seq4_ok<A: Parser, B: Parser, C: Parser, D: Parser>(a: A, b: B, c: C, d: D, input: Seq<u8>, limit: int, pos: int, x0: A::O, x1: B::O, x2: C::O, x3: D::O, end: int) -> bool {
    exists|m1: int, m2: int, m3: int| a.accepts(input, limit, pos, Some(x0), m1) && b.accepts(input, limit, m1, Some(x1), m2) && c.accepts(input, limit, m2, Some(x2), m3) && d.accepts(input, limit, m3, Some(x3), end)
}

/// A run of the 4 parsers one after the other from `pos` fails at one of them, ending at `end`.
pub open spec fn seq4_fails<A: Parser, B: Parser, C: Parser, D: Parser>(a: A, b: B, c: C, d: D, input: Seq<u8>, limit: int, pos: int, end: int) -> bool {
    ||| a.accepts(input, limit, pos, None, end)
    ||| (exists|m1: int, v0: A::O| a.accepts(input, limit, pos, Some(v0), m1) && b.accepts(input, limit, m1, None, end))
    ||| (exists|m1: int, m2: int, v0: A::O, v1: B::O| a.accepts(input, limit, pos, Some(v0), m1) && b.accepts(input, limit, m1, Some(v1), m2) && c.accepts(input, limit, m2, None, end))
    ||| (exists|m1: int, m2: int, m3: int, v0: A::O, v1: B::O, v2: C::O| a.accepts(input, limit, pos, Some(v0), m1) && b.accepts(input, limit, m1, Some(v1), m2) && c.accepts(input, limit, m2, Some(v2), m3) && d.accepts(input, limit, m3, None, end))
}

/// A run of the 5 parsers one after the other from `pos` yields the values `x0`.. and ends at `end`.
pub open spec fn seq5_ok<A: Parser, B: Parser, C: Parser, D: Parser, E: Parser>(a: A, b: B, c: C, d: D, e: E, input: Seq<u8>, limit: int, pos: int, x0: A::O, x1: B::O, x2: C::O, x3: D::O, x4: E::O, end: int) -> bool {
    exists|m1: int, m2: int, m3: int, m4: int| a.accepts(input, limit, pos, Some(x0), m1) && b.accepts(input, limit, m1, Some(x1), m2) && c.accepts(input, limit, m2, Some(x2), m3) && d.accepts(input, limit, m3, Some(x3), m4) && e.accepts(input, limit, m4, Some(x4), end)
}

/// A run of the 5 parsers one after the other from `pos` fails at one of them, ending at `end`.
pub open spec fn seq5_fails<A: Parser, B: Parser, C: Parser, D: Parser, E: Parser>(a: A, b: B, c: C, d: D, e: E, input: Seq<u8>, limit: int, pos: int, end: int) -> bool {
    ||| a.accepts(input, limit, pos, None, end)
    ||| (exists|m1: int, v0: A::O| a.accepts(input, limit, pos, Some(v0), m1) && b.accepts(input, limit, m1, None, end))
    ||| (exists|m1: int, m2: int, v0: A::O, v1: B::O| a.accepts(input, limit, pos, Some(v0), m1) && b.accepts(input, limit, m1, Some(v1), m2) && c.accepts(input, limit, m2, None, end))
    ||| (exists|m1: int, m2: int, m3: int, v0: A::O, v1: B::O, v2: C::O| a.accepts(input, limit, pos, Some(v0), m1) && b.accepts(input, limit, m1, Some(v1), m2) && c.accepts(input, limit, m2, Some(v2), m3) && d.accepts(input, limit, m3, None, end))
    ||| (exists|m1: int, m2: int, m3: int, m4: int, v0: A::O, v1: B::O, v2: C::O, v3: D::O| a.accepts(input, limit, pos, Some(v0), m1) && b.accepts(input, limit, m1, Some(v1), m2) && c.accepts(input, limit, m2, Some(v2), m3) && d.accepts(input, limit, m3, Some(v3), m4) && e.accepts(input, limit, m4, None, end))
}

/// A run of the 6 parsers one after the other from `pos` yields the values `x0`.. and ends at `end`.
pub open spec fn seq6_ok<A: Parser, B: Parser, C: Parser, D: Parser, E: Parser, F: Parser>(a: A, b: B, c: C, d: D, e: E, f: F, input: Seq<u8>, limit: int, pos: int, x0: A::O, x1: B::O, x2: C::O, x3: D::O, x4: E::O, x5: F::O, end: int) -> bool {
    exists|m1: int, m2: int, m3: int, m4: int, m5: int| a.accepts(input, limit, pos, Some(x0), m1) && b.accepts(input, limit, m1, Some(x1), m2) && c.accepts(input, limit, m2, Some(x2), m3) && d.accepts(input, limit, m3, Some(x3), m4) && e.accepts(input, limit, m4, Some(x4), m5) && f.accepts(input, limit, m5, Some(x5), end)
}

/// A run of the 6 parsers one after the other from `pos` fails at one of them, ending at `end`.
pub open spec fn seq6_fails<A: Parser, B: Parser, C: Parser, D: Parser, E: Parser, F: Parser>(a: A, b: B, c: C, d: D, e: E, f: F, input: Seq<u8>, limit: int, pos: int, end: int) -> bool {
    ||| a.accepts(input, limit, pos, None, end)
    ||| (exists|m1: int, v0: A::O| a.accepts(input, limit, pos, Some(v0), m1) && b.accepts(input, limit, m1, None, end))
    ||| (exists|m1: int, m2: int, v0: A::O, v1: B::O| a.accepts(input, limit, pos, Some(v0), m1) && b.accepts(input, limit, m1, Some(v1), m2) && c.accepts(input, limit, m2, None, end))
    ||| (exists|m1: int, m2: int, m3: int, v0: A::O, v1: B::O, v2: C::O| a.accepts(input, limit, pos, Some(v0), m1) && b.accepts(input, limit, m1, Some(v1), m2) && c.accepts(input, limit, m2, Some(v2), m3) && d.accepts(input, limit, m3, None, end))
    ||| (exists|m1: int, m2: int, m3: int, m4: int, v0: A::O, v1: B::O, v2: C::O, v3: D::O| a.accepts(input, limit, pos, Some(v0), m1) && b.accepts(input, limit, m1, Some(v1), m2) && c.accepts(input, limit, m2, Some(v2), m3) && d.accepts(input, limit, m3, Some(v3), m4) && e.accepts(input, limit, m4, None, end))
    ||| (exists|m1: int, m2: int, m3: int, m4: int, m5: int, v0: A::O, v1: B::O, v2: C::O, v3: D::O, v4: E::O| a.accepts(input, limit, pos, Some(v0), m1) && b.accepts(input, limit, m1, Some(v1), m2) && c.accepts(input, limit, m2, Some(v2), m3) && d.accepts(input, limit, m3, Some(v3), m4) && e.accepts(input, limit, m4, Some(v4), m5) && f.accepts(input, limit, m5, None, end))
}

/// A run of the 7 parsers one after the other from `pos` yields the values `x0`.. and ends at `end`.
pub open spec fn seq7_ok<A: Parser, B: Parser, C: Parser, D: Parser, E: Parser, F: Parser, G: Parser>(a: A, b: B, c: C, d: D, e: E, f: F, g: G, input: Seq<u8>, limit: int, pos: int, x0: A::O, x1: B::O, x2: C::O, x3: D::O, x4: E::O, x5: F::O, x6: G::O, end: int) -> bool {
    exists|m1: int, m2: int, m3: int, m4: int, m5: int, m6: int| a.accepts(input, limit, pos, Some(x0), m1) && b.accepts(input, limit, m1, Some(x1), m2) && c.accepts(input, limit, m2, Some(x2), m3) && d.accepts(input, limit, m3, Some(x3), m4) && e.accepts(input, limit, m4, Some(x4), m5) && f.accepts(input, limit, m5, Some(x5), m6) && g.accepts(input, limit, m6, Some(x6), end)
}

/// A run of the 7 parsers one after the other from `pos` fails at one of them, ending at `end`.
pub open spec fn seq7_fails<A: Parser, B: Parser, C: Parser, D: Parser, E: Parser, F: Parser, G: Parser>(a: A, b: B, c: C, d: D, e: E, f: F, g: G, input: Seq<u8>, limit: int, pos: int, end: int) -> bool {
    ||| a.accepts(input, limit, pos, None, end)
    ||| (exists|m1: int, v0: A::O| a.accepts(input, limit, pos, Some(v0), m1) && b.accepts(input, limit, m1, None, end))
    ||| (exists|m1: int, m2: int, v0: A::O, v1: B::O| a.accepts(input, limit, pos, Some(v0), m1) && b.accepts(input, limit, m1, Some(v1), m2) && c.accepts(input, limit, m2, None, end))
    ||| (exists|m1: int, m2: int, m3: int, v0: A::O, v1: B::O, v2: C::O| a.accepts(input, limit, pos, Some(v0), m1) && b.accepts(input, limit, m1, Some(v1), m2) && c.accepts(input, limit, m2, Some(v2), m3) && d.accepts(input, limit, m3, None, end))
    ||| (exists|m1: int, m2: int, m3: int, m4: int, v0: A::O, v1: B::O, v2: C::O, v3: D::O| a.accepts(input, limit, pos, Some(v0), m1) && b.accepts(input, limit, m1, Some(v1), m2) && c.accepts(input, limit, m2, Some(v2), m3) && d.accepts(input, limit, m3, Some(v3), m4) && e.accepts(input, limit, m4, None, end))
    ||| (exists|m1: int, m2: int, m3: int, m4: int, m5: int, v0: A::O, v1: B::O, v2: C::O, v3: D::O, v4: E::O| a.accepts(input, limit, pos, Some(v0), m1) && b.accepts(input, limit, m1, Some(v1), m2) && c.accepts(input, limit, m2, Some(v2), m3) && d.accepts(input, limit, m3, Some(v3), m4) && e.accepts(input, limit, m4, Some(v4), m5) && f.accepts(input, limit, m5, None, end))
    ||| (exists|m1: int, m2: int, m3: int, m4: int, m5: int, m6: int, v0: A::O, v1: B::O, v2: C::O, v3: D::O, v4: E::O, v5: F::O| a.accepts(input, limit, pos, Some(v0), m1) && b.accepts(input, limit, m1, Some(v1), m2) && c.accepts(input, limit, m2, Some(v2), m3) && d.accepts(input, limit, m3, Some(v3), m4) && e.accepts(input, limit, m4, Some(v4), m5) && f.accepts(input, limit, m5, Some(v5), m6) && g.accepts(input, limit, m6, None, end))
}

/// A run of the 8 parsers one after the other from `pos` yields the values `x0`.. and ends at `end`.
pub open spec fn seq8_ok<A: Parser, B: Parser, C: Parser, D: Parser, E: Parser, F: Parser, G: Parser, H: Parser>(a: A, b: B, c: C, d: D, e: E, f: F, g: G, h: H, input: Seq<u8>, limit: int, pos: int, x0: A::O, x1: B::O, x2: C::O, x3: D::O, x4: E::O, x5: F::O, x6: G::O, x7: H::O, end: int) -> bool {
    exists|m1: int, m2: int, m3: int, m4: int, m5: int, m6: int, m7: int| a.accepts(input, limit, pos, Some(x0), m1) && b.accepts(input, limit, m1, Some(x1), m2) && c.accepts(input, limit, m2, Some(x2), m3) && d.accepts(input, limit, m3, Some(x3), m4) && e.accepts(input, limit, m4, Some(x4), m5) && f.accepts(input, limit, m5, Some(x5), m6) && g.accepts(input, limit, m6, Some(x6), m7) && h.accepts(input, limit, m7, Some(x7), end)
}

/// A run of the 8 parsers one after the other from `pos` fails at one of them, ending at `end`.
pub open spec fn seq8_fails<A: Parser, B: Parser, C: Parser, D: Parser, E: Parser, F: Parser, G: Parser, H: Parser>(a: A, b: B, c: C, d: D, e: E, f: F, g: G, h: H, input: Seq<u8>, limit: int, pos: int, end: int) -> bool {
    ||| a.accepts(input, limit, pos, None, end)
    ||| (exists|m1: int, v0: A::O| a.accepts(input, limit, pos, Some(v0), m1) && b.accepts(input, limit, m1, None, end))
    ||| (exists|m1: int, m2: int, v0: A::O, v1: B::O| a.accepts(input, limit, pos, Some(v0), m1) && b.accepts(input, limit, m1, Some(v1), m2) && c.accepts(input, limit, m2, None, end))
    ||| (exists|m1: int, m2: int, m3: int, v0: A::O, v1: B::O, v2: C::O| a.accepts(input, limit, pos, Some(v0), m1) && b.accepts(input, limit, m1, Some(v1), m2) && c.accepts(input, limit, m2, Some(v2), m3) && d.accepts(input, limit, m3, None, end))
    ||| (exists|m1: int, m2: int, m3: int, m4: int, v0: A::O, v1: B::O, v2: C::O, v3: D::O| a.accepts(input, limit, pos, Some(v0), m1) && b.accepts(input, limit, m1, Some(v1), m2) && c.accepts(input, limit, m2, Some(v2), m3) && d.accepts(input, limit, m3, Some(v3), m4) && e.accepts(input, limit, m4, None, end))
    ||| (exists|m1: int, m2: int, m3: int, m4: int, m5: int, v0: A::O, v1: B::O, v2: C::O, v3: D::O, v4: E::O| a.accepts(input, limit, pos, Some(v0), m1) && b.accepts(input, limit, m1, Some(v1), m2) && c.accepts(input, limit, m2, Some(v2), m3) && d.accepts(input, limit, m3, Some(v3), m4) && e.accepts(input, limit, m4, Some(v4), m5) && f.accepts(input, limit, m5, None, end))
    ||| (exists|m1: int, m2: int, m3: int, m4: int, m5: int, m6: int, v0: A::O, v1: B::O, v2: C::O, v3: D::O, v4: E::O, v5: F::O| a.accepts(input, limit, pos, Some(v0), m1) && b.accepts(input, limit, m1, Some(v1), m2) && c.accepts(input, limit, m2, Some(v2), m3) && d.accepts(input, limit, m3, Some(v3), m4) && e.accepts(input, limit, m4, Some(v4), m5) && f.accepts(input, limit, m5, Some(v5), m6) && g.accepts(input, limit, m6, None, end))
    ||| (exists|m1: int, m2: int, m3: int, m4: int, m5: int, m6: int, m7: int, v0: A::O, v1: B::O, v2: C::O, v3: D::O, v4: E::O, v5: F::O, v6: G::O| a.accepts(input, limit, pos, Some(v0), m1) && b.accepts(input, limit, m1, Some(v1), m2) && c.accepts(input, limit, m2, Some(v2), m3) && d.accepts(input, limit, m3, Some(v3), m4) && e.accepts(input, limit, m4, Some(v4), m5) && f.accepts(input, limit, m5, Some(v5), m6) && g.accepts(input, limit, m6, Some(v6), m7) && h.accepts(input, limit, m7, None, end))
}

/// A run of the 9 parsers one after the other from `pos` yields the values `x0`.. and ends at `end`.
pub open spec fn seq9_ok<A: Parser, B: Parser, C: Parser, D: Parser, E: Parser, F: Parser, G: Parser, H: Parser, I: Parser>(a: A, b: B, c: C, d: D, e: E, f: F, g: G, h: H, i: I, input: Seq<u8>, limit: int, pos: int, x0: A::O, x1: B::O, x2: C::O, x3: D::O, x4: E::O, x5: F::O, x6: G::O, x7: H::O, x8: I::O, end: int) -> bool {
    exists|m1: int, m2: int, m3: int, m4: int, m5: int, m6: int, m7: int, m8: int| a.accepts(input, limit, pos, Some(x0), m1) && b.accepts(input, limit, m1, Some(x1), m2) && c.accepts(input, limit, m2, Some(x2), m3) && d.accepts(input, limit, m3, Some(x3), m4) && e.accepts(input, limit, m4, Some(x4), m5) && f.accepts(input, limit, m5, Some(x5), m6) && g.accepts(input, limit, m6, Some(x6), m7) && h.accepts(input, limit, m7, Some(x7), m8) && i.accepts(input, limit, m8, Some(x8), end)
}

/// A run of the 9 parsers one after the other from `pos` fails at one of them, ending at `end`.
pub open spec fn seq9_fails<A: Parser, B: Parser, C: Parser, D: Parser, E: Parser, F: Parser, G: Parser, H: Parser, I: Parser>(a: A, b: B, c: C, d: D, e: E, f: F, g: G, h: H, i: I, input: Seq<u8>, limit: int, pos: int, end: int) -> bool {
    ||| a.accepts(input, limit, pos, None, end)
    ||| (exists|m1: int, v0: A::O| a.accepts(input, limit, pos, Some(v0), m1) && b.accepts(input, limit, m1, None, end))
    ||| (exists|m1: int, m2: int, v0: A::O, v1: B::O| a.accepts(input, limit, pos, Some(v0), m1) && b.accepts(input, limit, m1, Some(v1), m2) && c.accepts(input, limit, m2, None, end))
    ||| (exists|m1: int, m2: int, m3: int, v0: A::O, v1: B::O, v2: C::O| a.accepts(input, limit, pos, Some(v0), m1) && b.accepts(input, limit, m1, Some(v1), m2) && c.accepts(input, limit, m2, Some(v2), m3) && d.accepts(input, limit, m3, None, end))
    ||| (exists|m1: int, m2: int, m3: int, m4: int, v0: A::O, v1: B::O, v2: C::O, v3: D::O| a.accepts(input, limit, pos, Some(v0), m1) && b.accepts(input, limit, m1, Some(v1), m2) && c.accepts(input, limit, m2, Some(v2), m3) && d.accepts(input, limit, m3, Some(v3), m4) && e.accepts(input, limit, m4, None, end))
    ||| (exists|m1: int, m2: int, m3: int, m4: int, m5: int, v0: A::O, v1: B::O, v2: C::O, v3: D::O, v4: E::O| a.accepts(input, limit, pos, Some(v0), m1) && b.accepts(input, limit, m1, Some(v1), m2) && c.accepts(input, limit, m2, Some(v2), m3) && d.accepts(input, limit, m3, Some(v3), m4) && e.accepts(input, limit, m4, Some(v4), m5) && f.accepts(input, limit, m5, None, end))
    ||| (exists|m1: int, m2: int, m3: int, m4: int, m5: int, m6: int, v0: A::O, v1: B::O, v2: C::O, v3: D::O, v4: E::O, v5: F::O| a.accepts(input, limit, pos, Some(v0), m1) && b.accepts(input, limit, m1, Some(v1), m2) && c.accepts(input, limit, m2, Some(v2), m3) && d.accepts(input, limit, m3, Some(v3), m4) && e.accepts(input, limit, m4, Some(v4), m5) && f.accepts(input, limit, m5, Some(v5), m6) && g.accepts(input, limit, m6, None, end))
    ||| (exists|m1: int, m2: int, m3: int, m4: int, m5: int, m6: int, m7: int, v0: A::O, v1: B::O, v2: C::O, v3: D::O, v4: E::O, v5: F::O, v6: G::O| a.accepts(input, limit, pos, Some(v0), m1) && b.accepts(input, limit, m1, Some(v1), m2) && c.accepts(input, limit, m2, Some(v2), m3) && d.accepts(input, limit, m3, Some(v3), m4) && e.accepts(input, limit, m4, Some(v4), m5) && f.accepts(input, limit, m5, Some(v5), m6) && g.accepts(input, limit, m6, Some(v6), m7) && h.accepts(input, limit, m7, None, end))
    ||| (exists|m1: int, m2: int, m3: int, m4: int, m5: int, m6: int, m7: int, m8: int, v0: A::O, v1: B::O, v2: C::O, v3: D::O, v4: E::O, v5: F::O, v6: G::O, v7: H::O| a.accepts(input, limit, pos, Some(v0), m1) && b.accepts(input, limit, m1, Some(v1), m2) && c.accepts(input, limit, m2, Some(v2), m3) && d.accepts(input, limit, m3, Some(v3), m4) && e.accepts(input, limit, m4, Some(v4), m5) && f.accepts(input, limit, m5, Some(v5), m6) && g.accepts(input, limit, m6, Some(v6), m7) && h.accepts(input, limit, m7, Some(v7), m8) && i.accepts(input, limit, m8, None, end))
}

impl<A: Parser> Parser for (A,) {
    type O = (A::O,);

    open spec fn well_formed(&self) -> bool {
        self.0.well_formed()
    }

    open spec fn accepts(&self, input: Seq<u8>, limit: int, pos: int, res: Option<(A::O,)>, end: int) -> bool {
        if res is Some {
            seq1_ok(self.0, input, limit, pos, (res->0).0, end)
        } else {
            seq1_fails(self.0, input, limit, pos, end)
        }
    }

    fn impl_parse(&self, ctx: &Context, limit: usize, pos: &mut usize) -> (res: Option<(A::O,)>) {
        let s0 = *pos;
        let x0 = match self.0.parse(ctx, limit, pos) { Some(x) => x, None => { return None; } };
        let ghost g0 = x0;
        let s1 = *pos;
        assert(self.0.accepts(ctx.input(), limit as int, s0 as int, Some(g0), s1 as int));
        Some((x0,))
    }
}

impl<A: Parser, B: Parser> Parser for (A, B) {
    type O = (A::O, B::O);

    open spec fn well_formed(&self) -> bool {
        self.0.well_formed() && self.1.well_formed()
    }

    open spec fn accepts(&self, input: Seq<u8>, limit: int, pos: int, res: Option<(A::O, B::O)>, end: int) -> bool {
        if res is Some {
            seq2_ok(self.0, self.1, input, limit, pos, (res->0).0, (res->0).1, end)
        } else {
            seq2_fails(self.0, self.1, input, limit, pos, end)
        }
    }

    fn impl_parse(&self, ctx: &Context, limit: usize, pos: &mut usize) -> (res: Option<(A::O, B::O)>) {
        let s0 = *pos;
        let x0 = match self.0.parse(ctx, limit, pos) { Some(x) => x, None => { return None; } };
        let ghost g0 = x0;
        let s1 = *pos;
        let x1 = match self.1.parse(ctx, limit, pos) { Some(x) => x, None => { assert(self.0.accepts(ctx.input(), limit as int, s0 as int, Some(g0), s1 as int) && self.1.accepts(ctx.input(), limit as int, s1 as int, None, *pos as int)); return None; } };
        let ghost g1 = x1;
        let s2 = *pos;
        assert(self.0.accepts(ctx.input(), limit as int, s0 as int, Some(g0), s1 as int) && self.1.accepts(ctx.input(), limit as int, s1 as int, Some(g1), s2 as int));
        Some((x0, x1))
    }
}

impl<A: Parser, B: Parser, C: Parser> Parser for (A, B, C) {
    type O = (A::O, B::O, C::O);

    open spec fn well_formed(&self) -> bool {
        self.0.well_formed() && self.1.well_formed() && self.2.well_formed()
    }

    open spec fn accepts(&self, input: Seq<u8>, limit: int, pos: int, res: Option<(A::O, B::O, C::O)>, end: int) -> bool {
        if res is Some {
            seq3_ok(self.0, self.1, self.2, input, limit, pos, (res->0).0, (res->0).1, (res->0).2, end)
        } else {
            seq3_fails(self.0, self.1, self.2, input, limit, pos, end)
        }
    }

    fn impl_parse(&self, ctx: &Context, limit: usize, pos: &mut usize) -> (res: Option<(A::O, B::O, C::O)>) {
        let s0 = *pos;
        let x0 = match self.0.parse(ctx, limit, pos) { Some(x) => x, None => { return None; } };
        let ghost g0 = x0;
        let s1 = *pos;
        let x1 = match self.1.parse(ctx, limit, pos) { Some(x) => x, None => { assert(self.0.accepts(ctx.input(), limit as int, s0 as int, Some(g0), s1 as int) && self.1.accepts(ctx.input(), limit as int, s1 as int, None, *pos as int)); return None; } };
        let ghost g1 = x1;
        let s2 = *pos;
        let x2 = match self.2.parse(ctx, limit, pos) { Some(x) => x, None => { assert(self.0.accepts(ctx.input(), limit as int, s0 as int, Some(g0), s1 as int) && self.1.accepts(ctx.input(), limit as int, s1 as int, Some(g1), s2 as int) && self.2.accepts(ctx.input(), limit as int, s2 as int, None, *pos as int)); return None; } };
        let ghost g2 = x2;
        let s3 = *pos;
        assert(self.0.accepts(ctx.input(), limit as int, s0 as int, Some(g0), s1 as int) && self.1.accepts(ctx.input(), limit as int, s1 as int, Some(g1), s2 as int) && self.2.accepts(ctx.input(), limit as int, s2 as int, Some(g2), s3 as int));
        Some((x0, x1, x2))
    }
}

impl<A: Parser, B: Parser, C: Parser, D: Parser> Parser for (A, B, C, D) {
    type O = (A::O, B::O, C::O, D::O);

    open spec fn well_formed(&self) -> bool {
        self.0.well_formed() && self.1.well_formed() && self.2.well_formed() && self.3.well_formed()
    }

    open spec fn accepts(&self, input: Seq<u8>, limit: int, pos: int, res: Option<(A::O, B::O, C::O, D::O)>, end: int) -> bool {
        if res is Some {
            seq4_ok(self.0, self.1, self.2, self.3, input, limit, pos, (res->0).0, (res->0).1, (res->0).2, (res->0).3, end)
        } else {
            seq4_fails(self.0, self.1, self.2, self.3, input, limit, pos, end)
        }
    }

    fn impl_parse(&self, ctx: &Context, limit: usize, pos: &mut usize) -> (res: Option<(A::O, B::O, C::O, D::O)>) {
        let s0 = *pos;
        let x0 = match self.0.parse(ctx, limit, pos) { Some(x) => x, None => { return None; } };
        let ghost g0 = x0;
        let s1 = *pos;
        let x1 = match self.1.parse(ctx, limit, pos) { Some(x) => x, None => { assert(self.0.accepts(ctx.input(), limit as int, s0 as int, Some(g0), s1 as int) && self.1.accepts(ctx.input(), limit as int, s1 as int, None, *pos as int)); return None; } };
        let ghost g1 = x1;
        let s2 = *pos;
        let x2 = match self.2.parse(ctx, limit, pos) { Some(x) => x, None => { assert(self.0.accepts(ctx.input(), limit as int, s0 as int, Some(g0), s1 as int) && self.1.accepts(ctx.input(), limit as int, s1 as int, Some(g1), s2 as int) && self.2.accepts(ctx.input(), limit as int, s2 as int, None, *pos as int)); return None; } };
        let ghost g2 = x2;
        let s3 = *pos;
        let x3 = match self.3.parse(ctx, limit, pos) { Some(x) => x, None => { assert(self.0.accepts(ctx.input(), limit as int, s0 as int, Some(g0), s1 as int) && self.1.accepts(ctx.input(), limit as int, s1 as int, Some(g1), s2 as int) && self.2.accepts(ctx.input(), limit as int, s2 as int, Some(g2), s3 as int) && self.3.accepts(ctx.input(), limit as int, s3 as int, None, *pos as int)); return None; } };
        let ghost g3 = x3;
        let s4 = *pos;
        assert(self.0.accepts(ctx.input(), limit as int, s0 as int, Some(g0), s1 as int) && self.1.accepts(ctx.input(), limit as int, s1 as int, Some(g1), s2 as int) && self.2.accepts(ctx.input(), limit as int, s2 as int, Some(g2), s3 as int) && self.3.accepts(ctx.input(), limit as int, s3 as int, Some(g3), s4 as int));
        Some((x0, x1, x2, x3))
    }
}

impl<A: Parser, B: Parser, C: Parser, D: Parser, E: Parser> Parser for (A, B, C, D, E) {
    type O = (A::O, B::O, C::O, D::O, E::O);

    open spec fn well_formed(&self) -> bool {
        self.0.well_formed() && self.1.well_formed() && self.2.well_formed() && self.3.well_formed() && self.4.well_formed()
    }

    open spec fn accepts(&self, input: Seq<u8>, limit: int, pos: int, res: Option<(A::O, B::O, C::O, D::O, E::O)>, end: int) -> bool {
        if res is Some {
            seq5_ok(self.0, self.1, self.2, self.3, self.4, input, limit, pos, (res->0).0, (res->0).1, (res->0).2, (res->0).3, (res->0).4, end)
        } else {
            seq5_fails(self.0, self.1, self.2, self.3, self.4, input, limit, pos, end)
        }
    }

    fn impl_parse(&self, ctx: &Context, limit: usize, pos: &mut usize) -> (res: Option<(A::O, B::O, C::O, D::O, E::O)>) {
        let s0 = *pos;
        let x0 = match self.0.parse(ctx, limit, pos) { Some(x) => x, None => { return None; } };
        let ghost g0 = x0;
        let s1 = *pos;
        let x1 = match self.1.parse(ctx, limit, pos) { Some(x) => x, None => { assert(self.0.accepts(ctx.input(), limit as int, s0 as int, Some(g0), s1 as int) && self.1.accepts(ctx.input(), limit as int, s1 as int, None, *pos as int)); return None; } };
        let ghost g1 = x1;
        let s2 = *pos;
        let x2 = match self.2.parse(ctx, limit, pos) { Some(x) => x, None => { assert(self.0.accepts(ctx.input(), limit as int, s0 as int, Some(g0), s1 as int) && self.1.accepts(ctx.input(), limit as int, s1 as int, Some(g1), s2 as int) && self.2.accepts(ctx.input(), limit as int, s2 as int, None, *pos as int)); return None; } };
        let ghost g2 = x2;
        let s3 = *pos;
        let x3 = match self.3.parse(ctx, limit, pos) { Some(x) => x, None => { assert(self.0.accepts(ctx.input(), limit as int, s0 as int, Some(g0), s1 as int) && self.1.accepts(ctx.input(), limit as int, s1 as int, Some(g1), s2 as int) && self.2.accepts(ctx.input(), limit as int, s2 as int, Some(g2), s3 as int) && self.3.accepts(ctx.input(), limit as int, s3 as int, None, *pos as int)); return None; } };
        let ghost g3 = x3;
        let s4 = *pos;
        let x4 = match self.4.parse(ctx, limit, pos) { Some(x) => x, None => { assert(self.0.accepts(ctx.input(), limit as int, s0 as int, Some(g0), s1 as int) && self.1.accepts(ctx.input(), limit as int, s1 as int, Some(g1), s2 as int) && self.2.accepts(ctx.input(), limit as int, s2 as int, Some(g2), s3 as int) && self.3.accepts(ctx.input(), limit as int, s3 as int, Some(g3), s4 as int) && self.4.accepts(ctx.input(), limit as int, s4 as int, None, *pos as int)); return None; } };
        let ghost g4 = x4;
        let s5 = *pos;
        assert(self.0.accepts(ctx.input(), limit as int, s0 as int, Some(g0), s1 as int) && self.1.accepts(ctx.input(), limit as int, s1 as int, Some(g1), s2 as int) && self.2.accepts(ctx.input(), limit as int, s2 as int, Some(g2), s3 as int) && self.3.accepts(ctx.input(), limit as int, s3 as int, Some(g3), s4 as int) && self.4.accepts(ctx.input(), limit as int, s4 as int, Some(g4), s5 as int));
        Some((x0, x1, x2, x3, x4))
    }
}

impl<A: Parser, B: Parser, C: Parser, D: Parser, E: Parser, F: Parser> Parser for (A, B, C, D, E, F) {
    type O = (A::O, B::O, C::O, D::O, E::O, F::O);

    open spec fn well_formed(&self) -> bool {
        self.0.well_formed() && self.1.well_formed() && self.2.well_formed() && self.3.well_formed() && self.4.well_formed() && self.5.well_formed()
    }

    open spec fn accepts(&self, input: Seq<u8>, limit: int, pos: int, res: Option<(A::O, B::O, C::O, D::O, E::O, F::O)>, end: int) -> bool {
        if res is Some {
            seq6_ok(self.0, self.1, self.2, self.3, self.4, self.5, input, limit, pos, (res->0).0, (res->0).1, (res->0).2, (res->0).3, (res->0).4, (res->0).5, end)
        } else {
            seq6_fails(self.0, self.1, self.2, self.3, self.4, self.5, input, limit, pos, end)
        }
    }

    fn impl_parse(&self, ctx: &Context, limit: usize, pos: &mut usize) -> (res: Option<(A::O, B::O, C::O, D::O, E::O, F::O)>) {
        let s0 = *pos;
        let x0 = match self.0.parse(ctx, limit, pos) { Some(x) => x, None => { return None; } };
        let ghost g0 = x0;
        let s1 = *pos;
        let x1 = match self.1.parse(ctx, limit, pos) { Some(x) => x, None => { assert(self.0.accepts(ctx.input(), limit as int, s0 as int, Some(g0), s1 as int) && self.1.accepts(ctx.input(), limit as int, s1 as int, None, *pos as int)); return None; } };
        let ghost g1 = x1;
        let s2 = *pos;
        let x2 = match self.2.parse(ctx, limit, pos) { Some(x) => x, None => { assert(self.0.accepts(ctx.input(), limit as int, s0 as int, Some(g0), s1 as int) && self.1.accepts(ctx.input(), limit as int, s1 as int, Some(g1), s2 as int) && self.2.accepts(ctx.input(), limit as int, s2 as int, None, *pos as int)); return None; } };
        let ghost g2 = x2;
        let s3 = *pos;
        let x3 = match self.3.parse(ctx, limit, pos) { Some(x) => x, None => { assert(self.0.accepts(ctx.input(), limit as int, s0 as int, Some(g0), s1 as int) && self.1.accepts(ctx.input(), limit as int, s1 as int, Some(g1), s2 as int) && self.2.accepts(ctx.input(), limit as int, s2 as int, Some(g2), s3 as int) && self.3.accepts(ctx.input(), limit as int, s3 as int, None, *pos as int)); return None; } };
        let ghost g3 = x3;
        let s4 = *pos;
        let x4 = match self.4.parse(ctx, limit, pos) { Some(x) => x, None => { assert(self.0.accepts(ctx.input(), limit as int, s0 as int, Some(g0), s1 as int) && self.1.accepts(ctx.input(), limit as int, s1 as int, Some(g1), s2 as int) && self.2.accepts(ctx.input(), limit as int, s2 as int, Some(g2), s3 as int) && self.3.accepts(ctx.input(), limit as int, s3 as int, Some(g3), s4 as int) && self.4.accepts(ctx.input(), limit as int, s4 as int, None, *pos as int)); return None; } };
        let ghost g4 = x4;
        let s5 = *pos;
        let x5 = match self.5.parse(ctx, limit, pos) { Some(x) => x, None => { assert(self.0.accepts(ctx.input(), limit as int, s0 as int, Some(g0), s1 as int) && self.1.accepts(ctx.input(), limit as int, s1 as int, Some(g1), s2 as int) && self.2.accepts(ctx.input(), limit as int, s2 as int, Some(g2), s3 as int) && self.3.accepts(ctx.input(), limit as int, s3 as int, Some(g3), s4 as int) && self.4.accepts(ctx.input(), limit as int, s4 as int, Some(g4), s5 as int) && self.5.accepts(ctx.input(), limit as int, s5 as int, None, *pos as int)); return None; } };
        let ghost g5 = x5;
        let s6 = *pos;
        assert(self.0.accepts(ctx.input(), limit as int, s0 as int, Some(g0), s1 as int) && self.1.accepts(ctx.input(), limit as int, s1 as int, Some(g1), s2 as int) && self.2.accepts(ctx.input(), limit as int, s2 as int, Some(g2), s3 as int) && self.3.accepts(ctx.input(), limit as int, s3 as int, Some(g3), s4 as int) && self.4.accepts(ctx.input(), limit as int, s4 as int, Some(g4), s5 as int) && self.5.accepts(ctx.input(), limit as int, s5 as int, Some(g5), s6 as int));
        Some((x0, x1, x2, x3, x4, x5))
    }
}

impl<A: Parser, B: Parser, C: Parser, D: Parser, E: Parser, F: Parser, G: Parser> Parser for (A, B, C, D, E, F, G) {
    type O = (A::O, B::O, C::O, D::O, E::O, F::O, G::O);

    open spec fn well_formed(&self) -> bool {
        self.0.well_formed() && self.1.well_formed() && self.2.well_formed() && self.3.well_formed() && self.4.well_formed() && self.5.well_formed() && self.6.well_formed()
    }

    open spec fn accepts(&self, input: Seq<u8>, limit: int, pos: int, res: Option<(A::O, B::O, C::O, D::O, E::O, F::O, G::O)>, end: int) -> bool {
        if res is Some {
            seq7_ok(self.0, self.1, self.2, self.3, self.4, self.5, self.6, input, limit, pos, (res->0).0, (res->0).1, (res->0).2, (res->0).3, (res->0).4, (res->0).5, (res->0).6, end)
        } else {
            seq7_fails(self.0, self.1, self.2, self.3, self.4, self.5, self.6, input, limit, pos, end)
        }
    }

    fn impl_parse(&self, ctx: &Context, limit: usize, pos: &mut usize) -> (res: Option<(A::O, B::O, C::O, D::O, E::O, F::O, G::O)>) {
        let s0 = *pos;
        let x0 = match self.0.parse(ctx, limit, pos) { Some(x) => x, None => { return None; } };
        let ghost g0 = x0;
        let s1 = *pos;
        let x1 = match self.1.parse(ctx, limit, pos) { Some(x) => x, None => { assert(self.0.accepts(ctx.input(), limit as int, s0 as int, Some(g0), s1 as int) && self.1.accepts(ctx.input(), limit as int, s1 as int, None, *pos as int)); return None; } };
        let ghost g1 = x1;
        let s2 = *pos;
        let x2 = match self.2.parse(ctx, limit, pos) { Some(x) => x, None => { assert(self.0.accepts(ctx.input(), limit as int, s0 as int, Some(g0), s1 as int) && self.1.accepts(ctx.input(), limit as int, s1 as int, Some(g1), s2 as int) && self.2.accepts(ctx.input(), limit as int, s2 as int, None, *pos as int)); return None; } };
        let ghost g2 = x2;
        let s3 = *pos;
        let x3 = match self.3.parse(ctx, limit, pos) { Some(x) => x, None => { assert(self.0.accepts(ctx.input(), limit as int, s0 as int, Some(g0), s1 as int) && self.1.accepts(ctx.input(), limit as int, s1 as int, Some(g1), s2 as int) && self.2.accepts(ctx.input(), limit as int, s2 as int, Some(g2), s3 as int) && self.3.accepts(ctx.input(), limit as int, s3 as int, None, *pos as int)); return None; } };
        let ghost g3 = x3;
        let s4 = *pos;
        let x4 = match self.4.parse(ctx, limit, pos) { Some(x) => x, None => { assert(self.0.accepts(ctx.input(), limit as int, s0 as int, Some(g0), s1 as int) && self.1.accepts(ctx.input(), limit as int, s1 as int, Some(g1), s2 as int) && self.2.accepts(ctx.input(), limit as int, s2 as int, Some(g2), s3 as int) && self.3.accepts(ctx.input(), limit as int, s3 as int, Some(g3), s4 as int) && self.4.accepts(ctx.input(), limit as int, s4 as int, None, *pos as int)); return None; } };
        let ghost g4 = x4;
        let s5 = *pos;
        let x5 = match self.5.parse(ctx, limit, pos) { Some(x) => x, None => { assert(self.0.accepts(ctx.input(), limit as int, s0 as int, Some(g0), s1 as int) && self.1.accepts(ctx.input(), limit as int, s1 as int, Some(g1), s2 as int) && self.2.accepts(ctx.input(), limit as int, s2 as int, Some(g2), s3 as int) && self.3.accepts(ctx.input(), limit as int, s3 as int, Some(g3), s4 as int) && self.4.accepts(ctx.input(), limit as int, s4 as int, Some(g4), s5 as int) && self.5.accepts(ctx.input(), limit as int, s5 as int, None, *pos as int)); return None; } };
        let ghost g5 = x5;
        let s6 = *pos;
        let x6 = match self.6.parse(ctx, limit, pos) { Some(x) => x, None => { assert(self.0.accepts(ctx.input(), limit as int, s0 as int, Some(g0), s1 as int) && self.1.accepts(ctx.input(), limit as int, s1 as int, Some(g1), s2 as int) && self.2.accepts(ctx.input(), limit as int, s2 as int, Some(g2), s3 as int) && self.3.accepts(ctx.input(), limit as int, s3 as int, Some(g3), s4 as int) && self.4.accepts(ctx.input(), limit as int, s4 as int, Some(g4), s5 as int) && self.5.accepts(ctx.input(), limit as int, s5 as int, Some(g5), s6 as int) && self.6.accepts(ctx.input(), limit as int, s6 as int, None, *pos as int)); return None; } };
        let ghost g6 = x6;
        let s7 = *pos;
        assert(self.0.accepts(ctx.input(), limit as int, s0 as int, Some(g0), s1 as int) && self.1.accepts(ctx.input(), limit as int, s1 as int, Some(g1), s2 as int) && self.2.accepts(ctx.input(), limit as int, s2 as int, Some(g2), s3 as int) && self.3.accepts(ctx.input(), limit as int, s3 as int, Some(g3), s4 as int) && self.4.accepts(ctx.input(), limit as int, s4 as int, Some(g4), s5 as int) && self.5.accepts(ctx.input(), limit as int, s5 as int, Some(g5), s6 as int) && self.6.accepts(ctx.input(), limit as int, s6 as int, Some(g6), s7 as int));
        Some((x0, x1, x2, x3, x4, x5, x6))
    }
}

impl<A: Parser, B: Parser, C: Parser, D: Parser, E: Parser, F: Parser, G: Parser, H: Parser> Parser for (A, B, C, D, E, F, G, H) {
    type O = (A::O, B::O, C::O, D::O, E::O, F::O, G::O, H::O);

    open spec fn well_formed(&self) -> bool {
        self.0.well_formed() && self.1.well_formed() && self.2.well_formed() && self.3.well_formed() && self.4.well_formed() && self.5.well_formed() && self.6.well_formed() && self.7.well_formed()
    }

    open spec fn accepts(&self, input: Seq<u8>, limit: int, pos: int, res: Option<(A::O, B::O, C::O, D::O, E::O, F::O, G::O, H::O)>, end: int) -> bool {
        if res is Some {
            seq8_ok(self.0, self.1, self.2, self.3, self.4, self.5, self.6, self.7, input, limit, pos, (res->0).0, (res->0).1, (res->0).2, (res->0).3, (res->0).4, (res->0).5, (res->0).6, (res->0).7, end)
        } else {
            seq8_fails(self.0, self.1, self.2, self.3, self.4, self.5, self.6, self.7, input, limit, pos, end)
        }
    }

    fn impl_parse(&self, ctx: &Context, limit: usize, pos: &mut usize) -> (res: Option<(A::O, B::O, C::O, D::O, E::O, F::O, G::O, H::O)>) {
        let s0 = *pos;
        let x0 = match self.0.parse(ctx, limit, pos) { Some(x) => x, None => { return None; } };
        let ghost g0 = x0;
        let s1 = *pos;
        let x1 = match self.1.parse(ctx, limit, pos) { Some(x) => x, None => { assert(self.0.accepts(ctx.input(), limit as int, s0 as int, Some(g0), s1 as int) && self.1.accepts(ctx.input(), limit as int, s1 as int, None, *pos as int)); return None; } };
        let ghost g1 = x1;
        let s2 = *pos;
        let x2 = match self.2.parse(ctx, limit, pos) { Some(x) => x, None => { assert(self.0.accepts(ctx.input(), limit as int, s0 as int, Some(g0), s1 as int) && self.1.accepts(ctx.input(), limit as int, s1 as int, Some(g1), s2 as int) && self.2.accepts(ctx.input(), limit as int, s2 as int, None, *pos as int)); return None; } };
        let ghost g2 = x2;
        let s3 = *pos;
        let x3 = match self.3.parse(ctx, limit, pos) { Some(x) => x, None => { assert(self.0.accepts(ctx.input(), limit as int, s0 as int, Some(g0), s1 as int) && self.1.accepts(ctx.input(), limit as int, s1 as int, Some(g1), s2 as int) && self.2.accepts(ctx.input(), limit as int, s2 as int, Some(g2), s3 as int) && self.3.accepts(ctx.input(), limit as int, s3 as int, None, *pos as int)); return None; } };
        let ghost g3 = x3;
        let s4 = *pos;
        let x4 = match self.4.parse(ctx, limit, pos) { Some(x) => x, None => { assert(self.0.accepts(ctx.input(), limit as int, s0 as int, Some(g0), s1 as int) && self.1.accepts(ctx.input(), limit as int, s1 as int, Some(g1), s2 as int) && self.2.accepts(ctx.input(), limit as int, s2 as int, Some(g2), s3 as int) && self.3.accepts(ctx.input(), limit as int, s3 as int, Some(g3), s4 as int) && self.4.accepts(ctx.input(), limit as int, s4 as int, None, *pos as int)); return None; } };
        let ghost g4 = x4;
        let s5 = *pos;
        let x5 = match self.5.parse(ctx, limit, pos) { Some(x) => x, None => { assert(self.0.accepts(ctx.input(), limit as int, s0 as int, Some(g0), s1 as int) && self.1.accepts(ctx.input(), limit as int, s1 as int, Some(g1), s2 as int) && self.2.accepts(ctx.input(), limit as int, s2 as int, Some(g2), s3 as int) && self.3.accepts(ctx.input(), limit as int, s3 as int, Some(g3), s4 as int) && self.4.accepts(ctx.input(), limit as int, s4 as int, Some(g4), s5 as int) && self.5.accepts(ctx.input(), limit as int, s5 as int, None, *pos as int)); return None; } };
        let ghost g5 = x5;
        let s6 = *pos;
        let x6 = match self.6.parse(ctx, limit, pos) { Some(x) => x, None => { assert(self.0.accepts(ctx.input(), limit as int, s0 as int, Some(g0), s1 as int) && self.1.accepts(ctx.input(), limit as int, s1 as int, Some(g1), s2 as int) && self.2.accepts(ctx.input(), limit as int, s2 as int, Some(g2), s3 as int) && self.3.accepts(ctx.input(), limit as int, s3 as int, Some(g3), s4 as int) && self.4.accepts(ctx.input(), limit as int, s4 as int, Some(g4), s5 as int) && self.5.accepts(ctx.input(), limit as int, s5 as int, Some(g5), s6 as int) && self.6.accepts(ctx.input(), limit as int, s6 as int, None, *pos as int)); return None; } };
        let ghost g6 = x6;
        let s7 = *pos;
        let x7 = match self.7.parse(ctx, limit, pos) { Some(x) => x, None => { assert(self.0.accepts(ctx.input(), limit as int, s0 as int, Some(g0), s1 as int) && self.1.accepts(ctx.input(), limit as int, s1 as int, Some(g1), s2 as int) && self.2.accepts(ctx.input(), limit as int, s2 as int, Some(g2), s3 as int) && self.3.accepts(ctx.input(), limit as int, s3 as int, Some(g3), s4 as int) && self.4.accepts(ctx.input(), limit as int, s4 as int, Some(g4), s5 as int) && self.5.accepts(ctx.input(), limit as int, s5 as int, Some(g5), s6 as int) && self.6.accepts(ctx.input(), limit as int, s6 as int, Some(g6), s7 as int) && self.7.accepts(ctx.input(), limit as int, s7 as int, None, *pos as int)); return None; } };
        let ghost g7 = x7;
        let s8 = *pos;
        assert(self.0.accepts(ctx.input(), limit as int, s0 as int, Some(g0), s1 as int) && self.1.accepts(ctx.input(), limit as int, s1 as int, Some(g1), s2 as int) && self.2.accepts(ctx.input(), limit as int, s2 as int, Some(g2), s3 as int) && self.3.accepts(ctx.input(), limit as int, s3 as int, Some(g3), s4 as int) && self.4.accepts(ctx.input(), limit as int, s4 as int, Some(g4), s5 as int) && self.5.accepts(ctx.input(), limit as int, s5 as int, Some(g5), s6 as int) && self.6.accepts(ctx.input(), limit as int, s6 as int, Some(g6), s7 as int) && self.7.accepts(ctx.input(), limit as int, s7 as int, Some(g7), s8 as int));
        Some((x0, x1, x2, x3, x4, x5, x6, x7))
    }
}

impl<A: Parser, B: Parser, C: Parser, D: Parser, E: Parser, F: Parser, G: Parser, H: Parser, I: Parser> Parser for (A, B, C, D, E, F, G, H, I) {
    type O = (A::O, B::O, C::O, D::O, E::O, F::O, G::O, H::O, I::O);

    open spec fn well_formed(&self) -> bool {
        self.0.well_formed() && self.1.well_formed() && self.2.well_formed() && self.3.well_formed() && self.4.well_formed() && self.5.well_formed() && self.6.well_formed() && self.7.well_formed() && self.8.well_formed()
    }

    open spec fn accepts(&self, input: Seq<u8>, limit: int, pos: int, res: Option<(A::O, B::O, C::O, D::O, E::O, F::O, G::O, H::O, I::O)>, end: int) -> bool {
        if res is Some {
            seq9_ok(self.0, self.1, self.2, self.3, self.4, self.5, self.6, self.7, self.8, input, limit, pos, (res->0).0, (res->0).1, (res->0).2, (res->0).3, (res->0).4, (res->0).5, (res->0).6, (res->0).7, (res->0).8, end)
        } else {
            seq9_fails(self.0, self.1, self.2, self.3, self.4, self.5, self.6, self.7, self.8, input, limit, pos, end)
        }
    }

    fn impl_parse(&self, ctx: &Context, limit: usize, pos: &mut usize) -> (res: Option<(A::O, B::O, C::O, D::O, E::O, F::O, G::O, H::O, I::O)>) {
        let s0 = *pos;
        let x0 = match self.0.parse(ctx, limit, pos) { Some(x) => x, None => { return None; } };
        let ghost g0 = x0;
        let s1 = *pos;
        let x1 = match self.1.parse(ctx, limit, pos) { Some(x) => x, None => { assert(self.0.accepts(ctx.input(), limit as int, s0 as int, Some(g0), s1 as int) && self.1.accepts(ctx.input(), limit as int, s1 as int, None, *pos as int)); return None; } };
        let ghost g1 = x1;
        let s2 = *pos;
        let x2 = match self.2.parse(ctx, limit, pos) { Some(x) => x, None => { assert(self.0.accepts(ctx.input(), limit as int, s0 as int, Some(g0), s1 as int) && self.1.accepts(ctx.input(), limit as int, s1 as int, Some(g1), s2 as int) && self.2.accepts(ctx.input(), limit as int, s2 as int, None, *pos as int)); return None; } };
        let ghost g2 = x2;
        let s3 = *pos;
        let x3 = match self.3.parse(ctx, limit, pos) { Some(x) => x, None => { assert(self.0.accepts(ctx.input(), limit as int, s0 as int, Some(g0), s1 as int) && self.1.accepts(ctx.input(), limit as int, s1 as int, Some(g1), s2 as int) && self.2.accepts(ctx.input(), limit as int, s2 as int, Some(g2), s3 as int) && self.3.accepts(ctx.input(), limit as int, s3 as int, None, *pos as int)); return None; } };
        let ghost g3 = x3;
        let s4 = *pos;
        let x4 = match self.4.parse(ctx, limit, pos) { Some(x) => x, None => { assert(self.0.accepts(ctx.input(), limit as int, s0 as int, Some(g0), s1 as int) && self.1.accepts(ctx.input(), limit as int, s1 as int, Some(g1), s2 as int) && self.2.accepts(ctx.input(), limit as int, s2 as int, Some(g2), s3 as int) && self.3.accepts(ctx.input(), limit as int, s3 as int, Some(g3), s4 as int) && self.4.accepts(ctx.input(), limit as int, s4 as int, None, *pos as int)); return None; } };
        let ghost g4 = x4;
        let s5 = *pos;
        let x5 = match self.5.parse(ctx, limit, pos) { Some(x) => x, None => { assert(self.0.accepts(ctx.input(), limit as int, s0 as int, Some(g0), s1 as int) && self.1.accepts(ctx.input(), limit as int, s1 as int, Some(g1), s2 as int) && self.2.accepts(ctx.input(), limit as int, s2 as int, Some(g2), s3 as int) && self.3.accepts(ctx.input(), limit as int, s3 as int, Some(g3), s4 as int) && self.4.accepts(ctx.input(), limit as int, s4 as int, Some(g4), s5 as int) && self.5.accepts(ctx.input(), limit as int, s5 as int, None, *pos as int)); return None; } };
        let ghost g5 = x5;
        let s6 = *pos;
        let x6 = match self.6.parse(ctx, limit, pos) { Some(x) => x, None => { assert(self.0.accepts(ctx.input(), limit as int, s0 as int, Some(g0), s1 as int) && self.1.accepts(ctx.input(), limit as int, s1 as int, Some(g1), s2 as int) && self.2.accepts(ctx.input(), limit as int, s2 as int, Some(g2), s3 as int) && self.3.accepts(ctx.input(), limit as int, s3 as int, Some(g3), s4 as int) && self.4.accepts(ctx.input(), limit as int, s4 as int, Some(g4), s5 as int) && self.5.accepts(ctx.input(), limit as int, s5 as int, Some(g5), s6 as int) && self.6.accepts(ctx.input(), limit as int, s6 as int, None, *pos as int)); return None; } };
        let ghost g6 = x6;
        let s7 = *pos;
        let x7 = match self.7.parse(ctx, limit, pos) { Some(x) => x, None => { assert(self.0.accepts(ctx.input(), limit as int, s0 as int, Some(g0), s1 as int) && self.1.accepts(ctx.input(), limit as int, s1 as int, Some(g1), s2 as int) && self.2.accepts(ctx.input(), limit as int, s2 as int, Some(g2), s3 as int) && self.3.accepts(ctx.input(), limit as int, s3 as int, Some(g3), s4 as int) && self.4.accepts(ctx.input(), limit as int, s4 as int, Some(g4), s5 as int) && self.5.accepts(ctx.input(), limit as int, s5 as int, Some(g5), s6 as int) && self.6.accepts(ctx.input(), limit as int, s6 as int, Some(g6), s7 as int) && self.7.accepts(ctx.input(), limit as int, s7 as int, None, *pos as int)); return None; } };
        let ghost g7 = x7;
        let s8 = *pos;
        let x8 = match self.8.parse(ctx, limit, pos) { Some(x) => x, None => { assert(self.0.accepts(ctx.input(), limit as int, s0 as int, Some(g0), s1 as int) && self.1.accepts(ctx.input(), limit as int, s1 as int, Some(g1), s2 as int) && self.2.accepts(ctx.input(), limit as int, s2 as int, Some(g2), s3 as int) && self.3.accepts(ctx.input(), limit as int, s3 as int, Some(g3), s4 as int) && self.4.accepts(ctx.input(), limit as int, s4 as int, Some(g4), s5 as int) && self.5.accepts(ctx.input(), limit as int, s5 as int, Some(g5), s6 as int) && self.6.accepts(ctx.input(), limit as int, s6 as int, Some(g6), s7 as int) && self.7.accepts(ctx.input(), limit as int, s7 as int, Some(g7), s8 as int) && self.8.accepts(ctx.input(), limit as int, s8 as int, None, *pos as int)); return None; } };
        let ghost g8 = x8;
        let s9 = *pos;
        assert(self.0.accepts(ctx.input(), limit as int, s0 as int, Some(g0), s1 as int) && self.1.accepts(ctx.input(), limit as int, s1 as int, Some(g1), s2 as int) && self.2.accepts(ctx.input(), limit as int, s2 as int, Some(g2), s3 as int) && self.3.accepts(ctx.input(), limit as int, s3 as int, Some(g3), s4 as int) && self.4.accepts(ctx.input(), limit as int, s4 as int, Some(g4), s5 as int) && self.5.accepts(ctx.input(), limit as int, s5 as int, Some(g5), s6 as int) && self.6.accepts(ctx.input(), limit as int, s6 as int, Some(g6), s7 as int) && self.7.accepts(ctx.input(), limit as int, s7 as int, Some(g7), s8 as int) && self.8.accepts(ctx.input(), limit as int, s8 as int, Some(g8), s9 as int));
        Some((x0, x1, x2, x3, x4, x5, x6, x7, x8))
    }
}

/// Tries each parser of the tuple in turn from the same start; the first success wins.
#[derive(Copy, Clone)]
pub struct Alt<T>(pub T);

impl<T, A: Parser<O = T>> Parser for Alt<(A,)> {
    type O = T;

    open spec fn well_formed(&self) -> bool {
        self.0.0.well_formed()
    }

    open spec fn accepts(&self, input: Seq<u8>, limit: int, pos: int, res: Option<T>, end: int) -> bool {
        match res {
            Some(r) => (self.0.0.accepts(input, limit, pos, Some(r), end)),
            None => end == pos && can_fail(self.0.0, input, limit, pos),
        }
    }

    fn impl_parse(&self, ctx: &Context, limit: usize, pos: &mut usize) -> (res: Option<T>) {
        let reset = *pos;
        let r0 = self.0.0.parse(ctx, limit, pos);
        if let Some(v) = r0 { return Some(v); }
        assert(self.0.0.accepts(ctx.input(), limit as int, reset as int, None, *pos as int));
        *pos = reset;
        None
    }
}

impl<T, A: Parser<O = T>, B: Parser<O = T>> Parser for Alt<(A, B)> {
    type O = T;

    open spec fn well_formed(&self) -> bool {
        self.0.0.well_formed() && self.0.1.well_formed()
    }

    open spec fn accepts(&self, input: Seq<u8>, limit: int, pos: int, res: Option<T>, end: int) -> bool {
        match res {
            Some(r) => (self.0.0.accepts(input, limit, pos, Some(r), end))
                || (can_fail(self.0.0, input, limit, pos) && self.0.1.accepts(input, limit, pos, Some(r), end)),
            None => end == pos && can_fail(self.0.0, input, limit, pos) && can_fail(self.0.1, input, limit, pos),
        }
    }

    fn impl_parse(&self, ctx: &Context, limit: usize, pos: &mut usize) -> (res: Option<T>) {
        let reset = *pos;
        let r0 = self.0.0.parse(ctx, limit, pos);
        if let Some(v) = r0 { return Some(v); }
        assert(self.0.0.accepts(ctx.input(), limit as int, reset as int, None, *pos as int));
        *pos = reset;
        let r1 = self.0.1.parse(ctx, limit, pos);
        if let Some(v) = r1 { return Some(v); }
        assert(self.0.1.accepts(ctx.input(), limit as int, reset as int, None, *pos as int));
        *pos = reset;
        None
    }
}

impl<T, A: Parser<O = T>, B: Parser<O = T>, C: Parser<O = T>> Parser for Alt<(A, B, C)> {
    type O = T;

    open spec fn well_formed(&self) -> bool {
        self.0.0.well_formed() && self.0.1.well_formed() && self.0.2.well_formed()
    }

    open spec fn accepts(&self, input: Seq<u8>, limit: int, pos: int, res: Option<T>, end: int) -> bool {
        match res {
            Some(r) => (self.0.0.accepts(input, limit, pos, Some(r), end))
                || (can_fail(self.0.0, input, limit, pos) && self.0.1.accepts(input, limit, pos, Some(r), end))
                || (can_fail(self.0.0, input, limit, pos) && can_fail(self.0.1, input, limit, pos) && self.0.2.accepts(input, limit, pos, Some(r), end)),
            None => end == pos && can_fail(self.0.0, input, limit, pos) && can_fail(self.0.1, input, limit, pos) && can_fail(self.0.2, input, limit, pos),
        }
    }

    fn impl_parse(&self, ctx: &Context, limit: usize, pos: &mut usize) -> (res: Option<T>) {
        let reset = *pos;
        let r0 = self.0.0.parse(ctx, limit, pos);
        if let Some(v) = r0 { return Some(v); }
        assert(self.0.0.accepts(ctx.input(), limit as int, reset as int, None, *pos as int));
        *pos = reset;
        let r1 = self.0.1.parse(ctx, limit, pos);
        if let Some(v) = r1 { return Some(v); }
        assert(self.0.1.accepts(ctx.input(), limit as int, reset as int, None, *pos as int));
        *pos = reset;
        let r2 = self.0.2.parse(ctx, limit, pos);
        if let Some(v) = r2 { return Some(v); }
        assert(self.0.2.accepts(ctx.input(), limit as int, reset as int, None, *pos as int));
        *pos = reset;
        None
    }
}

impl<T, A: Parser<O = T>, B: Parser<O = T>, C: Parser<O = T>, D: Parser<O = T>> Parser for Alt<(A, B, C, D)> {
    type O = T;

    open spec fn well_formed(&self) -> bool {
        self.0.0.well_formed() && self.0.1.well_formed() && self.0.2.well_formed() && self.0.3.well_formed()
    }

    open spec fn accepts(&self, input: Seq<u8>, limit: int, pos: int, res: Option<T>, end: int) -> bool {
        match res {
            Some(r) => (self.0.0.accepts(input, limit, pos, Some(r), end))
                || (can_fail(self.0.0, input, limit, pos) && self.0.1.accepts(input, limit, pos, Some(r), end))
                || (can_fail(self.0.0, input, limit, pos) && can_fail(self.0.1, input, limit, pos) && self.0.2.accepts(input, limit, pos, Some(r), end))
                || (can_fail(self.0.0, input, limit, pos) && can_fail(self.0.1, input, limit, pos) && can_fail(self.0.2, input, limit, pos) && self.0.3.accepts(input, limit, pos, Some(r), end)),
            None => end == pos && can_fail(self.0.0, input, limit, pos) && can_fail(self.0.1, input, limit, pos) && can_fail(self.0.2, input, limit, pos) && can_fail(self.0.3, input, limit, pos),
        }
    }

    fn impl_parse(&self, ctx: &Context, limit: usize, pos: &mut usize) -> (res: Option<T>) {
        let reset = *pos;
        let r0 = self.0.0.parse(ctx, limit, pos);
        if let Some(v) = r0 { return Some(v); }
        assert(self.0.0.accepts(ctx.input(), limit as int, reset as int, None, *pos as int));
        *pos = reset;
        let r1 = self.0.1.parse(ctx, limit, pos);
        if let Some(v) = r1 { return Some(v); }
        assert(self.0.1.accepts(ctx.input(), limit as int, reset as int, None, *pos as int));
        *pos = reset;
        let r2 = self.0.2.parse(ctx, limit, pos);
        if let Some(v) = r2 { return Some(v); }
        assert(self.0.2.accepts(ctx.input(), limit as int, reset as int, None, *pos as int));
        *pos = reset;
        let r3 = self.0.3.parse(ctx, limit, pos);
        if let Some(v) = r3 { return Some(v); }
        assert(self.0.3.accepts(ctx.input(), limit as int, reset as int, None, *pos as int));
        *pos = reset;
        None
    }
}

impl<T, A: Parser<O = T>, B: Parser<O = T>, C: Parser<O = T>, D: Parser<O = T>, E: Parser<O = T>> Parser for Alt<(A, B, C, D, E)> {
    type O = T;

    open spec fn well_formed(&self) -> bool {
        self.0.0.well_formed() && self.0.1.well_formed() && self.0.2.well_formed() && self.0.3.well_formed() && self.0.4.well_formed()
    }

    open spec fn accepts(&self, input: Seq<u8>, limit: int, pos: int, res: Option<T>, end: int) -> bool {
        match res {
            Some(r) => (self.0.0.accepts(input, limit, pos, Some(r), end))
                || (can_fail(self.0.0, input, limit, pos) && self.0.1.accepts(input, limit, pos, Some(r), end))
                || (can_fail(self.0.0, input, limit, pos) && can_fail(self.0.1, input, limit, pos) && self.0.2.accepts(input, limit, pos, Some(r), end))
                || (can_fail(self.0.0, input, limit, pos) && can_fail(self.0.1, input, limit, pos) && can_fail(self.0.2, input, limit, pos) && self.0.3.accepts(input, limit, pos, Some(r), end))
                || (can_fail(self.0.0, input, limit, pos) && can_fail(self.0.1, input, limit, pos) && can_fail(self.0.2, input, limit, pos) && can_fail(self.0.3, input, limit, pos) && self.0.4.accepts(input, limit, pos, Some(r), end)),
            None => end == pos && can_fail(self.0.0, input, limit, pos) && can_fail(self.0.1, input, limit, pos) && can_fail(self.0.2, input, limit, pos) && can_fail(self.0.3, input, limit, pos) && can_fail(self.0.4, input, limit, pos),
        }
    }

    fn impl_parse(&self, ctx: &Context, limit: usize, pos: &mut usize) -> (res: Option<T>) {
        let reset = *pos;
        let r0 = self.0.0.parse(ctx, limit, pos);
        if let Some(v) = r0 { return Some(v); }
        assert(self.0.0.accepts(ctx.input(), limit as int, reset as int, None, *pos as int));
        *pos = reset;
        let r1 = self.0.1.parse(ctx, limit, pos);
        if let Some(v) = r1 { return Some(v); }
        assert(self.0.1.accepts(ctx.input(), limit as int, reset as int, None, *pos as int));
        *pos = reset;
        let r2 = self.0.2.parse(ctx, limit, pos);
        if let Some(v) = r2 { return Some(v); }
        assert(self.0.2.accepts(ctx.input(), limit as int, reset as int, None, *pos as int));
        *pos = reset;
        let r3 = self.0.3.parse(ctx, limit, pos);
        if let Some(v) = r3 { return Some(v); }
        assert(self.0.3.accepts(ctx.input(), limit as int, reset as int, None, *pos as int));
        *pos = reset;
        let r4 = self.0.4.parse(ctx, limit, pos);
        if let Some(v) = r4 { return Some(v); }
        assert(self.0.4.accepts(ctx.input(), limit as int, reset as int, None, *pos as int));
        *pos = reset;
        None
    }
}

impl<T, A: Parser<O = T>, B: Parser<O = T>, C: Parser<O = T>, D: Parser<O = T>, E: Parser<O = T>, F: Parser<O = T>> Parser for Alt<(A, B, C, D, E, F)> {
    type O = T;

    open spec fn well_formed(&self) -> bool {
        self.0.0.well_formed() && self.0.1.well_formed() && self.0.2.well_formed() && self.0.3.well_formed() && self.0.4.well_formed() && self.0.5.well_formed()
    }

    open spec fn accepts(&self, input: Seq<u8>, limit: int, pos: int, res: Option<T>, end: int) -> bool {
        match res {
            Some(r) => (self.0.0.accepts(input, limit, pos, Some(r), end))
                || (can_fail(self.0.0, input, limit, pos) && self.0.1.accepts(input, limit, pos, Some(r), end))
                || (can_fail(self.0.0, input, limit, pos) && can_fail(self.0.1, input, limit, pos) && self.0.2.accepts(input, limit, pos, Some(r), end))
                || (can_fail(self.0.0, input, limit, pos) && can_fail(self.0.1, input, limit, pos) && can_fail(self.0.2, input, limit, pos) && self.0.3.accepts(input, limit, pos, Some(r), end))
                || (can_fail(self.0.0, input, limit, pos) && can_fail(self.0.1, input, limit, pos) && can_fail(self.0.2, input, limit, pos) && can_fail(self.0.3, input, limit, pos) && self.0.4.accepts(input, limit, pos, Some(r), end))
                || (can_fail(self.0.0, input, limit, pos) && can_fail(self.0.1, input, limit, pos) && can_fail(self.0.2, input, limit, pos) && can_fail(self.0.3, input, limit, pos) && can_fail(self.0.4, input, limit, pos) && self.0.5.accepts(input, limit, pos, Some(r), end)),
            None => end == pos && can_fail(self.0.0, input, limit, pos) && can_fail(self.0.1, input, limit, pos) && can_fail(self.0.2, input, limit, pos) && can_fail(self.0.3, input, limit, pos) && can_fail(self.0.4, input, limit, pos) && can_fail(self.0.5, input, limit, pos),
        }
    }

    fn impl_parse(&self, ctx: &Context, limit: usize, pos: &mut usize) -> (res: Option<T>) {
        let reset = *pos;
        let r0 = self.0.0.parse(ctx, limit, pos);
        if let Some(v) = r0 { return Some(v); }
        assert(self.0.0.accepts(ctx.input(), limit as int, reset as int, None, *pos as int));
        *pos = reset;
        let r1 = self.0.1.parse(ctx, limit, pos);
        if let Some(v) = r1 { return Some(v); }
        assert(self.0.1.accepts(ctx.input(), limit as int, reset as int, None, *pos as int));
        *pos = reset;
        let r2 = self.0.2.parse(ctx, limit, pos);
        if let Some(v) = r2 { return Some(v); }
        assert(self.0.2.accepts(ctx.input(), limit as int, reset as int, None, *pos as int));
        *pos = reset;
        let r3 = self.0.3.parse(ctx, limit, pos);
        if let Some(v) = r3 { return Some(v); }
        assert(self.0.3.accepts(ctx.input(), limit as int, reset as int, None, *pos as int));
        *pos = reset;
        let r4 = self.0.4.parse(ctx, limit, pos);
        if let Some(v) = r4 { return Some(v); }
        assert(self.0.4.accepts(ctx.input(), limit as int, reset as int, None, *pos as int));
        *pos = reset;
        let r5 = self.0.5.parse(ctx, limit, pos);
        if let Some(v) = r5 { return Some(v); }
        assert(self.0.5.accepts(ctx.input(), limit as int, reset as int, None, *pos as int));
        *pos = reset;
        None
    }
}

impl<T, A: Parser<O = T>, B: Parser<O = T>, C: Parser<O = T>, D: Parser<O = T>, E: Parser<O = T>, F: Parser<O = T>, G: Parser<O = T>> Parser for Alt<(A, B, C, D, E, F, G)> {
    type O = T;

    open spec fn well_formed(&self) -> bool {
        self.0.0.well_formed() && self.0.1.well_formed() && self.0.2.well_formed() && self.0.3.well_formed() && self.0.4.well_formed() && self.0.5.well_formed() && self.0.6.well_formed()
    }

    open spec fn accepts(&self, input: Seq<u8>, limit: int, pos: int, res: Option<T>, end: int) -> bool {
        match res {
            Some(r) => (self.0.0.accepts(input, limit, pos, Some(r), end))
                || (can_fail(self.0.0, input, limit, pos) && self.0.1.accepts(input, limit, pos, Some(r), end))
                || (can_fail(self.0.0, input, limit, pos) && can_fail(self.0.1, input, limit, pos) && self.0.2.accepts(input, limit, pos, Some(r), end))
                || (can_fail(self.0.0, input, limit, pos) && can_fail(self.0.1, input, limit, pos) && can_fail(self.0.2, input, limit, pos) && self.0.3.accepts(input, limit, pos, Some(r), end))
                || (can_fail(self.0.0, input, limit, pos) && can_fail(self.0.1, input, limit, pos) && can_fail(self.0.2, input, limit, pos) && can_fail(self.0.3, input, limit, pos) && self.0.4.accepts(input, limit, pos, Some(r), end))
                || (can_fail(self.0.0, input, limit, pos) && can_fail(self.0.1, input, limit, pos) && can_fail(self.0.2, input, limit, pos) && can_fail(self.0.3, input, limit, pos) && can_fail(self.0.4, input, limit, pos) && self.0.5.accepts(input, limit, pos, Some(r), end))
                || (can_fail(self.0.0, input, limit, pos) && can_fail(self.0.1, input, limit, pos) && can_fail(self.0.2, input, limit, pos) && can_fail(self.0.3, input, limit, pos) && can_fail(self.0.4, input, limit, pos) && can_fail(self.0.5, input, limit, pos) && self.0.6.accepts(input, limit, pos, Some(r), end)),
            None => end == pos && can_fail(self.0.0, input, limit, pos) && can_fail(self.0.1, input, limit, pos) && can_fail(self.0.2, input, limit, pos) && can_fail(self.0.3, input, limit, pos) && can_fail(self.0.4, input, limit, pos) && can_fail(self.0.5, input, limit, pos) && can_fail(self.0.6, input, limit, pos),
        }
    }

    fn impl_parse(&self, ctx: &Context, limit: usize, pos: &mut usize) -> (res: Option<T>) {
        let reset = *pos;
        let r0 = self.0.0.parse(ctx, limit, pos);
        if let Some(v) = r0 { return Some(v); }
        assert(self.0.0.accepts(ctx.input(), limit as int, reset as int, None, *pos as int));
        *pos = reset;
        let r1 = self.0.1.parse(ctx, limit, pos);
        if let Some(v) = r1 { return Some(v); }
        assert(self.0.1.accepts(ctx.input(), limit as int, reset as int, None, *pos as int));
        *pos = reset;
        let r2 = self.0.2.parse(ctx, limit, pos);
        if let Some(v) = r2 { return Some(v); }
        assert(self.0.2.accepts(ctx.input(), limit as int, reset as int, None, *pos as int));
        *pos = reset;
        let r3 = self.0.3.parse(ctx, limit, pos);
        if let Some(v) = r3 { return Some(v); }
        assert(self.0.3.accepts(ctx.input(), limit as int, reset as int, None, *pos as int));
        *pos = reset;
        let r4 = self.0.4.parse(ctx, limit, pos);
        if let Some(v) = r4 { return Some(v); }
        assert(self.0.4.accepts(ctx.input(), limit as int, reset as int, None, *pos as int));
        *pos = reset;
        let r5 = self.0.5.parse(ctx, limit, pos);
        if let Some(v) = r5 { return Some(v); }
        assert(self.0.5.accepts(ctx.input(), limit as int, reset as int, None, *pos as int));
        *pos = reset;
        let r6 = self.0.6.parse(ctx, limit, pos);
        if let Some(v) = r6 { return Some(v); }
        assert(self.0.6.accepts(ctx.input(), limit as int, reset as int, None, *pos as int));
        *pos = reset;
        None
    }
}

impl<T, A: Parser<O = T>, B: Parser<O = T>, C: Parser<O = T>, D: Parser<O = T>, E: Parser<O = T>, F: Parser<O = T>, G: Parser<O = T>, H: Parser<O = T>> Parser for Alt<(A, B, C, D, E, F, G, H)> {
    type O = T;

    open spec fn well_formed(&self) -> bool {
        self.0.0.well_formed() && self.0.1.well_formed() && self.0.2.well_formed() && self.0.3.well_formed() && self.0.4.well_formed() && self.0.5.well_formed() && self.0.6.well_formed() && self.0.7.well_formed()
    }

    open spec fn accepts(&self, input: Seq<u8>, limit: int, pos: int, res: Option<T>, end: int) -> bool {
        match res {
            Some(r) => (self.0.0.accepts(input, limit, pos, Some(r), end))
                || (can_fail(self.0.0, input, limit, pos) && self.0.1.accepts(input, limit, pos, Some(r), end))
                || (can_fail(self.0.0, input, limit, pos) && can_fail(self.0.1, input, limit, pos) && self.0.2.accepts(input, limit, pos, Some(r), end))
                || (can_fail(self.0.0, input, limit, pos) && can_fail(self.0.1, input, limit, pos) && can_fail(self.0.2, input, limit, pos) && self.0.3.accepts(input, limit, pos, Some(r), end))
                || (can_fail(self.0.0, input, limit, pos) && can_fail(self.0.1, input, limit, pos) && can_fail(self.0.2, input, limit, pos) && can_fail(self.0.3, input, limit, pos) && self.0.4.accepts(input, limit, pos, Some(r), end))
                || (can_fail(self.0.0, input, limit, pos) && can_fail(self.0.1, input, limit, pos) && can_fail(self.0.2, input, limit, pos) && can_fail(self.0.3, input, limit, pos) && can_fail(self.0.4, input, limit, pos) && self.0.5.accepts(input, limit, pos, Some(r), end))
                || (can_fail(self.0.0, input, limit, pos) && can_fail(self.0.1, input, limit, pos) && can_fail(self.0.2, input, limit, pos) && can_fail(self.0.3, input, limit, pos) && can_fail(self.0.4, input, limit, pos) && can_fail(self.0.5, input, limit, pos) && self.0.6.accepts(input, limit, pos, Some(r), end))
                || (can_fail(self.0.0, input, limit, pos) && can_fail(self.0.1, input, limit, pos) && can_fail(self.0.2, input, limit, pos) && can_fail(self.0.3, input, limit, pos) && can_fail(self.0.4, input, limit, pos) && can_fail(self.0.5, input, limit, pos) && can_fail(self.0.6, input, limit, pos) && self.0.7.accepts(input, limit, pos, Some(r), end)),
            None => end == pos && can_fail(self.0.0, input, limit, pos) && can_fail(self.0.1, input, limit, pos) && can_fail(self.0.2, input, limit, pos) && can_fail(self.0.3, input, limit, pos) && can_fail(self.0.4, input, limit, pos) && can_fail(self.0.5, input, limit, pos) && can_fail(self.0.6, input, limit, pos) && can_fail(self.0.7, input, limit, pos),
        }
    }

    fn impl_parse(&self, ctx: &Context, limit: usize, pos: &mut usize) -> (res: Option<T>) {
        let reset = *pos;
        let r0 = self.0.0.parse(ctx, limit, pos);
        if let Some(v) = r0 { return Some(v); }
        assert(self.0.0.accepts(ctx.input(), limit as int, reset as int, None, *pos as int));
        *pos = reset;
        let r1 = self.0.1.parse(ctx, limit, pos);
        if let Some(v) = r1 { return Some(v); }
        assert(self.0.1.accepts(ctx.input(), limit as int, reset as int, None, *pos as int));
        *pos = reset;
        let r2 = self.0.2.parse(ctx, limit, pos);
        if let Some(v) = r2 { return Some(v); }
        assert(self.0.2.accepts(ctx.input(), limit as int, reset as int, None, *pos as int));
        *pos = reset;
        let r3 = self.0.3.parse(ctx, limit, pos);
        if let Some(v) = r3 { return Some(v); }
        assert(self.0.3.accepts(ctx.input(), limit as int, reset as int, None, *pos as int));
        *pos = reset;
        let r4 = self.0.4.parse(ctx, limit, pos);
        if let Some(v) = r4 { return Some(v); }
        assert(self.0.4.accepts(ctx.input(), limit as int, reset as int, None, *pos as int));
        *pos = reset;
        let r5 = self.0.5.parse(ctx, limit, pos);
        if let Some(v) = r5 { return Some(v); }
        assert(self.0.5.accepts(ctx.input(), limit as int, reset as int, None, *pos as int));
        *pos = reset;
        let r6 = self.0.6.parse(ctx, limit, pos);
        if let Some(v) = r6 { return Some(v); }
        assert(self.0.6.accepts(ctx.input(), limit as int, reset as int, None, *pos as int));
        *pos = reset;
        let r7 = self.0.7.parse(ctx, limit, pos);
        if let Some(v) = r7 { return Some(v); }
        assert(self.0.7.accepts(ctx.input(), limit as int, reset as int, None, *pos as int));
        *pos = reset;
        None
    }
}

impl<T, A: Parser<O = T>, B: Parser<O = T>, C: Parser<O = T>, D: Parser<O = T>, E: Parser<O = T>, F: Parser<O = T>, G: Parser<O = T>, H: Parser<O = T>, I: Parser<O = T>> Parser for Alt<(A, B, C, D, E, F, G, H, I)> {
    type O = T;

    open spec fn well_formed(&self) -> bool {
        self.0.0.well_formed() && self.0.1.well_formed() && self.0.2.well_formed() && self.0.3.well_formed() && self.0.4.well_formed() && self.0.5.well_formed() && self.0.6.well_formed() && self.0.7.well_formed() && self.0.8.well_formed()
    }

    open spec fn accepts(&self, input: Seq<u8>, limit: int, pos: int, res: Option<T>, end: int) -> bool {
        match res {
            Some(r) => (self.0.0.accepts(input, limit, pos, Some(r), end))
                || (can_fail(self.0.0, input, limit, pos) && self.0.1.accepts(input, limit, pos, Some(r), end))
                || (can_fail(self.0.0, input, limit, pos) && can_fail(self.0.1, input, limit, pos) && self.0.2.accepts(input, limit, pos, Some(r), end))
                || (can_fail(self.0.0, input, limit, pos) && can_fail(self.0.1, input, limit, pos) && can_fail(self.0.2, input, limit, pos) && self.0.3.accepts(input, limit, pos, Some(r), end))
                || (can_fail(self.0.0, input, limit, pos) && can_fail(self.0.1, input, limit, pos) && can_fail(self.0.2, input, limit, pos) && can_fail(self.0.3, input, limit, pos) && self.0.4.accepts(input, limit, pos, Some(r), end))
                || (can_fail(self.0.0, input, limit, pos) && can_fail(self.0.1, input, limit, pos) && can_fail(self.0.2, input, limit, pos) && can_fail(self.0.3, input, limit, pos) && can_fail(self.0.4, input, limit, pos) && self.0.5.accepts(input, limit, pos, Some(r), end))
                || (can_fail(self.0.0, input, limit, pos) && can_fail(self.0.1, input, limit, pos) && can_fail(self.0.2, input, limit, pos) && can_fail(self.0.3, input, limit, pos) && can_fail(self.0.4, input, limit, pos) && can_fail(self.0.5, input, limit, pos) && self.0.6.accepts(input, limit, pos, Some(r), end))
                || (can_fail(self.0.0, input, limit, pos) && can_fail(self.0.1, input, limit, pos) && can_fail(self.0.2, input, limit, pos) && can_fail(self.0.3, input, limit, pos) && can_fail(self.0.4, input, limit, pos) && can_fail(self.0.5, input, limit, pos) && can_fail(self.0.6, input, limit, pos) && self.0.7.accepts(input, limit, pos, Some(r), end))
                || (can_fail(self.0.0, input, limit, pos) && can_fail(self.0.1, input, limit, pos) && can_fail(self.0.2, input, limit, pos) && can_fail(self.0.3, input, limit, pos) && can_fail(self.0.4, input, limit, pos) && can_fail(self.0.5, input, limit, pos) && can_fail(self.0.6, input, limit, pos) && can_fail(self.0.7, input, limit, pos) && self.0.8.accepts(input, limit, pos, Some(r), end)),
            None => end == pos && can_fail(self.0.0, input, limit, pos) && can_fail(self.0.1, input, limit, pos) && can_fail(self.0.2, input, limit, pos) && can_fail(self.0.3, input, limit, pos) && can_fail(self.0.4, input, limit, pos) && can_fail(self.0.5, input, limit, pos) && can_fail(self.0.6, input, limit, pos) && can_fail(self.0.7, input, limit, pos) && can_fail(self.0.8, input, limit, pos),
        }
    }

    fn impl_parse(&self, ctx: &Context, limit: usize, pos: &mut usize) -> (res: Option<T>) {
        let reset = *pos;
        let r0 = self.0.0.parse(ctx, limit, pos);
        if let Some(v) = r0 { return Some(v); }
        assert(self.0.0.accepts(ctx.input(), limit as int, reset as int, None, *pos as int));
        *pos = reset;
        let r1 = self.0.1.parse(ctx, limit, pos);
        if let Some(v) = r1 { return Some(v); }
        assert(self.0.1.accepts(ctx.input(), limit as int, reset as int, None, *pos as int));
        *pos = reset;
        let r2 = self.0.2.parse(ctx, limit, pos);
        if let Some(v) = r2 { return Some(v); }
        assert(self.0.2.accepts(ctx.input(), limit as int, reset as int, None, *pos as int));
        *pos = reset;
        let r3 = self.0.3.parse(ctx, limit, pos);
        if let Some(v) = r3 { return Some(v); }
        assert(self.0.3.accepts(ctx.input(), limit as int, reset as int, None, *pos as int));
        *pos = reset;
        let r4 = self.0.4.parse(ctx, limit, pos);
        if let Some(v) = r4 { return Some(v); }
        assert(self.0.4.accepts(ctx.input(), limit as int, reset as int, None, *pos as int));
        *pos = reset;
        let r5 = self.0.5.parse(ctx, limit, pos);
        if let Some(v) = r5 { return Some(v); }
        assert(self.0.5.accepts(ctx.input(), limit as int, reset as int, None, *pos as int));
        *pos = reset;
        let r6 = self.0.6.parse(ctx, limit, pos);
        if let Some(v) = r6 { return Some(v); }
        assert(self.0.6.accepts(ctx.input(), limit as int, reset as int, None, *pos as int));
        *pos = reset;
        let r7 = self.0.7.parse(ctx, limit, pos);
        if let Some(v) = r7 { return Some(v); }
        assert(self.0.7.accepts(ctx.input(), limit as int, reset as int, None, *pos as int));
        *pos = reset;
        let r8 = self.0.8.parse(ctx, limit, pos);
        if let Some(v) = r8 { return Some(v); }
        assert(self.0.8.accepts(ctx.input(), limit as int, reset as int, None, *pos as int));
        *pos = reset;
        None
    }
}

} // verus!
