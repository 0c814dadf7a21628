use crate::input::Shared;
use crate::parsers::combinators::{And, Filter, FilterMap, Mapped, Named, Not, Opt, Recognize, Then};
use crate::parsers::many::Many;
use core::ops::RangeBounds;
use vstd::prelude::*;

verus! {

/// The bytes of `input` from `pos` start with `pat`, and `pat` ends at or before `limit`.
pub open spec fn matches_at(input: Seq<u8>, limit: int, pos: int, pat: Seq<u8>) -> bool {
    &&& 0 <= pos
    &&& pos + pat.len() <= limit
    &&& input.subrange(pos, pos + pat.len()) == pat
}

/// Some run of `p` from `pos` succeeds.
pub open spec fn can_succeed<P: Parser>(p: P, input: Seq<u8>, limit: int, pos: int) -> bool {
    exists|v: P::O, e: int| #[trigger] p.accepts(input, limit, pos, Some(v), e)
}

/// Some run of `p` from `pos` fails.
pub open spec fn can_fail<P: Parser>(p: P, input: Seq<u8>, limit: int, pos: int) -> bool {
    exists|e: int| #[trigger] p.accepts(input, limit, pos, None, e)
}

/// A copy of `bytes[start..end]`.
pub fn copy_range(bytes: &[u8], start: usize, end: usize) -> (v: Vec<u8>)
    requires
        start <= end <= bytes@.len(),
    ensures
        v@ == bytes@.subrange(start as int, end as int),
{
    let mut v: Vec<u8> = Vec::new();
    let mut i = start;
    while i < end
        invariant
            start <= i <= end <= bytes@.len(),
            v@ == bytes@.subrange(start as int, i as int),
        decreases end - i,
    {
        v.push(bytes[i]);
        i = i + 1;
        assert(v@ =~= bytes@.subrange(start as int, i as int));
    }
    v
}

/// The input that a parser runs on, with the buffer it came from.
pub struct Context<'a> {
    source: &'a Shared,
    bytes: &'a [u8],
}

impl<'a> Context<'a> {
    /// The bytes are those of the buffer.
    #[verifier::type_invariant]
    closed spec fn wf(&self) -> bool {
        self.bytes@ == self.source@
    }

    /// The bytes that parsers read.
    pub closed spec fn input(&self) -> Seq<u8> {
        self.bytes@
    }

    /// The buffer that the bytes come from.
    pub closed spec fn spec_source(&self) -> &'a Shared {
        self.source
    }

    /// A context over the bytes of `source`.
    pub fn new(source: &'a Shared) -> (ctx: Self)
        ensures
            ctx.input() == source@,
            ctx.spec_source() == source,
    {
        let bytes = source.bytes();
        Context { source, bytes }
    }

    /// The bytes that parsers read.
    pub fn bytes(&self) -> (b: &'a [u8])
        ensures
            b@ == self.input(),
    {
        self.bytes
    }

    /// The buffer that the bytes come from; it holds the same bytes.
    pub fn source(&self) -> (s: &'a Shared)
        ensures
            s == self.spec_source(),
            s@ == self.input(),
    {
        proof {
            use_type_invariant(self);
        }
        self.source
    }

    /// A fresh parser made by the generator `G`.
    pub fn parser<G: Generator>(&self) -> (p: G::P)
        ensures
            p.well_formed(),
            forall|limit: int, pos: int, res: Option<G::O>, end: int|
                #[trigger] p.accepts(self.input(), limit, pos, res, end) ==> G::gen_accepts(
                    self.input(),
                    limit,
                    pos,
                    res,
                    end,
                ),
    {
        G::generate(self)
    }

    /// Runs the parser that `G` generates from `*pos`, reading no byte at or past `limit`.
    pub fn parse<G: Generator>(&self, limit: usize, pos: &mut usize) -> (res: Option<G::O>)
        requires
            *old(pos) <= limit <= self.input().len(),
        ensures
            *old(pos) <= *final(pos) <= limit,
            G::gen_accepts(self.input(), limit as int, *old(pos) as int, res, *final(pos) as int),
    {
        let p = G::generate(self);
        p.parse(self, limit, pos)
    }
}

/// A parser: from a position of the input, it yields a value or fails, and moves the position.
///
/// `accepts(input, limit, pos, res, end)` holds of each outcome that a run from `pos` may have:
/// the result `res` and the position `end` where the run leaves the cursor.
pub trait Parser {
    type O;

    /// What the parser's parts must satisfy for it to run (closures that accept every argument).
    spec fn well_formed(&self) -> bool;

    /// The outcomes that a run of this parser may have.
    spec fn accepts(&self, input: Seq<u8>, limit: int, pos: int, res: Option<Self::O>, end: int) -> bool;

    /// Parses from `*pos`; implemented by parsers, called through `parse`.
    fn impl_parse(&self, ctx: &Context, limit: usize, pos: &mut usize) -> (res: Option<Self::O>)
        requires
            self.well_formed(),
            *old(pos) <= limit <= ctx.input().len(),
        ensures
            *old(pos) <= *final(pos) <= limit,
            self.accepts(ctx.input(), limit as int, *old(pos) as int, res, *final(pos) as int),
    ;

    /// Whether the parser carries a name of its own; parsers have none unless they say so.
    fn is_named(&self) -> (b: bool)
        default_ensures
            !b,
    {
        false
    }
}

/// Ways to run parsers and to build larger parsers from them.
pub trait ParserExt: Parser {
    /// Runs the parser from `*pos`, reading no byte at or past `limit`.
    fn parse(&self, ctx: &Context, limit: usize, pos: &mut usize) -> (res: Option<Self::O>)
        requires
            self.well_formed(),
            *old(pos) <= limit <= ctx.input().len(),
        ensures
            *old(pos) <= *final(pos) <= limit,
            self.accepts(ctx.input(), limit as int, *old(pos) as int, res, *final(pos) as int),
    {
        self.impl_parse(ctx, limit, pos)
    }

    /// Another name for `parse`.
    fn run(&self, ctx: &Context, limit: usize, pos: &mut usize) -> (res: Option<Self::O>)
        requires
            self.well_formed(),
            *old(pos) <= limit <= ctx.input().len(),
        ensures
            *old(pos) <= *final(pos) <= limit,
            self.accepts(ctx.input(), limit as int, *old(pos) as int, res, *final(pos) as int),
    {
        self.parse(ctx, limit, pos)
    }

    /// The parser that applies `f` to this parser's result.
    fn map<T, F: Fn(Self::O) -> T>(self, f: F) -> (r: Mapped<Self, F>) where Self: Sized
        ensures
            r.0 == self && r.1 == f,
    {
        Mapped(self, f)
    }

    /// The parser that fails when `f` rejects this parser's result.
    fn filter<F: Fn(&Self::O) -> bool>(self, f: F) -> (r: Filter<Self, F>) where Self: Sized
        ensures
            r.0 == self && r.1 == f,
    {
        Filter(self, f)
    }

    /// The parser that passes this parser's result through `f`, which may reject it.
    fn filter_map<T, F: Fn(Self::O) -> Option<T>>(self, f: F) -> (r: FilterMap<Self, F>) where
        Self: Sized,
        ensures
            r.0 == self && r.1 == f,
    {
        FilterMap(self, f)
    }

    /// The parser that runs this one, then the parser that `f` builds from its result.
    fn then<T: Parser, F: Fn(Self::O) -> T>(self, f: F) -> (r: Then<Self, F>) where Self: Sized
        ensures
            r.0 == self && r.1 == f,
    {
        Then(self, f)
    }

    /// The parser that yields the bytes that this parser consumes.
    fn recognize(self) -> (r: Recognize<Self>) where Self: Sized
        ensures
            r.0 == self,
    {
        Recognize(self)
    }

    /// The repetition of this parser over the counts of `r`.
    fn many<R: RangeBounds<usize>>(self, r: R) -> (m: Many<Self>) where Self: Sized
        ensures
            m.0 == self,
    {
        Many::new(self, r)
    }

    /// This parser under a name.
    fn named<N>(self, name: N) -> (r: Named<Self, N>) where Self: Sized
        ensures
            r.0 == self && r.1 == name,
    {
        Named(self, name)
    }

    /// The parser that always succeeds, with this parser's result as an `Option`.
    fn opt(self) -> (r: Opt<Self>) where Self: Sized
        ensures
            r.0 == self,
    {
        Opt(self)
    }

    /// The parser that succeeds, consuming nothing, where this one fails.
    fn not(self) -> (r: Not<Self>) where Self: Sized
        ensures
            r.0 == self,
    {
        Not(self)
    }

    /// The parser that keeps this parser's result when `f` also matches from the same start.
    fn and<F: Parser>(self, f: F) -> (r: And<Self, F>) where Self: Sized
        ensures
            r.0 == self && r.1 == f,
    {
        And(self, f)
    }

    /// The parser that keeps this parser's result when `f` does not match from the same start.
    fn and_not<F: Parser>(self, f: F) -> (r: And<Self, Not<F>>) where Self: Sized
        ensures
            r.0 == self && r.1 == Not(f),
    {
        And(self, Not(f))
    }
}

impl<P: Parser + ?Sized> ParserExt for P {

}

/// Makes the parser for a type; `gen_accepts` bounds every outcome that the parsers it makes
/// can have on the input they were made for.
pub trait Generator {
    type O;

    type P: Parser<O = Self::O>;

    /// The outcomes that a generated parser may have (any, unless a generator says more).
    open spec fn gen_accepts(input: Seq<u8>, limit: int, pos: int, res: Option<Self::O>, end: int) -> bool {
        true
    }

    /// Makes a parser for the input of `ctx`.
    fn generate(ctx: &Context) -> (p: Self::P)
        ensures
            p.well_formed(),
            forall|limit: int, pos: int, res: Option<Self::O>, end: int|
                #[trigger] p.accepts(ctx.input(), limit, pos, res, end) ==> Self::gen_accepts(
                    ctx.input(),
                    limit,
                    pos,
                    res,
                    end,
                ),
    ;
}

/// The parser that runs what the generator `G` makes.
pub struct Parse<G>(pub std::marker::PhantomData<G>);

impl<G> Clone for Parse<G> {
    fn clone(&self) -> (r: Self) {
        Parse(std::marker::PhantomData)
    }
}

impl<G> Copy for Parse<G> {

}

/// The parser that runs what `G` generates, as a value.
pub open spec fn gen_parser<G>() -> Parse<G> {
    Parse(std::marker::PhantomData)
}

/// The parser for whatever `G` generates.
pub fn parser<G>() -> (p: Parse<G>)
    ensures
        p == gen_parser::<G>(),
{
    Parse(std::marker::PhantomData)
}

impl<G: Generator> Parser for Parse<G> {
    type O = G::O;

    open spec fn well_formed(&self) -> bool {
        true
    }

    open spec fn accepts(&self, input: Seq<u8>, limit: int, pos: int, res: Option<G::O>, end: int) -> bool {
        G::gen_accepts(input, limit, pos, res, end)
    }

    fn impl_parse(&self, ctx: &Context, limit: usize, pos: &mut usize) -> (res: Option<G::O>) {
        ctx.parse::<G>(limit, pos)
    }
}

} // verus!
