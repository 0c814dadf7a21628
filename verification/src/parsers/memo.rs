use crate::context::{Context, Generator, Parser, ParserExt};
use std::collections::HashMap;
use std::rc::Rc;
use vstd::cell::invcell::InvCell;
use vstd::prelude::*;

verus! {

broadcast use vstd::std_specs::hash::group_hash_axioms;

/// Calls `Rc::ptr_eq`, which tells whether two `Rc`s point to the same allocation; when they
/// do, they hold the same value.
#[verifier::external_body]
fn same_rc(a: &Rc<Vec<u8>>, b: &Rc<Vec<u8>>) -> (r: bool)
    ensures
        r ==> a@ == b@,
{
    Rc::ptr_eq(a, b)
}

/// Generates a parser that remembers, per start and limit, what the parser of `G` gave.
pub struct Memo<G>(core::marker::PhantomData<G>);

/// A remembered run: its start and limit, its result, and where the cursor ended.
pub struct MemoEntry<T> {
    pub pos: usize,
    pub limit: usize,
    pub value: Option<T>,
    pub end: usize,
}

/// `b` is a clone of `a`.
pub open spec fn opt_cloned<T: Clone>(a: Option<T>, b: Option<T>) -> bool {
    match (a, b) {
        (None, None) => true,
        (Some(x), Some(y)) => cloned::<T>(x, y),
        _ => false,
    }
}

/// The outcome of a remembering parser: an outcome of the parser of `G`, or a clone of a clone
/// of the result of one.
pub open spec fn memo_outcome<G: Generator>(input: Seq<u8>, limit: int, pos: int, res: Option<G::O>, end: int) -> bool where G::O: Clone {
    exists|w: Option<G::O>|
        #[trigger] G::gen_accepts(input, limit, pos, w, end) && (res == w || exists|w2: Option<G::O>|
            #[trigger] opt_cloned(w, w2) && opt_cloned(w2, res))
}

/// A remembered run is an outcome of the parser of `G` on `input`, or holds a clone of its result.
pub open spec fn memo_entry_ok<G: Generator>(input: Seq<u8>, e: MemoEntry<G::O>) -> bool where G::O: Clone {
    &&& e.pos <= e.end <= e.limit
    &&& exists|w: Option<G::O>|
        #[trigger] G::gen_accepts(input, e.limit as int, e.pos as int, w, e.end as int) && opt_cloned(
            w,
            e.value,
        )
}

/// Every remembered run is one of the parser of `G` on `input`.
pub open spec fn memo_table_ok<G: Generator>(input: Seq<u8>) -> spec_fn(HashMap<u128, MemoEntry<G::O>>) -> bool where G::O: Clone {
    |m: HashMap<u128, MemoEntry<G::O>>|
        forall|k: u128| #[trigger] m@.contains_key(k) ==> memo_entry_ok::<G>(input, m@[k])
}

/// The key under which a run from `pos` with `limit` is remembered.
pub fn memo_key(pos: usize, limit: usize) -> (k: u128)
    ensures
        k == pos * 0x1_0000_0000_0000_0000u128 + limit,
{
    assert(pos * 0x1_0000_0000_0000_0000u128 + limit <= u128::MAX) by (nonlinear_arith)
        requires
            pos <= usize::MAX,
            limit <= usize::MAX,
            usize::MAX <= u64::MAX,
    ;
    (pos as u128) * 0x1_0000_0000_0000_0000u128 + (limit as u128)
}

/// A parser that remembers the runs of the parser of `G` on the input it was made for.
pub struct MemoParser<G: Generator> where G::O: Clone {
    inner: G::P,
    table: InvCell<HashMap<u128, MemoEntry<G::O>>, spec_fn(HashMap<u128, MemoEntry<G::O>>) -> bool>,
    source: Rc<Vec<u8>>,
}

impl<G: Generator> MemoParser<G> where G::O: Clone {
    /// The input that the runs are remembered for.
    pub closed spec fn spec_input(&self) -> Seq<u8> {
        self.source@
    }

    /// The outcomes that the inner parser, made for the remembered input, allows on `input`.
    pub closed spec fn inner_accepts(&self, input: Seq<u8>, limit: int, pos: int, res: Option<G::O>, end: int) -> bool {
        self.inner.accepts(input, limit, pos, res, end)
    }

    /// The parts fit together: the inner parser is that of `G` for the input, and the table
    /// keeps only runs of it.
    pub closed spec fn parts_ok(&self) -> bool {
        &&& self.inner.well_formed()
        &&& forall|limit: int, pos: int, res: Option<G::O>, end: int|
            #[trigger] self.inner.accepts(self.source@, limit, pos, res, end) ==> G::gen_accepts(
                self.source@,
                limit,
                pos,
                res,
                end,
            )
        &&& self.table.predicate() == memo_table_ok::<G>(self.source@)
    }
}

impl<G: Generator> Parser for MemoParser<G> where G::O: Clone {
    type O = G::O;

    open spec fn well_formed(&self) -> bool {
        self.parts_ok()
    }

    /// On the input the parser was made for, every outcome is one of the parser of `G`, or a
    /// clone of one; on any other input it is an outcome of the inner parser, run afresh.
    open spec fn accepts(&self, input: Seq<u8>, limit: int, pos: int, res: Option<G::O>, end: int) -> bool {
        &&& input == self.spec_input() ==> memo_outcome::<G>(input, limit, pos, res, end)
        &&& input != self.spec_input() ==> self.inner_accepts(input, limit, pos, res, end)
    }

    fn impl_parse(&self, ctx: &Context, limit: usize, pos: &mut usize) -> (res: Option<G::O>) {
        let start = *pos;
        if !same_rc(&self.source, ctx.source().src()) {
            return self.inner.parse(ctx, limit, pos);
        }
        assert(ctx.input() == self.spec_input());
        let key = memo_key(start, limit);
        let table = self.table.replace(HashMap::new());
        let mut hit: Option<(Option<G::O>, usize)> = None;
        match table.get(&key) {
            Some(e) => {
                if e.pos == start && e.limit == limit {
                    assert(memo_entry_ok::<G>(self.spec_input(), *e));
                    let v = e.value.clone();
                    hit = Some((v, e.end));
                }
            },
            None => {},
        }
        self.table.replace(table);
        if let Some((v, end)) = hit {
            *pos = end;
            return v;
        }
        let res = self.inner.parse(ctx, limit, pos);
        let stored = res.clone();
        let mut table = self.table.replace(HashMap::new());
        let entry = MemoEntry { pos: start, limit, value: stored, end: *pos };
        assert(memo_entry_ok::<G>(self.spec_input(), entry));
        table.insert(key, entry);
        self.table.replace(table);
        res
    }
}

impl<G: Generator> Generator for Memo<G> where G::O: Clone {
    type O = G::O;

    type P = MemoParser<G>;

    open spec fn gen_accepts(input: Seq<u8>, limit: int, pos: int, res: Option<G::O>, end: int) -> bool {
        memo_outcome::<G>(input, limit, pos, res, end)
    }

    fn generate(ctx: &Context) -> (p: MemoParser<G>) {
        let inner = G::generate(ctx);
        let source = ctx.source().src().clone();
        let table = InvCell::new(HashMap::new(), Ghost(memo_table_ok::<G>(source@)));
        MemoParser { inner, table, source }
    }
}

} // verus!
