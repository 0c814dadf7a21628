use num::bigint::{BigInt, Sign};
use ratatat::parsers::memo::Memo;
use ratatat::parsers::fnparser::FnParser;
use ratatat::{Context, Generator, ParserExt, Shared, parser};
use std::rc::Rc;
use std::sync::atomic::{AtomicUsize, Ordering};

fn parse_str<P: ParserExt>(p: &P, text: &str) -> Option<P::O> {
    let input = Shared::new(Rc::new(text.as_bytes().to_vec()));
    let ctx = Context::new(&input);
    let mut pos = 0;
    p.parse(&ctx, ctx.bytes().len(), &mut pos)
}

#[test]
fn bigint_parser() {
    assert_eq!(BigInt::from_radix_be(Sign::Plus, &[1], 10), parse_str(&parser::<BigInt>(), "1"));
    assert_eq!(
        BigInt::from_radix_be(Sign::Plus, &[1, 2, 3, 4, 5, 6, 7, 8, 9, 8, 7, 6, 5, 4, 3, 2, 1, 0, 0, 0], 10),
        parse_str(&parser::<BigInt>(), "12345678987654321000")
    );
    assert_eq!(
        BigInt::from_radix_be(Sign::Plus, &[1, 2, 3, 4, 5, 6, 7, 8, 9, 8, 7, 6, 5, 4, 3, 2, 1, 0, 0, 0], 10),
        parse_str(&parser::<BigInt>(), "0012345678987654321000")
    );
    assert_eq!(
        BigInt::from_radix_be(Sign::Plus, &[1, 2, 3, 4, 5, 6, 7, 8, 9, 10, 11, 12, 13, 14, 15, 0, 0, 0], 16),
        parse_str(&parser::<BigInt>(), "0x123456789AbCdEf000")
    );
    assert_eq!(
        BigInt::from_radix_be(Sign::Plus, &[1, 2, 3, 4, 5, 6, 7, 8, 9, 10, 11, 12, 13, 14, 15, 0, 0, 0], 16),
        parse_str(&parser::<BigInt>(), "+0x123456789AbCdEf000")
    );
    assert_eq!(
        BigInt::from_radix_be(Sign::Minus, &[1, 2, 3, 4, 5, 10, 11, 12], 16),
        parse_str(&parser::<BigInt>(), "-0x12345ABC")
    );
    assert_eq!(
        BigInt::from_radix_be(Sign::Minus, &[1, 2, 3, 4, 5, 6, 7, 8], 10),
        parse_str(&parser::<BigInt>(), "-00012345678")
    );
    assert_eq!(
        BigInt::from_radix_be(Sign::Minus, &[1, 1, 0, 0, 1, 0, 1], 2),
        parse_str(&parser::<BigInt>(), "-0b1100101")
    );
}

#[test]
fn u8_parser() {
    assert_eq!(Some(0u8), parse_str(&parser::<u8>(), "0"));
    assert_eq!(Some(1u8), parse_str(&parser::<u8>(), "1"));

    assert_eq!(Some(255u8), parse_str(&parser::<u8>(), "255"));
    assert_eq!(Some(255u8), parse_str(&parser::<u8>(), "0xFF"));
    assert_eq!(Some(255u8), parse_str(&parser::<u8>(), "0o377"));
    assert_eq!(Some(255u8), parse_str(&parser::<u8>(), "0b11111111"));
}

struct Counter;

impl Generator for Counter {
    type O = usize;
    type P = FnParser<Box<dyn Fn(&Context, usize, usize) -> (Option<usize>, usize)>>;
    fn generate(_ctx: &Context) -> Self::P {
        let cell = std::cell::RefCell::new(0);
        let counter = move |_ctx: &Context, _limit: usize, pos: usize| {
            let mut val = cell.borrow_mut();
            *val += 1;
            (Some(*val), pos)
        };
        FnParser(Box::new(counter), None)
    }
}

#[test]
fn memo_remembers_runs() {
    let input = Shared::new(Rc::new(b"ab"[..].to_owned()));
    let ctx = Context::new(&input);

    let counter = ctx.parser::<Counter>();
    let memo = ctx.parser::<Memo<Counter>>();

    // the counter counts its runs
    assert_eq!(Some(1), counter.parse(&ctx, 0, &mut 0));
    assert_eq!(Some(2), counter.parse(&ctx, 0, &mut 0));

    // the remembering parser answers a second run from the same start with the first result
    assert_eq!(Some(1), memo.parse(&ctx, 0, &mut 0));
    assert_eq!(Some(1), memo.parse(&ctx, 0, &mut 0));

    assert_eq!(Some(3), counter.parse(&ctx, 0, &mut 0));
    assert_eq!(Some(1), memo.parse(&ctx, 0, &mut 0));

    // a new start runs the parser again, and that run is remembered too
    assert_eq!(Some(2), memo.parse(&ctx, 1, &mut 1));
    assert_eq!(Some(2), memo.parse(&ctx, 1, &mut 1));

    // on another input the runs are not reused
    let other = Shared::new(Rc::new(b"ab"[..].to_owned()));
    let ctx2 = Context::new(&other);
    assert_eq!(Some(3), memo.parse(&ctx2, 0, &mut 0));
    assert_eq!(Some(4), memo.parse(&ctx2, 0, &mut 0));
}

/// Numbers its runs in one place for all the parsers it generates: a context keeps no parsers,
/// so each `ctx.parse::<SharedCounter>` runs a new one.
struct SharedCounter;

static RUNS: AtomicUsize = AtomicUsize::new(0);

impl Generator for SharedCounter {
    type O = usize;
    type P = FnParser<Box<dyn Fn(&Context, usize, usize) -> (Option<usize>, usize)>>;
    fn generate(_ctx: &Context) -> Self::P {
        let counter = |_ctx: &Context, _limit: usize, pos: usize| (Some(RUNS.fetch_add(1, Ordering::SeqCst) + 1), pos);
        FnParser(Box::new(counter), None)
    }
}

#[test]
fn memo_parser() {
    let input = Shared::new(Rc::new(b""[..].to_owned()));
    let ctx = Context::new(&input);
    // a context keeps no parsers, so runs are remembered by one memo parser, held here
    let memo = ctx.parser::<Memo<SharedCounter>>();

    // make sure the counter works
    assert_eq!(Some(1), ctx.parse::<SharedCounter>(0, &mut 0));
    assert_eq!(Some(2), ctx.parse::<SharedCounter>(0, &mut 0));

    // make sure memo doesn't change it
    assert_eq!(Some(3), memo.parse(&ctx, 0, &mut 0));
    assert_eq!(Some(3), memo.parse(&ctx, 0, &mut 0));

    assert_eq!(Some(4), ctx.parse::<SharedCounter>(0, &mut 0));
    assert_eq!(Some(3), memo.parse(&ctx, 0, &mut 0));

    // make sure memo calls parser again with a new pos
    assert_eq!(Some(5), memo.parse(&ctx, 0, &mut 1));
    assert_eq!(Some(5), memo.parse(&ctx, 0, &mut 1));
}

struct OtherCounter;

static OTHER_RUNS: AtomicUsize = AtomicUsize::new(0);

impl Generator for OtherCounter {
    type O = usize;
    type P = FnParser<Box<dyn Fn(&Context, usize, usize) -> (Option<usize>, usize)>>;
    fn generate(_ctx: &Context) -> Self::P {
        let counter = |_ctx: &Context, _limit: usize, pos: usize| (Some(OTHER_RUNS.fetch_add(1, Ordering::SeqCst) + 1), pos);
        FnParser(Box::new(counter), None)
    }
}

#[test]
fn memo_through_context_runs_afresh() {
    let input = Shared::new(Rc::new(b""[..].to_owned()));
    let ctx = Context::new(&input);
    // each `ctx.parse` makes a new memo parser with an empty table, so nothing is remembered
    assert_eq!(Some(1), ctx.parse::<Memo<OtherCounter>>(0, &mut 0));
    assert_eq!(Some(2), ctx.parse::<Memo<OtherCounter>>(0, &mut 0));
}
