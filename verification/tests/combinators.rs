use num::bigint::BigInt;
use ratatat::parsers::chars::{to_digit, AnyChar, Digit};
use ratatat::parsers::combinators::{And, Not, Opt, Recognize};
use ratatat::parsers::many::{CountBound, Many};
use ratatat::parsers::memo::memo_key;
use ratatat::parsers::numbers::NumberParser;
use ratatat::parsers::sep::Sep;
use ratatat::parsers::strings::{simple_escape_of, EscapeChar};
use ratatat::parsers::tuple::Alt;
use ratatat::tracing::{rank, TraceConfig, TraceId, TraceLevel, Tracer};
use ratatat::{parser, Context, Parser, ParserExt, Shared};
use std::ops::Bound;
use std::rc::Rc;

/// Runs `p` on `bytes` from the start, up to the end of the input; gives the result and the
/// position where the cursor ended.
fn run_bytes<P: ParserExt>(p: &P, bytes: &[u8]) -> (Option<P::O>, usize) {
    let input = Shared::new(Rc::new(bytes.to_vec()));
    let ctx = Context::new(&input);
    let mut pos = 0;
    let res = p.parse(&ctx, ctx.bytes().len(), &mut pos);
    (res, pos)
}

fn run_on<P: ParserExt>(p: &P, text: &str) -> (Option<P::O>, usize) {
    run_bytes(p, text.as_bytes())
}

#[test]
fn string_escapes() {
    let text = r#""a\x41\u{1F600}\t\"\\\'\0""#;
    assert_eq!((Some("aA\u{1F600}\t\"\\'\0".to_string()), text.len()), run_on(&parser::<String>(), text));
    assert_eq!((Some("".to_string()), 2), run_on(&parser::<String>(), r#""""#));
    let text = "\"∆x\"";
    assert_eq!((Some("∆x".to_string()), text.len()), run_on(&parser::<String>(), text));
}

#[test]
fn string_rejects_bad_escapes() {
    // a surrogate is no character
    assert_eq!(None, run_on(&parser::<String>(), r#""\u{D800}""#).0);
    // beyond the last character
    assert_eq!(None, run_on(&parser::<String>(), r#""\u{110000}""#).0);
    // a unicode escape reads up to seven digits (its repetition is `1..=6`), not eight
    assert_eq!(Some("A".to_string()), run_on(&parser::<String>(), r#""\u{0000041}""#).0);
    assert_eq!(None, run_on(&parser::<String>(), r#""\u{00000041}""#).0);
    // a hex escape takes two digits
    assert_eq!(None, run_on(&parser::<String>(), r#""\x4""#).0);
    assert_eq!(None, run_on(&parser::<String>(), r#""\q""#).0);
    assert_eq!(None, run_on(&parser::<String>(), "no quote").0);
}

#[test]
fn escape_char_parser() {
    assert_eq!((Some('\n'), 2), run_on(&parser::<EscapeChar>(), r"\n"));
    assert_eq!((Some('A'), 4), run_on(&parser::<EscapeChar>(), r"\x41"));
    assert_eq!((Some('é'), 6), run_on(&parser::<EscapeChar>(), r"\u{e9}"));
    assert_eq!(None, run_on(&parser::<EscapeChar>(), "n").0);
}

#[test]
fn simple_escapes() {
    assert_eq!(Some('\n'), simple_escape_of('n'));
    assert_eq!(Some('\r'), simple_escape_of('r'));
    assert_eq!(Some('\t'), simple_escape_of('t'));
    assert_eq!(Some('\0'), simple_escape_of('0'));
    assert_eq!(Some('"'), simple_escape_of('"'));
    assert_eq!(None, simple_escape_of('x'));
}

#[test]
fn any_char_replaces_invalid_bytes() {
    assert_eq!((Some('\u{FFFD}'), 1), run_bytes(&AnyChar, &[0xFF, b'a']));
    assert_eq!((Some('é'), 2), run_bytes(&AnyChar, "é".as_bytes()));
    assert_eq!((Some('\u{1F600}'), 4), run_bytes(&AnyChar, "\u{1F600}".as_bytes()));
    assert_eq!((None, 0), run_bytes(&AnyChar, b""));
}

#[test]
fn digits() {
    assert_eq!(Some(11), to_digit('b', 16));
    assert_eq!(Some(11), to_digit('B', 16));
    assert_eq!(None, to_digit('8', 8));
    assert_eq!((Some(7), 1), run_on(&Digit(10), "7x"));
    assert_eq!((None, 1), run_on(&Digit(10), "x"));
}

#[test]
fn integer_out_of_range() {
    assert_eq!((None, 3), run_on(&parser::<u8>(), "256"));
    assert_eq!((None, 2), run_on(&parser::<u8>(), "-1"));
    assert_eq!((Some(-128i8), 4), run_on(&parser::<i8>(), "-128"));
    assert_eq!((Some(i32::MIN), 11), run_on(&parser::<i32>(), "-0x80000000"));
    assert_eq!((None, 10), run_on(&parser::<i32>(), "0x80000000"));
    assert_eq!((Some(u64::MAX), 20), run_on(&parser::<u64>(), "18446744073709551615"));
    assert_eq!((Some(-5isize), 2), run_on(&parser::<isize>(), "-5"));
}

#[test]
fn number_reads_its_rendering() {
    assert_eq!((Some(BigInt::from(-255)), 5), run_on(&NumberParser, "-0xff"));
    assert_eq!((Some(BigInt::from(5)), 5), run_on(&NumberParser, "0b101"));
    assert_eq!((Some(BigInt::from(8)), 4), run_on(&NumberParser, "0o10"));
    assert_eq!((Some(BigInt::from(0)), 1), run_on(&NumberParser, "0"));
    // no digit after the prefix
    assert_eq!((None, 3), run_on(&NumberParser, "0xg"));
    assert_eq!((None, 1), run_on(&NumberParser, "-"));
}

#[test]
fn many_bounds() {
    let m = Many::from_bounds('a', CountBound::Excluded(1), CountBound::Included(3));
    assert_eq!((2, 4), (m.1, m.2));
    let m = Many::from_bounds('a', CountBound::Unbounded, CountBound::Unbounded);
    assert_eq!((0, usize::MAX), (m.1, m.2));
    let m = Many::from_bounds('a', CountBound::Excluded(usize::MAX - 1), CountBound::Included(usize::MAX - 1));
    assert_eq!((usize::MAX, usize::MAX), (m.1, m.2));
    // bounds whose counts cannot be written count as `usize::MAX`
    let m = Many::new('a', (Bound::Excluded(usize::MAX), Bound::Included(usize::MAX)));
    assert_eq!((usize::MAX, usize::MAX), (m.1, m.2));
    let m = Many::new('a', 3..=usize::MAX);
    assert_eq!((3, usize::MAX), (m.1, m.2));
    let m = Many::new('a', 2..=3);
    assert_eq!((2, 4), (m.1, m.2));
    assert_eq!((Some(vec!['a', 'a']), 2), run_on(&Many::new('a', 2..=3), "aab"));
    // an included end bound admits one more run
    assert_eq!((Some(vec!['a', 'a', 'a', 'a']), 4), run_on(&Many::new('a', 2..=3), "aaaaa"));
    assert_eq!((None, 1), run_on(&Many::new('a', 2..=3), "ab"));
    assert_eq!((Some(vec![]), 0), run_on(&'a'.many(..), "b"));
}

#[test]
fn separated_lists() {
    assert_eq!((Some(vec!['a', 'a', 'a']), 5), run_on(&Sep('a', ','), "a,a,a"));
    assert_eq!((Some(vec!['a', 'a']), 3), run_on(&Sep('a', ','), "a,a,"));
    assert_eq!((Some(vec![]), 0), run_on(&Sep('a', ','), "b"));
    assert_eq!((Some(vec![]), 0), run_on(&Sep('a', ','), ""));
}

#[test]
fn combinators_keep_their_promises() {
    // an optional parser never fails, and keeps the cursor where the inner one fails
    assert_eq!((Some(Some('a')), 1), run_on(&Opt('a'), "a"));
    assert_eq!((Some(None), 0), run_on(&Opt('a'), "b"));
    // a negation consumes nothing
    assert_eq!((Some(()), 0), run_on(&Not('a'), "b"));
    assert_eq!((None, 0), run_on(&Not('a'), "a"));
    // a lookahead keeps the first result and the first cursor
    assert_eq!((Some("ab"), 2), run_on(&And("ab", "abc"), "abc"));
    // when the lookahead fails, the cursor stays where the first parser left it
    assert_eq!((None, 2), run_on(&And("ab", "abd"), "abc"));
    assert_eq!((Some("ab"), 2), run_on(&"ab".and_not("abd"), "abc"));
    // map, filter, filter_map, then
    assert_eq!((Some(2), 1), run_on(&'a'.map(|c: char| c.len_utf8() + 1), "a"));
    assert_eq!((Some('b'), 1), run_on(&parser::<char>().filter(|c: &char| *c != 'a'), "b"));
    assert_eq!((None, 1), run_on(&parser::<char>().filter(|c: &char| *c != 'a'), "a"));
    assert_eq!((Some(3), 1), run_on(&Digit(10).filter_map(|d: u32| if d > 2 { Some(d) } else { None }), "3"));
    assert_eq!((None, 1), run_on(&Digit(10).filter_map(|d: u32| if d > 2 { Some(d) } else { None }), "1"));
    assert_eq!((Some('b'), 2), run_on(&'a'.then(|_c: char| 'b'), "ab"));
    // recognising gives the consumed bytes
    assert_eq!((Some(b"aa".to_vec()), 2), run_on(&Recognize('a'.many(..)), "aab"));
    assert_eq!((Some(b"ab".to_vec()), 2), run_on(&parser::<Recognize<(char, char)>>(), "abc"));
    // a named parser runs as itself
    assert_eq!((Some('a'), 1), run_on(&'a'.named("letter a"), "a"));
    assert!('a'.named("letter a").is_named());
    assert!(!'a'.is_named());
}

#[test]
fn inclusive_ranges_and_generated_lists() {
    assert_eq!((Some('z'), 1), run_on(&('a'..='z'), "z"));
    // the character is read before the range rejects it
    assert_eq!((None, 1), run_on(&('a'..'z'), "z"));
    assert_eq!((Some(vec![true, false]), 9), run_on(&parser::<Vec<bool>>(), "truefalse"));
    assert_eq!((Some(vec!['x', 'y']), 3), run_on(&parser::<Sep<char, char>>(), "x,y"));
}

#[test]
fn tracer_nests_runs() {
    let mut t = Tracer::new();
    assert!(t.enter("p".to_string(), true, 0).is_none());

    t.config = Some(TraceConfig { depth: Some(2), level: TraceLevel::Explicit });
    // unnamed parsers are traced from the normal level only
    assert!(t.enter("q".to_string(), false, 0).is_none());
    let outer = t.enter("outer".to_string(), true, 0).unwrap();
    assert_eq!(0, outer.0);
    assert_eq!((0, 1), (t.current(), t.depth()));
    let inner = t.enter("inner".to_string(), true, 1).unwrap();
    assert_eq!((1, 2), (t.current(), t.depth()));
    // beyond the depth limit nothing is traced
    assert!(t.enter("deep".to_string(), true, 1).is_none());
    t.exit(inner, 3, true);
    assert_eq!((0, 1), (t.current(), t.depth()));
    t.exit(TraceId(0), 4, false);
    assert_eq!((-1, 0), (t.current(), t.depth()));

    assert_eq!(2, t.traces.len());
    assert_eq!(-1, t.traces[0].parent);
    assert_eq!(0, t.traces[1].parent);
    assert_eq!(0..4, t.traces[0].span);
    assert_eq!(1..3, t.traces[1].span);
    assert!(t.traces[0].done && !t.traces[0].pass);
    assert!(t.traces[1].done && t.traces[1].pass);
    assert_eq!(TraceLevel::Explicit, t.traces[1].level);
    assert_eq!("inner", t.traces[1].name);
}

#[test]
fn level_ranks() {
    assert_eq!(0, rank(TraceLevel::Nothing));
    assert_eq!(3, rank(TraceLevel::All));
    assert!(TraceLevel::Explicit < TraceLevel::Normal);
}

#[test]
fn memo_keys_are_distinct() {
    assert_eq!(1u128 << 64, memo_key(1, 0));
    assert_ne!(memo_key(1, 0), memo_key(0, 1));
}

#[test]
fn long_tuples_and_alternatives() {
    assert_eq!(
        (Some(('a', 'b', 'c', 'd', 'e', 'f', 'g', 'h', 'i')), 9),
        run_on(&('a', 'b', 'c', 'd', 'e', 'f', 'g', 'h', 'i'), "abcdefghi")
    );
    assert_eq!((None, 8), run_on(&('a', 'b', 'c', 'd', 'e', 'f', 'g', 'h', 'i'), "abcdefghx"));
    assert_eq!((Some('g'), 1), run_on(&Alt(('a', 'b', 'c', 'd', 'e', 'f', 'g')), "g"));
    assert_eq!((None, 0), run_on(&Alt(('a', 'b', 'c', 'd', 'e', 'f', 'g', 'h')), "z"));
    assert_eq!(
        (Some(('x', 'y', 'z', 'x', 'y', 'z', 'x')), 7),
        run_on(&parser::<(char, char, char, char, char, char, char)>(), "xyzxyzx")
    );
}

#[test]
fn number_ranges() {
    assert_eq!((Some(15u8), 2), run_on(&(10u8..20), "15"));
    assert_eq!((None, 2), run_on(&(10u8..20), "20"));
    assert_eq!((None, 3), run_on(&(10u8..20), "300"));
    assert_eq!((Some(-5i32), 2), run_on(&(-5i32..=5), "-5"));
    assert_eq!((None, 1), run_on(&(-5i32..=5), "6"));
    assert_eq!((Some(0x7fusize), 4), run_on(&(0usize..=0x7f), "0x7f"));
    let big = BigInt::from(10u8).pow(30);
    assert_eq!(
        (Some(big.clone()), 31),
        run_on(&(BigInt::from(0)..BigInt::from(10u8).pow(31)), "1000000000000000000000000000000")
    );
    assert_eq!((None, 31), run_on(&(BigInt::from(0)..big.clone()), "1000000000000000000000000000000"));
    assert_eq!((Some(big.clone()), 31), run_on(&(BigInt::from(0)..=big), "1000000000000000000000000000000"));
}

#[test]
fn tracer_depth_limit() {
    let mut t = Tracer::new();
    t.set_config(Some(TraceConfig { depth: Some(1), level: TraceLevel::Normal }));
    assert!(t.enter("'a'".to_string(), false, 3).is_some());
    assert!(t.enter("'b'".to_string(), false, 4).is_none());
    assert_eq!(1, t.traces.len());
    assert_eq!(-1, t.traces[0].parent);
    assert_eq!(1, t.traces[0].depth);
    assert_eq!("'a'", t.traces[0].name);
    assert_eq!(3..3, t.traces[0].span);
    assert!(!t.traces[0].done);
    assert_eq!(TraceLevel::Normal, t.traces[0].level);
    assert_eq!((0, 1), (t.current(), t.depth()));
}

#[test]
fn exhausted_inclusive_ranges() {
    let mut r = 3u8..=5;
    for _ in r.by_ref() {}
    assert_eq!((None, 1), run_on(&r, "5"));
    assert_eq!((None, 1), run_on(&r, "4"));
    let mut r = 3u8..=5;
    r.next();
    assert_eq!((Some(5), 1), run_on(&r, "5"));
    assert_eq!((None, 1), run_on(&r, "3"));
    let mut c = 'a'..='c';
    for _ in c.by_ref() {}
    assert_eq!((None, 1), run_on(&c, "c"));
}
