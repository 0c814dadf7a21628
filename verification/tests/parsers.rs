use ratatat::parsers::many::Many;
use ratatat::parsers::tuple::Alt;
use ratatat::{parser, Context, ParserExt, Shared};
use std::rc::Rc;

/// Runs `p` on `text` from the start, up to the end of the input; gives the result and the
/// position where the cursor ended.
fn run_on<P: ParserExt>(p: &P, text: &str) -> (Option<P::O>, usize) {
    let input = Shared::new(Rc::new(text.as_bytes().to_vec()));
    let ctx = Context::new(&input);
    let mut pos = 0;
    let res = p.parse(&ctx, ctx.bytes().len(), &mut pos);
    (res, pos)
}

fn parse_str<P: ParserExt>(p: &P, text: &str) -> Option<P::O> {
    run_on(p, text).0
}

#[test]
fn array_char_parser() {
    assert_eq!(Some('b'), parse_str(&['a', 'b', 'c'], "b"));
    assert_eq!(None, parse_str(&['a', 'b', 'c'], "d"));

    assert_eq!(Some(['a', 'b', 'c']), parse_str(&parser::<[char; 3]>(), "abc"));
    assert_eq!(None, parse_str(&parser::<[char; 3]>(), "ab"));
}

#[test]
fn bool_parser() {
    assert_eq!(Some(true), parse_str(&true, "true"));
    assert_eq!(Some(false), parse_str(&false, "false"));
    assert_eq!(None, parse_str(&true, "lol"));

    assert_eq!(Some(true), parse_str(&parser::<bool>(), "true"));
    assert_eq!(Some(false), parse_str(&parser::<bool>(), "false"));
    assert_eq!(None, parse_str(&parser::<bool>(), "lol"));
}

#[test]
fn char_char_parser() {
    assert_eq!(Some('a'), parse_str(&'a', "a"));
    assert_eq!(Some('∆'), parse_str(&'∆', "∆"));
    assert_eq!(None, parse_str(&'a', "ø"));

    assert_eq!(Some('a'), parse_str(&parser::<char>(), "a"));
    assert_eq!(Some('∆'), parse_str(&parser::<char>(), "∆"));
    assert_eq!(None, parse_str(&parser::<char>(), ""));
}

#[test]
fn many_char_parser() {
    assert_eq!(Some(vec!['a', 'a', 'a']), parse_str(&Many::new('a', ..), "aaab"));
    assert_eq!(Some(vec!['a', 'a', 'a']), parse_str(&Many::new('a', ..3), "aaaa"));

    assert_eq!(Some(vec!['a', 'a', 'a', 'a']), parse_str(&Many::new('a', 3..), "aaaa"));
    assert_eq!(None, parse_str(&Many::new('a', 3..), "aa"));
}

#[test]
fn range_parser() {
    assert_eq!(Some('d'), parse_str(&('a'..'z'), "d"));
    assert_eq!(None, parse_str(&('a'..'z'), "D"));
}

#[test]
fn string_parser() {
    assert_eq!(Some("hello".to_string()), parse_str(&parser::<String>(), r##""hello""##));
    assert_eq!(Some("hey\nworld".to_string()), parse_str(&parser::<String>(), r##""hey\nworld""##));
    assert_eq!(None, parse_str(&parser::<String>(), r##""unclosed\""##));
}

#[test]
fn parse_tuple() {
    assert_eq!(Some(("hello", " ", "world")), parse_str(&("hello", " ", "world"), "hello world"));
}

#[test]
fn str_parser() {
    let input = Shared::new(Rc::new(b"hello world"[..].to_owned()));
    let ctx = &Context::new(&input);
    let mut pos = 0;
    assert_eq!(Some("hello"), "hello".run(&ctx, ctx.bytes().len(), &mut pos));
    assert_eq!(5, pos);
}

#[test]
fn alt_first_success_wins() {
    let p = Alt(("ab", "a"));
    assert_eq!((Some("a"), 1), run_on(&p, "ac"));
    assert_eq!((None, 0), run_on(&p, "c"));
}
