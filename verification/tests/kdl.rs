use ratatat::kdl::{KdlIdentifier, KdlString, RawString};
use ratatat::{parser, Context, ParserExt, Shared};
use std::rc::Rc;

fn run_bytes<P: ParserExt>(p: &P, bytes: &[u8]) -> (Option<P::O>, usize) {
    let input = Shared::new(Rc::new(bytes.to_vec()));
    let ctx = Context::new(&input);
    let mut pos = 0;
    let res = p.parse(&ctx, ctx.bytes().len(), &mut pos);
    (res, pos)
}

fn parse_str<P: ParserExt>(p: &P, text: &str) -> Option<P::O> {
    run_bytes(p, text.as_bytes()).0
}

#[test]
fn kdl_parse_string() {
    assert_eq!(Some("hello".to_string()), parse_str(&parser::<KdlString>(), r#""hello""#));
    assert_eq!(Some("hello\nworld".to_string()), parse_str(&parser::<KdlString>(), r#""hello\nworld""#));
    assert_eq!(Some(r#""hello""#.to_string()), parse_str(&parser::<KdlString>(), r###"r#""hello""#"###));
}

#[test]
fn kdl_parse_identifier() {
    assert_eq!(Some("hello".to_string()), parse_str(&parser::<KdlIdentifier>(), r#""hello""#));
    assert_eq!(Some("hello\nworld".to_string()), parse_str(&parser::<KdlIdentifier>(), r#""hello\nworld""#));
    assert_eq!(Some(r#""hello""#.to_string()), parse_str(&parser::<KdlIdentifier>(), r###"r#""hello""#"###));
    assert_eq!(Some("_hello_".to_string()), parse_str(&parser::<KdlIdentifier>(), "_hello_"));
}

#[test]
fn raw_strings() {
    assert_eq!((Some("a\"#b".to_string()), 11), run_bytes(&RawString, br###"r##"a"#b"##"###));
    assert_eq!((Some(String::new()), 3), run_bytes(&RawString, br#"r"""#));
    assert_eq!((Some("x\\n".to_string()), 6), run_bytes(&RawString, br#"r"x\n""#));
    // the closing repetition `n..=n` admits one hash more
    assert_eq!((Some("a".to_string()), 7), run_bytes(&RawString, br###"r#"a"##"###));
    // an unclosed raw string fails
    assert_eq!(None, run_bytes(&RawString, br#"r#"abc"#).0);
    // bytes that are not UTF-8 give no text
    assert_eq!(None, run_bytes(&RawString, b"r\"\xFF\"").0);
    assert_eq!(None, run_bytes(&RawString, b"x\"a\"").0);
}

#[test]
fn bare_identifiers() {
    assert_eq!((Some("key".to_string()), 3), run_bytes(&parser::<KdlIdentifier>(), b"key=value"));
    assert_eq!((Some("a1-b".to_string()), 4), run_bytes(&parser::<KdlIdentifier>(), b"a1-b c"));
    assert_eq!((Some("ключ".to_string()), 8), run_bytes(&parser::<KdlIdentifier>(), "ключ;".as_bytes()));
    // an identifier cannot start with a digit or a listed character
    assert_eq!(None, parse_str(&parser::<KdlIdentifier>(), "1abc"));
    assert_eq!(None, parse_str(&parser::<KdlIdentifier>(), "{a"));
    assert_eq!(None, parse_str(&parser::<KdlIdentifier>(), " a"));
    assert_eq!(None, parse_str(&parser::<KdlIdentifier>(), ""));
}
