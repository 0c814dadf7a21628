use crate::context::{gen_parser, parser, Context, Generator, Parse, Parser, ParserExt};
use crate::parsers::combinators::{And, Not, Recognize};
use crate::parsers::many::{succ_sat, Many};
use crate::parsers::tuple::Alt;
use core::ops::Range;
use vstd::prelude::*;
use vstd::utf8::{decode_utf8, valid_utf8};

verus! {

/// Calls `String::from_utf8`, which gives the text of the bytes exactly when they are valid
/// UTF-8.
#[verifier::external_body]
fn string_from_utf8(bytes: Vec<u8>) -> (r: Option<String>)
    ensures
        r is Some <==> valid_utf8(bytes@),
        r is Some ==> r->0@ == decode_utf8(bytes@),
{
    String::from_utf8(bytes).ok()
}

/// The text of the bytes that `b` holds, when they are valid UTF-8.
pub open spec fn utf8_text(b: Seq<u8>) -> Option<Seq<char>> {
    if valid_utf8(b) {
        Some(decode_utf8(b))
    } else {
        None
    }
}

/// Runs the inner parser, whose result is bytes, and yields their text; fails when the inner
/// parser fails or the bytes are not valid UTF-8.
#[derive(Copy, Clone)]
pub struct Utf8Text<P>(pub P);

impl<P: Parser<O = Vec<u8>>> Parser for Utf8Text<P> {
    type O = String;

    open spec fn well_formed(&self) -> bool {
        self.0.well_formed()
    }

    open spec fn accepts(&self, input: Seq<u8>, limit: int, pos: int, res: Option<String>, end: int) -> bool {
        match res {
            Some(s) => exists|b: Vec<u8>|
                #[trigger] self.0.accepts(input, limit, pos, Some(b), end) && utf8_text(b@) == Some(s@),
            None => self.0.accepts(input, limit, pos, None, end) || exists|b: Vec<u8>|
                #[trigger] self.0.accepts(input, limit, pos, Some(b), end) && utf8_text(b@) is None,
        }
    }

    fn impl_parse(&self, ctx: &Context, limit: usize, pos: &mut usize) -> (res: Option<String>) {
        let start = *pos;
        match self.0.parse(ctx, limit, pos) {
            Some(b) => {
                let ghost gb = b;
                assert(self.0.accepts(ctx.input(), limit as int, start as int, Some(gb), *pos as int));
                string_from_utf8(b)
            },
            None => None,
        }
    }
}

/// What closes a raw string opened with `n` hashes: a quote, then the repetition `n..=n` of `#`
/// (which, as every included end bound does, admits one more run; none past `usize::MAX`).
pub open spec fn raw_close(n: usize) -> (char, Many<char>) {
    ('"', Many('#', n, succ_sat(n) as usize))
}

/// The inside of a raw string opened with `n` hashes: characters, each read where no closing
/// starts; yields the bytes.
pub open spec fn raw_content(n: usize) -> Recognize<Many<(Not<(char, Many<char>)>, Parse<char>)>> {
    Recognize(Many((Not(raw_close(n)), gen_parser::<char>()), 0, usize::MAX))
}

/// The inside and the closing of a raw string opened with `n` hashes.
pub open spec fn raw_rest(n: usize) -> (Recognize<Many<(Not<(char, Many<char>)>, Parse<char>)>>, (char, Many<char>)) {
    (raw_content(n), raw_close(n))
}

/// The rest of a raw string opened with `.0` hashes: its inside, as text, and its closing.
#[derive(Copy, Clone)]
pub struct RawStringBody(pub usize);

impl Parser for RawStringBody {
    type O = String;

    open spec fn well_formed(&self) -> bool {
        true
    }

    open spec fn accepts(&self, input: Seq<u8>, limit: int, pos: int, res: Option<String>, end: int) -> bool {
        match res {
            Some(s) => exists|v: (Vec<u8>, (char, Vec<char>))|
                #[trigger] raw_rest(self.0).accepts(input, limit, pos, Some(v), end) && utf8_text(v.0@)
                    == Some(s@),
            None => raw_rest(self.0).accepts(input, limit, pos, None, end) || exists|
                v: (Vec<u8>, (char, Vec<char>)),
            |
                #[trigger] raw_rest(self.0).accepts(input, limit, pos, Some(v), end) && utf8_text(v.0@)
                    is None,
        }
    }

    fn impl_parse(&self, ctx: &Context, limit: usize, pos: &mut usize) -> (res: Option<String>) {
        let n = self.0;
        let hashes = Many('#', n, if n < usize::MAX {
            n + 1
        } else {
            usize::MAX
        });
        let close = ('"', hashes);
        let rest = (Recognize(Many((Not(close), parser::<char>()), 0, usize::MAX)), close);
        assert(rest == raw_rest(n));
        let start = *pos;
        match rest.parse(ctx, limit, pos) {
            Some(v) => {
                let ghost gv = v;
                assert(raw_rest(n).accepts(ctx.input(), limit as int, start as int, Some(gv), *pos as int));
                string_from_utf8(v.0)
            },
            None => None,
        }
    }
}

/// What opens a raw string: `r`, any number of `#`, and a quote.
pub open spec fn raw_open() -> (char, Many<char>, char) {
    ('r', Many('#', 0, usize::MAX), '"')
}

/// A raw string: `r`, some hashes and a quote, then any characters up to a quote followed by as
/// many hashes; yields the characters in between.
#[derive(Copy, Clone)]
pub struct RawString;

impl Parser for RawString {
    type O = String;

    open spec fn well_formed(&self) -> bool {
        true
    }

    open spec fn accepts(&self, input: Seq<u8>, limit: int, pos: int, res: Option<String>, end: int) -> bool {
        ||| (res is None && raw_open().accepts(input, limit, pos, None, end))
        ||| exists|h: (char, Vec<char>, char), m: int|
            #[trigger] raw_open().accepts(input, limit, pos, Some(h), m) && RawStringBody(
                h.1@.len() as usize,
            ).accepts(input, limit, m, res, end)
    }

    fn impl_parse(&self, ctx: &Context, limit: usize, pos: &mut usize) -> (res: Option<String>) {
        let open = ('r', Many('#', 0, usize::MAX), '"');
        let start = *pos;
        match open.parse(ctx, limit, pos) {
            Some(h) => {
                let ghost gh = h;
                let ghost m = *pos;
                assert(raw_open().accepts(ctx.input(), limit as int, start as int, Some(gh), m as int));
                let body = RawStringBody(h.1.len());
                body.parse(ctx, limit, pos)
            },
            None => None,
        }
    }
}

/// A KDL string: a quoted string with escapes, or a raw string.
pub struct KdlString;

impl Generator for KdlString {
    type O = String;

    type P = Alt<(Parse<String>, RawString)>;

    open spec fn gen_accepts(input: Seq<u8>, limit: int, pos: int, res: Option<String>, end: int) -> bool {
        Alt((gen_parser::<String>(), RawString)).accepts(input, limit, pos, res, end)
    }

    fn generate(ctx: &Context) -> (p: Alt<(Parse<String>, RawString)>) {
        Alt((parser::<String>(), RawString))
    }
}

/// A parser of the characters that no identifier holds.
pub type NonIdChar = Alt<(Range<char>, [char; 11])>;

/// A parser of the characters that cannot start an identifier.
pub type NonInitialChar = Alt<(Range<char>, NonIdChar)>;

/// A parser of bare identifiers.
pub type BareIdentifier = Utf8Text<Recognize<(And<Parse<char>, Not<NonInitialChar>>, Many<And<Parse<char>, Not<NonIdChar>>>)>>;

/// The characters that no identifier holds: those up to a space (the range `'\0'..'!'`, that is
/// `..='\x20'`) and the listed punctuation.
pub open spec fn non_id_char() -> NonIdChar {
    Alt((Range { start: '\0', end: '!' }, ['\\', '<', '>', '{', '}', ';', '[', ']', '=', ',', '"']))
}

/// The characters that cannot start an identifier: digits (the range `'0'..':'`, that is
/// `'0'..='9'`) and those that no identifier holds.
pub open spec fn non_initial_char() -> NonInitialChar {
    Alt((Range { start: '0', end: ':' }, non_id_char()))
}

/// A bare identifier: a character that may start one, then any characters that identifiers
/// hold; yields its text.
pub open spec fn bare_identifier() -> BareIdentifier {
    Utf8Text(Recognize((And(gen_parser::<char>(), Not(non_initial_char())), Many(And(gen_parser::<char>(), Not(non_id_char())), 0, usize::MAX))))
}

/// The parser of the characters that no identifier holds.
fn non_id_char_parser() -> (p: NonIdChar)
    ensures
        p == non_id_char(),
{
    Alt(('\0'..'!', ['\\', '<', '>', '{', '}', ';', '[', ']', '=', ',', '"']))
}

/// A KDL identifier: a KDL string, or a bare identifier.
pub struct KdlIdentifier;

impl Generator for KdlIdentifier {
    type O = String;

    type P = Alt<(Parse<KdlString>, BareIdentifier)>;

    open spec fn gen_accepts(input: Seq<u8>, limit: int, pos: int, res: Option<String>, end: int) -> bool {
        Alt((gen_parser::<KdlString>(), bare_identifier())).accepts(input, limit, pos, res, end)
    }

    fn generate(ctx: &Context) -> (p: Self::P) {
        let non_initial = Alt(('0'..':', non_id_char_parser()));
        let ch = parser::<char>();
        let bare = Utf8Text(Recognize((And(ch, Not(non_initial)), Many(And(ch, Not(non_id_char_parser())), 0, usize::MAX))));
        assert(bare == bare_identifier());
        Alt((parser::<KdlString>(), bare))
    }
}

} // verus!
