use crate::context::{matches_at, Context, Generator, Parser, ParserExt};
use crate::parsers::chars::{digit_value, lemma_next_char_bounds, next_char, AnyChar, Digit};
use crate::parsers::numbers::{digit_step, digits_fold};
use crate::parsers::primitive::char_bytes;
use vstd::prelude::*;
use vstd::string::StringSliceAdditionalSpecFns;
use vstd::utf8::is_scalar;

verus! {

/// Calls `core::char::from_u32`, which gives the character with code `v` when `v` is a Unicode
/// scalar value.
#[verifier::external_body]
fn char_from_u32(v: u32) -> (r: Option<char>)
    ensures
        r == (if is_scalar(v) {
            Some(v as char)
        } else {
            None
        }),
{
    core::char::from_u32(v)
}

/// Calls `String::push`, which appends `c`.
#[verifier::external_body]
fn string_push(s: &mut String, c: char)
    ensures
        final(s)@ == old(s)@.push(c),
{
    s.push(c)
}

/// The character that a backslash followed by `c` stands for, when it is a one-character
/// escape: quote, double quote, backslash, `n`, `r`, `t` or `0`.
pub open spec fn simple_escape(c: char) -> Option<char> {
    let v = c as u32;
    if v == 39 || v == 34 || v == 92 {
        Some(c)
    } else if v == 110 {
        Some('\n')
    } else if v == 114 {
        Some('\r')
    } else if v == 116 {
        Some('\t')
    } else if v == 48 {
        Some('\0')
    } else {
        None
    }
}

/// The character that a backslash followed by `c` stands for, when it is a one-character escape.
pub fn simple_escape_of(c: char) -> (r: Option<char>)
    ensures
        r == simple_escape(c),
{
    let v = c as u32;
    if v == 39 || v == 34 || v == 92 {
        Some(c)
    } else if v == 110 {
        Some('\n')
    } else if v == 114 {
        Some('\r')
    } else if v == 116 {
        Some('\t')
    } else if v == 48 {
        Some('\0')
    } else {
        None
    }
}

/// Up to `n` digits of base `radix` from `q`, read while they are digits, and the position
/// after the last one.
pub open spec fn digits_upto(input: Seq<u8>, limit: int, radix: u32, q: int, n: nat) -> (Seq<u32>, int)
    decreases n,
{
    if n == 0 {
        (seq![], q)
    } else {
        match digit_step(input, limit, radix, q) {
            (Some(d), e) => {
                let rest = digits_upto(input, limit, radix, e, (n - 1) as nat);
                (seq![d] + rest.0, rest.1)
            },
            (None, _) => (seq![], q),
        }
    }
}

/// A one-character escape after the backslash, which ends at `p`.
pub open spec fn escape_simple_at(input: Seq<u8>, limit: int, p: int) -> Option<(char, int)> {
    match next_char(input, limit, p) {
        Some((c, e)) => match simple_escape(c) {
            Some(v) => Some((v, e)),
            None => None,
        },
        None => None,
    }
}

/// A hexadecimal escape after the backslash: `x` and two or three hex digits, of which the
/// first two give the character.
pub open spec fn escape_hex_at(input: Seq<u8>, limit: int, p: int) -> Option<(char, int)> {
    if matches_at(input, limit, p, char_bytes('x')) {
        let (ds, e) = digits_upto(input, limit, 16, p + char_bytes('x').len(), 3);
        if ds.len() >= 2 {
            Some(((ds[0] * 16 + ds[1]) as u32 as char, e))
        } else {
            None
        }
    } else {
        None
    }
}

/// A Unicode escape after the backslash: `u{`, one to seven hex digits and `}`, where the
/// digits give a Unicode scalar value.
pub open spec fn escape_unicode_at(input: Seq<u8>, limit: int, p: int) -> Option<(char, int)> {
    if matches_at(input, limit, p, "u{".spec_bytes()) {
        let (ds, e) = digits_upto(input, limit, 16, p + "u{".spec_bytes().len(), 7);
        let v = digits_fold(0, ds, 16);
        if ds.len() >= 1 && matches_at(input, limit, e, char_bytes('}')) && is_scalar(v as u32) {
            Some((v as u32 as char, e + char_bytes('}').len()))
        } else {
            None
        }
    } else {
        None
    }
}

/// The escape sequence at `pos`: a backslash, then the first of a one-character, a hexadecimal
/// and a Unicode escape that matches; the character and the position after it.
pub open spec fn escape_at(input: Seq<u8>, limit: int, pos: int) -> Option<(char, int)> {
    if matches_at(input, limit, pos, char_bytes('\\')) {
        let p = pos + char_bytes('\\').len();
        match escape_simple_at(input, limit, p) {
            Some(r) => Some(r),
            None => match escape_hex_at(input, limit, p) {
                Some(r) => Some(r),
                None => escape_unicode_at(input, limit, p),
            },
        }
    } else {
        None
    }
}

/// The outcome of reading an escape sequence: on failure the cursor ends after the backslash
/// when there is one, else where it started.
pub open spec fn escape_outcome(input: Seq<u8>, limit: int, pos: int, res: Option<char>, end: int) -> bool {
    match escape_at(input, limit, pos) {
        Some((c, e)) => res == Some(c) && end == e,
        None => res is None && end == (if matches_at(input, limit, pos, char_bytes('\\')) {
            pos + char_bytes('\\').len()
        } else {
            pos
        }),
    }
}

/// Reads up to `n` digits of base `radix` while they are digits; the cursor ends after the last.
fn read_digits_upto(ctx: &Context, limit: usize, pos: &mut usize, radix: u32, n: usize) -> (ds: Vec<u32>)
    requires
        2 <= radix <= 36,
        *old(pos) <= limit <= ctx.input().len(),
    ensures
        (ds@, *final(pos) as int) == digits_upto(ctx.input(), limit as int, radix, *old(pos) as int, n as nat),
        *old(pos) <= *final(pos) <= limit,
        ds@.len() <= n,
        forall|i: int| 0 <= i < ds@.len() ==> ds@[i] < radix,
{
    let ghost input = ctx.input();
    let ghost start = *pos;
    let digit = Digit(radix);
    let mut ds: Vec<u32> = Vec::new();
    let mut k: usize = 0;
    while k < n
        invariant_except_break
            k <= n,
            ds@.len() == k,
        invariant
            input == ctx.input(),
            start <= *pos <= limit <= input.len(),
            digit.0 == radix,
            2 <= radix <= 36,
            forall|i: int| 0 <= i < ds@.len() ==> ds@[i] < radix,
            digits_upto(input, limit as int, radix, start as int, n as nat) == (
                ds@ + digits_upto(input, limit as int, radix, *pos as int, (n - ds@.len()) as nat).0,
                digits_upto(input, limit as int, radix, *pos as int, (n - ds@.len()) as nat).1,
            ),
        ensures
            ds@.len() <= n,
            digits_upto(input, limit as int, radix, *pos as int, (n - ds@.len()) as nat) == (Seq::<u32>::empty(), *pos as int),
        decreases n - k,
    {
        let rewind = *pos;
        match digit.parse(ctx, limit, pos) {
            Some(d) => {
                let ghost old_ds = ds@;
                ds.push(d);
                k = k + 1;
                proof {
                    let rest = digits_upto(input, limit as int, radix, *pos as int, (n - ds@.len()) as nat);
                    assert(digits_upto(input, limit as int, radix, rewind as int, (n - old_ds.len()) as nat) == (seq![d] + rest.0, rest.1));
                    assert(old_ds + (seq![d] + rest.0) =~= ds@ + rest.0);
                }
            },
            None => {
                *pos = rewind;
                break;
            },
        }
    }
    proof {
        assert(ds@ + Seq::<u32>::empty() =~= ds@);
    }
    ds
}

/// Reads an escape sequence as it may stand in a string literal.
#[derive(Copy, Clone, Debug)]
pub struct EscapeParser;

impl Parser for EscapeParser {
    type O = char;

    open spec fn well_formed(&self) -> bool {
        true
    }

    open spec fn accepts(&self, input: Seq<u8>, limit: int, pos: int, res: Option<char>, end: int) -> bool {
        escape_outcome(input, limit, pos, res, end)
    }

    fn impl_parse(&self, ctx: &Context, limit: usize, pos: &mut usize) -> (res: Option<char>) {
        let ghost input = ctx.input();
        if '\\'.parse(ctx, limit, pos).is_none() {
            return None;
        }
        let p = *pos;
        if let Some(c) = AnyChar.parse(ctx, limit, pos) {
            if let Some(v) = simple_escape_of(c) {
                return Some(v);
            }
        }
        *pos = p;
        assert(escape_simple_at(input, limit as int, p as int) is None);
        if 'x'.parse(ctx, limit, pos).is_some() {
            let ds = read_digits_upto(ctx, limit, pos, 16, 3);
            if ds.len() >= 2 {
                let d0 = ds[0];
                let d1 = ds[1];
                let v: u32 = (d0 << 4) | d1;
                assert(v == d0 * 16 + d1) by (bit_vector)
                    requires
                        d0 < 16 && d1 < 16 && v == (d0 << 4) | d1,
                ;
                if let Some(c) = char_from_u32(v) {
                    return Some(c);
                }
                assert(false) by {
                    assert(is_scalar(v));
                }
            }
        }
        *pos = p;
        assert(escape_hex_at(input, limit as int, p as int) is None);
        if "u{".run(ctx, limit, pos).is_some() {
            let ds = read_digits_upto(ctx, limit, pos, 16, 7);
            if ds.len() >= 1 {
                if '}'.parse(ctx, limit, pos).is_some() {
                    let v = hex_value(&ds);
                    if let Some(c) = char_from_u32(v) {
                        return Some(c);
                    }
                }
            }
        }
        *pos = p;
        None
    }
}

/// The value of at most seven hexadecimal digits.
fn hex_value(ds: &Vec<u32>) -> (v: u32)
    requires
        ds@.len() <= 7,
        forall|i: int| 0 <= i < ds@.len() ==> ds@[i] < 16,
    ensures
        v == digits_fold(0, ds@, 16),
{
    let mut v: u32 = 0;
    let mut i: usize = 0;
    assert(ds@.skip(0) =~= ds@);
    while i < ds.len()
        invariant
            i <= ds@.len() <= 7,
            forall|j: int| 0 <= j < ds@.len() ==> ds@[j] < 16,
            v < pow16(i as nat),
            digits_fold(0, ds@, 16) == digits_fold(v as int, ds@.skip(i as int), 16),
        decreases ds@.len() - i,
    {
        proof {
            assert(ds@.skip(i as int).drop_first() =~= ds@.skip(i + 1));
            lemma_pow16_bound(i as nat);
        }
        v = v * 16 + ds[i];
        i = i + 1;
    }
    proof {
        assert(ds@.skip(i as int) =~= Seq::<u32>::empty());
    }
    v
}

/// 16 to the power `n`.
pub open spec fn pow16(n: nat) -> int
    decreases n,
{
    if n == 0 {
        1
    } else {
        16 * pow16((n - 1) as nat)
    }
}

proof fn lemma_pow16_bound(n: nat)
    requires
        n < 7,
    ensures
        16 * pow16(n) <= 0x1000_0000,
{
    reveal_with_fuel(pow16, 8);
    if n == 0 {
    } else if n == 1 {
    } else if n == 2 {
    } else if n == 3 {
    } else if n == 4 {
    } else if n == 5 {
    } else {
        assert(n == 6);
    }
}

/// The generator of escape-sequence parsers.
pub struct EscapeChar;

impl Generator for EscapeChar {
    type O = char;

    type P = EscapeParser;

    open spec fn gen_accepts(input: Seq<u8>, limit: int, pos: int, res: Option<char>, end: int) -> bool {
        escape_outcome(input, limit, pos, res, end)
    }

    fn generate(ctx: &Context) -> (p: EscapeParser) {
        EscapeParser
    }
}

/// A character of a string literal's body at `p`: an escape sequence, or else any character
/// but a double quote or a backslash.
pub open spec fn string_char_at(input: Seq<u8>, limit: int, p: int) -> Option<(char, int)> {
    match escape_at(input, limit, p) {
        Some(r) => Some(r),
        None => match next_char(input, limit, p) {
            Some((c, e)) => if c != '"' && c != '\\' {
                Some((c, e))
            } else {
                None
            },
            None => None,
        },
    }
}

/// The characters of a string literal's body from `p` on, as many as there are, and the
/// position after them.
pub open spec fn string_chars(input: Seq<u8>, limit: int, p: int) -> (Seq<char>, int)
    decreases limit - p,
{
    match string_char_at(input, limit, p) {
        Some((c, e)) => if p < e <= limit {
            let rest = string_chars(input, limit, e);
            (seq![c] + rest.0, rest.1)
        } else {
            (seq![], p)
        },
        None => (seq![], p),
    }
}

/// The string literal at `pos`: a double quote, the body, and a closing double quote. Yields
/// the characters (or `None`) and where the cursor ends: after the closing quote; where it
/// started when there is no opening quote; after the body when there is no closing quote.
pub open spec fn string_at(input: Seq<u8>, limit: int, pos: int) -> (Option<Seq<char>>, int) {
    if matches_at(input, limit, pos, char_bytes('"')) {
        let (cs, q) = string_chars(input, limit, pos + char_bytes('"').len());
        if matches_at(input, limit, q, char_bytes('"')) {
            (Some(cs), q + char_bytes('"').len())
        } else {
            (None, q)
        }
    } else {
        (None, pos)
    }
}

/// The outcome of reading a string literal, as `string_at` gives it.
pub open spec fn string_outcome(input: Seq<u8>, limit: int, pos: int, res: Option<String>, end: int) -> bool {
    let (r, e) = string_at(input, limit, pos);
    &&& end == e
    &&& match res {
        Some(s) => r == Some(s@),
        None => r is None,
    }
}

/// An escape sequence ends after where it starts and at or before the limit.
pub proof fn lemma_escape_bounds(input: Seq<u8>, limit: int, pos: int)
    requires
        0 <= pos <= limit <= input.len(),
    ensures
        escape_at(input, limit, pos) matches Some((c, e)) ==> pos < e <= limit,
{
    let p = pos + char_bytes('\\').len();
    if matches_at(input, limit, pos, char_bytes('\\')) {
        lemma_next_char_bounds(input, limit, p);
        if matches_at(input, limit, p, char_bytes('x')) {
            lemma_digits_upto_bounds(input, limit, 16, p + char_bytes('x').len(), 3);
        }
        if matches_at(input, limit, p, "u{".spec_bytes()) {
            lemma_digits_upto_bounds(input, limit, 16, p + "u{".spec_bytes().len(), 7);
        }
    }
}

/// Reading up to `n` digits from `q` ends between `q` and `limit`.
pub proof fn lemma_digits_upto_bounds(input: Seq<u8>, limit: int, radix: u32, q: int, n: nat)
    requires
        0 <= q <= limit <= input.len(),
    ensures
        q <= digits_upto(input, limit, radix, q, n).1 <= limit,
    decreases n,
{
    if n > 0 {
        lemma_next_char_bounds(input, limit, q);
        match digit_step(input, limit, radix, q) {
            (Some(d), e) => {
                lemma_digits_upto_bounds(input, limit, radix, e, (n - 1) as nat);
            },
            (None, _) => {},
        }
    }
}

/// The body of a string literal ends between `p` and `limit`.
pub proof fn lemma_string_chars_bounds(input: Seq<u8>, limit: int, p: int)
    requires
        p <= limit,
    ensures
        p <= string_chars(input, limit, p).1 <= limit,
    decreases limit - p,
{
    match string_char_at(input, limit, p) {
        Some((c, e)) => if p < e <= limit {
            lemma_string_chars_bounds(input, limit, e);
        },
        None => {},
    }
}

/// Reads a string literal in double quotes, with escape sequences, into a `String`.
#[derive(Copy, Clone, Debug)]
pub struct StringParser;

impl Parser for StringParser {
    type O = String;

    open spec fn well_formed(&self) -> bool {
        true
    }

    open spec fn accepts(&self, input: Seq<u8>, limit: int, pos: int, res: Option<String>, end: int) -> bool {
        string_outcome(input, limit, pos, res, end)
    }

    fn impl_parse(&self, ctx: &Context, limit: usize, pos: &mut usize) -> (res: Option<String>) {
        let ghost input = ctx.input();
        let start = *pos;
        if '"'.parse(ctx, limit, pos).is_none() {
            return None;
        }
        let p0 = *pos;
        let mut s = String::new();
        loop
            invariant_except_break
                p0 <= *pos <= limit <= input.len(),
                input == ctx.input(),
                string_chars(input, limit as int, p0 as int) == (
                    s@ + string_chars(input, limit as int, *pos as int).0,
                    string_chars(input, limit as int, *pos as int).1,
                ),
            ensures
                p0 <= *pos <= limit <= input.len(),
                string_chars(input, limit as int, p0 as int) == (s@, *pos as int),
            decreases limit - *pos,
        {
            let rewind = *pos;
            proof {
                lemma_escape_bounds(input, limit as int, rewind as int);
                lemma_next_char_bounds(input, limit as int, rewind as int);
            }
            let c = match EscapeParser.parse(ctx, limit, pos) {
                Some(c) => c,
                None => {
                    *pos = rewind;
                    match AnyChar.parse(ctx, limit, pos) {
                        Some(c) => {
                            if c == '"' || c == '\\' {
                                *pos = rewind;
                                proof {
                                    assert(string_chars(input, limit as int, rewind as int).0 =~= Seq::<char>::empty());
                                    assert(s@ + Seq::<char>::empty() =~= s@);
                                }
                                break;
                            }
                            c
                        },
                        None => {
                            *pos = rewind;
                            proof {
                                assert(s@ + Seq::<char>::empty() =~= s@);
                            }
                            break;
                        },
                    }
                },
            };
            assert(string_char_at(input, limit as int, rewind as int) == Some((c, *pos as int)));
            let ghost old_s = s@;
            string_push(&mut s, c);
            proof {
                let rest = string_chars(input, limit as int, *pos as int);
                assert(string_chars(input, limit as int, rewind as int) == (seq![c] + rest.0, rest.1));
                assert(old_s + (seq![c] + rest.0) =~= s@ + rest.0);
            }
        }
        if '"'.parse(ctx, limit, pos).is_none() {
            return None;
        }
        Some(s)
    }
}

impl Generator for String {
    type O = String;

    type P = StringParser;

    open spec fn gen_accepts(input: Seq<u8>, limit: int, pos: int, res: Option<String>, end: int) -> bool {
        string_outcome(input, limit, pos, res, end)
    }

    fn generate(ctx: &Context) -> (p: StringParser) {
        StringParser
    }
}

} // verus!
