use crate::context::{matches_at, Context, Parser, ParserExt};
use vstd::prelude::*;
use vstd::string::StringSliceAdditionalSpecFns;
use vstd::utf8::*;

verus! {

/// The UTF-8 bytes of one character.
pub open spec fn char_bytes(c: char) -> Seq<u8> {
    encode_scalar(c as u32)
}

/// The UTF-8 encoding of `c`.
pub fn encode_char(c: char) -> (v: Vec<u8>)
    ensures
        v@ == char_bytes(c),
{
    let s = c as u32;
    let mut v: Vec<u8> = Vec::new();
    if s <= 0x7F {
        v.push((s & 0x7F) as u8);
    } else if s <= 0x7FF {
        v.push(0xC0 | ((s >> 6) & 0x1F) as u8);
        v.push(0x80 | (s & 0x3F) as u8);
    } else if s <= 0xFFFF {
        v.push(0xE0 | ((s >> 12) & 0x0F) as u8);
        v.push(0x80 | ((s >> 6) & 0x3F) as u8);
        v.push(0x80 | (s & 0x3F) as u8);
    } else {
        v.push(0xF0 | ((s >> 18) & 0x7) as u8);
        v.push(0x80 | ((s >> 12) & 0x3F) as u8);
        v.push(0x80 | ((s >> 6) & 0x3F) as u8);
        v.push(0x80 | (s & 0x3F) as u8);
    }
    proof {
        char_is_scalar(c);
    }
    assert(v@ =~= char_bytes(c));
    v
}

/// Whether the bytes of `input` from `pos` start with `pat`, ending at or before `limit`.
pub fn bytes_match_at(input: &[u8], limit: usize, pos: usize, pat: &[u8]) -> (b: bool)
    requires
        pos <= limit <= input@.len(),
    ensures
        b == matches_at(input@, limit as int, pos as int, pat@),
{
    if limit - pos < pat.len() {
        return false;
    }
    let mut i: usize = 0;
    while i < pat.len()
        invariant
            pos + pat@.len() <= limit <= input@.len(),
            i <= pat@.len(),
            forall|j: int| 0 <= j < i ==> input@[pos + j] == pat@[j],
        decreases pat@.len() - i,
    {
        if input[pos + i] != pat[i] {
            assert(input@.subrange(pos as int, pos + pat@.len())[i as int] != pat@[i as int]);
            return false;
        }
        i = i + 1;
    }
    assert(input@.subrange(pos as int, pos + pat@.len()) =~= pat@);
    true
}

/// The outcome of matching a fixed byte string: on a match the cursor moves past it, else it stays.
pub open spec fn literal_outcome<T>(input: Seq<u8>, limit: int, pos: int, pat: Seq<u8>, value: T, res: Option<T>, end: int) -> bool {
    if matches_at(input, limit, pos, pat) {
        res == Some(value) && end == pos + pat.len()
    } else {
        res is None && end == pos
    }
}

impl Parser for char {
    type O = char;

    open spec fn well_formed(&self) -> bool {
        true
    }

    open spec fn accepts(&self, input: Seq<u8>, limit: int, pos: int, res: Option<char>, end: int) -> bool {
        literal_outcome(input, limit, pos, char_bytes(*self), *self, res, end)
    }

    fn impl_parse(&self, ctx: &Context, limit: usize, pos: &mut usize) -> (res: Option<char>) {
        let buf = encode_char(*self);
        if bytes_match_at(ctx.bytes(), limit, *pos, buf.as_slice()) {
            *pos = *pos + buf.len();
            Some(*self)
        } else {
            None
        }
    }
}

impl<'b> Parser for &'b str {
    type O = &'b str;

    open spec fn well_formed(&self) -> bool {
        true
    }

    open spec fn accepts(&self, input: Seq<u8>, limit: int, pos: int, res: Option<&'b str>, end: int) -> bool {
        literal_outcome(input, limit, pos, self.spec_bytes(), *self, res, end)
    }

    fn impl_parse(&self, ctx: &Context, limit: usize, pos: &mut usize) -> (res: Option<&'b str>) {
        let pat = self.as_bytes();
        if bytes_match_at(ctx.bytes(), limit, *pos, pat) {
            *pos = *pos + pat.len();
            Some(*self)
        } else {
            None
        }
    }
}

/// The bytes of the word that a `bool` parser matches.
pub open spec fn bool_word(b: bool) -> Seq<u8> {
    if b {
        "true".spec_bytes()
    } else {
        "false".spec_bytes()
    }
}

impl Parser for bool {
    type O = bool;

    open spec fn well_formed(&self) -> bool {
        true
    }

    open spec fn accepts(&self, input: Seq<u8>, limit: int, pos: int, res: Option<bool>, end: int) -> bool {
        literal_outcome(input, limit, pos, bool_word(*self), *self, res, end)
    }

    fn impl_parse(&self, ctx: &Context, limit: usize, pos: &mut usize) -> (res: Option<bool>) {
        let word = match *self {
            true => "true",
            false => "false",
        };
        let r = word.run(ctx, limit, pos);
        match r {
            Some(_) => Some(*self),
            None => None,
        }
    }
}

impl Parser for () {
    type O = ();

    open spec fn well_formed(&self) -> bool {
        true
    }

    open spec fn accepts(&self, input: Seq<u8>, limit: int, pos: int, res: Option<()>, end: int) -> bool {
        res == Some(()) && end == pos
    }

    fn impl_parse(&self, ctx: &Context, limit: usize, pos: &mut usize) -> (res: Option<()>) {
        Some(())
    }
}

} // verus!
