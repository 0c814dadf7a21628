use crate::context::{Context, Generator, Parser, ParserExt};
use bstr::ByteSlice;
use vstd::prelude::*;
use vstd::utf8::*;

verus! {

/// What `bstr` yields first when it walks `bytes` by characters: the start and end offsets of
/// the first character and the character, invalid UTF-8 standing as U+FFFD.
pub uninterp spec fn lossy_first_char(bytes: Seq<u8>) -> Option<(usize, usize, char)>;

/// What bstr documents of the first character it decodes from `bytes`: none for an empty
/// slice; else a start of 0 and an end between 1 and 4; a well-formed UTF-8 character with its
/// length; anything else U+FFFD over at most three bytes.
pub open spec fn lossy_decode_facts(bytes: Seq<u8>, r: Option<(usize, usize, char)>) -> bool {
    &&& (r is None <==> bytes.len() == 0)
    &&& (r matches Some((s, e, c)) ==> s == 0 && 1 <= e <= 4 && e <= bytes.len())
    &&& (valid_first_scalar(bytes) ==> r == Some(
        (0usize, length_of_first_scalar(bytes) as usize, decode_first_scalar(bytes) as char),
    ))
    &&& (bytes.len() > 0 && !valid_first_scalar(bytes) ==> (r matches Some((_, e, c)) && c as u32
        == 0xFFFD && e <= 3))
}

/// Calls `<[u8] as bstr::ByteSlice>::char_indices` and takes the first item. bstr decodes the
/// first character of a non-empty slice: a well-formed UTF-8 character comes with its length;
/// anything else is U+FFFD over one to three bytes (the maximal prefix of a valid sequence).
/// The contract names the result and states these facts; which length an invalid sequence
/// gets is left to the name.
#[verifier::external_body]
fn first_char_lossy(bytes: &[u8]) -> (r: Option<(usize, usize, char)>)
    ensures
        r == lossy_first_char(bytes@),
        lossy_decode_facts(bytes@, r),
{
    bytes.char_indices().next()
}

/// How many bytes an ill-formed sequence at the start of `w` takes up, as bstr reads it.
pub open spec fn invalid_len(w: Seq<u8>) -> int {
    match lossy_first_char(w) {
        Some((_, e, _)) => e as int,
        None => 0,
    }
}

/// The character that starts at `pos` (read up to `limit`) and the position after it, or
/// `None` at the limit. A well-formed UTF-8 character reads as itself; an ill-formed sequence
/// reads as U+FFFD over one to three bytes.
#[verifier::opaque]
pub open spec fn next_char(input: Seq<u8>, limit: int, pos: int) -> Option<(char, int)> {
    let w = input.subrange(pos, limit);
    if pos >= limit {
        None
    } else if valid_first_scalar(w) {
        Some((decode_first_scalar(w) as char, pos + length_of_first_scalar(w)))
    } else if 1 <= invalid_len(w) <= 3 && pos + invalid_len(w) <= limit {
        Some((0xFFFDu32 as char, pos + invalid_len(w)))
    } else {
        None
    }
}

/// A character read at `pos` ends after `pos` and at or before `limit`.
pub proof fn lemma_next_char_bounds(input: Seq<u8>, limit: int, pos: int)
    requires
        0 <= pos <= limit <= input.len(),
    ensures
        next_char(input, limit, pos) matches Some((c, e)) ==> pos < e <= limit,
{
    reveal(next_char);
}

/// Reads one character, whatever it is; invalid UTF-8 reads as U+FFFD.
#[derive(Copy, Clone)]
pub struct AnyChar;

impl Parser for AnyChar {
    type O = char;

    open spec fn well_formed(&self) -> bool {
        true
    }

    open spec fn accepts(&self, input: Seq<u8>, limit: int, pos: int, res: Option<char>, end: int) -> bool {
        match next_char(input, limit, pos) {
            Some((c, e)) => res == Some(c) && end == e,
            None => res is None && end == pos,
        }
    }

    fn impl_parse(&self, ctx: &Context, limit: usize, pos: &mut usize) -> (res: Option<char>) {
        reveal(next_char);
        let bytes = &ctx.bytes()[*pos..limit];
        match first_char_lossy(bytes) {
            Some((_, len, c)) => {
                proof {
                    if !valid_first_scalar(bytes@) {
                        char_u32_cast(c, 0xFFFDu32);
                    }
                }
                *pos = *pos + len;
                Some(c)
            },
            None => None,
        }
    }
}

impl Generator for char {
    type O = char;

    type P = AnyChar;

    open spec fn gen_accepts(input: Seq<u8>, limit: int, pos: int, res: Option<char>, end: int) -> bool {
        AnyChar.accepts(input, limit, pos, res, end)
    }

    fn generate(ctx: &Context) -> (p: AnyChar) {
        AnyChar
    }
}

/// The value of the digit `c` in base `radix`, as `char::to_digit` gives it.
pub open spec fn digit_value(c: char, radix: u32) -> Option<u32> {
    let v = c as u32;
    let d = if 48 <= v <= 57 {
        v - 48
    } else if 97 <= v <= 122 {
        v - 97 + 10
    } else if 65 <= v <= 90 {
        v - 65 + 10
    } else {
        100
    };
    if d < radix {
        Some(d as u32)
    } else {
        None
    }
}

/// The value of the digit `c` in base `radix`, if `c` is one.
pub fn to_digit(c: char, radix: u32) -> (r: Option<u32>)
    requires
        2 <= radix <= 36,
    ensures
        r == digit_value(c, radix),
{
    let v = c as u32;
    let d: u32 = if 48 <= v && v <= 57 {
        v - 48
    } else if 97 <= v && v <= 122 {
        v - 97 + 10
    } else if 65 <= v && v <= 90 {
        v - 65 + 10
    } else {
        100
    };
    if d < radix {
        Some(d)
    } else {
        None
    }
}

/// Reads one character and yields its value as a digit in base `.0`; the character is
/// consumed even when it is not a digit.
#[derive(Copy, Clone, Debug)]
pub struct Digit(pub u32);

impl Parser for Digit {
    type O = u32;

    open spec fn well_formed(&self) -> bool {
        2 <= self.0 <= 36
    }

    open spec fn accepts(&self, input: Seq<u8>, limit: int, pos: int, res: Option<u32>, end: int) -> bool {
        match next_char(input, limit, pos) {
            Some((c, e)) => res == digit_value(c, self.0) && end == e,
            None => res is None && end == pos,
        }
    }

    fn impl_parse(&self, ctx: &Context, limit: usize, pos: &mut usize) -> (res: Option<u32>) {
        let c = ctx.parse::<char>(limit, pos);
        match c {
            Some(c) => to_digit(c, self.0),
            None => None,
        }
    }
}

} // verus!
