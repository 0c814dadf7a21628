use crate::context::{Context, Parser};
use crate::parsers::numbers::{bigint_value, integer_outcome, number_at};
use num::bigint::BigInt;
use crate::parsers::chars::next_char;
use core::ops::{Range, RangeInclusive};
use vstd::prelude::*;

verus! {

/// Reading one character and keeping it when `inside` says so; the character is consumed either
/// way.
pub open spec fn char_in_outcome(input: Seq<u8>, limit: int, pos: int, lo: char, hi: char, inclusive: bool, res: Option<char>, end: int) -> bool {
    match next_char(input, limit, pos) {
        Some((c, e)) => end == e && res == (if lo <= c && (c < hi || (inclusive && c == hi)) {
            Some(c)
        } else {
            None
        }),
        None => res is None && end == pos,
    }
}

impl Parser for Range<char> {
    type O = char;

    open spec fn well_formed(&self) -> bool {
        true
    }

    open spec fn accepts(&self, input: Seq<u8>, limit: int, pos: int, res: Option<char>, end: int) -> bool {
        char_in_outcome(input, limit, pos, self.start, self.end, false, res, end)
    }

    fn impl_parse(&self, ctx: &Context, limit: usize, pos: &mut usize) -> (res: Option<char>) {
        match ctx.parse::<char>(limit, pos) {
            Some(c) => if self.start <= c && c < self.end {
                Some(c)
            } else {
                None
            },
            None => None,
        }
    }
}

/// Calls `RangeInclusive::contains`: whether `c` lies in the range, whose end counts only while
/// the range has not been iterated to exhaustion.
#[verifier::external_body]
fn char_range_contains(r: &RangeInclusive<char>, c: &char) -> (b: bool)
    ensures
        b == (r@.start <= *c && if r@.exhausted {
            *c < r@.end
        } else {
            *c <= r@.end
        }),
{
    r.contains(c)
}

impl Parser for RangeInclusive<char> {
    type O = char;

    open spec fn well_formed(&self) -> bool {
        true
    }

    /// A character, kept when it lies in the range (its end excluded once the range has been
    /// iterated to exhaustion).
    open spec fn accepts(&self, input: Seq<u8>, limit: int, pos: int, res: Option<char>, end: int) -> bool {
        char_in_outcome(input, limit, pos, self@.start, self@.end, !self@.exhausted, res, end)
    }

    fn impl_parse(&self, ctx: &Context, limit: usize, pos: &mut usize) -> (res: Option<char>) {
        match ctx.parse::<char>(limit, pos) {
            Some(c) => if char_range_contains(self, &c) {
                Some(c)
            } else {
                None
            },
            None => None,
        }
    }
}


impl Parser for Range<u8> {
    type O = u8;

    open spec fn well_formed(&self) -> bool {
        true
    }

    /// A number read as `u8`, kept when it lies in the range.
    open spec fn accepts(&self, input: Seq<u8>, limit: int, pos: int, res: Option<u8>, end: int) -> bool {
        integer_outcome(input, limit, pos, match res { Some(x) => Some(x as int), None => None }, end, self.start as int, self.end - 1)
    }

    fn impl_parse(&self, ctx: &Context, limit: usize, pos: &mut usize) -> (res: Option<u8>) {
        match ctx.parse::<u8>(limit, pos) {
            Some(v) => if self.start <= v && v < self.end {
                Some(v)
            } else {
                None
            },
            None => None,
        }
    }
}

impl Parser for RangeInclusive<u8> {
    type O = u8;

    open spec fn well_formed(&self) -> bool {
        true
    }

    /// A number read as `u8`, kept when it lies in the range (its end excluded once the range
    /// has been iterated to exhaustion).
    open spec fn accepts(&self, input: Seq<u8>, limit: int, pos: int, res: Option<u8>, end: int) -> bool {
        integer_outcome(input, limit, pos, match res { Some(x) => Some(x as int), None => None }, end, self@.start as int, if self@.exhausted {
            self@.end - 1
        } else {
            self@.end as int
        })
    }

    fn impl_parse(&self, ctx: &Context, limit: usize, pos: &mut usize) -> (res: Option<u8>) {
        match ctx.parse::<u8>(limit, pos) {
            Some(v) => if self.contains(&v) {
                Some(v)
            } else {
                None
            },
            None => None,
        }
    }
}

impl Parser for Range<u16> {
    type O = u16;

    open spec fn well_formed(&self) -> bool {
        true
    }

    /// A number read as `u16`, kept when it lies in the range.
    open spec fn accepts(&self, input: Seq<u8>, limit: int, pos: int, res: Option<u16>, end: int) -> bool {
        integer_outcome(input, limit, pos, match res { Some(x) => Some(x as int), None => None }, end, self.start as int, self.end - 1)
    }

    fn impl_parse(&self, ctx: &Context, limit: usize, pos: &mut usize) -> (res: Option<u16>) {
        match ctx.parse::<u16>(limit, pos) {
            Some(v) => if self.start <= v && v < self.end {
                Some(v)
            } else {
                None
            },
            None => None,
        }
    }
}

impl Parser for RangeInclusive<u16> {
    type O = u16;

    open spec fn well_formed(&self) -> bool {
        true
    }

    /// A number read as `u16`, kept when it lies in the range (its end excluded once the range
    /// has been iterated to exhaustion).
    open spec fn accepts(&self, input: Seq<u8>, limit: int, pos: int, res: Option<u16>, end: int) -> bool {
        integer_outcome(input, limit, pos, match res { Some(x) => Some(x as int), None => None }, end, self@.start as int, if self@.exhausted {
            self@.end - 1
        } else {
            self@.end as int
        })
    }

    fn impl_parse(&self, ctx: &Context, limit: usize, pos: &mut usize) -> (res: Option<u16>) {
        match ctx.parse::<u16>(limit, pos) {
            Some(v) => if self.contains(&v) {
                Some(v)
            } else {
                None
            },
            None => None,
        }
    }
}

impl Parser for Range<u32> {
    type O = u32;

    open spec fn well_formed(&self) -> bool {
        true
    }

    /// A number read as `u32`, kept when it lies in the range.
    open spec fn accepts(&self, input: Seq<u8>, limit: int, pos: int, res: Option<u32>, end: int) -> bool {
        integer_outcome(input, limit, pos, match res { Some(x) => Some(x as int), None => None }, end, self.start as int, self.end - 1)
    }

    fn impl_parse(&self, ctx: &Context, limit: usize, pos: &mut usize) -> (res: Option<u32>) {
        match ctx.parse::<u32>(limit, pos) {
            Some(v) => if self.start <= v && v < self.end {
                Some(v)
            } else {
                None
            },
            None => None,
        }
    }
}

impl Parser for RangeInclusive<u32> {
    type O = u32;

    open spec fn well_formed(&self) -> bool {
        true
    }

    /// A number read as `u32`, kept when it lies in the range (its end excluded once the range
    /// has been iterated to exhaustion).
    open spec fn accepts(&self, input: Seq<u8>, limit: int, pos: int, res: Option<u32>, end: int) -> bool {
        integer_outcome(input, limit, pos, match res { Some(x) => Some(x as int), None => None }, end, self@.start as int, if self@.exhausted {
            self@.end - 1
        } else {
            self@.end as int
        })
    }

    fn impl_parse(&self, ctx: &Context, limit: usize, pos: &mut usize) -> (res: Option<u32>) {
        match ctx.parse::<u32>(limit, pos) {
            Some(v) => if self.contains(&v) {
                Some(v)
            } else {
                None
            },
            None => None,
        }
    }
}

impl Parser for Range<u64> {
    type O = u64;

    open spec fn well_formed(&self) -> bool {
        true
    }

    /// A number read as `u64`, kept when it lies in the range.
    open spec fn accepts(&self, input: Seq<u8>, limit: int, pos: int, res: Option<u64>, end: int) -> bool {
        integer_outcome(input, limit, pos, match res { Some(x) => Some(x as int), None => None }, end, self.start as int, self.end - 1)
    }

    fn impl_parse(&self, ctx: &Context, limit: usize, pos: &mut usize) -> (res: Option<u64>) {
        match ctx.parse::<u64>(limit, pos) {
            Some(v) => if self.start <= v && v < self.end {
                Some(v)
            } else {
                None
            },
            None => None,
        }
    }
}

impl Parser for RangeInclusive<u64> {
    type O = u64;

    open spec fn well_formed(&self) -> bool {
        true
    }

    /// A number read as `u64`, kept when it lies in the range (its end excluded once the range
    /// has been iterated to exhaustion).
    open spec fn accepts(&self, input: Seq<u8>, limit: int, pos: int, res: Option<u64>, end: int) -> bool {
        integer_outcome(input, limit, pos, match res { Some(x) => Some(x as int), None => None }, end, self@.start as int, if self@.exhausted {
            self@.end - 1
        } else {
            self@.end as int
        })
    }

    fn impl_parse(&self, ctx: &Context, limit: usize, pos: &mut usize) -> (res: Option<u64>) {
        match ctx.parse::<u64>(limit, pos) {
            Some(v) => if self.contains(&v) {
                Some(v)
            } else {
                None
            },
            None => None,
        }
    }
}

impl Parser for Range<u128> {
    type O = u128;

    open spec fn well_formed(&self) -> bool {
        true
    }

    /// A number read as `u128`, kept when it lies in the range.
    open spec fn accepts(&self, input: Seq<u8>, limit: int, pos: int, res: Option<u128>, end: int) -> bool {
        integer_outcome(input, limit, pos, match res { Some(x) => Some(x as int), None => None }, end, self.start as int, self.end - 1)
    }

    fn impl_parse(&self, ctx: &Context, limit: usize, pos: &mut usize) -> (res: Option<u128>) {
        match ctx.parse::<u128>(limit, pos) {
            Some(v) => if self.start <= v && v < self.end {
                Some(v)
            } else {
                None
            },
            None => None,
        }
    }
}

impl Parser for RangeInclusive<u128> {
    type O = u128;

    open spec fn well_formed(&self) -> bool {
        true
    }

    /// A number read as `u128`, kept when it lies in the range (its end excluded once the range
    /// has been iterated to exhaustion).
    open spec fn accepts(&self, input: Seq<u8>, limit: int, pos: int, res: Option<u128>, end: int) -> bool {
        integer_outcome(input, limit, pos, match res { Some(x) => Some(x as int), None => None }, end, self@.start as int, if self@.exhausted {
            self@.end - 1
        } else {
            self@.end as int
        })
    }

    fn impl_parse(&self, ctx: &Context, limit: usize, pos: &mut usize) -> (res: Option<u128>) {
        match ctx.parse::<u128>(limit, pos) {
            Some(v) => if self.contains(&v) {
                Some(v)
            } else {
                None
            },
            None => None,
        }
    }
}

impl Parser for Range<usize> {
    type O = usize;

    open spec fn well_formed(&self) -> bool {
        true
    }

    /// A number read as `usize`, kept when it lies in the range.
    open spec fn accepts(&self, input: Seq<u8>, limit: int, pos: int, res: Option<usize>, end: int) -> bool {
        integer_outcome(input, limit, pos, match res { Some(x) => Some(x as int), None => None }, end, self.start as int, self.end - 1)
    }

    fn impl_parse(&self, ctx: &Context, limit: usize, pos: &mut usize) -> (res: Option<usize>) {
        match ctx.parse::<usize>(limit, pos) {
            Some(v) => if self.start <= v && v < self.end {
                Some(v)
            } else {
                None
            },
            None => None,
        }
    }
}

impl Parser for RangeInclusive<usize> {
    type O = usize;

    open spec fn well_formed(&self) -> bool {
        true
    }

    /// A number read as `usize`, kept when it lies in the range (its end excluded once the range
    /// has been iterated to exhaustion).
    open spec fn accepts(&self, input: Seq<u8>, limit: int, pos: int, res: Option<usize>, end: int) -> bool {
        integer_outcome(input, limit, pos, match res { Some(x) => Some(x as int), None => None }, end, self@.start as int, if self@.exhausted {
            self@.end - 1
        } else {
            self@.end as int
        })
    }

    fn impl_parse(&self, ctx: &Context, limit: usize, pos: &mut usize) -> (res: Option<usize>) {
        match ctx.parse::<usize>(limit, pos) {
            Some(v) => if self.contains(&v) {
                Some(v)
            } else {
                None
            },
            None => None,
        }
    }
}

impl Parser for Range<i8> {
    type O = i8;

    open spec fn well_formed(&self) -> bool {
        true
    }

    /// A number read as `i8`, kept when it lies in the range.
    open spec fn accepts(&self, input: Seq<u8>, limit: int, pos: int, res: Option<i8>, end: int) -> bool {
        integer_outcome(input, limit, pos, match res { Some(x) => Some(x as int), None => None }, end, self.start as int, self.end - 1)
    }

    fn impl_parse(&self, ctx: &Context, limit: usize, pos: &mut usize) -> (res: Option<i8>) {
        match ctx.parse::<i8>(limit, pos) {
            Some(v) => if self.start <= v && v < self.end {
                Some(v)
            } else {
                None
            },
            None => None,
        }
    }
}

impl Parser for RangeInclusive<i8> {
    type O = i8;

    open spec fn well_formed(&self) -> bool {
        true
    }

    /// A number read as `i8`, kept when it lies in the range (its end excluded once the range
    /// has been iterated to exhaustion).
    open spec fn accepts(&self, input: Seq<u8>, limit: int, pos: int, res: Option<i8>, end: int) -> bool {
        integer_outcome(input, limit, pos, match res { Some(x) => Some(x as int), None => None }, end, self@.start as int, if self@.exhausted {
            self@.end - 1
        } else {
            self@.end as int
        })
    }

    fn impl_parse(&self, ctx: &Context, limit: usize, pos: &mut usize) -> (res: Option<i8>) {
        match ctx.parse::<i8>(limit, pos) {
            Some(v) => if self.contains(&v) {
                Some(v)
            } else {
                None
            },
            None => None,
        }
    }
}

impl Parser for Range<i16> {
    type O = i16;

    open spec fn well_formed(&self) -> bool {
        true
    }

    /// A number read as `i16`, kept when it lies in the range.
    open spec fn accepts(&self, input: Seq<u8>, limit: int, pos: int, res: Option<i16>, end: int) -> bool {
        integer_outcome(input, limit, pos, match res { Some(x) => Some(x as int), None => None }, end, self.start as int, self.end - 1)
    }

    fn impl_parse(&self, ctx: &Context, limit: usize, pos: &mut usize) -> (res: Option<i16>) {
        match ctx.parse::<i16>(limit, pos) {
            Some(v) => if self.start <= v && v < self.end {
                Some(v)
            } else {
                None
            },
            None => None,
        }
    }
}

impl Parser for RangeInclusive<i16> {
    type O = i16;

    open spec fn well_formed(&self) -> bool {
        true
    }

    /// A number read as `i16`, kept when it lies in the range (its end excluded once the range
    /// has been iterated to exhaustion).
    open spec fn accepts(&self, input: Seq<u8>, limit: int, pos: int, res: Option<i16>, end: int) -> bool {
        integer_outcome(input, limit, pos, match res { Some(x) => Some(x as int), None => None }, end, self@.start as int, if self@.exhausted {
            self@.end - 1
        } else {
            self@.end as int
        })
    }

    fn impl_parse(&self, ctx: &Context, limit: usize, pos: &mut usize) -> (res: Option<i16>) {
        match ctx.parse::<i16>(limit, pos) {
            Some(v) => if self.contains(&v) {
                Some(v)
            } else {
                None
            },
            None => None,
        }
    }
}

impl Parser for Range<i32> {
    type O = i32;

    open spec fn well_formed(&self) -> bool {
        true
    }

    /// A number read as `i32`, kept when it lies in the range.
    open spec fn accepts(&self, input: Seq<u8>, limit: int, pos: int, res: Option<i32>, end: int) -> bool {
        integer_outcome(input, limit, pos, match res { Some(x) => Some(x as int), None => None }, end, self.start as int, self.end - 1)
    }

    fn impl_parse(&self, ctx: &Context, limit: usize, pos: &mut usize) -> (res: Option<i32>) {
        match ctx.parse::<i32>(limit, pos) {
            Some(v) => if self.start <= v && v < self.end {
                Some(v)
            } else {
                None
            },
            None => None,
        }
    }
}

impl Parser for RangeInclusive<i32> {
    type O = i32;

    open spec fn well_formed(&self) -> bool {
        true
    }

    /// A number read as `i32`, kept when it lies in the range (its end excluded once the range
    /// has been iterated to exhaustion).
    open spec fn accepts(&self, input: Seq<u8>, limit: int, pos: int, res: Option<i32>, end: int) -> bool {
        integer_outcome(input, limit, pos, match res { Some(x) => Some(x as int), None => None }, end, self@.start as int, if self@.exhausted {
            self@.end - 1
        } else {
            self@.end as int
        })
    }

    fn impl_parse(&self, ctx: &Context, limit: usize, pos: &mut usize) -> (res: Option<i32>) {
        match ctx.parse::<i32>(limit, pos) {
            Some(v) => if self.contains(&v) {
                Some(v)
            } else {
                None
            },
            None => None,
        }
    }
}

impl Parser for Range<i64> {
    type O = i64;

    open spec fn well_formed(&self) -> bool {
        true
    }

    /// A number read as `i64`, kept when it lies in the range.
    open spec fn accepts(&self, input: Seq<u8>, limit: int, pos: int, res: Option<i64>, end: int) -> bool {
        integer_outcome(input, limit, pos, match res { Some(x) => Some(x as int), None => None }, end, self.start as int, self.end - 1)
    }

    fn impl_parse(&self, ctx: &Context, limit: usize, pos: &mut usize) -> (res: Option<i64>) {
        match ctx.parse::<i64>(limit, pos) {
            Some(v) => if self.start <= v && v < self.end {
                Some(v)
            } else {
                None
            },
            None => None,
        }
    }
}

impl Parser for RangeInclusive<i64> {
    type O = i64;

    open spec fn well_formed(&self) -> bool {
        true
    }

    /// A number read as `i64`, kept when it lies in the range (its end excluded once the range
    /// has been iterated to exhaustion).
    open spec fn accepts(&self, input: Seq<u8>, limit: int, pos: int, res: Option<i64>, end: int) -> bool {
        integer_outcome(input, limit, pos, match res { Some(x) => Some(x as int), None => None }, end, self@.start as int, if self@.exhausted {
            self@.end - 1
        } else {
            self@.end as int
        })
    }

    fn impl_parse(&self, ctx: &Context, limit: usize, pos: &mut usize) -> (res: Option<i64>) {
        match ctx.parse::<i64>(limit, pos) {
            Some(v) => if self.contains(&v) {
                Some(v)
            } else {
                None
            },
            None => None,
        }
    }
}

impl Parser for Range<i128> {
    type O = i128;

    open spec fn well_formed(&self) -> bool {
        true
    }

    /// A number read as `i128`, kept when it lies in the range.
    open spec fn accepts(&self, input: Seq<u8>, limit: int, pos: int, res: Option<i128>, end: int) -> bool {
        integer_outcome(input, limit, pos, match res { Some(x) => Some(x as int), None => None }, end, self.start as int, self.end - 1)
    }

    fn impl_parse(&self, ctx: &Context, limit: usize, pos: &mut usize) -> (res: Option<i128>) {
        match ctx.parse::<i128>(limit, pos) {
            Some(v) => if self.start <= v && v < self.end {
                Some(v)
            } else {
                None
            },
            None => None,
        }
    }
}

impl Parser for RangeInclusive<i128> {
    type O = i128;

    open spec fn well_formed(&self) -> bool {
        true
    }

    /// A number read as `i128`, kept when it lies in the range (its end excluded once the range
    /// has been iterated to exhaustion).
    open spec fn accepts(&self, input: Seq<u8>, limit: int, pos: int, res: Option<i128>, end: int) -> bool {
        integer_outcome(input, limit, pos, match res { Some(x) => Some(x as int), None => None }, end, self@.start as int, if self@.exhausted {
            self@.end - 1
        } else {
            self@.end as int
        })
    }

    fn impl_parse(&self, ctx: &Context, limit: usize, pos: &mut usize) -> (res: Option<i128>) {
        match ctx.parse::<i128>(limit, pos) {
            Some(v) => if self.contains(&v) {
                Some(v)
            } else {
                None
            },
            None => None,
        }
    }
}

impl Parser for Range<isize> {
    type O = isize;

    open spec fn well_formed(&self) -> bool {
        true
    }

    /// A number read as `isize`, kept when it lies in the range.
    open spec fn accepts(&self, input: Seq<u8>, limit: int, pos: int, res: Option<isize>, end: int) -> bool {
        integer_outcome(input, limit, pos, match res { Some(x) => Some(x as int), None => None }, end, self.start as int, self.end - 1)
    }

    fn impl_parse(&self, ctx: &Context, limit: usize, pos: &mut usize) -> (res: Option<isize>) {
        match ctx.parse::<isize>(limit, pos) {
            Some(v) => if self.start <= v && v < self.end {
                Some(v)
            } else {
                None
            },
            None => None,
        }
    }
}

impl Parser for RangeInclusive<isize> {
    type O = isize;

    open spec fn well_formed(&self) -> bool {
        true
    }

    /// A number read as `isize`, kept when it lies in the range (its end excluded once the range
    /// has been iterated to exhaustion).
    open spec fn accepts(&self, input: Seq<u8>, limit: int, pos: int, res: Option<isize>, end: int) -> bool {
        integer_outcome(input, limit, pos, match res { Some(x) => Some(x as int), None => None }, end, self@.start as int, if self@.exhausted {
            self@.end - 1
        } else {
            self@.end as int
        })
    }

    fn impl_parse(&self, ctx: &Context, limit: usize, pos: &mut usize) -> (res: Option<isize>) {
        match ctx.parse::<isize>(limit, pos) {
            Some(v) => if self.contains(&v) {
                Some(v)
            } else {
                None
            },
            None => None,
        }
    }
}

/// Calls `<BigInt as PartialOrd>::le`, which compares the integers.
#[verifier::external_body]
fn bigint_le(a: &BigInt, b: &BigInt) -> (r: bool)
    ensures
        r == (bigint_value(*a) <= bigint_value(*b)),
{
    a <= b
}

/// Calls `<BigInt as PartialOrd>::lt`, which compares the integers.
#[verifier::external_body]
fn bigint_lt(a: &BigInt, b: &BigInt) -> (r: bool)
    ensures
        r == (bigint_value(*a) < bigint_value(*b)),
{
    a < b
}

/// Reading a number, kept when it lies in `[lo, hi]`; the cursor ends after the number either
/// way.
pub open spec fn big_range_outcome(input: Seq<u8>, limit: int, pos: int, lo: int, hi: int, res: Option<BigInt>, end: int) -> bool {
    let (v, e) = number_at(input, limit, pos);
    &&& end == e
    &&& match res {
        Some(b) => v == Some(bigint_value(b)) && lo <= bigint_value(b) <= hi,
        None => v is None || !(lo <= v->0 <= hi),
    }
}

impl Parser for Range<BigInt> {
    type O = BigInt;

    open spec fn well_formed(&self) -> bool {
        true
    }

    /// A number, kept when it lies in the range.
    open spec fn accepts(&self, input: Seq<u8>, limit: int, pos: int, res: Option<BigInt>, end: int) -> bool {
        big_range_outcome(input, limit, pos, bigint_value(self.start), bigint_value(self.end) - 1, res, end)
    }

    fn impl_parse(&self, ctx: &Context, limit: usize, pos: &mut usize) -> (res: Option<BigInt>) {
        match ctx.parse::<BigInt>(limit, pos) {
            Some(v) => if bigint_le(&self.start, &v) && bigint_lt(&v, &self.end) {
                Some(v)
            } else {
                None
            },
            None => None,
        }
    }
}

/// Calls `RangeInclusive::contains`: whether `v` lies in the range, whose end counts only while
/// the range has not been iterated to exhaustion.
#[verifier::external_body]
fn bigint_range_contains(r: &RangeInclusive<BigInt>, v: &BigInt) -> (b: bool)
    ensures
        b == (bigint_value(r@.start) <= bigint_value(*v) && if r@.exhausted {
            bigint_value(*v) < bigint_value(r@.end)
        } else {
            bigint_value(*v) <= bigint_value(r@.end)
        }),
{
    r.contains(v)
}

impl Parser for RangeInclusive<BigInt> {
    type O = BigInt;

    open spec fn well_formed(&self) -> bool {
        true
    }

    /// A number, kept when it lies in the range (its end excluded once the range has been
    /// iterated to exhaustion).
    open spec fn accepts(&self, input: Seq<u8>, limit: int, pos: int, res: Option<BigInt>, end: int) -> bool {
        big_range_outcome(input, limit, pos, bigint_value(self@.start), if self@.exhausted {
            bigint_value(self@.end) - 1
        } else {
            bigint_value(self@.end)
        }, res, end)
    }

    fn impl_parse(&self, ctx: &Context, limit: usize, pos: &mut usize) -> (res: Option<BigInt>) {
        match ctx.parse::<BigInt>(limit, pos) {
            Some(v) => if bigint_range_contains(self, &v) {
                Some(v)
            } else {
                None
            },
            None => None,
        }
    }
}

} // verus!
