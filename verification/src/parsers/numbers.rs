use crate::context::{matches_at, Context, Generator, Parser, ParserExt};
use crate::parsers::chars::{digit_value, lemma_next_char_bounds, next_char, Digit};
use crate::parsers::primitive::char_bytes;
use num::bigint::BigInt;
use num::{ToPrimitive, Zero};
use vstd::prelude::*;
use vstd::string::StringSliceAdditionalSpecFns;

verus! {

#[verifier::external_type_specification]
#[verifier::external_body]
pub struct ExBigInt(BigInt);

/// The integer that a `num::BigInt` holds.
pub uninterp spec fn bigint_value(b: BigInt) -> int;

/// Calls `<BigInt as num::Zero>::zero`, the integer 0.
#[verifier::external_body]
fn bigint_zero() -> (r: BigInt)
    ensures
        bigint_value(r) == 0,
{
    BigInt::zero()
}

/// Calls `<BigInt as MulAssign<u32>>::mul_assign`, which multiplies in place.
#[verifier::external_body]
fn bigint_mul_u32(v: &mut BigInt, k: u32)
    ensures
        bigint_value(*final(v)) == bigint_value(*old(v)) * k,
{
    *v *= k;
}

/// Calls `<BigInt as AddAssign<u32>>::add_assign`, which adds in place.
#[verifier::external_body]
fn bigint_add_u32(v: &mut BigInt, k: u32)
    ensures
        bigint_value(*final(v)) == bigint_value(*old(v)) + k,
{
    *v += k;
}

/// Calls `<BigInt as Mul<i32>>::mul`, the product.
#[verifier::external_body]
fn bigint_mul_i32(v: BigInt, k: i32) -> (r: BigInt)
    ensures
        bigint_value(r) == bigint_value(v) * k,
{
    v * k
}

/// The sign that a number starts with, and the position after it: `-` is -1, `+` or nothing 1.
pub open spec fn sign_at(input: Seq<u8>, limit: int, pos: int) -> (int, int) {
    if matches_at(input, limit, pos, char_bytes('-')) {
        (-1, pos + char_bytes('-').len())
    } else if matches_at(input, limit, pos, char_bytes('+')) {
        (1, pos + char_bytes('+').len())
    } else {
        (1, pos)
    }
}

/// The radix that a prefix selects (`0x` 16, `0o` 8, `0b` 2, none 10) and the position after it.
pub open spec fn radix_at(input: Seq<u8>, limit: int, pos: int) -> (u32, int) {
    if matches_at(input, limit, pos, "0x".spec_bytes()) {
        (16, pos + "0x".spec_bytes().len())
    } else if matches_at(input, limit, pos, "0o".spec_bytes()) {
        (8, pos + "0o".spec_bytes().len())
    } else if matches_at(input, limit, pos, "0b".spec_bytes()) {
        (2, pos + "0b".spec_bytes().len())
    } else {
        (10, pos)
    }
}

/// Reading one digit of base `radix` at `q`: its value, if the character is one, and the
/// position after the character.
pub open spec fn digit_step(input: Seq<u8>, limit: int, radix: u32, q: int) -> (Option<u32>, int) {
    match next_char(input, limit, q) {
        Some((c, e)) => (digit_value(c, radix), e),
        None => (None, q),
    }
}

/// The digits of base `radix` from `q` on, as many as there are, and the position after them.
pub open spec fn digit_run(input: Seq<u8>, limit: int, radix: u32, q: int) -> (Seq<u32>, int)
    decreases limit - q,
{
    match next_char(input, limit, q) {
        Some((c, e)) => match digit_value(c, radix) {
            Some(d) => if q < e <= limit {
                let rest = digit_run(input, limit, radix, e);
                (seq![d] + rest.0, rest.1)
            } else {
                (seq![], q)
            },
            None => (seq![], q),
        },
        None => (seq![], q),
    }
}

/// The value of the digits `ds`, most significant first, in base `radix`, appended to the
/// digits whose value is `acc`.
pub open spec fn digits_fold(acc: int, ds: Seq<u32>, radix: int) -> int
    decreases ds.len(),
{
    if ds.len() == 0 {
        acc
    } else {
        digits_fold(acc * radix + ds[0], ds.drop_first(), radix)
    }
}

/// The number that starts at `pos`: an optional sign, an optional radix prefix and at least one
/// digit. Yields the value (or `None` when no digit follows) and where the cursor ends: after
/// the digits, or after the character that was not a digit.
pub open spec fn number_at(input: Seq<u8>, limit: int, pos: int) -> (Option<int>, int) {
    let (s, p1) = sign_at(input, limit, pos);
    let (r, p2) = radix_at(input, limit, p1);
    match digit_step(input, limit, r, p2) {
        (None, e) => (None, e),
        (Some(d), e) => {
            let (ds, q) = digit_run(input, limit, r, e);
            (Some(s * digits_fold(d as int, ds, r as int)), q)
        },
    }
}

/// The outcome of reading a number: the cursor ends where `number_at` says, with its value.
pub open spec fn number_outcome(input: Seq<u8>, limit: int, pos: int, res: Option<BigInt>, end: int) -> bool {
    let (v, e) = number_at(input, limit, pos);
    &&& end == e
    &&& match res {
        Some(b) => v == Some(bigint_value(b)),
        None => v is None,
    }
}

/// Reads an integer of any size: an optional sign, an optional radix prefix, and digits.
#[derive(Copy, Clone, Debug)]
pub struct NumberParser;

impl Parser for NumberParser {
    type O = BigInt;

    open spec fn well_formed(&self) -> bool {
        true
    }

    open spec fn accepts(&self, input: Seq<u8>, limit: int, pos: int, res: Option<BigInt>, end: int) -> bool {
        number_outcome(input, limit, pos, res, end)
    }

    fn impl_parse(&self, ctx: &Context, limit: usize, pos: &mut usize) -> (res: Option<BigInt>) {
        let ghost input = ctx.input();
        let start = *pos;
        let s: i32 = if '-'.parse(ctx, limit, pos).is_some() {
            -1
        } else if '+'.parse(ctx, limit, pos).is_some() {
            1
        } else {
            1
        };
        let p1 = *pos;
        assert((s as int, p1 as int) == sign_at(input, limit as int, start as int));
        let r: u32 = if "0x".run(ctx, limit, pos).is_some() {
            16
        } else if "0o".run(ctx, limit, pos).is_some() {
            8
        } else if "0b".run(ctx, limit, pos).is_some() {
            2
        } else {
            10
        };
        let p2 = *pos;
        assert((r, p2 as int) == radix_at(input, limit as int, p1 as int));
        let digit = Digit(r);
        let d0 = match digit.parse(ctx, limit, pos) {
            Some(d) => d,
            None => {
                return None;
            },
        };
        let mut val = bigint_zero();
        bigint_mul_u32(&mut val, r);
        bigint_add_u32(&mut val, d0);
        let e0 = *pos;
        proof {
            lemma_digit_run_bounds(input, limit as int, r, e0 as int);
        }
        assert(digit_step(input, limit as int, r, p2 as int) == (Some(d0), e0 as int));
        read_digits(ctx, limit, pos, &digit, &mut val);
        let out = bigint_mul_i32(val, s);
        assert(number_at(input, limit as int, start as int) == (
            Some(s * digits_fold(d0 as int, digit_run(input, limit as int, r, e0 as int).0, r as int)),
            digit_run(input, limit as int, r, e0 as int).1,
        ));
        Some(out)
    }
}

/// A run of digits from `q` ends between `q` and `limit`.
pub proof fn lemma_digit_run_bounds(input: Seq<u8>, limit: int, radix: u32, q: int)
    requires
        q <= limit,
    ensures
        q <= digit_run(input, limit, radix, q).1 <= limit,
    decreases limit - q,
{
    match next_char(input, limit, q) {
        Some((c, e)) => match digit_value(c, radix) {
            Some(d) => if q < e <= limit {
                lemma_digit_run_bounds(input, limit, radix, e);
            },
            None => {},
        },
        None => {},
    }
}


impl Generator for BigInt {
    type O = BigInt;

    type P = NumberParser;

    open spec fn gen_accepts(input: Seq<u8>, limit: int, pos: int, res: Option<BigInt>, end: int) -> bool {
        number_outcome(input, limit, pos, res, end)
    }

    fn generate(ctx: &Context) -> (p: NumberParser) {
        NumberParser
    }
}

/// Reads a number and converts it to the integer type `T`, failing when it does not fit; the
/// cursor ends after the number either way.
pub struct IntParser<T>(pub core::marker::PhantomData<T>);

/// The outcome of reading a number into an integer type with the range `[lo, hi]`.
/// (The result is given as an integer.)
pub open spec fn integer_outcome(input: Seq<u8>, limit: int, pos: int, res: Option<int>, end: int, lo: int, hi: int) -> bool {
    let (v, e) = number_at(input, limit, pos);
    &&& end == e
    &&& match res {
        Some(x) => v == Some(x) && lo <= x <= hi,
        None => v is None || !(lo <= v->0 <= hi),
    }
}

/// Calls `<BigInt as num::ToPrimitive>::to_u8`, which gives the value when it fits in `u8`.
#[verifier::external_body]
fn bigint_to_u8(v: &BigInt) -> (r: Option<u8>)
    ensures
        r == (if 0 <= bigint_value(*v) <= u8::MAX {
            Some(bigint_value(*v) as u8)
        } else {
            None
        }),
{
    v.to_u8()
}

impl Parser for IntParser<u8> {
    type O = u8;

    open spec fn well_formed(&self) -> bool {
        true
    }

    open spec fn accepts(&self, input: Seq<u8>, limit: int, pos: int, res: Option<u8>, end: int) -> bool {
        integer_outcome(input, limit, pos, match res { Some(x) => Some(x as int), None => None }, end, 0 as int, u8::MAX as int)
    }

    fn impl_parse(&self, ctx: &Context, limit: usize, pos: &mut usize) -> (res: Option<u8>) {
        match ctx.parse::<BigInt>(limit, pos) {
            Some(b) => bigint_to_u8(&b),
            None => None,
        }
    }
}

impl Generator for u8 {
    type O = u8;

    type P = IntParser<u8>;

    open spec fn gen_accepts(input: Seq<u8>, limit: int, pos: int, res: Option<u8>, end: int) -> bool {
        integer_outcome(input, limit, pos, match res { Some(x) => Some(x as int), None => None }, end, 0 as int, u8::MAX as int)
    }

    fn generate(ctx: &Context) -> (p: IntParser<u8>) {
        IntParser(core::marker::PhantomData)
    }
}

/// Calls `<BigInt as num::ToPrimitive>::to_u16`, which gives the value when it fits in `u16`.
#[verifier::external_body]
fn bigint_to_u16(v: &BigInt) -> (r: Option<u16>)
    ensures
        r == (if 0 <= bigint_value(*v) <= u16::MAX {
            Some(bigint_value(*v) as u16)
        } else {
            None
        }),
{
    v.to_u16()
}

impl Parser for IntParser<u16> {
    type O = u16;

    open spec fn well_formed(&self) -> bool {
        true
    }

    open spec fn accepts(&self, input: Seq<u8>, limit: int, pos: int, res: Option<u16>, end: int) -> bool {
        integer_outcome(input, limit, pos, match res { Some(x) => Some(x as int), None => None }, end, 0 as int, u16::MAX as int)
    }

    fn impl_parse(&self, ctx: &Context, limit: usize, pos: &mut usize) -> (res: Option<u16>) {
        match ctx.parse::<BigInt>(limit, pos) {
            Some(b) => bigint_to_u16(&b),
            None => None,
        }
    }
}

impl Generator for u16 {
    type O = u16;

    type P = IntParser<u16>;

    open spec fn gen_accepts(input: Seq<u8>, limit: int, pos: int, res: Option<u16>, end: int) -> bool {
        integer_outcome(input, limit, pos, match res { Some(x) => Some(x as int), None => None }, end, 0 as int, u16::MAX as int)
    }

    fn generate(ctx: &Context) -> (p: IntParser<u16>) {
        IntParser(core::marker::PhantomData)
    }
}

/// Calls `<BigInt as num::ToPrimitive>::to_u32`, which gives the value when it fits in `u32`.
#[verifier::external_body]
fn bigint_to_u32(v: &BigInt) -> (r: Option<u32>)
    ensures
        r == (if 0 <= bigint_value(*v) <= u32::MAX {
            Some(bigint_value(*v) as u32)
        } else {
            None
        }),
{
    v.to_u32()
}

impl Parser for IntParser<u32> {
    type O = u32;

    open spec fn well_formed(&self) -> bool {
        true
    }

    open spec fn accepts(&self, input: Seq<u8>, limit: int, pos: int, res: Option<u32>, end: int) -> bool {
        integer_outcome(input, limit, pos, match res { Some(x) => Some(x as int), None => None }, end, 0 as int, u32::MAX as int)
    }

    fn impl_parse(&self, ctx: &Context, limit: usize, pos: &mut usize) -> (res: Option<u32>) {
        match ctx.parse::<BigInt>(limit, pos) {
            Some(b) => bigint_to_u32(&b),
            None => None,
        }
    }
}

impl Generator for u32 {
    type O = u32;

    type P = IntParser<u32>;

    open spec fn gen_accepts(input: Seq<u8>, limit: int, pos: int, res: Option<u32>, end: int) -> bool {
        integer_outcome(input, limit, pos, match res { Some(x) => Some(x as int), None => None }, end, 0 as int, u32::MAX as int)
    }

    fn generate(ctx: &Context) -> (p: IntParser<u32>) {
        IntParser(core::marker::PhantomData)
    }
}

/// Calls `<BigInt as num::ToPrimitive>::to_u64`, which gives the value when it fits in `u64`.
#[verifier::external_body]
fn bigint_to_u64(v: &BigInt) -> (r: Option<u64>)
    ensures
        r == (if 0 <= bigint_value(*v) <= u64::MAX {
            Some(bigint_value(*v) as u64)
        } else {
            None
        }),
{
    v.to_u64()
}

impl Parser for IntParser<u64> {
    type O = u64;

    open spec fn well_formed(&self) -> bool {
        true
    }

    open spec fn accepts(&self, input: Seq<u8>, limit: int, pos: int, res: Option<u64>, end: int) -> bool {
        integer_outcome(input, limit, pos, match res { Some(x) => Some(x as int), None => None }, end, 0 as int, u64::MAX as int)
    }

    fn impl_parse(&self, ctx: &Context, limit: usize, pos: &mut usize) -> (res: Option<u64>) {
        match ctx.parse::<BigInt>(limit, pos) {
            Some(b) => bigint_to_u64(&b),
            None => None,
        }
    }
}

impl Generator for u64 {
    type O = u64;

    type P = IntParser<u64>;

    open spec fn gen_accepts(input: Seq<u8>, limit: int, pos: int, res: Option<u64>, end: int) -> bool {
        integer_outcome(input, limit, pos, match res { Some(x) => Some(x as int), None => None }, end, 0 as int, u64::MAX as int)
    }

    fn generate(ctx: &Context) -> (p: IntParser<u64>) {
        IntParser(core::marker::PhantomData)
    }
}

/// Calls `<BigInt as num::ToPrimitive>::to_u128`, which gives the value when it fits in `u128`.
#[verifier::external_body]
fn bigint_to_u128(v: &BigInt) -> (r: Option<u128>)
    ensures
        r == (if 0 <= bigint_value(*v) <= u128::MAX {
            Some(bigint_value(*v) as u128)
        } else {
            None
        }),
{
    v.to_u128()
}

impl Parser for IntParser<u128> {
    type O = u128;

    open spec fn well_formed(&self) -> bool {
        true
    }

    open spec fn accepts(&self, input: Seq<u8>, limit: int, pos: int, res: Option<u128>, end: int) -> bool {
        integer_outcome(input, limit, pos, match res { Some(x) => Some(x as int), None => None }, end, 0 as int, u128::MAX as int)
    }

    fn impl_parse(&self, ctx: &Context, limit: usize, pos: &mut usize) -> (res: Option<u128>) {
        match ctx.parse::<BigInt>(limit, pos) {
            Some(b) => bigint_to_u128(&b),
            None => None,
        }
    }
}

impl Generator for u128 {
    type O = u128;

    type P = IntParser<u128>;

    open spec fn gen_accepts(input: Seq<u8>, limit: int, pos: int, res: Option<u128>, end: int) -> bool {
        integer_outcome(input, limit, pos, match res { Some(x) => Some(x as int), None => None }, end, 0 as int, u128::MAX as int)
    }

    fn generate(ctx: &Context) -> (p: IntParser<u128>) {
        IntParser(core::marker::PhantomData)
    }
}

/// Calls `<BigInt as num::ToPrimitive>::to_usize`, which gives the value when it fits in `usize`.
#[verifier::external_body]
fn bigint_to_usize(v: &BigInt) -> (r: Option<usize>)
    ensures
        r == (if 0 <= bigint_value(*v) <= usize::MAX {
            Some(bigint_value(*v) as usize)
        } else {
            None
        }),
{
    v.to_usize()
}

impl Parser for IntParser<usize> {
    type O = usize;

    open spec fn well_formed(&self) -> bool {
        true
    }

    open spec fn accepts(&self, input: Seq<u8>, limit: int, pos: int, res: Option<usize>, end: int) -> bool {
        integer_outcome(input, limit, pos, match res { Some(x) => Some(x as int), None => None }, end, 0 as int, usize::MAX as int)
    }

    fn impl_parse(&self, ctx: &Context, limit: usize, pos: &mut usize) -> (res: Option<usize>) {
        match ctx.parse::<BigInt>(limit, pos) {
            Some(b) => bigint_to_usize(&b),
            None => None,
        }
    }
}

impl Generator for usize {
    type O = usize;

    type P = IntParser<usize>;

    open spec fn gen_accepts(input: Seq<u8>, limit: int, pos: int, res: Option<usize>, end: int) -> bool {
        integer_outcome(input, limit, pos, match res { Some(x) => Some(x as int), None => None }, end, 0 as int, usize::MAX as int)
    }

    fn generate(ctx: &Context) -> (p: IntParser<usize>) {
        IntParser(core::marker::PhantomData)
    }
}

/// Calls `<BigInt as num::ToPrimitive>::to_i8`, which gives the value when it fits in `i8`.
#[verifier::external_body]
fn bigint_to_i8(v: &BigInt) -> (r: Option<i8>)
    ensures
        r == (if i8::MIN <= bigint_value(*v) <= i8::MAX {
            Some(bigint_value(*v) as i8)
        } else {
            None
        }),
{
    v.to_i8()
}

impl Parser for IntParser<i8> {
    type O = i8;

    open spec fn well_formed(&self) -> bool {
        true
    }

    open spec fn accepts(&self, input: Seq<u8>, limit: int, pos: int, res: Option<i8>, end: int) -> bool {
        integer_outcome(input, limit, pos, match res { Some(x) => Some(x as int), None => None }, end, i8::MIN as int, i8::MAX as int)
    }

    fn impl_parse(&self, ctx: &Context, limit: usize, pos: &mut usize) -> (res: Option<i8>) {
        match ctx.parse::<BigInt>(limit, pos) {
            Some(b) => bigint_to_i8(&b),
            None => None,
        }
    }
}

impl Generator for i8 {
    type O = i8;

    type P = IntParser<i8>;

    open spec fn gen_accepts(input: Seq<u8>, limit: int, pos: int, res: Option<i8>, end: int) -> bool {
        integer_outcome(input, limit, pos, match res { Some(x) => Some(x as int), None => None }, end, i8::MIN as int, i8::MAX as int)
    }

    fn generate(ctx: &Context) -> (p: IntParser<i8>) {
        IntParser(core::marker::PhantomData)
    }
}

/// Calls `<BigInt as num::ToPrimitive>::to_i16`, which gives the value when it fits in `i16`.
#[verifier::external_body]
fn bigint_to_i16(v: &BigInt) -> (r: Option<i16>)
    ensures
        r == (if i16::MIN <= bigint_value(*v) <= i16::MAX {
            Some(bigint_value(*v) as i16)
        } else {
            None
        }),
{
    v.to_i16()
}

impl Parser for IntParser<i16> {
    type O = i16;

    open spec fn well_formed(&self) -> bool {
        true
    }

    open spec fn accepts(&self, input: Seq<u8>, limit: int, pos: int, res: Option<i16>, end: int) -> bool {
        integer_outcome(input, limit, pos, match res { Some(x) => Some(x as int), None => None }, end, i16::MIN as int, i16::MAX as int)
    }

    fn impl_parse(&self, ctx: &Context, limit: usize, pos: &mut usize) -> (res: Option<i16>) {
        match ctx.parse::<BigInt>(limit, pos) {
            Some(b) => bigint_to_i16(&b),
            None => None,
        }
    }
}

impl Generator for i16 {
    type O = i16;

    type P = IntParser<i16>;

    open spec fn gen_accepts(input: Seq<u8>, limit: int, pos: int, res: Option<i16>, end: int) -> bool {
        integer_outcome(input, limit, pos, match res { Some(x) => Some(x as int), None => None }, end, i16::MIN as int, i16::MAX as int)
    }

    fn generate(ctx: &Context) -> (p: IntParser<i16>) {
        IntParser(core::marker::PhantomData)
    }
}

/// Calls `<BigInt as num::ToPrimitive>::to_i32`, which gives the value when it fits in `i32`.
#[verifier::external_body]
fn bigint_to_i32(v: &BigInt) -> (r: Option<i32>)
    ensures
        r == (if i32::MIN <= bigint_value(*v) <= i32::MAX {
            Some(bigint_value(*v) as i32)
        } else {
            None
        }),
{
    v.to_i32()
}

impl Parser for IntParser<i32> {
    type O = i32;

    open spec fn well_formed(&self) -> bool {
        true
    }

    open spec fn accepts(&self, input: Seq<u8>, limit: int, pos: int, res: Option<i32>, end: int) -> bool {
        integer_outcome(input, limit, pos, match res { Some(x) => Some(x as int), None => None }, end, i32::MIN as int, i32::MAX as int)
    }

    fn impl_parse(&self, ctx: &Context, limit: usize, pos: &mut usize) -> (res: Option<i32>) {
        match ctx.parse::<BigInt>(limit, pos) {
            Some(b) => bigint_to_i32(&b),
            None => None,
        }
    }
}

impl Generator for i32 {
    type O = i32;

    type P = IntParser<i32>;

    open spec fn gen_accepts(input: Seq<u8>, limit: int, pos: int, res: Option<i32>, end: int) -> bool {
        integer_outcome(input, limit, pos, match res { Some(x) => Some(x as int), None => None }, end, i32::MIN as int, i32::MAX as int)
    }

    fn generate(ctx: &Context) -> (p: IntParser<i32>) {
        IntParser(core::marker::PhantomData)
    }
}

/// Calls `<BigInt as num::ToPrimitive>::to_i64`, which gives the value when it fits in `i64`.
#[verifier::external_body]
fn bigint_to_i64(v: &BigInt) -> (r: Option<i64>)
    ensures
        r == (if i64::MIN <= bigint_value(*v) <= i64::MAX {
            Some(bigint_value(*v) as i64)
        } else {
            None
        }),
{
    v.to_i64()
}

impl Parser for IntParser<i64> {
    type O = i64;

    open spec fn well_formed(&self) -> bool {
        true
    }

    open spec fn accepts(&self, input: Seq<u8>, limit: int, pos: int, res: Option<i64>, end: int) -> bool {
        integer_outcome(input, limit, pos, match res { Some(x) => Some(x as int), None => None }, end, i64::MIN as int, i64::MAX as int)
    }

    fn impl_parse(&self, ctx: &Context, limit: usize, pos: &mut usize) -> (res: Option<i64>) {
        match ctx.parse::<BigInt>(limit, pos) {
            Some(b) => bigint_to_i64(&b),
            None => None,
        }
    }
}

impl Generator for i64 {
    type O = i64;

    type P = IntParser<i64>;

    open spec fn gen_accepts(input: Seq<u8>, limit: int, pos: int, res: Option<i64>, end: int) -> bool {
        integer_outcome(input, limit, pos, match res { Some(x) => Some(x as int), None => None }, end, i64::MIN as int, i64::MAX as int)
    }

    fn generate(ctx: &Context) -> (p: IntParser<i64>) {
        IntParser(core::marker::PhantomData)
    }
}

/// Calls `<BigInt as num::ToPrimitive>::to_i128`, which gives the value when it fits in `i128`.
#[verifier::external_body]
fn bigint_to_i128(v: &BigInt) -> (r: Option<i128>)
    ensures
        r == (if i128::MIN <= bigint_value(*v) <= i128::MAX {
            Some(bigint_value(*v) as i128)
        } else {
            None
        }),
{
    v.to_i128()
}

impl Parser for IntParser<i128> {
    type O = i128;

    open spec fn well_formed(&self) -> bool {
        true
    }

    open spec fn accepts(&self, input: Seq<u8>, limit: int, pos: int, res: Option<i128>, end: int) -> bool {
        integer_outcome(input, limit, pos, match res { Some(x) => Some(x as int), None => None }, end, i128::MIN as int, i128::MAX as int)
    }

    fn impl_parse(&self, ctx: &Context, limit: usize, pos: &mut usize) -> (res: Option<i128>) {
        match ctx.parse::<BigInt>(limit, pos) {
            Some(b) => bigint_to_i128(&b),
            None => None,
        }
    }
}

impl Generator for i128 {
    type O = i128;

    type P = IntParser<i128>;

    open spec fn gen_accepts(input: Seq<u8>, limit: int, pos: int, res: Option<i128>, end: int) -> bool {
        integer_outcome(input, limit, pos, match res { Some(x) => Some(x as int), None => None }, end, i128::MIN as int, i128::MAX as int)
    }

    fn generate(ctx: &Context) -> (p: IntParser<i128>) {
        IntParser(core::marker::PhantomData)
    }
}

/// Calls `<BigInt as num::ToPrimitive>::to_isize`, which gives the value when it fits in `isize`.
#[verifier::external_body]
fn bigint_to_isize(v: &BigInt) -> (r: Option<isize>)
    ensures
        r == (if isize::MIN <= bigint_value(*v) <= isize::MAX {
            Some(bigint_value(*v) as isize)
        } else {
            None
        }),
{
    v.to_isize()
}

impl Parser for IntParser<isize> {
    type O = isize;

    open spec fn well_formed(&self) -> bool {
        true
    }

    open spec fn accepts(&self, input: Seq<u8>, limit: int, pos: int, res: Option<isize>, end: int) -> bool {
        integer_outcome(input, limit, pos, match res { Some(x) => Some(x as int), None => None }, end, isize::MIN as int, isize::MAX as int)
    }

    fn impl_parse(&self, ctx: &Context, limit: usize, pos: &mut usize) -> (res: Option<isize>) {
        match ctx.parse::<BigInt>(limit, pos) {
            Some(b) => bigint_to_isize(&b),
            None => None,
        }
    }
}

impl Generator for isize {
    type O = isize;

    type P = IntParser<isize>;

    open spec fn gen_accepts(input: Seq<u8>, limit: int, pos: int, res: Option<isize>, end: int) -> bool {
        integer_outcome(input, limit, pos, match res { Some(x) => Some(x as int), None => None }, end, isize::MIN as int, isize::MAX as int)
    }

    fn generate(ctx: &Context) -> (p: IntParser<isize>) {
        IntParser(core::marker::PhantomData)
    }
}

/// Reads digits of base `digit.0` while there are, adding each to the number in `val`; the
/// cursor ends after the last digit.
fn read_digits(ctx: &Context, limit: usize, pos: &mut usize, digit: &Digit, val: &mut BigInt)
    requires
        digit.well_formed(),
        *old(pos) <= limit <= ctx.input().len(),
    ensures
        (*final(pos) as int) == digit_run(ctx.input(), limit as int, digit.0, *old(pos) as int).1,
        bigint_value(*final(val)) == digits_fold(
            bigint_value(*old(val)),
            digit_run(ctx.input(), limit as int, digit.0, *old(pos) as int).0,
            digit.0 as int,
        ),
{
    let ghost input = ctx.input();
    let ghost r = digit.0;
    let ghost start = *pos;
    let ghost acc0 = bigint_value(*val);
    loop
        invariant_except_break
            start <= *pos <= limit <= input.len(),
            input == ctx.input(),
            digit.well_formed(),
            digit.0 == r,
            digits_fold(acc0, digit_run(input, limit as int, r, start as int).0, r as int)
                == digits_fold(bigint_value(*val), digit_run(input, limit as int, r, *pos as int).0, r as int),
            digit_run(input, limit as int, r, start as int).1 == digit_run(input, limit as int, r, *pos as int).1,
        ensures
            *pos as int == digit_run(input, limit as int, r, start as int).1,
            bigint_value(*val) == digits_fold(acc0, digit_run(input, limit as int, r, start as int).0, r as int),
        decreases limit - *pos,
    {
        let rewind = *pos;
        match digit.parse(ctx, limit, pos) {
            Some(d) => {
                let ghost before = bigint_value(*val);
                bigint_mul_u32(val, digit.0);
                bigint_add_u32(val, d);
                proof {
                    lemma_next_char_bounds(input, limit as int, rewind as int);
                    let rest = digit_run(input, limit as int, r, *pos as int);
                    assert(digit_run(input, limit as int, r, rewind as int) == (seq![d] + rest.0, rest.1));
                    assert((seq![d] + rest.0).drop_first() =~= rest.0);
                }
            },
            None => {
                *pos = rewind;
                break;
            },
        }
    }
}

} // verus!