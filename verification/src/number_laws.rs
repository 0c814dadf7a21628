use crate::context::matches_at;
use crate::parsers::chars::{digit_value, next_char};
use crate::parsers::numbers::{
    digit_run, digit_step, digits_fold, integer_outcome, number_at, radix_at, sign_at,
};
use crate::parsers::primitive::char_bytes;
use crate::laws::law_any_char_reads_encoding;
use crate::context::Parser;
use crate::parsers::numbers::{bigint_value, NumberParser};
use num::bigint::BigInt;
use core::ops::{Range, RangeInclusive};
use vstd::prelude::*;
use vstd::string::StringSliceAdditionalSpecFns;
use vstd::utf8::*;

verus! {

/// The digits of `n` in base `r`, most significant first, without leading zeros (`0` is one
/// digit).
pub open spec fn digits_of(n: nat, r: nat) -> Seq<u32>
    decreases n,
{
    if r < 2 || n < r {
        seq![n as u32]
    } else {
        proof {
            assert(n / r < n) by (nonlinear_arith)
                requires
                    r >= 2,
                    n >= r,
            ;
        }
        digits_of(n / r, r).push((n % r) as u32)
    }
}

/// The ASCII byte of a digit: `0`-`9`, then lower-case letters.
pub open spec fn digit_byte(d: u32) -> u8 {
    if d < 10 {
        (48 + d) as u8
    } else {
        (87 + d) as u8
    }
}

/// The prefix that selects a radix: `0x`, `0o`, `0b`, or nothing for decimal.
pub open spec fn radix_prefix(r: u32) -> Seq<u8> {
    if r == 16 {
        seq![48u8, 120u8]
    } else if r == 8 {
        seq![48u8, 111u8]
    } else if r == 2 {
        seq![48u8, 98u8]
    } else {
        seq![]
    }
}

/// The absolute value.
pub open spec fn abs(v: int) -> nat {
    if v < 0 {
        (-v) as nat
    } else {
        v as nat
    }
}

/// How an integer is written in base `r`: a minus sign when negative, the radix prefix, and the
/// digits.
pub open spec fn render(v: int, r: u32) -> Seq<u8> {
    (if v < 0 {
        seq![45u8]
    } else {
        seq![]
    }) + radix_prefix(r) + digits_of(abs(v), r as nat).map_values(|d: u32| digit_byte(d))
}

proof fn lemma_literal_bytes()
    ensures
        char_bytes('-') == seq![45u8],
        char_bytes('+') == seq![43u8],
        "0x".spec_bytes() == seq![48u8, 120u8],
        "0o".spec_bytes() == seq![48u8, 111u8],
        "0b".spec_bytes() == seq![48u8, 98u8],
{
    assert((45u32 & 0x7Fu32) as u8 == 45u8) by (bit_vector);
    assert((43u32 & 0x7Fu32) as u8 == 43u8) by (bit_vector);
    assert(char_bytes('-') =~= seq![45u8]);
    assert(char_bytes('+') =~= seq![43u8]);
    reveal_strlit("0x");
    reveal_strlit("0o");
    reveal_strlit("0b");
    vstd::string::is_ascii_spec_bytes("0x");
    vstd::string::is_ascii_spec_bytes("0o");
    vstd::string::is_ascii_spec_bytes("0b");
    assert("0x".spec_bytes() =~= seq![48u8, 120u8]);
    assert("0o".spec_bytes() =~= seq![48u8, 111u8]);
    assert("0b".spec_bytes() =~= seq![48u8, 98u8]);
}

/// An ASCII byte at `q` reads as the character with its code, taking one byte.
pub proof fn lemma_ascii_next_char(input: Seq<u8>, limit: int, q: int)
    requires
        0 <= q < limit <= input.len(),
        input[q] < 128,
    ensures
        next_char(input, limit, q) == Some(((input[q] as u32) as char, q + 1)),
{
    reveal(next_char);
    let b = input[q];
    let w = input.subrange(q, limit);
    assert(w[0] == b);
    assert(b & 0x7fu8 == b) by (bit_vector)
        requires
            b < 128,
    ;
    assert(((b & 0x7fu8) as u32) == b as u32);
}

proof fn lemma_digit_byte_value(d: u32, r: u32)
    requires
        d < r <= 16,
    ensures
        digit_byte(d) < 128,
        digit_value((digit_byte(d) as u32) as char, r) == Some(d),
{
}

/// Digits written out at `q`, up to the limit or up to a character that is no digit, are read
/// back in full.
proof fn lemma_digit_run_reads(input: Seq<u8>, limit: int, r: u32, q: int, ds: Seq<u32>)
    requires
        0 <= q,
        q + ds.len() <= limit <= input.len(),
        q + ds.len() == limit || digit_step(input, limit, r, q + ds.len()).0 is None,
        r <= 16,
        forall|i: int| 0 <= i < ds.len() ==> #[trigger] ds[i] < r,
        forall|i: int| 0 <= i < ds.len() ==> input[q + i] == digit_byte(#[trigger] ds[i]),
    ensures
        digit_run(input, limit, r, q) == (ds, q + ds.len()),
    decreases ds.len(),
{
    if ds.len() == 0 {
        reveal(next_char);
    } else {
        assert(input[q + 0] == digit_byte(ds[0]));
        lemma_digit_byte_value(ds[0], r);
        lemma_ascii_next_char(input, limit, q);
        let rest = ds.drop_first();
        assert forall|i: int| 0 <= i < rest.len() implies input[(q + 1) + i] == digit_byte(
            #[trigger] rest[i],
        ) by {
            assert(rest[i] == ds[i + 1]);
            assert(input[q + (i + 1)] == digit_byte(ds[i + 1]));
        }
        assert forall|i: int| 0 <= i < rest.len() implies #[trigger] rest[i] < r by {
            assert(rest[i] == ds[i + 1]);
        }
        assert((q + 1) + rest.len() == q + ds.len());
        lemma_digit_run_reads(input, limit, r, q + 1, rest);
        assert(seq![ds[0]] + rest =~= ds);
    }
}

/// The leading digit of a number is zero only for zero.
proof fn lemma_leading_digit(n: nat, r: nat)
    requires
        2 <= r <= 36,
    ensures
        digits_of(n, r)[0] == 0 ==> n == 0,
    decreases n,
{
    if n >= r {
        let q = n / r;
        assert(1 <= q < n) by (nonlinear_arith)
            requires
                r >= 2,
                n >= r,
                q == n / r,
        ;
        lemma_leading_digit(q as nat, r);
        lemma_digits_of(q as nat, r);
        assert(digits_of(n, r)[0] == digits_of(q as nat, r)[0]);
    }
}

/// Folding one more digit multiplies by the base and adds it.
proof fn lemma_fold_push(acc: int, ds: Seq<u32>, d: u32, r: int)
    ensures
        digits_fold(acc, ds.push(d), r) == digits_fold(acc, ds, r) * r + d,
    decreases ds.len(),
{
    if ds.len() == 0 {
        assert(ds.push(d).drop_first() =~= Seq::<u32>::empty());
        assert(ds.push(d)[0] == d);
        assert(digits_fold(acc * r + d, Seq::<u32>::empty(), r) == acc * r + d);
        assert(digits_fold(acc, ds, r) == acc);
    } else {
        assert(ds.push(d).drop_first() =~= ds.drop_first().push(d));
        assert(ds.push(d)[0] == ds[0]);
        lemma_fold_push(acc * r + ds[0], ds.drop_first(), d, r);
    }
}

/// The digits of `n` are each below the base, at least one, and fold back to `n`.
proof fn lemma_digits_of(n: nat, r: nat)
    requires
        2 <= r <= 36,
    ensures
        digits_of(n, r).len() >= 1,
        forall|i: int| 0 <= i < digits_of(n, r).len() ==> #[trigger] digits_of(n, r)[i] < r,
        digits_fold(0, digits_of(n, r), r as int) == n,
    decreases n,
{
    if n < r {
        assert(digits_of(n, r).drop_first() =~= Seq::<u32>::empty());
        assert(digits_fold(0, digits_of(n, r), r as int) == digits_fold((0 * r + n) as int, Seq::<u32>::empty(), r as int));
    } else {
        let q = n / r;
        let m = n % r;
        assert(q < n) by (nonlinear_arith)
            requires
                r >= 2,
                n >= r,
                q == n / r,
        ;
        lemma_digits_of(q as nat, r);
        lemma_fold_push(0, digits_of(q as nat, r), m as u32, r as int);
        assert(q * r + m == n) by (nonlinear_arith)
            requires
                r >= 2,
                q == n / r,
                m == n % r,
        ;
        assert(m < r) by (nonlinear_arith)
            requires
                r >= 2,
                m == n % r,
        ;
        let ds = digits_of(n, r);
        assert(ds == digits_of(q as nat, r).push(m as u32));
        assert forall|i: int| 0 <= i < ds.len() implies #[trigger] ds[i] < r by {
            if i < ds.len() - 1 {
                assert(ds[i] == digits_of(q as nat, r)[i]);
            }
        }
    }
}

/// A number written out at the start of `inp`, followed by the end of the reading or by a
/// character that is no digit of its radix, reads back as itself with the cursor after its last
/// digit.
proof fn lemma_reads_rendering_in(inp: Seq<u8>, limit: int, v: int, r: u32)
    requires
        r == 2 || r == 8 || r == 10 || r == 16,
        render(v, r).len() <= limit <= inp.len(),
        inp.subrange(0, render(v, r).len() as int) == render(v, r),
        render(v, r).len() == limit || digit_step(inp, limit, r, render(v, r).len() as int).0 is None,
        r == 10 && v == 0 && limit > 1 ==> inp[1] != 120u8 && inp[1] != 111u8 && inp[1] != 98u8,
    ensures
        number_at(inp, limit, 0) == (Some(v), render(v, r).len() as int),
{
    lemma_literal_bytes();
    let b = inp;
    let w = render(v, r);
    let n = w.len() as int;
    let sign_part: Seq<u8> = if v < 0 {
        seq![45u8]
    } else {
        seq![]
    };
    let ds = digits_of(abs(v), r as nat);
    lemma_digits_of(abs(v), r as nat);
    let db = ds.map_values(|d: u32| digit_byte(d));
    let p1 = sign_part.len() as int;
    let p2 = p1 + radix_prefix(r).len();
    assert(w =~= sign_part + radix_prefix(r) + db);
    assert forall|i: int| 0 <= i < n implies b[i] == #[trigger] w[i] by {
        assert(b.subrange(0, n)[i] == b[i]);
    }
    assert forall|i: int| 0 <= i < ds.len() implies b[p2 + i] == digit_byte(#[trigger] ds[i]) by {
        assert(db[i] == digit_byte(ds[i]));
        assert(w[p2 + i] == db[i]);
    }
    assert(n == p2 + ds.len());
    // the sign
    assert(b[0] == w[0]);
    if v >= 0 && r == 10 {
        assert(w[0] == db[0]);
    }
    assert(b[0] == 45u8 <==> v < 0) by {
        if v >= 0 {
            if r != 10 {
                assert(w[0] == 48u8);
            } else {
                assert(b[0] == digit_byte(ds[0]));
            }
        }
    }
    assert(b[0] != 43u8) by {
        if v >= 0 && r == 10 {
            assert(b[0] == digit_byte(ds[0]));
        }
    }
    assert(b.subrange(0, 1) =~= seq![b[0]]);
    if v < 0 {
        assert(w[0] == 45u8);
    }
    assert(v < 0 ==> matches_at(b, limit, 0, char_bytes('-')));
    if v >= 0 {
        assert(!matches_at(b, limit, 0, char_bytes('-'))) by {
            if matches_at(b, limit, 0, char_bytes('-')) {
                assert(b.subrange(0, 1)[0] == 45u8);
            }
        }
    }
    assert(!matches_at(b, limit, 0, char_bytes('+'))) by {
        if matches_at(b, limit, 0, char_bytes('+')) {
            assert(b.subrange(0, 1)[0] == 43u8);
        }
    }
    assert(sign_at(b, limit, 0) == (if v < 0 {
        -1int
    } else {
        1int
    }, p1));
    // the radix prefix
    if r == 10 {
        lemma_leading_digit(abs(v), 10);
        if p1 + 2 <= limit {
            assert(b.subrange(p1, p1 + 2)[0] == b[p1]);
            assert(b.subrange(p1, p1 + 2)[1] == b[p1 + 1]);
            assert(b[p1] == digit_byte(ds[0]));
            if ds.len() >= 2 {
                assert(b[p1 + 1] == digit_byte(ds[1]));
            }
        }
    } else {
        assert(w.subrange(p1, p1 + 2) =~= radix_prefix(r));
        assert(b.subrange(p1, p1 + 2) =~= w.subrange(p1, p1 + 2));
    }
    assert(radix_at(b, limit, p1) == (r, p2));
    // the digits
    assert(b[p2 + 0] == digit_byte(ds[0]));
    lemma_digit_byte_value(ds[0], r);
    lemma_ascii_next_char(b, limit, p2);
    assert(digit_step(b, limit, r, p2) == (Some(ds[0]), p2 + 1));
    let rest = ds.drop_first();
    assert forall|i: int| 0 <= i < rest.len() implies b[(p2 + 1) + i] == digit_byte(#[trigger] rest[i]) by {
        assert(rest[i] == ds[i + 1]);
        assert(b[p2 + (i + 1)] == digit_byte(ds[i + 1]));
    }
    assert forall|i: int| 0 <= i < rest.len() implies #[trigger] rest[i] < r by {
        assert(rest[i] == ds[i + 1]);
    }
    assert((p2 + 1) + rest.len() == n);
    lemma_digit_run_reads(b, limit, r, p2 + 1, rest);
    assert(digits_fold(0, ds, r as int) == digits_fold(0 * (r as int) + ds[0], rest, r as int));
    assert(digits_fold(ds[0] as int, rest, r as int) == abs(v));
    let s: int = if v < 0 {
        -1
    } else {
        1
    };
    assert(s * abs(v) == v);
    assert(number_at(b, limit, 0) == (Some(s * digits_fold(ds[0] as int, rest, r as int)), n));
}

/// A number written with an optional minus sign, the prefix of its radix and its digits reads
/// back as itself, the cursor ending after the last digit.
pub proof fn law_number_reads_rendering(v: int, r: u32)
    requires
        r == 2 || r == 8 || r == 10 || r == 16,
    ensures
        number_at(render(v, r), render(v, r).len() as int, 0) == (Some(v), render(v, r).len() as int),
{
    assert(render(v, r).subrange(0, render(v, r).len() as int) =~= render(v, r));
    lemma_reads_rendering_in(render(v, r), render(v, r).len() as int, v, r);
}

/// Read into an integer type with the range `[lo, hi]`, the rendering of `v` gives `v` back when
/// it lies in the range and nothing otherwise; either way the cursor ends after the digits.
pub proof fn law_integer_reads_rendering(v: int, r: u32, lo: int, hi: int, res: Option<int>, end: int)
    requires
        r == 2 || r == 8 || r == 10 || r == 16,
        integer_outcome(render(v, r), render(v, r).len() as int, 0, res, end, lo, hi),
    ensures
        end == render(v, r).len(),
        res == (if lo <= v <= hi {
            Some(v)
        } else {
            None::<int>
        }),
{
    law_number_reads_rendering(v, r);
}


/// A `u8` range keeps the number written out exactly when `start <= v < end`; the cursor
/// ends after the digits either way.
pub proof fn law_range_u8_keeps_inside(r: Range<u8>, v: int, radix: u32, res: Option<u8>, end: int)
    requires
        radix == 2 || radix == 8 || radix == 10 || radix == 16,
        r.accepts(render(v, radix), render(v, radix).len() as int, 0, res, end),
    ensures
        end == render(v, radix).len(),
        r.start <= v < r.end ==> res == Some(v as u8),
        !(r.start <= v < r.end) ==> res is None,
{
    law_integer_reads_rendering(v, radix, r.start as int, r.end - 1, match res { Some(x) => Some(x as int), None => None }, end);
}

/// A `u8` inclusive range keeps the number written out exactly when `start <= v <= end` (or
/// `v < end` once the range has been iterated to exhaustion); the cursor ends after the digits
/// either way.
pub proof fn law_range_inclusive_u8_keeps_inside(r: RangeInclusive<u8>, v: int, radix: u32, res: Option<u8>, end: int)
    requires
        radix == 2 || radix == 8 || radix == 10 || radix == 16,
        r.accepts(render(v, radix), render(v, radix).len() as int, 0, res, end),
    ensures
        end == render(v, radix).len(),
        r@.start <= v && (v < r@.end || (!r@.exhausted && v == r@.end)) ==> res == Some(v as u8),
        !(r@.start <= v && (v < r@.end || (!r@.exhausted && v == r@.end))) ==> res is None,
{
    let hi: int = if r@.exhausted {
        r@.end - 1
    } else {
        r@.end as int
    };
    law_integer_reads_rendering(v, radix, r@.start as int, hi, match res { Some(x) => Some(x as int), None => None }, end);
}

/// A `u16` range keeps the number written out exactly when `start <= v < end`; the cursor
/// ends after the digits either way.
pub proof fn law_range_u16_keeps_inside(r: Range<u16>, v: int, radix: u32, res: Option<u16>, end: int)
    requires
        radix == 2 || radix == 8 || radix == 10 || radix == 16,
        r.accepts(render(v, radix), render(v, radix).len() as int, 0, res, end),
    ensures
        end == render(v, radix).len(),
        r.start <= v < r.end ==> res == Some(v as u16),
        !(r.start <= v < r.end) ==> res is None,
{
    law_integer_reads_rendering(v, radix, r.start as int, r.end - 1, match res { Some(x) => Some(x as int), None => None }, end);
}

/// A `u16` inclusive range keeps the number written out exactly when `start <= v <= end` (or
/// `v < end` once the range has been iterated to exhaustion); the cursor ends after the digits
/// either way.
pub proof fn law_range_inclusive_u16_keeps_inside(r: RangeInclusive<u16>, v: int, radix: u32, res: Option<u16>, end: int)
    requires
        radix == 2 || radix == 8 || radix == 10 || radix == 16,
        r.accepts(render(v, radix), render(v, radix).len() as int, 0, res, end),
    ensures
        end == render(v, radix).len(),
        r@.start <= v && (v < r@.end || (!r@.exhausted && v == r@.end)) ==> res == Some(v as u16),
        !(r@.start <= v && (v < r@.end || (!r@.exhausted && v == r@.end))) ==> res is None,
{
    let hi: int = if r@.exhausted {
        r@.end - 1
    } else {
        r@.end as int
    };
    law_integer_reads_rendering(v, radix, r@.start as int, hi, match res { Some(x) => Some(x as int), None => None }, end);
}

/// A `u32` range keeps the number written out exactly when `start <= v < end`; the cursor
/// ends after the digits either way.
pub proof fn law_range_u32_keeps_inside(r: Range<u32>, v: int, radix: u32, res: Option<u32>, end: int)
    requires
        radix == 2 || radix == 8 || radix == 10 || radix == 16,
        r.accepts(render(v, radix), render(v, radix).len() as int, 0, res, end),
    ensures
        end == render(v, radix).len(),
        r.start <= v < r.end ==> res == Some(v as u32),
        !(r.start <= v < r.end) ==> res is None,
{
    law_integer_reads_rendering(v, radix, r.start as int, r.end - 1, match res { Some(x) => Some(x as int), None => None }, end);
}

/// A `u32` inclusive range keeps the number written out exactly when `start <= v <= end` (or
/// `v < end` once the range has been iterated to exhaustion); the cursor ends after the digits
/// either way.
pub proof fn law_range_inclusive_u32_keeps_inside(r: RangeInclusive<u32>, v: int, radix: u32, res: Option<u32>, end: int)
    requires
        radix == 2 || radix == 8 || radix == 10 || radix == 16,
        r.accepts(render(v, radix), render(v, radix).len() as int, 0, res, end),
    ensures
        end == render(v, radix).len(),
        r@.start <= v && (v < r@.end || (!r@.exhausted && v == r@.end)) ==> res == Some(v as u32),
        !(r@.start <= v && (v < r@.end || (!r@.exhausted && v == r@.end))) ==> res is None,
{
    let hi: int = if r@.exhausted {
        r@.end - 1
    } else {
        r@.end as int
    };
    law_integer_reads_rendering(v, radix, r@.start as int, hi, match res { Some(x) => Some(x as int), None => None }, end);
}

/// A `u64` range keeps the number written out exactly when `start <= v < end`; the cursor
/// ends after the digits either way.
pub proof fn law_range_u64_keeps_inside(r: Range<u64>, v: int, radix: u32, res: Option<u64>, end: int)
    requires
        radix == 2 || radix == 8 || radix == 10 || radix == 16,
        r.accepts(render(v, radix), render(v, radix).len() as int, 0, res, end),
    ensures
        end == render(v, radix).len(),
        r.start <= v < r.end ==> res == Some(v as u64),
        !(r.start <= v < r.end) ==> res is None,
{
    law_integer_reads_rendering(v, radix, r.start as int, r.end - 1, match res { Some(x) => Some(x as int), None => None }, end);
}

/// A `u64` inclusive range keeps the number written out exactly when `start <= v <= end` (or
/// `v < end` once the range has been iterated to exhaustion); the cursor ends after the digits
/// either way.
pub proof fn law_range_inclusive_u64_keeps_inside(r: RangeInclusive<u64>, v: int, radix: u32, res: Option<u64>, end: int)
    requires
        radix == 2 || radix == 8 || radix == 10 || radix == 16,
        r.accepts(render(v, radix), render(v, radix).len() as int, 0, res, end),
    ensures
        end == render(v, radix).len(),
        r@.start <= v && (v < r@.end || (!r@.exhausted && v == r@.end)) ==> res == Some(v as u64),
        !(r@.start <= v && (v < r@.end || (!r@.exhausted && v == r@.end))) ==> res is None,
{
    let hi: int = if r@.exhausted {
        r@.end - 1
    } else {
        r@.end as int
    };
    law_integer_reads_rendering(v, radix, r@.start as int, hi, match res { Some(x) => Some(x as int), None => None }, end);
}

/// A `u128` range keeps the number written out exactly when `start <= v < end`; the cursor
/// ends after the digits either way.
pub proof fn law_range_u128_keeps_inside(r: Range<u128>, v: int, radix: u32, res: Option<u128>, end: int)
    requires
        radix == 2 || radix == 8 || radix == 10 || radix == 16,
        r.accepts(render(v, radix), render(v, radix).len() as int, 0, res, end),
    ensures
        end == render(v, radix).len(),
        r.start <= v < r.end ==> res == Some(v as u128),
        !(r.start <= v < r.end) ==> res is None,
{
    law_integer_reads_rendering(v, radix, r.start as int, r.end - 1, match res { Some(x) => Some(x as int), None => None }, end);
}

/// A `u128` inclusive range keeps the number written out exactly when `start <= v <= end` (or
/// `v < end` once the range has been iterated to exhaustion); the cursor ends after the digits
/// either way.
pub proof fn law_range_inclusive_u128_keeps_inside(r: RangeInclusive<u128>, v: int, radix: u32, res: Option<u128>, end: int)
    requires
        radix == 2 || radix == 8 || radix == 10 || radix == 16,
        r.accepts(render(v, radix), render(v, radix).len() as int, 0, res, end),
    ensures
        end == render(v, radix).len(),
        r@.start <= v && (v < r@.end || (!r@.exhausted && v == r@.end)) ==> res == Some(v as u128),
        !(r@.start <= v && (v < r@.end || (!r@.exhausted && v == r@.end))) ==> res is None,
{
    let hi: int = if r@.exhausted {
        r@.end - 1
    } else {
        r@.end as int
    };
    law_integer_reads_rendering(v, radix, r@.start as int, hi, match res { Some(x) => Some(x as int), None => None }, end);
}

/// A `usize` range keeps the number written out exactly when `start <= v < end`; the cursor
/// ends after the digits either way.
pub proof fn law_range_usize_keeps_inside(r: Range<usize>, v: int, radix: u32, res: Option<usize>, end: int)
    requires
        radix == 2 || radix == 8 || radix == 10 || radix == 16,
        r.accepts(render(v, radix), render(v, radix).len() as int, 0, res, end),
    ensures
        end == render(v, radix).len(),
        r.start <= v < r.end ==> res == Some(v as usize),
        !(r.start <= v < r.end) ==> res is None,
{
    law_integer_reads_rendering(v, radix, r.start as int, r.end - 1, match res { Some(x) => Some(x as int), None => None }, end);
}

/// A `usize` inclusive range keeps the number written out exactly when `start <= v <= end` (or
/// `v < end` once the range has been iterated to exhaustion); the cursor ends after the digits
/// either way.
pub proof fn law_range_inclusive_usize_keeps_inside(r: RangeInclusive<usize>, v: int, radix: u32, res: Option<usize>, end: int)
    requires
        radix == 2 || radix == 8 || radix == 10 || radix == 16,
        r.accepts(render(v, radix), render(v, radix).len() as int, 0, res, end),
    ensures
        end == render(v, radix).len(),
        r@.start <= v && (v < r@.end || (!r@.exhausted && v == r@.end)) ==> res == Some(v as usize),
        !(r@.start <= v && (v < r@.end || (!r@.exhausted && v == r@.end))) ==> res is None,
{
    let hi: int = if r@.exhausted {
        r@.end - 1
    } else {
        r@.end as int
    };
    law_integer_reads_rendering(v, radix, r@.start as int, hi, match res { Some(x) => Some(x as int), None => None }, end);
}

/// A `i8` range keeps the number written out exactly when `start <= v < end`; the cursor
/// ends after the digits either way.
pub proof fn law_range_i8_keeps_inside(r: Range<i8>, v: int, radix: u32, res: Option<i8>, end: int)
    requires
        radix == 2 || radix == 8 || radix == 10 || radix == 16,
        r.accepts(render(v, radix), render(v, radix).len() as int, 0, res, end),
    ensures
        end == render(v, radix).len(),
        r.start <= v < r.end ==> res == Some(v as i8),
        !(r.start <= v < r.end) ==> res is None,
{
    law_integer_reads_rendering(v, radix, r.start as int, r.end - 1, match res { Some(x) => Some(x as int), None => None }, end);
}

/// A `i8` inclusive range keeps the number written out exactly when `start <= v <= end` (or
/// `v < end` once the range has been iterated to exhaustion); the cursor ends after the digits
/// either way.
pub proof fn law_range_inclusive_i8_keeps_inside(r: RangeInclusive<i8>, v: int, radix: u32, res: Option<i8>, end: int)
    requires
        radix == 2 || radix == 8 || radix == 10 || radix == 16,
        r.accepts(render(v, radix), render(v, radix).len() as int, 0, res, end),
    ensures
        end == render(v, radix).len(),
        r@.start <= v && (v < r@.end || (!r@.exhausted && v == r@.end)) ==> res == Some(v as i8),
        !(r@.start <= v && (v < r@.end || (!r@.exhausted && v == r@.end))) ==> res is None,
{
    let hi: int = if r@.exhausted {
        r@.end - 1
    } else {
        r@.end as int
    };
    law_integer_reads_rendering(v, radix, r@.start as int, hi, match res { Some(x) => Some(x as int), None => None }, end);
}

/// A `i16` range keeps the number written out exactly when `start <= v < end`; the cursor
/// ends after the digits either way.
pub proof fn law_range_i16_keeps_inside(r: Range<i16>, v: int, radix: u32, res: Option<i16>, end: int)
    requires
        radix == 2 || radix == 8 || radix == 10 || radix == 16,
        r.accepts(render(v, radix), render(v, radix).len() as int, 0, res, end),
    ensures
        end == render(v, radix).len(),
        r.start <= v < r.end ==> res == Some(v as i16),
        !(r.start <= v < r.end) ==> res is None,
{
    law_integer_reads_rendering(v, radix, r.start as int, r.end - 1, match res { Some(x) => Some(x as int), None => None }, end);
}

/// A `i16` inclusive range keeps the number written out exactly when `start <= v <= end` (or
/// `v < end` once the range has been iterated to exhaustion); the cursor ends after the digits
/// either way.
pub proof fn law_range_inclusive_i16_keeps_inside(r: RangeInclusive<i16>, v: int, radix: u32, res: Option<i16>, end: int)
    requires
        radix == 2 || radix == 8 || radix == 10 || radix == 16,
        r.accepts(render(v, radix), render(v, radix).len() as int, 0, res, end),
    ensures
        end == render(v, radix).len(),
        r@.start <= v && (v < r@.end || (!r@.exhausted && v == r@.end)) ==> res == Some(v as i16),
        !(r@.start <= v && (v < r@.end || (!r@.exhausted && v == r@.end))) ==> res is None,
{
    let hi: int = if r@.exhausted {
        r@.end - 1
    } else {
        r@.end as int
    };
    law_integer_reads_rendering(v, radix, r@.start as int, hi, match res { Some(x) => Some(x as int), None => None }, end);
}

/// A `i32` range keeps the number written out exactly when `start <= v < end`; the cursor
/// ends after the digits either way.
pub proof fn law_range_i32_keeps_inside(r: Range<i32>, v: int, radix: u32, res: Option<i32>, end: int)
    requires
        radix == 2 || radix == 8 || radix == 10 || radix == 16,
        r.accepts(render(v, radix), render(v, radix).len() as int, 0, res, end),
    ensures
        end == render(v, radix).len(),
        r.start <= v < r.end ==> res == Some(v as i32),
        !(r.start <= v < r.end) ==> res is None,
{
    law_integer_reads_rendering(v, radix, r.start as int, r.end - 1, match res { Some(x) => Some(x as int), None => None }, end);
}

/// A `i32` inclusive range keeps the number written out exactly when `start <= v <= end` (or
/// `v < end` once the range has been iterated to exhaustion); the cursor ends after the digits
/// either way.
pub proof fn law_range_inclusive_i32_keeps_inside(r: RangeInclusive<i32>, v: int, radix: u32, res: Option<i32>, end: int)
    requires
        radix == 2 || radix == 8 || radix == 10 || radix == 16,
        r.accepts(render(v, radix), render(v, radix).len() as int, 0, res, end),
    ensures
        end == render(v, radix).len(),
        r@.start <= v && (v < r@.end || (!r@.exhausted && v == r@.end)) ==> res == Some(v as i32),
        !(r@.start <= v && (v < r@.end || (!r@.exhausted && v == r@.end))) ==> res is None,
{
    let hi: int = if r@.exhausted {
        r@.end - 1
    } else {
        r@.end as int
    };
    law_integer_reads_rendering(v, radix, r@.start as int, hi, match res { Some(x) => Some(x as int), None => None }, end);
}

/// A `i64` range keeps the number written out exactly when `start <= v < end`; the cursor
/// ends after the digits either way.
pub proof fn law_range_i64_keeps_inside(r: Range<i64>, v: int, radix: u32, res: Option<i64>, end: int)
    requires
        radix == 2 || radix == 8 || radix == 10 || radix == 16,
        r.accepts(render(v, radix), render(v, radix).len() as int, 0, res, end),
    ensures
        end == render(v, radix).len(),
        r.start <= v < r.end ==> res == Some(v as i64),
        !(r.start <= v < r.end) ==> res is None,
{
    law_integer_reads_rendering(v, radix, r.start as int, r.end - 1, match res { Some(x) => Some(x as int), None => None }, end);
}

/// A `i64` inclusive range keeps the number written out exactly when `start <= v <= end` (or
/// `v < end` once the range has been iterated to exhaustion); the cursor ends after the digits
/// either way.
pub proof fn law_range_inclusive_i64_keeps_inside(r: RangeInclusive<i64>, v: int, radix: u32, res: Option<i64>, end: int)
    requires
        radix == 2 || radix == 8 || radix == 10 || radix == 16,
        r.accepts(render(v, radix), render(v, radix).len() as int, 0, res, end),
    ensures
        end == render(v, radix).len(),
        r@.start <= v && (v < r@.end || (!r@.exhausted && v == r@.end)) ==> res == Some(v as i64),
        !(r@.start <= v && (v < r@.end || (!r@.exhausted && v == r@.end))) ==> res is None,
{
    let hi: int = if r@.exhausted {
        r@.end - 1
    } else {
        r@.end as int
    };
    law_integer_reads_rendering(v, radix, r@.start as int, hi, match res { Some(x) => Some(x as int), None => None }, end);
}

/// A `i128` range keeps the number written out exactly when `start <= v < end`; the cursor
/// ends after the digits either way.
pub proof fn law_range_i128_keeps_inside(r: Range<i128>, v: int, radix: u32, res: Option<i128>, end: int)
    requires
        radix == 2 || radix == 8 || radix == 10 || radix == 16,
        r.accepts(render(v, radix), render(v, radix).len() as int, 0, res, end),
    ensures
        end == render(v, radix).len(),
        r.start <= v < r.end ==> res == Some(v as i128),
        !(r.start <= v < r.end) ==> res is None,
{
    law_integer_reads_rendering(v, radix, r.start as int, r.end - 1, match res { Some(x) => Some(x as int), None => None }, end);
}

/// A `i128` inclusive range keeps the number written out exactly when `start <= v <= end` (or
/// `v < end` once the range has been iterated to exhaustion); the cursor ends after the digits
/// either way.
pub proof fn law_range_inclusive_i128_keeps_inside(r: RangeInclusive<i128>, v: int, radix: u32, res: Option<i128>, end: int)
    requires
        radix == 2 || radix == 8 || radix == 10 || radix == 16,
        r.accepts(render(v, radix), render(v, radix).len() as int, 0, res, end),
    ensures
        end == render(v, radix).len(),
        r@.start <= v && (v < r@.end || (!r@.exhausted && v == r@.end)) ==> res == Some(v as i128),
        !(r@.start <= v && (v < r@.end || (!r@.exhausted && v == r@.end))) ==> res is None,
{
    let hi: int = if r@.exhausted {
        r@.end - 1
    } else {
        r@.end as int
    };
    law_integer_reads_rendering(v, radix, r@.start as int, hi, match res { Some(x) => Some(x as int), None => None }, end);
}

/// A `isize` range keeps the number written out exactly when `start <= v < end`; the cursor
/// ends after the digits either way.
pub proof fn law_range_isize_keeps_inside(r: Range<isize>, v: int, radix: u32, res: Option<isize>, end: int)
    requires
        radix == 2 || radix == 8 || radix == 10 || radix == 16,
        r.accepts(render(v, radix), render(v, radix).len() as int, 0, res, end),
    ensures
        end == render(v, radix).len(),
        r.start <= v < r.end ==> res == Some(v as isize),
        !(r.start <= v < r.end) ==> res is None,
{
    law_integer_reads_rendering(v, radix, r.start as int, r.end - 1, match res { Some(x) => Some(x as int), None => None }, end);
}

/// A `isize` inclusive range keeps the number written out exactly when `start <= v <= end` (or
/// `v < end` once the range has been iterated to exhaustion); the cursor ends after the digits
/// either way.
pub proof fn law_range_inclusive_isize_keeps_inside(r: RangeInclusive<isize>, v: int, radix: u32, res: Option<isize>, end: int)
    requires
        radix == 2 || radix == 8 || radix == 10 || radix == 16,
        r.accepts(render(v, radix), render(v, radix).len() as int, 0, res, end),
    ensures
        end == render(v, radix).len(),
        r@.start <= v && (v < r@.end || (!r@.exhausted && v == r@.end)) ==> res == Some(v as isize),
        !(r@.start <= v && (v < r@.end || (!r@.exhausted && v == r@.end))) ==> res is None,
{
    let hi: int = if r@.exhausted {
        r@.end - 1
    } else {
        r@.end as int
    };
    law_integer_reads_rendering(v, radix, r@.start as int, hi, match res { Some(x) => Some(x as int), None => None }, end);
}

/// A character range keeps the character encoded at `pos` exactly when `start <= c < end`, and
/// moves past it either way.
pub proof fn law_char_range_keeps_inside(r: Range<char>, c: char, input: Seq<u8>, limit: int, pos: int, res: Option<char>, end: int)
    requires
        0 <= pos <= limit <= input.len(),
        matches_at(input, limit, pos, char_bytes(c)),
        r.accepts(input, limit, pos, res, end),
    ensures
        end == pos + char_bytes(c).len(),
        res == (if r.start <= c && c < r.end {
            Some(c)
        } else {
            None
        }),
{
    law_any_char_reads_encoding(c, input, limit, pos);
}

/// An inclusive character range keeps the character encoded at `pos` exactly when
/// `start <= c <= end` (or `c < end` once the range has been iterated to exhaustion), and moves
/// past it either way.
pub proof fn law_char_range_inclusive_keeps_inside(r: RangeInclusive<char>, c: char, input: Seq<u8>, limit: int, pos: int, res: Option<char>, end: int)
    requires
        0 <= pos <= limit <= input.len(),
        matches_at(input, limit, pos, char_bytes(c)),
        r.accepts(input, limit, pos, res, end),
    ensures
        end == pos + char_bytes(c).len(),
        res == (if r@.start <= c && (c < r@.end || (!r@.exhausted && c == r@.end)) {
            Some(c)
        } else {
            None
        }),
{
    law_any_char_reads_encoding(c, input, limit, pos);
}


/// Whether the byte `b` is a digit of radix `r`: `0`-`9`, then the letters of either case
/// counting from ten.
pub open spec fn is_radix_digit_byte(b: u8, r: u32) -> bool {
    ||| (48 <= b <= 57 && b - 48 < r)
    ||| (97 <= b <= 122 && b - 87 < r)
    ||| (65 <= b <= 90 && b - 55 < r)
}

/// After a number written out, a byte that is no digit of its radix is not read: the number
/// reads as itself and the cursor stops just before that byte. (A lone `0` followed by `x`, `o`
/// or `b` is left out: those start a radix prefix.)
pub proof fn law_number_stops_before_non_digit(v: int, r: u32, b: u8, res: Option<BigInt>, end: int)
    requires
        r == 2 || r == 8 || r == 10 || r == 16,
        !is_radix_digit_byte(b, r),
        !(r == 10 && v == 0 && (b == 120u8 || b == 111u8 || b == 98u8)),
        NumberParser.accepts(render(v, r).push(b), render(v, r).len() + 1int, 0, res, end),
    ensures
        end == render(v, r).len(),
        res is Some,
        bigint_value(res->0) == v,
{
    lemma_stops_before_non_digit(v, r, b);
}

/// After a number written out, a byte that is no digit of its radix is not read by an integer
/// parser with the range `[lo, hi]` either: it gives the number when it lies in the range, and
/// the cursor stops just before that byte.
pub proof fn law_integer_stops_before_non_digit(v: int, r: u32, b: u8, lo: int, hi: int, res: Option<int>, end: int)
    requires
        r == 2 || r == 8 || r == 10 || r == 16,
        !is_radix_digit_byte(b, r),
        !(r == 10 && v == 0 && (b == 120u8 || b == 111u8 || b == 98u8)),
        integer_outcome(render(v, r).push(b), render(v, r).len() + 1int, 0, res, end, lo, hi),
    ensures
        end == render(v, r).len(),
        res == (if lo <= v <= hi {
            Some(v)
        } else {
            None::<int>
        }),
{
    lemma_stops_before_non_digit(v, r, b);
}

proof fn lemma_stops_before_non_digit(v: int, r: u32, b: u8)
    requires
        r == 2 || r == 8 || r == 10 || r == 16,
        !is_radix_digit_byte(b, r),
        !(r == 10 && v == 0 && (b == 120u8 || b == 111u8 || b == 98u8)),
    ensures
        number_at(render(v, r).push(b), render(v, r).len() + 1int, 0) == (Some(v), render(v, r).len() as int),
{
    let w = render(v, r);
    let n = w.len() as int;
    let inp = w.push(b);
    assert(inp.subrange(0, n) =~= w);
    assert(inp[n] == b);
    if b < 128 {
        lemma_ascii_next_char(inp, n + 1, n);
    } else {
        reveal(next_char);
        let one = inp.subrange(n, n + 1);
        assert(one[0] == b);
        assert(!valid_first_scalar(one));
    }
    assert(digit_step(inp, n + 1, r, n).0 is None);
    if r == 10 && v == 0 {
        lemma_digits_of(0, 10);
        assert(n == 1);
    }
    lemma_reads_rendering_in(inp, n + 1, v, r);
}

} // verus!
