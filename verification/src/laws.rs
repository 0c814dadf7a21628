use crate::context::{can_fail, can_succeed, gen_parser, matches_at, Generator, Parser};
use crate::parsers::combinators::{And, Filter, Mapped, Not, Opt, Recognize};
use crate::parsers::many::{many_succeeds, run_chain, Many};
use crate::parsers::chars::{next_char, AnyChar};
use crate::parsers::primitive::char_bytes;
use vstd::utf8::*;
use crate::parsers::sep::Sep;
use crate::parsers::tuple::Alt;
use vstd::prelude::*;
use vstd::string::StringSliceAdditionalSpecFns;

verus! {

/// A string pattern, run where the input holds it, returns itself and moves past it; elsewhere
/// it fails and leaves the cursor where it was.
pub proof fn law_str_returns_itself<'b>(s: &'b str, input: Seq<u8>, limit: int, pos: int, res: Option<&'b str>, end: int)
    requires
        s.accepts(input, limit, pos, res, end),
    ensures
        matches_at(input, limit, pos, s.spec_bytes()) ==> res == Some(s) && end == pos + s.spec_bytes().len(),
        !matches_at(input, limit, pos, s.spec_bytes()) ==> res is None && end == pos,
{
}

/// A character pattern, run where the input holds its UTF-8 encoding, returns itself and moves
/// past it; elsewhere it fails and leaves the cursor where it was.
pub proof fn law_char_returns_itself(c: char, input: Seq<u8>, limit: int, pos: int, res: Option<char>, end: int)
    requires
        c.accepts(input, limit, pos, res, end),
    ensures
        matches_at(input, limit, pos, char_bytes(c)) ==> res == Some(c) && end == pos + char_bytes(c).len(),
        !matches_at(input, limit, pos, char_bytes(c)) ==> res is None && end == pos,
{
}

/// An optional parser never fails.
pub proof fn law_opt_never_fails<P: Parser>(p: P, input: Seq<u8>, limit: int, pos: int, res: Option<Option<P::O>>, end: int)
    requires
        Opt(p).accepts(input, limit, pos, res, end),
    ensures
        res is Some,
        p.accepts(input, limit, pos, res->0, end),
{
}

/// A negation never moves the cursor, and succeeds just where the inner parser can fail.
pub proof fn law_not_keeps_position<P: Parser>(p: P, input: Seq<u8>, limit: int, pos: int, res: Option<()>, end: int)
    requires
        Not(p).accepts(input, limit, pos, res, end),
    ensures
        end == pos,
        res is Some ==> can_fail(p, input, limit, pos),
        res is None ==> can_succeed(p, input, limit, pos),
{
}

/// A conjunction keeps the first parser's result and end, provided the second parser can
/// succeed from the same start.
pub proof fn law_and_keeps_first<P: Parser, F: Parser>(p: P, f: F, input: Seq<u8>, limit: int, pos: int, res: Option<P::O>, end: int)
    requires
        And(p, f).accepts(input, limit, pos, res, end),
        res is Some,
    ensures
        p.accepts(input, limit, pos, res, end),
        can_succeed(f, input, limit, pos),
{
}

/// A mapped parser succeeds just where the inner one does, at the same end, with a value that
/// the function gives for the inner result.
pub proof fn law_map_applies<T, P: Parser, F: Fn(P::O) -> T>(p: P, f: F, input: Seq<u8>, limit: int, pos: int, res: Option<T>, end: int)
    requires
        Mapped(p, f).accepts(input, limit, pos, res, end),
    ensures
        res is None ==> p.accepts(input, limit, pos, None, end),
        res matches Some(r) ==> exists|v: P::O|
            p.accepts(input, limit, pos, Some(v), end) && call_ensures(f, (v,), r),
{
}

/// A filtered parser yields only a result of the inner parser that the predicate accepts, at the
/// inner parser's end; it fails where the inner parser fails or the predicate rejects its
/// result, and the cursor then stays where the inner parser left it.
pub proof fn law_filter_keeps<P: Parser, F: Fn(&P::O) -> bool>(p: P, f: F, input: Seq<u8>, limit: int, pos: int, res: Option<P::O>, end: int)
    requires
        Filter(p, f).accepts(input, limit, pos, res, end),
    ensures
        res matches Some(r) ==> p.accepts(input, limit, pos, Some(r), end) && call_ensures(f, (&r,), true),
        res is None ==> p.accepts(input, limit, pos, None, end) || exists|v: P::O|
            p.accepts(input, limit, pos, Some(v), end) && call_ensures(f, (&v,), false),
{
}

/// Of two alternatives the first success wins; when both fail the cursor is back at the start.
pub proof fn law_alt_first_success<T, A: Parser<O = T>, B: Parser<O = T>>(a: A, b: B, input: Seq<u8>, limit: int, pos: int, res: Option<T>, end: int)
    requires
        Alt((a, b)).accepts(input, limit, pos, res, end),
    ensures
        res matches Some(r) ==> a.accepts(input, limit, pos, Some(r), end) || (can_fail(
            a,
            input,
            limit,
            pos,
        ) && b.accepts(input, limit, pos, Some(r), end)),
        res is None ==> end == pos && can_fail(a, input, limit, pos) && can_fail(
            b,
            input,
            limit,
            pos,
        ),
{
}

/// A repetition yields at least `min` values, and at most `max` unless `min` is larger.
pub proof fn law_many_counts<P: Parser>(p: P, min: usize, max: usize, input: Seq<u8>, limit: int, pos: int, res: Option<Vec<P::O>>, end: int)
    requires
        Many(p, min, max).accepts(input, limit, pos, res, end),
        res is Some,
    ensures
        min <= res->0@.len(),
        res->0@.len() == min || res->0@.len() <= max,
{
}

/// A separated list never fails.
pub proof fn law_sep_never_fails<P: Parser, S: Parser>(p: P, s: S, input: Seq<u8>, limit: int, pos: int, res: Option<Vec<P::O>>, end: int)
    requires
        Sep(p, s).accepts(input, limit, pos, res, end),
    ensures
        res is Some,
{
}

/// What a recognizer yields is exactly the input between the start and the end of the run.
pub proof fn law_recognize_yields_consumed<P: Parser>(p: P, input: Seq<u8>, limit: int, pos: int, res: Option<Vec<u8>>, end: int)
    requires
        Recognize(p).accepts(input, limit, pos, res, end),
        res is Some,
    ensures
        res->0@ == input.subrange(pos, end),
        can_succeed(p, input, limit, pos),
{
}

/// The first scalar of a byte sequence is decided by its first bytes: a sequence that starts
/// with the encoding of `c` starts with the scalar `c`.
proof fn lemma_prefix_decodes(c: char, w: Seq<u8>)
    requires
        w.len() >= char_bytes(c).len(),
        w.subrange(0, char_bytes(c).len() as int) == char_bytes(c),
    ensures
        valid_first_scalar(w),
        decode_first_scalar(w) == c as u32,
        length_of_first_scalar(w) == char_bytes(c).len(),
{
    let e = char_bytes(c);
    reveal_with_fuel(encode_utf8, 2);
    assert(encode_utf8(seq![c]) =~= e) by {
        assert(seq![c].drop_first() =~= Seq::<char>::empty());
    }
    encode_utf8_first_scalar(seq![c]);
    assert forall|i: int| 0 <= i < e.len() implies w[i] == e[i] by {
        assert(w.subrange(0, e.len() as int)[i] == w[i]);
    }
}

/// The character parser reads back the UTF-8 encoding of any character.
pub proof fn law_any_char_reads_encoding(c: char, input: Seq<u8>, limit: int, pos: int)
    requires
        0 <= pos <= limit <= input.len(),
        matches_at(input, limit, pos, char_bytes(c)),
    ensures
        next_char(input, limit, pos) == Some((c, pos + char_bytes(c).len())),
        forall|res: Option<char>, end: int|
            AnyChar.accepts(input, limit, pos, res, end) <==> res == Some(c) && end == pos
                + char_bytes(c).len(),
{
    let w = input.subrange(pos, limit);
    let e = char_bytes(c);
    assert(w.subrange(0, e.len() as int) =~= input.subrange(pos, pos + e.len()));
    lemma_prefix_decodes(c, w);
    char_u32_cast(c, c as u32);
    reveal(next_char);
}

/// `p` has at most one outcome from `pos`: a run there always gives the same result and end.
pub open spec fn single_outcome<P: Parser>(p: P, input: Seq<u8>, limit: int, pos: int) -> bool {
    forall|r1: Option<P::O>, e1: int, r2: Option<P::O>, e2: int|
        #![trigger p.accepts(input, limit, pos, r1, e1), p.accepts(input, limit, pos, r2, e2)]
        p.accepts(input, limit, pos, r1, e1) && p.accepts(input, limit, pos, r2, e2) ==> r1 == r2
            && e1 == e2
}

/// The generator `G` allows at most one outcome from `pos`.
pub open spec fn single_gen_outcome<G: Generator>(input: Seq<u8>, limit: int, pos: int) -> bool {
    forall|r1: Option<G::O>, e1: int, r2: Option<G::O>, e2: int|
        #![trigger G::gen_accepts(input, limit, pos, r1, e1), G::gen_accepts(input, limit, pos, r2, e2)]
        G::gen_accepts(input, limit, pos, r1, e1) && G::gen_accepts(input, limit, pos, r2, e2) ==> r1
            == r2 && e1 == e2
}

/// `parse`, `run` and `impl_parse` all end in an outcome that `accepts` allows; where the parser
/// has a single outcome from the start, any two of these runs give the same result and leave
/// the cursor at the same place.
pub proof fn law_runs_of_a_parser_agree<P: Parser>(p: P, input: Seq<u8>, limit: int, pos: int, r1: Option<P::O>, e1: int, r2: Option<P::O>, e2: int)
    requires
        single_outcome(p, input, limit, pos),
        p.accepts(input, limit, pos, r1, e1),
        p.accepts(input, limit, pos, r2, e2),
    ensures
        r1 == r2,
        e1 == e2,
{
}

/// `ctx.parse::<G>`, a parser from `ctx.parser::<G>()` and the handle `parser::<G>()` all end in
/// an outcome that `G::gen_accepts` allows on the context's input; where it allows a single
/// outcome from the start, any two of these runs give the same result and leave the cursor at
/// the same place.
pub proof fn law_runs_of_a_generator_agree<G: Generator>(input: Seq<u8>, limit: int, pos: int, r1: Option<G::O>, e1: int, r2: Option<G::O>, e2: int)
    requires
        single_gen_outcome::<G>(input, limit, pos),
        G::gen_accepts(input, limit, pos, r1, e1),
        G::gen_accepts(input, limit, pos, r2, e2),
    ensures
        r1 == r2,
        e1 == e2,
{
}

/// The handle `parser::<G>()` allows just the outcomes of the generator `G`.
pub proof fn law_handle_is_the_generator<G: Generator>(input: Seq<u8>, limit: int, pos: int, res: Option<G::O>, end: int)
    ensures
        gen_parser::<G>().accepts(input, limit, pos, res, end) <==> G::gen_accepts(input, limit, pos, res, end),
{
}

} // verus!
