use crate::context::{can_fail, can_succeed, gen_parser, matches_at, Generator, Parse, Parser};
use crate::kdl::{bare_identifier, non_id_char, non_initial_char, raw_open, KdlIdentifier, KdlString, RawString};
use crate::laws::law_any_char_reads_encoding;
use crate::parsers::combinators::{And, Not};
use crate::parsers::many::{run_chain, Many};
use crate::parsers::primitive::char_bytes;
use crate::parsers::strings::string_at;
use crate::text_laws::lemma_first_byte;
use vstd::prelude::*;
use vstd::utf8::*;

verus! {

/// The UTF-8 encoding of a concatenation is the concatenation of the encodings.
pub proof fn lemma_encode_concat(a: Seq<char>, b: Seq<char>)
    ensures
        encode_utf8(a + b) == encode_utf8(a) + encode_utf8(b),
    decreases a.len(),
{
    if a.len() == 0 {
        assert(a + b =~= b);
        assert(encode_utf8(a) =~= Seq::<u8>::empty());
        assert(encode_utf8(a) + encode_utf8(b) =~= encode_utf8(b));
    } else {
        assert((a + b).drop_first() =~= a.drop_first() + b);
        assert((a + b)[0] == a[0]);
        lemma_encode_concat(a.drop_first(), b);
        assert(encode_utf8(a + b) =~= encode_utf8(a) + encode_utf8(b));
    }
}

/// The encoding of one character is its bytes.
pub proof fn lemma_encode_one(c: char)
    ensures
        encode_utf8(seq![c]) == char_bytes(c),
{
    reveal_with_fuel(encode_utf8, 2);
    assert(seq![c].drop_first() =~= Seq::<char>::empty());
    assert(encode_utf8(seq![c]) =~= char_bytes(c));
}

/// No byte of the encoding of a character other than `"` is the byte of `"`.
pub proof fn lemma_char_bytes_no_quote(c: char)
    requires
        c != '"',
    ensures
        forall|i: int| 0 <= i < char_bytes(c).len() ==> char_bytes(c)[i] != 34u8,
{
    let s = c as u32;
    lemma_first_byte(c);
    if s <= 0x7F {
        char_u32_cast(c, s);
        char_u32_cast('"', 34u32);
    } else {
        assert(forall|x: u32| (0x80u8 | ((x >> 6) & 0x3F) as u8) != 34u8) by (bit_vector);
        assert(forall|x: u32| (0x80u8 | (x & 0x3F) as u8) != 34u8) by (bit_vector);
        assert(forall|x: u32| (0x80u8 | ((x >> 12) & 0x3F) as u8) != 34u8) by (bit_vector);
        assert(forall|x: u32| (0xC0u8 | ((x >> 6) & 0x1F) as u8) != 34u8) by (bit_vector);
        assert(forall|x: u32| (0xE0u8 | ((x >> 12) & 0x0F) as u8) != 34u8) by (bit_vector);
        assert(forall|x: u32| (0xF0u8 | ((x >> 18) & 0x7) as u8) != 34u8) by (bit_vector);
    }
}

/// No byte of the encoding of characters other than `"` is the byte of `"`.
pub proof fn lemma_encode_no_quote(s: Seq<char>)
    requires
        forall|k: int| 0 <= k < s.len() ==> s[k] != '"',
    ensures
        forall|i: int| 0 <= i < encode_utf8(s).len() ==> encode_utf8(s)[i] != 34u8,
    decreases s.len(),
{
    if s.len() > 0 {
        let rest = s.drop_first();
        assert forall|k: int| 0 <= k < rest.len() implies rest[k] != '"' by {
            assert(rest[k] == s[k + 1]);
        }
        lemma_encode_no_quote(rest);
        lemma_char_bytes_no_quote(s[0]);
        let e = char_bytes(s[0]);
        assert forall|i: int| 0 <= i < encode_utf8(s).len() implies encode_utf8(s)[i] != 34u8 by {
            if i < e.len() {
                assert(encode_utf8(s)[i] == e[i]);
            } else {
                assert(encode_utf8(s)[i] == encode_utf8(rest)[i - e.len()]);
            }
        }
    }
}

/// Where character `j` of `w` starts in the encoding of `w`.
pub open spec fn char_offset(w: Seq<char>, j: int) -> int {
    encode_utf8(w.take(j)).len() as int
}

/// Character `j` of `w` is encoded at its offset, and the next one starts right after it.
proof fn lemma_char_at_offset(w: Seq<char>, input: Seq<u8>, limit: int, j: int)
    requires
        0 <= j < w.len(),
        encode_utf8(w).len() <= limit <= input.len(),
        input.subrange(0, encode_utf8(w).len() as int) == encode_utf8(w),
    ensures
        matches_at(input, limit, char_offset(w, j), char_bytes(w[j])),
        char_offset(w, j + 1) == char_offset(w, j) + char_bytes(w[j]).len(),
        char_offset(w, j + 1) <= encode_utf8(w).len(),
{
    let a = w.take(j);
    let c = w[j];
    assert(w.take(j + 1) =~= a + seq![c]);
    lemma_encode_concat(a, seq![c]);
    lemma_encode_one(c);
    assert(w =~= w.take(j + 1) + w.skip(j + 1));
    lemma_encode_concat(w.take(j + 1), w.skip(j + 1));
    let o = char_offset(w, j);
    let k = char_bytes(c).len() as int;
    let e = encode_utf8(w);
    assert(e.subrange(o, o + k) =~= char_bytes(c));
    assert(input.subrange(o, o + k) =~= e.subrange(o, o + k));
}

/// The last offset of `w` is the length of its encoding.
proof fn lemma_last_offset(w: Seq<char>)
    ensures
        char_offset(w, w.len() as int) == encode_utf8(w).len(),
        char_offset(w, 0) == 0,
{
    assert(w.take(w.len() as int) =~= w);
    assert(w.take(0) =~= Seq::<char>::empty());
}

/// A character that identifiers hold: above U+0020 and none of `\ < > { } ; [ ] = , "`.
pub open spec fn id_char(c: char) -> bool {
    &&& (c as u32) > 0x20
    &&& c != '\\' && c != '<' && c != '>' && c != '{' && c != '}' && c != ';'
    &&& c != '[' && c != ']' && c != '=' && c != ',' && c != '"'
}

/// A bare identifier: identifier characters, not starting with a digit.
pub open spec fn bare_word(w: Seq<char>) -> bool {
    &&& w.len() >= 1
    &&& !('0' <= w[0] && w[0] <= '9')
    &&& forall|i: int| 0 <= i < w.len() ==> id_char(#[trigger] w[i])
}

/// At an identifier character, the parser of characters that no identifier holds can only fail,
/// and it does fail, leaving the cursor in place.
proof fn lemma_non_id_at_id_char(input: Seq<u8>, limit: int, p: int, c: char)
    requires
        0 <= p <= limit <= input.len(),
        matches_at(input, limit, p, char_bytes(c)),
        id_char(c),
    ensures
        forall|res: Option<char>, end: int| #[trigger] non_id_char().accepts(input, limit, p, res, end) ==> res is None,
        non_id_char().accepts(input, limit, p, None, p),
{
    law_any_char_reads_encoding(c, input, limit, p);
    let k = char_bytes(c).len() as int;
    let arr = non_id_char().0.1;
    let ps = arr@;
    assert(ps =~= seq!['\\', '<', '>', '{', '}', ';', '[', ']', '=', ',', '"']);
    assert forall|j: int| 0 <= j < ps.len() implies !matches_at(input, limit, p, char_bytes(#[trigger] ps[j])) by {
        if matches_at(input, limit, p, char_bytes(ps[j])) {
            law_any_char_reads_encoding(ps[j], input, limit, p);
        }
    }
    assert forall|j: int| 0 <= j < ps.len() implies can_fail(#[trigger] ps[j], input, limit, p) by {
        assert(ps[j].accepts(input, limit, p, None, p));
    }
    assert(non_id_char().0.0.accepts(input, limit, p, None, p + k));
    assert(can_fail(non_id_char().0.0, input, limit, p));
    assert(arr.accepts(input, limit, p, None, p));
    assert(can_fail(arr, input, limit, p));
    assert forall|res: Option<char>, end: int| #[trigger] non_id_char().accepts(input, limit, p, res, end) implies res is None by {
        if res is Some {
            if !non_id_char().0.0.accepts(input, limit, p, res, end) {
                assert(arr.accepts(input, limit, p, res, end));
                let i = choose|i: int| 0 <= i < ps.len() && #[trigger] ps[i].accepts(input, limit, p, res, end);
                assert(matches_at(input, limit, p, char_bytes(ps[i])));
            }
        }
    }
}

/// At an identifier character that is no digit, the parser of characters that cannot start an
/// identifier can only fail, and it does fail, leaving the cursor in place.
proof fn lemma_non_initial_at_start(input: Seq<u8>, limit: int, p: int, c: char)
    requires
        0 <= p <= limit <= input.len(),
        matches_at(input, limit, p, char_bytes(c)),
        id_char(c),
        !('0' <= c && c <= '9'),
    ensures
        forall|res: Option<char>, end: int| #[trigger] non_initial_char().accepts(input, limit, p, res, end) ==> res is None,
        non_initial_char().accepts(input, limit, p, None, p),
{
    law_any_char_reads_encoding(c, input, limit, p);
    lemma_non_id_at_id_char(input, limit, p, c);
    let k = char_bytes(c).len() as int;
    assert(non_initial_char().0.0.accepts(input, limit, p, None, p + k));
    assert(can_fail(non_initial_char().0.0, input, limit, p));
    assert(can_fail(non_id_char(), input, limit, p));
}

/// At a byte up to U+0020, the parser of characters that no identifier holds cannot fail.
proof fn lemma_non_id_at_space(input: Seq<u8>, limit: int, q: int)
    requires
        0 <= q < limit <= input.len(),
        input[q] <= 0x20,
    ensures
        forall|end: int| !(#[trigger] non_id_char().accepts(input, limit, q, None, end)),
        !can_fail(non_id_char(), input, limit, q),
{
    crate::number_laws::lemma_ascii_next_char(input, limit, q);
    assert(!can_fail(non_id_char().0.0, input, limit, q));
}

/// The step of a bare identifier after its first character: a character that is no character
/// that identifiers do not hold.
pub open spec fn id_step() -> And<Parse<char>, Not<crate::kdl::NonIdChar>> {
    And(gen_parser::<char>(), Not(non_id_char()))
}

/// The first step of a bare identifier.
pub open spec fn id_start() -> And<Parse<char>, Not<crate::kdl::NonInitialChar>> {
    And(gen_parser::<char>(), Not(non_initial_char()))
}

/// At an identifier character the step reads it, and cannot fail.
proof fn lemma_step_at_id_char(input: Seq<u8>, limit: int, p: int, c: char)
    requires
        0 <= p <= limit <= input.len(),
        matches_at(input, limit, p, char_bytes(c)),
        id_char(c),
    ensures
        forall|res: Option<char>, end: int| #[trigger] id_step().accepts(input, limit, p, res, end) ==> res == Some(c) && end == p + char_bytes(c).len(),
        !can_fail(id_step(), input, limit, p),
{
    law_any_char_reads_encoding(c, input, limit, p);
    lemma_non_id_at_id_char(input, limit, p, c);
    assert(!can_succeed(non_id_char(), input, limit, p));
    assert(!can_fail(Not(non_id_char()), input, limit, p));
}

/// At a byte up to U+0020 the step fails.
proof fn lemma_step_at_space(input: Seq<u8>, limit: int, q: int)
    requires
        0 <= q < limit <= input.len(),
        input[q] <= 0x20,
    ensures
        forall|res: Option<char>, end: int| #[trigger] id_step().accepts(input, limit, q, res, end) ==> res is None,
{
    lemma_non_id_at_space(input, limit, q);
    assert(!can_succeed(Not(non_id_char()), input, limit, q));
}

/// At an identifier character that is no digit, the first step reads it.
proof fn lemma_start_at_id_char(input: Seq<u8>, limit: int, p: int, c: char)
    requires
        0 <= p <= limit <= input.len(),
        matches_at(input, limit, p, char_bytes(c)),
        id_char(c),
        !('0' <= c && c <= '9'),
    ensures
        forall|res: Option<char>, end: int| #[trigger] id_start().accepts(input, limit, p, res, end) ==> res == Some(c) && end == p + char_bytes(c).len(),
{
    law_any_char_reads_encoding(c, input, limit, p);
    lemma_non_initial_at_start(input, limit, p, c);
    assert(!can_succeed(non_initial_char(), input, limit, p));
    assert(!can_fail(Not(non_initial_char()), input, limit, p));
}

/// Every character takes at least one byte.
proof fn lemma_encode_len(s: Seq<char>)
    ensures
        encode_utf8(s).len() >= s.len(),
    decreases s.len(),
{
    if s.len() > 0 {
        lemma_first_byte(s[0]);
        lemma_encode_len(s.drop_first());
    }
}

/// The input of the laws below: the word `w` encoded, then one byte up to U+0020.
pub open spec fn word_then_space(w: Seq<char>, input: Seq<u8>) -> bool {
    &&& input.len() == encode_utf8(w).len() + 1
    &&& input.subrange(0, encode_utf8(w).len() as int) == encode_utf8(w)
    &&& input[encode_utf8(w).len() as int] <= 0x20
}

/// A run of steps from the second character of a bare word stays on its character boundaries
/// and does not go past its end.
proof fn lemma_chain_positions(w: Seq<char>, input: Seq<u8>, qs: Seq<int>, vs: Seq<char>, i: int)
    requires
        bare_word(w),
        word_then_space(w, input),
        run_chain(id_step(), input, input.len() as int, qs, vs),
        qs[0] == char_offset(w, 1),
        0 <= i <= vs.len(),
    ensures
        i + 1 <= w.len(),
        qs[i] == char_offset(w, i + 1),
    decreases i,
{
    let limit = input.len() as int;
    let n = encode_utf8(w).len() as int;
    if i > 0 {
        lemma_chain_positions(w, input, qs, vs, i - 1);
        assert(id_step().accepts(input, limit, qs[i - 1], Some(vs[i - 1]), qs[i]));
        lemma_last_offset(w);
        if i == w.len() {
            lemma_step_at_space(input, limit, n);
        } else {
            lemma_char_at_offset(w, input, limit, i);
            lemma_step_at_id_char(input, limit, char_offset(w, i), w[i]);
        }
    }
}

/// After the first character of a bare word, the repeated step reads up to the end of the word.
proof fn lemma_rest_of_word(w: Seq<char>, input: Seq<u8>, res: Option<Vec<char>>, end: int)
    requires
        bare_word(w),
        word_then_space(w, input),
        encode_utf8(w).len() < usize::MAX,
        Many(id_step(), 0, usize::MAX).accepts(input, input.len() as int, char_offset(w, 1), res, end),
    ensures
        res is Some,
        end == encode_utf8(w).len(),
{
    let limit = input.len() as int;
    if res is Some {
        let vs = res->0@;
        let qs = choose|qs: Seq<int>| {
            &&& qs[0] == char_offset(w, 1)
            &&& run_chain(id_step(), input, limit, qs, vs)
            &&& 0 <= vs.len()
            &&& (vs.len() == 0 || vs.len() <= usize::MAX)
            &&& end == qs.last()
            &&& (vs.len() < usize::MAX ==> can_fail(id_step(), input, limit, qs.last()))
        };
        let l = vs.len() as int;
        lemma_chain_positions(w, input, qs, vs, l);
        lemma_last_offset(w);
        if l + 1 < w.len() {
            lemma_encode_len(w.take(l + 1));
            lemma_char_at_offset(w, input, limit, l + 1);
            lemma_char_at_offset(w, input, limit, l);
            lemma_step_at_id_char(input, limit, char_offset(w, l + 1), w[l + 1]);
        }
    }
}

/// A bare word is read in full by the bare identifier grammar.
proof fn lemma_bare_reads_word(w: Seq<char>, input: Seq<u8>, res: Option<String>, end: int)
    requires
        bare_word(w),
        word_then_space(w, input),
        encode_utf8(w).len() < usize::MAX,
        bare_identifier().accepts(input, input.len() as int, 0, res, end),
    ensures
        res is Some,
        res->0@ == w,
        end == encode_utf8(w).len(),
{
    let limit = input.len() as int;
    let n = encode_utf8(w).len() as int;
    let t = (id_start(), Many(id_step(), 0, usize::MAX));
    lemma_last_offset(w);
    lemma_char_at_offset(w, input, limit, 0);
    lemma_start_at_id_char(input, limit, 0, w[0]);
    // every outcome of the two steps in a row reads the whole word
    assert forall|r: Option<(char, Vec<char>)>, e: int| #[trigger] t.accepts(input, limit, 0, r, e) implies r is Some && e == n by {
        if r is Some {
            let m1 = choose|m1: int| id_start().accepts(input, limit, 0, Some((r->0).0), m1) && Many(id_step(), 0, usize::MAX).accepts(input, limit, m1, Some((r->0).1), e);
            lemma_rest_of_word(w, input, Some((r->0).1), e);
        } else {
            if !id_start().accepts(input, limit, 0, None, e) {
                let (m1, v0) = choose|m1: int, v0: char| id_start().accepts(input, limit, 0, Some(v0), m1) && Many(id_step(), 0, usize::MAX).accepts(input, limit, m1, None, e);
                lemma_rest_of_word(w, input, None, e);
            }
        }
    }
    encode_utf8_valid_utf8(w);
    encode_utf8_decode_utf8(w);
    assert(input.subrange(0, n) == encode_utf8(w));
}

/// No KDL string starts where no byte is a double quote.
proof fn lemma_no_kdl_string(input: Seq<u8>, res: Option<String>, end: int)
    requires
        forall|i: int| 0 <= i < input.len() ==> input[i] != 34u8,
        gen_parser::<KdlString>().accepts(input, input.len() as int, 0, res, end),
    ensures
        res is None,
{
    let limit = input.len() as int;
    assert((34u32 & 0x7Fu32) as u8 == 34u8) by (bit_vector);
    assert(char_bytes('"') =~= seq![34u8]);
    assert forall|q: int| !matches_at(input, limit, q, char_bytes('"')) by {
        if matches_at(input, limit, q, char_bytes('"')) {
            assert(input.subrange(q, q + 1)[0] == input[q]);
        }
    }
    if res is Some {
        if !gen_parser::<String>().accepts(input, limit, 0, res, end) {
            assert(RawString.accepts(input, limit, 0, res, end));
            let (h, m) = choose|h: (char, Vec<char>, char), m: int| #[trigger] raw_open().accepts(input, limit, 0, Some(h), m) && crate::kdl::RawStringBody(h.1@.len() as usize).accepts(input, limit, m, res, end);
            assert(raw_open().accepts(input, limit, 0, Some(h), m));
        } else {
            assert(string_at(input, limit, 0).0 is Some);
        }
    }
}

/// A bare identifier stops before a byte up to U+0020: reading a bare word followed by such a
/// byte gives the word, with the cursor just before that byte.
pub proof fn law_identifier_stops_at_space(w: Seq<char>, input: Seq<u8>, res: Option<String>, end: int)
    requires
        bare_word(w),
        word_then_space(w, input),
        encode_utf8(w).len() < usize::MAX,
        KdlIdentifier::gen_accepts(input, input.len() as int, 0, res, end),
    ensures
        res is Some,
        res->0@ == w,
        end == encode_utf8(w).len(),
{
    let limit = input.len() as int;
    let n = encode_utf8(w).len() as int;
    assert forall|k: int| 0 <= k < w.len() implies w[k] != '"' by {
        assert(id_char(w[k]));
    }
    lemma_encode_no_quote(w);
    assert forall|i: int| 0 <= i < input.len() implies input[i] != 34u8 by {
        if i < n {
            assert(input.subrange(0, n)[i] == input[i]);
        }
    }
    assert forall|r: Option<String>, e: int| #[trigger] gen_parser::<KdlString>().accepts(input, limit, 0, r, e) implies r is None by {
        lemma_no_kdl_string(input, r, e);
    }
    assert forall|r: Option<String>, e: int| #[trigger] bare_identifier().accepts(input, limit, 0, r, e) implies r is Some && r->0@ == w && e == n by {
        lemma_bare_reads_word(w, input, r, e);
    }
}

} // verus!
