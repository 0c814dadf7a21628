use crate::context::{matches_at, Parser};
use crate::laws::law_any_char_reads_encoding;
use crate::number_laws::lemma_ascii_next_char;
use crate::parsers::primitive::char_bytes;
use crate::parsers::strings::{escape_at, string_at, string_char_at, string_chars, StringParser};
use vstd::prelude::*;
use vstd::utf8::*;

verus! {

/// The first byte of a character's encoding is below 0x80 only for a character below 0x80, and
/// is then the character itself.
pub proof fn lemma_first_byte(c: char)
    ensures
        char_bytes(c).len() >= 1,
        char_bytes(c)[0] < 0x80 ==> c as u32 == char_bytes(c)[0] as u32,
{
    let s = c as u32;
    if s <= 0x7F {
        assert((s & 0x7F) as u8 as u32 == s) by (bit_vector)
            requires
                s <= 0x7F,
        ;
    } else if s <= 0x7FF {
        assert(0xC0u8 | ((s >> 6) & 0x1F) as u8 >= 0x80) by (bit_vector);
    } else if s <= 0xFFFF && !(0xD800 <= s <= 0xDFFF) {
        assert(0xE0u8 | ((s >> 12) & 0x0F) as u8 >= 0x80) by (bit_vector);
    } else {
        assert(0xF0u8 | ((s >> 18) & 0x7) as u8 >= 0x80) by (bit_vector);
    }
}

/// A string body character that is neither a double quote nor a backslash.
pub open spec fn plain_string_char(c: char) -> bool {
    c != '"' && c != '\\'
}

/// The characters `s` written out in UTF-8 between two double quotes.
pub open spec fn quoted(s: Seq<char>) -> Seq<u8> {
    seq![34u8] + encode_utf8(s) + seq![34u8]
}

/// Plain characters encoded at `p` and followed by a double quote are read back as themselves,
/// the body ending at that quote.
proof fn lemma_plain_chars_read(input: Seq<u8>, limit: int, p: int, s: Seq<char>)
    requires
        0 <= p,
        p + encode_utf8(s).len() < limit <= input.len(),
        input.subrange(p, p + encode_utf8(s).len()) == encode_utf8(s),
        input[p + encode_utf8(s).len()] == 34u8,
        forall|i: int| 0 <= i < s.len() ==> plain_string_char(#[trigger] s[i]),
    ensures
        string_chars(input, limit, p) == (s, p + encode_utf8(s).len()),
    decreases s.len(),
{
    assert((92u32 & 0x7Fu32) as u8 == 92u8) by (bit_vector);
    assert(char_bytes('\\') =~= seq![92u8]);
    if s.len() == 0 {
        lemma_ascii_next_char(input, limit, p);
        assert(input.subrange(p, p + 1)[0] == input[p]);
        assert(!matches_at(input, limit, p, char_bytes('\\')));
        assert(escape_at(input, limit, p) is None);
        assert(string_char_at(input, limit, p) is None);
    } else {
        let c = s[0];
        let k = char_bytes(c).len() as int;
        let rest = s.drop_first();
        assert(encode_utf8(s) == char_bytes(c) + encode_utf8(rest));
        let m = encode_utf8(rest).len() as int;
        assert(encode_utf8(s).subrange(0, k) =~= char_bytes(c));
        assert(input.subrange(p, p + k) =~= input.subrange(p, p + encode_utf8(s).len()).subrange(0, k));
        assert(matches_at(input, limit, p, char_bytes(c)));
        law_any_char_reads_encoding(c, input, limit, p);
        lemma_first_byte(c);
        assert(input.subrange(p, p + k)[0] == input[p]);
        assert(input.subrange(p, p + 1)[0] == input[p]);
        assert(plain_string_char(s[0]));
        assert(input[p] == char_bytes(c)[0]);
        if input[p] == 92u8 {
            char_u32_cast(c, 92u32);
            char_u32_cast('\\', 92u32);
            assert(c == '\\');
        }
        assert(!matches_at(input, limit, p, char_bytes('\\')));
        assert(escape_at(input, limit, p) is None);
        assert(string_char_at(input, limit, p) == Some((c, p + k)));
        assert(encode_utf8(s).subrange(k, k + m) =~= encode_utf8(rest));
        assert(input.subrange(p + k, p + k + m) =~= input.subrange(p, p + encode_utf8(s).len()).subrange(k, k + m));
        assert forall|i: int| 0 <= i < rest.len() implies plain_string_char(#[trigger] rest[i]) by {
            assert(rest[i] == s[i + 1]);
        }
        lemma_plain_chars_read(input, limit, p + k, rest);
        assert(seq![c] + rest =~= s);
    }
}

/// Between double quotes, characters other than `"` and `\` stand for themselves: the string
/// parser reads them back as they are, the cursor ending after the closing quote.
pub proof fn law_string_reads_plain_chars(s: Seq<char>, res: Option<String>, end: int)
    requires
        forall|i: int| 0 <= i < s.len() ==> plain_string_char(#[trigger] s[i]),
        StringParser.accepts(quoted(s), quoted(s).len() as int, 0, res, end),
    ensures
        res is Some,
        res->0@ == s,
        end == quoted(s).len(),
{
    let input = quoted(s);
    let n = encode_utf8(s).len() as int;
    let limit = input.len() as int;
    assert((34u32 & 0x7Fu32) as u8 == 34u8) by (bit_vector);
    assert(char_bytes('"') =~= seq![34u8]);
    assert(input.subrange(0, 1) =~= seq![34u8]);
    assert(input.subrange(1, 1 + n) =~= encode_utf8(s));
    assert(input[1 + n] == 34u8);
    lemma_plain_chars_read(input, limit, 1, s);
    assert(input.subrange(1 + n, 2 + n) =~= seq![34u8]);
    assert(string_at(input, limit, 0) == (Some(s), 2 + n));
}

} // verus!
