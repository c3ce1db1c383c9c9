//! Hexadecimal header patterns: decoding a whitespace-delimited sequence
//! of two-digit hex tokens into bytes, counting tokens, and rendering
//! bytes back as hex text.

use vstd::prelude::*;
use vstd::string::StrSliceExecFns;
use vstd::string::StringExecFns;

verus! {

/// Characters accepted as token separators in a header pattern: the
/// ASCII whitespace characters.
pub open spec fn is_space(c: char) -> bool {
    c == ' ' || c == '\t' || c == '\n' || c == '\r' || c == '\u{b}' || c == '\u{c}'
}

fn is_space_exec(c: char) -> (r: bool)
    ensures
        r == is_space(c),
{
    c == ' ' || c == '\t' || c == '\n' || c == '\r' || c == '\u{b}' || c == '\u{c}'
}

/// The value of a hexadecimal digit, case-insensitive; `None` when `c`
/// is not a hex digit.
pub open spec fn spec_hex_val(c: char) -> Option<u8> {
    let u = c as u32;
    if 48 <= u && u <= 57 {
        Some((u - 48) as u8)
    } else if 97 <= u && u <= 102 {
        Some((u - 87) as u8)
    } else if 65 <= u && u <= 70 {
        Some((u - 55) as u8)
    } else {
        None
    }
}

fn hex_val(c: char) -> (r: Option<u8>)
    ensures
        r == spec_hex_val(c),
{
    let u = c as u32;
    if 48 <= u && u <= 57 {
        Some((u - 48) as u8)
    } else if 97 <= u && u <= 102 {
        Some((u - 87) as u8)
    } else if 65 <= u && u <= 70 {
        Some((u - 55) as u8)
    } else {
        None
    }
}

/// The byte encoded by two hex digits; `None` when either is not a hex
/// digit.
pub open spec fn spec_token_byte(hi: char, lo: char) -> Option<u8> {
    match (spec_hex_val(hi), spec_hex_val(lo)) {
        (Some(h), Some(l)) => Some(((h as int) * 16 + (l as int)) as u8),
        _ => None,
    }
}

/// The bytes encoded by the suffix of `s` starting at `i`, read as
/// whitespace-delimited tokens of exactly two hex digits; `None` when
/// some token is not exactly two hex digits.
pub open spec fn spec_parse_from(s: Seq<char>, i: int) -> Option<Seq<u8>>
    decreases s.len() - i,
{
    if i >= s.len() {
        Some(Seq::empty())
    } else if is_space(s[i]) {
        spec_parse_from(s, i + 1)
    } else if i + 1 < s.len() && spec_hex_val(s[i]) is Some && spec_hex_val(s[i + 1]) is Some && (
    i + 2 == s.len() || is_space(s[i + 2])) {
        match spec_parse_from(s, i + 2) {
            Some(rest) => Some(seq![spec_token_byte(s[i], s[i + 1])->Some_0].add(rest)),
            None => None,
        }
    } else {
        None
    }
}

/// The bytes a whole header string encodes, or `None` when it is
/// malformed.
pub open spec fn spec_decode_header(s: Seq<char>) -> Option<Seq<u8>> {
    spec_parse_from(s, 0)
}

/// Decode a header pattern string into its bytes. The pattern is a
/// whitespace-delimited sequence of tokens, each of which must be exactly
/// two hexadecimal digits (case-insensitive); `None` reports a malformed
/// pattern.
pub fn decode_header(h: &str) -> (r: Option<Vec<u8>>)
    ensures
        (match r {
            Some(v) => spec_decode_header(h@) == Some(v@),
            None => spec_decode_header(h@) is None,
        }),
{
    let n = h.unicode_len();
    let mut i: usize = 0;
    let mut out: Vec<u8> = Vec::new();
    loop
        invariant
            i <= n,
            n == h@.len(),
            (match spec_parse_from(h@, i as int) {
                Some(rest) => spec_parse_from(h@, 0) == Some(out@ + rest),
                None => spec_parse_from(h@, 0) is None,
            }),
        decreases n - i,
    {
        if i >= n {
            proof {
                assert(out@ + Seq::<u8>::empty() =~= out@);
            }
            return Some(out);
        }
        let c = h.get_char(i);
        if is_space_exec(c) {
            i = i + 1;
        } else if i + 1 < n {
            let c1 = h.get_char(i + 1);
            let hv = hex_val(c);
            let lv = hex_val(c1);
            match (hv, lv) {
                (Some(hb), Some(lb)) => {
                    let boundary = i + 2 >= n || is_space_exec(h.get_char(i + 2));
                    if boundary {
                        assert(hb <= 15 && lb <= 15);
                        let b: u8 = 16 * hb + lb;
                        proof {
                            let ghost old_out = out@;
                            if let Some(rest) = spec_parse_from(h@, i + 2) {
                                assert(spec_parse_from(h@, i as int) == Some(
                                    seq![b].add(rest),
                                ));
                                assert(old_out + seq![b].add(rest) =~= old_out.push(b) + rest);
                            }
                        }
                        out.push(b);
                        i = i + 2;
                    } else {
                        return None;
                    }
                },
                _ => {
                    return None;
                },
            }
        } else {
            return None;
        }
    }
}

/// Number of whitespace-delimited tokens in the suffix of `s` starting at
/// `i`; `in_token` says whether position `i - 1` was inside a token.
pub open spec fn spec_token_count_from(s: Seq<char>, i: int, in_token: bool) -> nat
    decreases s.len() - i,
{
    if i >= s.len() {
        0
    } else {
        let here = !is_space(s[i]);
        (if here && !in_token {
            1nat
        } else {
            0nat
        }) + spec_token_count_from(s, i + 1, here)
    }
}

/// Number of whitespace-delimited tokens in a string.
pub open spec fn spec_token_count(s: Seq<char>) -> nat {
    spec_token_count_from(s, 0, false)
}

/// Count the whitespace-delimited tokens of a string.
pub fn token_count(h: &str) -> (n: usize)
    ensures
        n as nat == spec_token_count(h@),
{
    let len = h.unicode_len();
    let mut i: usize = 0;
    let mut acc: usize = 0;
    let mut in_token = false;
    loop
        invariant
            i <= len,
            len == h@.len(),
            acc <= i,
            acc + spec_token_count_from(h@, i as int, in_token) == spec_token_count(h@),
        decreases len - i,
    {
        if i >= len {
            return acc;
        }
        let c = h.get_char(i);
        let here = !is_space_exec(c);
        if here && !in_token {
            acc = acc + 1;
        }
        in_token = here;
        i = i + 1;
    }
}

proof fn lemma_token_count_space_flag(s: Seq<char>, i: int)
    requires
        0 <= i < s.len(),
        is_space(s[i]),
    ensures
        spec_token_count_from(s, i, true) == spec_token_count_from(s, i, false),
{
}

proof fn lemma_token_count_matches_bytes(s: Seq<char>, i: int, pat: Seq<u8>)
    requires
        0 <= i,
        spec_parse_from(s, i) == Some(pat),
    ensures
        spec_token_count_from(s, i, false) == pat.len(),
    decreases s.len() - i,
{
    if i >= s.len() {
    } else if is_space(s[i]) {
        lemma_token_count_matches_bytes(s, i + 1, pat);
    } else {
        let rest = spec_parse_from(s, i + 2)->Some_0;
        lemma_token_count_matches_bytes(s, i + 2, rest);
        assert(pat == seq![spec_token_byte(s[i], s[i + 1])->Some_0].add(rest));
        assert(pat.len() == 1 + rest.len());
        assert(!is_space(s[i + 1]));
        assert(spec_token_count_from(s, i, false) == 1 + spec_token_count_from(s, i + 1, true));
        assert(spec_token_count_from(s, i + 1, true) == spec_token_count_from(s, i + 2, true));
        if i + 2 < s.len() {
            lemma_token_count_space_flag(s, i + 2);
        }
        assert(spec_token_count_from(s, i + 2, true) == spec_token_count_from(s, i + 2, false));
    }
}

/// A well-formed header string carries exactly one token per decoded
/// byte: its token count equals the length of its decoded pattern.
pub proof fn lemma_decoded_token_count(s: Seq<char>, pat: Seq<u8>)
    requires
        spec_decode_header(s) == Some(pat),
    ensures
        spec_token_count(s) == pat.len(),
{
    lemma_token_count_matches_bytes(s, 0, pat);
}

/// Relies on String::push: appends the character to the end of the
/// string.
#[verifier::external_body]
pub(crate) fn push_char(s: &mut String, c: char)
    ensures
        final(s)@ == old(s)@.push(c),
{
    s.push(c)
}

/// The lowercase hex digit for a value below sixteen.
pub open spec fn spec_hex_digit_char(n: u8) -> char
    recommends
        n < 16,
{
    if n < 10 {
        ((n + 48) as u8) as char
    } else {
        ((n + 87) as u8) as char
    }
}

fn hex_digit_char(n: u8) -> (c: char)
    requires
        n < 16,
    ensures
        c == spec_hex_digit_char(n),
{
    if n < 10 {
        (n + 48) as char
    } else {
        (n + 87) as char
    }
}

/// The lowercase hex rendering of one byte: two digits and a trailing
/// space.
pub open spec fn spec_byte_hex(b: u8) -> Seq<char> {
    seq![spec_hex_digit_char(b / 16), spec_hex_digit_char(b % 16), ' ']
}

/// The lowercase hex rendering of a byte sequence, byte by byte.
pub open spec fn spec_hex_of(bytes: Seq<u8>) -> Seq<char>
    decreases bytes.len(),
{
    if bytes.len() == 0 {
        Seq::empty()
    } else {
        spec_hex_of(bytes.drop_last()) + spec_byte_hex(bytes.last())
    }
}

/// Format bytes as lowercase hex: two digits and a space per byte.
pub fn bytes_to_hex(bytes: &[u8]) -> (r: String)
    ensures
        r@ == spec_hex_of(bytes@),
{
    let mut s = String::new();
    let mut i: usize = 0;
    while i < bytes.len()
        invariant
            i <= bytes@.len(),
            s@ == spec_hex_of(bytes@.subrange(0, i as int)),
        decreases bytes@.len() - i,
    {
        let b = bytes[i];
        push_char(&mut s, hex_digit_char(b / 16));
        push_char(&mut s, hex_digit_char(b % 16));
        push_char(&mut s, ' ');
        proof {
            assert(bytes@.subrange(0, (i + 1) as int).drop_last() =~= bytes@.subrange(0, i as int));
            assert(bytes@.subrange(0, (i + 1) as int).last() == bytes@[i as int]);
            assert(s@ =~= spec_hex_of(bytes@.subrange(0, (i + 1) as int)));
        }
        i = i + 1;
    }
    proof {
        assert(bytes@.subrange(0, bytes@.len() as int) =~= bytes@);
    }
    s
}

/// Format an optional byte vector: its hex rendering when present, the
/// text "None" otherwise.
pub fn opt_bytes_to_hex(bytes: &Option<Vec<u8>>) -> (r: String)
    ensures
        (match *bytes {
            Some(v) => r@ == spec_hex_of(v@),
            None => r@ == "None"@,
        }),
{
    match bytes {
        Some(v) => bytes_to_hex(v.as_slice()),
        None => String::from_str("None"),
    }
}

} // verus!
