//! Mail addresses taken from SMTP commands, and file-name-safe text.
use vstd::prelude::*;
use vstd::utf8::*;
use crate::text::{
    ascii_alnum, chars_of, is_ascii_alnum, string_of, trim_both, trim_chars, trim_end, trim_end_chars,
    trim_start, trim_start_chars, CharClass, lemma_trim_start_at, lemma_trim_end_at,
    lemma_trim_start_shape, lemma_trim_end_shape,
};

verus! {

/// The characters whose UTF-8 encoding follows the first `n` bytes of the encoding of `s`.
pub open spec fn text_after_bytes(s: Seq<char>, n: int) -> Seq<char> {
    decode_utf8(encode_utf8(s).subrange(n, encode_utf8(s).len() as int))
}

/// An address argument with surrounding white space, then leading `<` and trailing `>`
/// characters, removed.
pub open spec fn clean_address(s: Seq<char>) -> Seq<char> {
    trim_end(trim_start(trim_both(s, CharClass::Whitespace), CharClass::Only('<')), CharClass::Only('>'))
}

/// The address that follows `prefix` in an SMTP `command`: the text after the first
/// `prefix.len()` bytes of `command`, trimmed of white space, leading `<` and trailing `>`.
pub fn parse_address(command: &str, prefix: &str) -> (address: String)
    requires
        encode_utf8(prefix@).len() <= usize::MAX,
        is_char_boundary(encode_utf8(command@), encode_utf8(prefix@).len() as int),
    ensures
        address@ == clean_address(text_after_bytes(command@, encode_utf8(prefix@).len() as int)),
{
    broadcast use group_utf8_lib;
    let (_, rest) = command.split_at(prefix.len());
    proof {
        assert(decode_utf8(encode_utf8(rest@)) == rest@);
    }
    let v = chars_of(rest);
    let t = trim_chars(&v, CharClass::Whitespace);
    let t = trim_start_chars(&t, CharClass::Only('<'));
    let t = trim_end_chars(&t, CharClass::Only('>'));
    string_of(&t)
}

/// The UTF-8 encoding of a concatenation is the concatenation of the encodings.
pub proof fn lemma_encode_concat(a: Seq<char>, b: Seq<char>)
    ensures
        encode_utf8(a + b) == encode_utf8(a) + encode_utf8(b),
    decreases a.len(),
{
    if a.len() == 0 {
        assert(a + b =~= b);
        assert(encode_utf8(a) + encode_utf8(b) =~= encode_utf8(b));
    } else {
        assert((a + b).drop_first() =~= a.drop_first() + b);
        lemma_encode_concat(a.drop_first(), b);
        assert(encode_utf8(a + b) =~= encode_utf8(a) + encode_utf8(b));
    }
}

/// The bytes of the first `k` characters of `s` end on a character boundary, and the
/// bytes after them encode the remaining characters.
pub proof fn lemma_boundary_after_chars(s: Seq<char>, k: int)
    requires
        0 <= k <= s.len(),
    ensures
        is_char_boundary(encode_utf8(s), encode_utf8(s.take(k)).len() as int),
        text_after_bytes(s, encode_utf8(s.take(k)).len() as int) == s.skip(k),
    decreases k,
{
    broadcast use group_utf8_lib;
    let bytes = encode_utf8(s);
    assert(s =~= s.take(k) + s.skip(k));
    lemma_encode_concat(s.take(k), s.skip(k));
    let n = encode_utf8(s.take(k)).len() as int;
    assert(bytes.subrange(n, bytes.len() as int) =~= encode_utf8(s.skip(k)));
    if k > 0 {
        encode_utf8_first_scalar(s);
        let w = length_of_first_scalar(bytes);
        let t = s.drop_first();
        assert(s.take(k).drop_first() =~= t.take(k - 1));
        assert(pop_first_scalar(bytes) =~= encode_utf8(t));
        lemma_boundary_after_chars(t, k - 1);
        assert(n == w + encode_utf8(t.take(k - 1)).len());
    }
}

/// The number of UTF-8 bytes of an ASCII text is its number of characters.
pub proof fn lemma_ascii_byte_len(s: Seq<char>)
    requires
        is_ascii_chars(s),
    ensures
        encode_utf8(s).len() == s.len(),
{
    is_ascii_chars_encode_utf8(s);
}

/// A character as it appears in a file name: ASCII letters and digits stay, anything
/// else becomes `-`.
pub open spec fn file_char(c: char) -> char {
    if is_ascii_alnum(c) {
        c
    } else {
        '-'
    }
}

/// `s` with every character passed through [`file_char`], then leading and trailing `-`
/// removed.
pub open spec fn sanitized(s: Seq<char>) -> Seq<char> {
    trim_both(s.map_values(|c: char| file_char(c)), CharClass::Only('-'))
}

/// The text of `input` made safe for a file name (see [`sanitized`]).
pub fn sanitize_file_part(input: &str) -> (part: String)
    ensures
        part@ == sanitized(input@),
{
    let v = chars_of(input);
    let mut m: Vec<char> = Vec::new();
    let mut i: usize = 0;
    while i < v.len()
        invariant
            i <= v.len(),
            v@ == input@,
            m@ == v@.take(i as int).map_values(|c: char| file_char(c)),
        decreases v.len() - i,
    {
        let c = v[i];
        let f = if ascii_alnum(c) {
            c
        } else {
            '-'
        };
        m.push(f);
        i = i + 1;
        assert(m@ =~= v@.take(i as int).map_values(|c: char| file_char(c)));
    }
    assert(v@.take(v.len() as int) =~= v@);
    let t = trim_chars(&m, CharClass::Only('-'));
    string_of(&t)
}

/// Every character of a file-name part is an ASCII letter, digit or `-`.
pub open spec fn file_safe(s: Seq<char>) -> bool {
    forall|i: int| 0 <= i < s.len() ==> is_ascii_alnum(#[trigger] s[i]) || s[i] == '-'
}

/// Law: a sanitized part holds only ASCII letters, digits and `-`, and neither starts
/// nor ends with `-`.
pub proof fn law_sanitized_shape(s: Seq<char>)
    ensures
        file_safe(sanitized(s)),
        sanitized(s).len() > 0 ==> sanitized(s)[0] != '-' && sanitized(s).last() != '-',
{
    let m = s.map_values(|c: char| file_char(c));
    let k = CharClass::Only('-');
    lemma_trim_start_shape(m, k);
    let t = trim_start(m, k);
    let lo = choose|lo: int| 0 <= lo <= m.len() && t == #[trigger] m.skip(lo);
    lemma_trim_end_shape(t, k);
    let r = trim_end(t, k);
    let hi = choose|hi: int| 0 <= hi <= t.len() && r == #[trigger] t.take(hi);
    assert forall|i: int| 0 <= i < r.len() implies is_ascii_alnum(#[trigger] r[i]) || r[i] == '-' by {
        assert(r[i] == m[i + lo]);
    }
    if r.len() > 0 {
        assert(r[0] == t[0]);
    }
}

/// Law: sanitizing a sanitized part changes nothing.
pub proof fn law_sanitize_idempotent(s: Seq<char>)
    ensures
        sanitized(sanitized(s)) == sanitized(s),
{
    law_sanitized_shape(s);
    let r = sanitized(s);
    law_sanitize_keeps_safe_text(r);
}

/// Law: text of ASCII letters, digits and inner `-` characters is already a valid part.
pub proof fn law_sanitize_keeps_safe_text(s: Seq<char>)
    requires
        file_safe(s),
        s.len() > 0 ==> s[0] != '-' && s.last() != '-',
    ensures
        sanitized(s) == s,
{
    let m = s.map_values(|c: char| file_char(c));
    assert(m =~= s);
    let k = CharClass::Only('-');
    lemma_trim_start_at(m, k, 0);
    assert(m.skip(0) =~= m);
    if m.len() > 0 {
        assert(m.last() == m[m.len() - 1]);
    }
    lemma_trim_end_at(m, k, m.len() as int);
    assert(m.take(m.len() as int) =~= m);
}

/// Law: a parsed address neither starts with `<` nor ends with `>`.
pub proof fn law_clean_address_unbracketed(s: Seq<char>)
    ensures
        clean_address(s).len() > 0 ==> clean_address(s)[0] != '<' && clean_address(s).last() != '>',
{
    let w = trim_both(s, CharClass::Whitespace);
    let u = trim_start(w, CharClass::Only('<'));
    lemma_trim_start_shape(w, CharClass::Only('<'));
    lemma_trim_end_shape(u, CharClass::Only('>'));
    let r = trim_end(u, CharClass::Only('>'));
    let hi = choose|hi: int| 0 <= hi <= u.len() && r == #[trigger] u.take(hi);
    if r.len() > 0 {
        assert(r[0] == u[0]);
    }
}

/// Law: an address written in angle brackets is given back as written, when it neither
/// starts with `<` nor ends with `>`.
pub proof fn law_bracketed_address_round_trip(a: Seq<char>)
    requires
        a.len() > 0 ==> a[0] != '<' && a.last() != '>',
    ensures
        clean_address(seq!['<'] + a + seq!['>']) == a,
{
    let w = seq!['<'] + a + seq!['>'];
    let ws = CharClass::Whitespace;
    lemma_trim_start_at(w, ws, 0);
    assert(w.skip(0) =~= w);
    assert(w.last() == '>');
    lemma_trim_end_at(w, ws, w.len() as int);
    assert(w.take(w.len() as int) =~= w);
    assert(trim_both(w, ws) == w);
    let lt = CharClass::Only('<');
    if a.len() > 0 {
        assert(w[1] == a[0]);
    }
    lemma_trim_start_at(w, lt, 1);
    let u = w.skip(1);
    assert(u =~= a + seq!['>']);
    let gt = CharClass::Only('>');
    if a.len() > 0 {
        assert(u[a.len() - 1] == a.last());
    }
    lemma_trim_end_at(u, gt, a.len() as int);
    assert(u.take(a.len() as int) =~= a);
}

} // verus!
