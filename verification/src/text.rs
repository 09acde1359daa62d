//! Character classes and text helpers shared by the protocol and storage code.
//!
//! Text is modelled as `Seq<char>` (the view of `String` and `&str`).
use vstd::prelude::*;

verus! {

/// ASCII letters and digits, as `char::is_ascii_alphanumeric` classifies them.
pub open spec fn is_ascii_alnum(c: char) -> bool {
    ('0' <= c && c <= '9') || ('A' <= c && c <= 'Z') || ('a' <= c && c <= 'z')
}

/// The characters with the Unicode `White_Space` property, which is what
/// `char::is_whitespace` (and so `str::trim`) tests.
pub open spec fn is_unicode_whitespace(c: char) -> bool {
    ('\u{9}' <= c && c <= '\u{d}') || c == ' ' || c == '\u{85}' || c == '\u{a0}'
        || c == '\u{1680}' || ('\u{2000}' <= c && c <= '\u{200a}') || c == '\u{2028}'
        || c == '\u{2029}' || c == '\u{202f}' || c == '\u{205f}' || c == '\u{3000}'
}

/// The upper-case form of a character under `char::to_ascii_uppercase`.
pub open spec fn ascii_upper(c: char) -> char {
    if 'a' <= c && c <= 'z' {
        ((c as u32) - 32) as char
    } else {
        c
    }
}

/// `s` with every character passed through [`ascii_upper`] (`str::to_ascii_uppercase`).
pub open spec fn upper_text(s: Seq<char>) -> Seq<char> {
    s.map_values(|c: char| ascii_upper(c))
}

/// `prefix` is a prefix of `s`.
pub open spec fn starts_with(s: Seq<char>, prefix: Seq<char>) -> bool {
    prefix.len() <= s.len() && s.take(prefix.len() as int) == prefix
}

/// A set of characters that the trimming functions remove.
#[derive(Clone, Copy, Debug, PartialEq, Eq, Structural)]
pub enum CharClass {
    /// Unicode white space.
    Whitespace,
    /// Carriage return and line feed.
    LineEnd,
    /// One given character.
    Only(char),
}

pub open spec fn in_class(k: CharClass, c: char) -> bool {
    match k {
        CharClass::Whitespace => is_unicode_whitespace(c),
        CharClass::LineEnd => c == '\r' || c == '\n',
        CharClass::Only(x) => c == x,
    }
}

/// `s` without its leading characters of class `k` (`str::trim_start_matches`).
pub open spec fn trim_start(s: Seq<char>, k: CharClass) -> Seq<char>
    decreases s.len(),
{
    if s.len() > 0 && in_class(k, s[0]) {
        trim_start(s.drop_first(), k)
    } else {
        s
    }
}

/// `s` without its trailing characters of class `k` (`str::trim_end_matches`).
pub open spec fn trim_end(s: Seq<char>, k: CharClass) -> Seq<char>
    decreases s.len(),
{
    if s.len() > 0 && in_class(k, s.last()) {
        trim_end(s.drop_last(), k)
    } else {
        s
    }
}

/// `s` without leading and trailing characters of class `k` (`str::trim_matches`, `str::trim`).
pub open spec fn trim_both(s: Seq<char>, k: CharClass) -> Seq<char> {
    trim_end(trim_start(s, k), k)
}

/// Dropping a run of class-`k` characters that ends right before a character outside
/// the class, or at the end, is what `trim_start` does.
pub proof fn lemma_trim_start_at(s: Seq<char>, k: CharClass, lo: int)
    requires
        0 <= lo <= s.len(),
        forall|i: int| 0 <= i < lo ==> in_class(k, #[trigger] s[i]),
        lo == s.len() || !in_class(k, s[lo]),
    ensures
        trim_start(s, k) == s.skip(lo),
    decreases lo,
{
    if lo == 0 {
        assert(s.skip(0) =~= s);
    } else {
        let t = s.drop_first();
        assert forall|i: int| 0 <= i < lo - 1 implies in_class(k, #[trigger] t[i]) by {
            assert(t[i] == s[i + 1]);
        }
        if lo - 1 < t.len() {
            assert(t[lo - 1] == s[lo]);
        }
        lemma_trim_start_at(t, k, lo - 1);
        assert(t.skip(lo - 1) =~= s.skip(lo));
    }
}

/// Dropping a run of class-`k` characters that starts right after a character outside
/// the class, or at the start, is what `trim_end` does.
pub proof fn lemma_trim_end_at(s: Seq<char>, k: CharClass, hi: int)
    requires
        0 <= hi <= s.len(),
        forall|i: int| hi <= i < s.len() ==> in_class(k, #[trigger] s[i]),
        hi == 0 || !in_class(k, s[hi - 1]),
    ensures
        trim_end(s, k) == s.take(hi),
    decreases s.len() - hi,
{
    if hi == s.len() {
        assert(s.take(hi) =~= s);
        if s.len() > 0 {
            assert(s.last() == s[hi - 1]);
        }
    } else {
        let t = s.drop_last();
        assert(in_class(k, s[s.len() - 1]));
        assert forall|i: int| hi <= i < t.len() implies in_class(k, #[trigger] t[i]) by {
            assert(t[i] == s[i]);
        }
        if hi > 0 {
            assert(t[hi - 1] == s[hi - 1]);
        }
        lemma_trim_end_at(t, k, hi);
        assert(t.take(hi) =~= s.take(hi));
    }
}

/// `trim_start` leaves a text that is empty or starts outside the class.
pub proof fn lemma_trim_start_shape(s: Seq<char>, k: CharClass)
    ensures
        trim_start(s, k).len() == 0 || !in_class(k, trim_start(s, k)[0]),
        trim_start(s, k).len() <= s.len(),
        exists|lo: int| 0 <= lo <= s.len() && trim_start(s, k) == #[trigger] s.skip(lo),
    decreases s.len(),
{
    if s.len() > 0 && in_class(k, s[0]) {
        lemma_trim_start_shape(s.drop_first(), k);
        let lo = choose|lo: int|
            0 <= lo <= s.drop_first().len() && trim_start(s.drop_first(), k)
                == #[trigger] s.drop_first().skip(lo);
        assert(s.drop_first().skip(lo) =~= s.skip(lo + 1));
    } else {
        assert(s.skip(0) =~= s);
    }
}

/// `trim_end` leaves a text that is empty or ends outside the class.
pub proof fn lemma_trim_end_shape(s: Seq<char>, k: CharClass)
    ensures
        trim_end(s, k).len() == 0 || !in_class(k, trim_end(s, k).last()),
        trim_end(s, k).len() <= s.len(),
        exists|hi: int| 0 <= hi <= s.len() && trim_end(s, k) == #[trigger] s.take(hi),
    decreases s.len(),
{
    if s.len() > 0 && in_class(k, s.last()) {
        lemma_trim_end_shape(s.drop_last(), k);
        let hi = choose|hi: int|
            0 <= hi <= s.drop_last().len() && trim_end(s.drop_last(), k)
                == #[trigger] s.drop_last().take(hi);
        assert(s.drop_last().take(hi) =~= s.take(hi));
    } else {
        assert(s.take(s.len() as int) =~= s);
    }
}

/// `trim_start` removes everything exactly when every character is in the class.
pub proof fn lemma_trim_start_empty(s: Seq<char>, k: CharClass)
    ensures
        trim_start(s, k).len() == 0 <==> forall|i: int| 0 <= i < s.len() ==> in_class(k, #[trigger] s[i]),
    decreases s.len(),
{
    if s.len() > 0 && in_class(k, s[0]) {
        let t = s.drop_first();
        lemma_trim_start_empty(t, k);
        if forall|i: int| 0 <= i < t.len() ==> in_class(k, #[trigger] t[i]) {
            assert forall|i: int| 0 <= i < s.len() implies in_class(k, #[trigger] s[i]) by {
                if i > 0 {
                    assert(s[i] == t[i - 1]);
                }
            }
        }
        if forall|i: int| 0 <= i < s.len() ==> in_class(k, #[trigger] s[i]) {
            assert forall|i: int| 0 <= i < t.len() implies in_class(k, #[trigger] t[i]) by {
                assert(t[i] == s[i + 1]);
            }
        }
    } else if s.len() > 0 {
        assert(!in_class(k, s[0]));
    }
}

/// `trim_end` removes everything exactly when every character is in the class.
pub proof fn lemma_trim_end_empty(s: Seq<char>, k: CharClass)
    ensures
        trim_end(s, k).len() == 0 <==> forall|i: int| 0 <= i < s.len() ==> in_class(k, #[trigger] s[i]),
    decreases s.len(),
{
    if s.len() > 0 && in_class(k, s.last()) {
        let t = s.drop_last();
        lemma_trim_end_empty(t, k);
        if forall|i: int| 0 <= i < t.len() ==> in_class(k, #[trigger] t[i]) {
            assert forall|i: int| 0 <= i < s.len() implies in_class(k, #[trigger] s[i]) by {
                if i < t.len() {
                    assert(s[i] == t[i]);
                }
            }
        }
        if forall|i: int| 0 <= i < s.len() ==> in_class(k, #[trigger] s[i]) {
            assert forall|i: int| 0 <= i < t.len() implies in_class(k, #[trigger] t[i]) by {
                assert(t[i] == s[i]);
            }
        }
    } else if s.len() > 0 {
        assert(!in_class(k, s[s.len() - 1]));
    }
}

/// `trim_both` removes everything exactly when every character is in the class.
pub proof fn lemma_trim_both_empty(s: Seq<char>, k: CharClass)
    ensures
        trim_both(s, k).len() == 0 <==> forall|i: int| 0 <= i < s.len() ==> in_class(k, #[trigger] s[i]),
{
    let t = trim_start(s, k);
    lemma_trim_start_empty(s, k);
    lemma_trim_end_empty(t, k);
    lemma_trim_start_shape(s, k);
    if t.len() > 0 {
        assert(!in_class(k, t[0]));
    }
}

pub fn ascii_alnum(c: char) -> (r: bool)
    ensures
        r == is_ascii_alnum(c),
{
    ('0' <= c && c <= '9') || ('A' <= c && c <= 'Z') || ('a' <= c && c <= 'z')
}

pub fn char_in_class(k: CharClass, c: char) -> (r: bool)
    ensures
        r == in_class(k, c),
{
    match k {
        CharClass::Whitespace => {
            ('\u{9}' <= c && c <= '\u{d}') || c == ' ' || c == '\u{85}' || c == '\u{a0}' || c
                == '\u{1680}' || ('\u{2000}' <= c && c <= '\u{200a}') || c == '\u{2028}' || c
                == '\u{2029}' || c == '\u{202f}' || c == '\u{205f}' || c == '\u{3000}'
        },
        CharClass::LineEnd => c == '\r' || c == '\n',
        CharClass::Only(x) => c == x,
    }
}

/// Appends one character to a string (`String::push`).
#[verifier::external_body]
pub(crate) fn push_char(s: &mut String, c: char)
    ensures
        final(s)@ == old(s)@.push(c),
{
    s.push(c);
}

/// The characters of `s`, in order.
pub fn chars_of(s: &str) -> (v: Vec<char>)
    ensures
        v@ == s@,
{
    let mut v: Vec<char> = Vec::new();
    for c in it: s.chars()
        invariant
            v@ == it.seq().take(it.index() as int),
    {
        v.push(c);
    }
    v
}

/// The index of the first character of `v` at or after `lo` that is outside class `k`,
/// or `v.len()`.
pub fn skip_class(v: &Vec<char>, k: CharClass, lo: usize) -> (r: usize)
    requires
        lo <= v.len(),
    ensures
        lo <= r <= v.len(),
        forall|i: int| lo <= i < r ==> in_class(k, #[trigger] v@[i]),
        r == v.len() || !in_class(k, v@[r as int]),
{
    let mut i = lo;
    while i < v.len() && char_in_class(k, v[i])
        invariant
            lo <= i <= v.len(),
            forall|j: int| lo <= j < i ==> in_class(k, #[trigger] v@[j]),
        decreases v.len() - i,
    {
        i = i + 1;
    }
    i
}

/// The end of `v[..hi]` once its trailing characters of class `k` are dropped.
pub fn skip_class_back(v: &Vec<char>, k: CharClass, hi: usize) -> (r: usize)
    requires
        hi <= v.len(),
    ensures
        r <= hi,
        forall|i: int| r <= i < hi ==> in_class(k, #[trigger] v@[i]),
        r == 0 || !in_class(k, v@[r - 1]),
{
    let mut i = hi;
    while i > 0 && char_in_class(k, v[i - 1])
        invariant
            i <= hi <= v.len(),
            forall|j: int| i <= j < hi ==> in_class(k, #[trigger] v@[j]),
        decreases i,
    {
        i = i - 1;
    }
    i
}

/// The characters `v[lo..hi]`.
pub fn chars_in_range(v: &Vec<char>, lo: usize, hi: usize) -> (r: Vec<char>)
    requires
        lo <= hi <= v.len(),
    ensures
        r@ == v@.subrange(lo as int, hi as int),
{
    let mut r: Vec<char> = Vec::new();
    let mut i = lo;
    while i < hi
        invariant
            lo <= i <= hi <= v.len(),
            r@ == v@.subrange(lo as int, i as int),
        decreases hi - i,
    {
        r.push(v[i]);
        i = i + 1;
        assert(r@ =~= v@.subrange(lo as int, i as int));
    }
    r
}

/// `v` without its leading characters of class `k`.
pub fn trim_start_chars(v: &Vec<char>, k: CharClass) -> (r: Vec<char>)
    ensures
        r@ == trim_start(v@, k),
{
    let lo = skip_class(v, k, 0);
    proof {
        lemma_trim_start_at(v@, k, lo as int);
        assert(v@.skip(lo as int) =~= v@.subrange(lo as int, v@.len() as int));
    }
    chars_in_range(v, lo, v.len())
}

/// `v` without its trailing characters of class `k`.
pub fn trim_end_chars(v: &Vec<char>, k: CharClass) -> (r: Vec<char>)
    ensures
        r@ == trim_end(v@, k),
{
    let hi = skip_class_back(v, k, v.len());
    proof {
        lemma_trim_end_at(v@, k, hi as int);
        assert(v@.take(hi as int) =~= v@.subrange(0, hi as int));
    }
    chars_in_range(v, 0, hi)
}

/// `v` without leading and trailing characters of class `k`.
pub fn trim_chars(v: &Vec<char>, k: CharClass) -> (r: Vec<char>)
    ensures
        r@ == trim_both(v@, k),
{
    let t = trim_start_chars(v, k);
    trim_end_chars(&t, k)
}

/// The string whose characters are `v`.
pub fn string_of(v: &Vec<char>) -> (s: String)
    ensures
        s@ == v@,
{
    let mut s = String::new();
    let mut i: usize = 0;
    while i < v.len()
        invariant
            i <= v.len(),
            s@ == v@.take(i as int),
        decreases v.len() - i,
    {
        push_char(&mut s, v[i]);
        i = i + 1;
        assert(s@ =~= v@.take(i as int));
    }
    assert(v@.take(v.len() as int) =~= v@);
    s
}

/// Whether the ASCII upper-case form of `s` starts with `keyword`.
pub fn starts_with_upper(s: &Vec<char>, keyword: &str) -> (r: bool)
    ensures
        r == starts_with(upper_text(s@), keyword@),
{
    let kw = chars_of(keyword);
    if kw.len() > s.len() {
        return false;
    }
    let mut i: usize = 0;
    while i < kw.len()
        invariant
            kw@ == keyword@,
            kw.len() <= s.len(),
            i <= kw.len(),
            forall|j: int| 0 <= j < i ==> ascii_upper(#[trigger] s@[j]) == kw@[j],
        decreases kw.len() - i,
    {
        let c = s[i];
        let u = if 'a' <= c && c <= 'z' {
            ((c as u8) - 32) as char
        } else {
            c
        };
        assert(u == ascii_upper(c)) by {
            if 'a' <= c && c <= 'z' {
                assert((c as u8) as u32 == c as u32);
            }
        }
        if u != kw[i] {
            assert(upper_text(s@).take(kw.len() as int)[i as int] != keyword@[i as int]);
            return false;
        }
        i = i + 1;
    }
    assert(upper_text(s@).take(kw.len() as int) =~= keyword@);
    true
}

/// Whether the ASCII upper-case form of `s` is exactly `keyword`.
pub fn equals_upper(s: &Vec<char>, keyword: &str) -> (r: bool)
    ensures
        r == (upper_text(s@) == keyword@),
{
    let kw = chars_of(keyword);
    if kw.len() != s.len() {
        assert(upper_text(s@).len() != keyword@.len());
        return false;
    }
    let r = starts_with_upper(s, keyword);
    proof {
        if r {
            assert(upper_text(s@).take(kw.len() as int) =~= upper_text(s@));
        } else {
            if upper_text(s@) == keyword@ {
                assert(upper_text(s@).take(kw.len() as int) =~= upper_text(s@));
            }
        }
    }
    r
}

} // verus!
