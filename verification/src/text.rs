//! Text plumbing: UTF-8 decoding and encoding, and the character classes
//! the pattern engine is built on.
//!
//! A body is scanned as a sequence of Unicode scalar values. `decode` and
//! `encode` move between that sequence and the bytes on the wire; their
//! contracts are stated over `vstd::utf8`'s `valid_utf8`, `decode_utf8` and
//! `encode_utf8`.

use vstd::prelude::*;
use vstd::std_specs::iter::IteratorSpec;
use vstd::string::StringSliceAdditionalSpecFns;
use vstd::utf8::*;

verus! {

/// ASCII decimal digits, `'0'..='9'`.
pub open spec fn is_digit_char(c: char) -> bool {
    '0' <= c && c <= '9'
}

/// What `char::is_alphanumeric` answers for `c`: the Unicode `Alphabetic`
/// property or one of the numeric general categories.
pub uninterp spec fn is_alphanumeric_char(c: char) -> bool;

/// Check if a character is an ASCII decimal digit.
pub fn is_digit(c: char) -> (r: bool)
    ensures
        r == is_digit_char(c),
{
    '0' <= c && c <= '9'
}

/// Trusted: `char::is_alphanumeric` of std. The contract only names the
/// answer; which characters are alphanumeric is left to the Unicode tables
/// std ships.
#[verifier::external_body]
pub(crate) fn is_alphanumeric(c: char) -> (r: bool)
    ensures
        r == is_alphanumeric_char(c),
{
    c.is_alphanumeric()
}

/// Trusted: `core::str::from_utf8` of std. It succeeds exactly on
/// well-formed UTF-8, and the string it returns is laid out as the bytes it
/// was given.
#[verifier::external_body]
pub(crate) fn utf8_text(bytes: &[u8]) -> (r: Option<&str>)
    ensures
        r is Some <==> valid_utf8(bytes@),
        r matches Some(s) ==> s.spec_bytes() == bytes@,
{
    match std::str::from_utf8(bytes) {
        Ok(s) => Some(s),
        Err(_) => None,
    }
}

/// Trusted: `String::push` of std, which appends one character.
#[verifier::external_body]
pub(crate) fn string_push(s: &mut String, c: char)
    ensures
        final(s)@ == old(s)@.push(c),
{
    s.push(c)
}

/// The text of a string that may be missing.
pub open spec fn text_of(s: Option<&str>) -> Option<Seq<char>> {
    match s {
        Some(s) => Some(s@),
        None => None,
    }
}

/// The characters of `s`, in order.
pub fn str_chars(s: &str) -> (v: Vec<char>)
    ensures
        v@ == s@,
{
    let mut v: Vec<char> = Vec::new();
    for c in it: s.chars()
        invariant
            it.seq() == s@,
            v@ == it.seq().take(it.index()),
    {
        v.push(c);
    }
    v
}

/// The string made of the characters of `text`, in order.
pub fn chars_to_string(text: &[char]) -> (s: String)
    ensures
        s@ == text@,
{
    let mut s = String::new();
    let mut i: usize = 0;
    while i < text.len()
        invariant
            i <= text.len(),
            s@ == text@.take(i as int),
        decreases text.len() - i,
    {
        string_push(&mut s, text[i]);
        i += 1;
    }
    s
}

/// Every character takes at least one byte.
pub proof fn lemma_encode_utf8_len(chars: Seq<char>)
    ensures
        chars.len() <= encode_utf8(chars).len(),
    decreases chars.len(),
{
    if chars.len() > 0 {
        lemma_encode_utf8_len(chars.drop_first());
    }
}

/// A valid buffer holds no more characters than bytes.
pub proof fn lemma_decode_utf8_len(bytes: Seq<u8>)
    requires
        valid_utf8(bytes),
    ensures
        decode_utf8(bytes).len() <= bytes.len(),
{
    decode_utf8_encode_utf8(bytes);
    lemma_encode_utf8_len(decode_utf8(bytes));
}

/// Decodes a byte buffer as UTF-8; `None` exactly when it is not valid UTF-8.
pub fn decode(bytes: &[u8]) -> (r: Option<Vec<char>>)
    ensures
        r is Some <==> valid_utf8(bytes@),
        r matches Some(v) ==> v@ == decode_utf8(bytes@) && v@.len() <= bytes@.len(),
{
    match utf8_text(bytes) {
        Some(s) => {
            proof {
                encode_utf8_decode_utf8(s@);
                lemma_decode_utf8_len(bytes@);
            }
            Some(str_chars(s))
        },
        None => None,
    }
}

/// Whether two strings hold the same characters.
pub fn str_eq(a: &str, b: &str) -> (r: bool)
    ensures
        r == (a@ == b@),
{
    let x = a.as_bytes();
    let y = b.as_bytes();
    proof {
        encode_utf8_decode_utf8(a@);
        encode_utf8_decode_utf8(b@);
    }
    if x.len() != y.len() {
        return false;
    }
    let mut i: usize = 0;
    while i < x.len()
        invariant
            i <= x.len() == y.len(),
            x@ == encode_utf8(a@),
            y@ == encode_utf8(b@),
            forall|k: int| 0 <= k < i ==> x@[k] == y@[k],
        decreases x.len() - i,
    {
        if x[i] != y[i] {
            return false;
        }
        i += 1;
    }
    assert(x@ =~= y@);
    true
}

/// Encodes a sequence of characters as UTF-8.
pub fn encode(text: &[char]) -> (r: Vec<u8>)
    ensures
        r@ == encode_utf8(text@),
{
    let s = chars_to_string(text);
    s.as_str().as_bytes_vec()
}

/// What `str::to_lowercase` makes of `s`: each character replaced by its
/// lowercase mapping in the Unicode tables std ships.
pub uninterp spec fn lowercase(s: Seq<char>) -> Seq<char>;

/// Trusted: `str::to_lowercase` of std. The contract only names the result.
#[verifier::external_body]
pub(crate) fn to_lowercase(s: &str) -> (r: String)
    ensures
        r@ == lowercase(s@),
{
    s.to_lowercase()
}

/// Whether `needle` stands somewhere in `hay`, character for character.
pub open spec fn holds(hay: Seq<char>, needle: Seq<char>) -> bool {
    exists|k: int| holds_at(hay, needle, k)
}

/// Whether `needle` stands in `hay` at `k`.
pub open spec fn holds_at(hay: Seq<char>, needle: Seq<char>, k: int) -> bool {
    0 <= k && k + needle.len() <= hay.len() && hay.subrange(k, k + needle.len()) == needle
}

/// Whether two texts hold the same characters.
pub fn chars_eq(a: &[char], b: &[char]) -> (r: bool)
    ensures
        r == (a@ == b@),
{
    if a.len() != b.len() {
        return false;
    }
    let mut i: usize = 0;
    while i < a.len()
        invariant
            i <= a.len() == b.len(),
            forall|k: int| 0 <= k < i ==> a@[k] == b@[k],
        decreases a.len() - i,
    {
        if a[i] != b[i] {
            return false;
        }
        i += 1;
    }
    assert(a@ =~= b@);
    true
}

/// Whether `hay` begins with `prefix`.
pub fn starts_with(hay: &[char], prefix: &[char]) -> (r: bool)
    ensures
        r == prefix@.is_prefix_of(hay@),
{
    if prefix.len() > hay.len() {
        return false;
    }
    let mut i: usize = 0;
    while i < prefix.len()
        invariant
            i <= prefix.len() <= hay.len(),
            forall|k: int| 0 <= k < i ==> hay@[k] == prefix@[k],
        decreases prefix.len() - i,
    {
        if hay[i] != prefix[i] {
            return false;
        }
        i += 1;
    }
    true
}

/// Whether `needle` stands in `hay` at `k`.
fn stands_at(hay: &[char], needle: &[char], k: usize) -> (r: bool)
    requires
        k + needle.len() <= hay.len(),
    ensures
        r == holds_at(hay@, needle@, k as int),
{
    let ghost w = hay@.subrange(k as int, k + needle.len());
    let mut i: usize = 0;
    while i < needle.len()
        invariant
            i <= needle.len(),
            k + needle.len() <= hay.len(),
            w == hay@.subrange(k as int, k + needle.len()),
            forall|j: int| 0 <= j < i ==> w[j] == needle@[j],
        decreases needle.len() - i,
    {
        if hay[k + i] != needle[i] {
            return false;
        }
        i += 1;
    }
    assert(w =~= needle@);
    true
}

/// Whether `needle` stands somewhere in `hay`.
pub fn contains(hay: &[char], needle: &[char]) -> (r: bool)
    ensures
        r == holds(hay@, needle@),
{
    if needle.len() > hay.len() {
        return false;
    }
    let last = hay.len() - needle.len();
    let mut k: usize = 0;
    while k < last
        invariant
            k <= last,
            last == hay.len() - needle.len(),
            forall|j: int| 0 <= j < k ==> !holds_at(hay@, needle@, j),
        decreases last - k,
    {
        if stands_at(hay, needle, k) {
            return true;
        }
        k += 1;
    }
    stands_at(hay, needle, last)
}

/// The number that a run of decimal digits writes.
pub open spec fn decimal_value(d: Seq<char>) -> nat
    decreases d.len(),
{
    if d.len() == 0 {
        0
    } else {
        10 * decimal_value(d.drop_last()) + (d.last() as nat - '0' as nat) as nat
    }
}

/// Whether `d` is a run of decimal digits, and not empty.
pub open spec fn is_decimal(d: Seq<char>) -> bool {
    d.len() > 0 && forall|k: int| 0 <= k < d.len() ==> is_digit_char(#[trigger] d[k])
}

/// What is left of `s` behind one leading `+`, if it has one.
pub open spec fn unsigned_part(s: Seq<char>) -> Seq<char> {
    if s.len() > 0 && s[0] == '+' {
        s.drop_first()
    } else {
        s
    }
}

/// The number that `s` writes in decimal: digits only, behind at most one
/// `+`, and within the range of `usize`. Anything else is no number.
pub open spec fn parsed_usize(s: Seq<char>) -> Option<usize> {
    let d = unsigned_part(s);
    if is_decimal(d) && decimal_value(d) <= usize::MAX {
        Some(decimal_value(d) as usize)
    } else {
        None
    }
}

/// More digits write no smaller a number.
proof fn lemma_decimal_value_grows(d: Seq<char>, k: int)
    requires
        0 <= k <= d.len(),
        forall|j: int| 0 <= j < d.len() ==> is_digit_char(#[trigger] d[j]),
    ensures
        decimal_value(d.take(k)) <= decimal_value(d),
    decreases d.len() - k,
{
    if k < d.len() {
        lemma_decimal_value_grows(d, k + 1);
        assert(d.take(k + 1).drop_last() == d.take(k));
    } else {
        assert(d.take(k) == d);
    }
}

/// Reads a number as `parsed_usize` says.
pub fn parse_usize(s: &[char]) -> (r: Option<usize>)
    ensures
        r == parsed_usize(s@),
{
    let n = s.len();
    let start: usize = if n > 0 && s[0] == '+' {
        1
    } else {
        0
    };
    let ghost d = unsigned_part(s@);
    if start == n {
        return None;
    }
    let mut value: usize = 0;
    let mut k: usize = start;
    while k < n
        invariant
            start <= k <= n == s.len(),
            d == unsigned_part(s@),
            d == s@.subrange(start as int, n as int),
            forall|j: int| 0 <= j < k - start ==> is_digit_char(#[trigger] d[j]),
            value == decimal_value(d.take(k - start)),
        decreases n - k,
    {
        let c = s[k];
        assert(d[k - start] == c);
        if !is_digit(c) {
            return None;
        }
        let digit = (c as u32 - '0' as u32) as usize;
        proof {
            assert(d.take(k - start + 1).drop_last() == d.take(k - start));
        }
        if value > (usize::MAX - digit) / 10 {
            proof {
                if is_decimal(d) {
                    lemma_decimal_value_grows(d, k - start + 1);
                }
            }
            return None;
        }
        value = value * 10 + digit;
        k += 1;
    }
    assert(d.take(n - start) == d);
    Some(value)
}

/// What `char::is_whitespace` answers for `c`: whether it has the Unicode
/// property `White_Space`.
pub uninterp spec fn is_whitespace_char(c: char) -> bool;

/// Trusted: `char::is_whitespace` of std. The contract only names the
/// answer.
#[verifier::external_body]
pub(crate) fn is_whitespace(c: char) -> (r: bool)
    ensures
        r == is_whitespace_char(c),
{
    c.is_whitespace()
}

/// `s` without the whitespace it begins with.
pub open spec fn trimmed_start(s: Seq<char>) -> Seq<char>
    decreases s.len(),
{
    if s.len() > 0 && is_whitespace_char(s.first()) {
        trimmed_start(s.drop_first())
    } else {
        s
    }
}

/// `s` without the whitespace it ends with.
pub open spec fn trimmed_end(s: Seq<char>) -> Seq<char>
    decreases s.len(),
{
    if s.len() > 0 && is_whitespace_char(s.last()) {
        trimmed_end(s.drop_last())
    } else {
        s
    }
}

/// `s` without the whitespace it begins and ends with.
pub open spec fn trimmed(s: Seq<char>) -> Seq<char> {
    trimmed_end(trimmed_start(s))
}

/// Where `s[from..to]` begins and ends once trimmed.
pub fn trim(s: &[char], from: usize, to: usize) -> (r: (usize, usize))
    requires
        from <= to <= s.len(),
    ensures
        from <= r.0 <= r.1 <= to,
        s@.subrange(r.0 as int, r.1 as int) == trimmed(s@.subrange(from as int, to as int)),
{
    let mut a = from;
    while a < to && is_whitespace(s[a])
        invariant
            from <= a <= to <= s.len(),
            trimmed_start(s@.subrange(from as int, to as int)) == trimmed_start(
                s@.subrange(a as int, to as int),
            ),
        decreases to - a,
    {
        assert(s@.subrange(a as int, to as int).drop_first() == s@.subrange(a + 1, to as int));
        a += 1;
    }
    let mut b = to;
    while b > a && is_whitespace(s[b - 1])
        invariant
            a <= b <= to <= s.len(),
            trimmed_end(s@.subrange(a as int, to as int)) == trimmed_end(
                s@.subrange(a as int, b as int),
            ),
        decreases b,
    {
        assert(s@.subrange(a as int, b as int).drop_last() == s@.subrange(a as int, b - 1));
        b -= 1;
    }
    (a, b)
}

/// The place of the first `c` in `s`, or the length of `s` if it holds none.
pub open spec fn first_index_of(s: Seq<char>, c: char) -> int
    decreases s.len(),
{
    if s.len() == 0 || s.first() == c {
        0
    } else {
        1 + first_index_of(s.drop_first(), c)
    }
}

/// The first `c` stands within the text or at its end, and no `c` stands
/// before it.
pub proof fn lemma_first_index_of(s: Seq<char>, c: char)
    ensures
        0 <= first_index_of(s, c) <= s.len(),
        first_index_of(s, c) < s.len() ==> s[first_index_of(s, c)] == c,
        forall|k: int| 0 <= k < first_index_of(s, c) ==> s[k] != c,
    decreases s.len(),
{
    if s.len() == 0 || s.first() == c {
    } else {
        let rest = s.drop_first();
        lemma_first_index_of(rest, c);
        assert forall|k: int| 0 <= k < first_index_of(s, c) implies s[k] != c by {
            if k > 0 {
                assert(s[k] == rest[k - 1]);
            }
        }
    }
}

/// The place of the first `c` in `s[from..to]`, counted from `from`.
pub fn find_char(s: &[char], from: usize, to: usize, c: char) -> (r: usize)
    requires
        from <= to <= s.len(),
    ensures
        from <= r <= to,
        r - from == first_index_of(s@.subrange(from as int, to as int), c),
        r < to ==> s@[r as int] == c,
        forall|k: int| from <= k < r ==> s@[k] != c,
{
    proof {
        let part = s@.subrange(from as int, to as int);
        lemma_first_index_of(part, c);
        assert forall|k: int| from <= k < from + first_index_of(part, c) implies s@[k] != c by {
            assert(s@[k] == part[k - from]);
        }
    }
    let mut k = from;
    while k < to && s[k] != c
        invariant
            from <= k <= to <= s.len(),
            first_index_of(s@.subrange(from as int, to as int), c) == (k - from) + first_index_of(
                s@.subrange(k as int, to as int),
                c,
            ),
        decreases to - k,
    {
        assert(s@.subrange(k as int, to as int).drop_first() == s@.subrange(k + 1, to as int));
        k += 1;
    }
    k
}

} // verus!
