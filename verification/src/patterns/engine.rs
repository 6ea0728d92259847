//! The pattern engine: one pass per pattern over a text, each replacing the
//! matches it meets with the pattern's token.

use vstd::prelude::*;
use vstd::slice::slice_subrange;
use crate::patterns::model::{
    card_count, card_text, dashed_card_shape, domain_run_len, is_valid_domain, lemma_pass_bounds,
    local_run_start, pass_count, pass_text, phone_shape, scan, scan_count, ssn_shape, Pattern,
};
use crate::text::{is_alphanumeric, is_alphanumeric_char, is_digit, is_digit_char};

verus! {

/// Check if `s` matches `DDDD-DDDD-DDDD-DDDD`.
pub fn is_credit_card_format(s: &[char]) -> (r: bool)
    ensures
        r == dashed_card_shape(s@),
{
    if s.len() != 19 {
        return false;
    }
    let mut idx: usize = 0;
    while idx < 19
        invariant
            s.len() == 19,
            idx <= 19,
            forall|k: int|
                #![trigger s@[k]]
                0 <= k < idx ==> if k == 4 || k == 9 || k == 14 {
                    s@[k] == '-'
                } else {
                    is_digit_char(s@[k])
                },
        decreases 19 - idx,
    {
        let c = s[idx];
        if idx == 4 || idx == 9 || idx == 14 {
            if c != '-' {
                return false;
            }
        } else if !is_digit(c) {
            return false;
        }
        idx += 1;
    }
    true
}

/// Appends `n` times `X`.
fn push_masked(out: &mut Vec<char>, n: usize)
    ensures
        final(out)@ == old(out)@ + Seq::new(n as nat, |k: int| 'X'),
{
    let mut k: usize = 0;
    while k < n
        invariant
            k <= n,
            out@ == old(out)@ + Seq::new(k as nat, |j: int| 'X'),
        decreases n - k,
    {
        out.push('X');
        k += 1;
    }
}

/// Appends `input[from..to]`.
fn push_range(out: &mut Vec<char>, input: &[char], from: usize, to: usize)
    requires
        from <= to <= input.len(),
    ensures
        final(out)@ == old(out)@ + input@.subrange(from as int, to as int),
{
    let mut k: usize = from;
    while k < to
        invariant
            from <= k <= to <= input.len(),
            out@ == old(out)@ + input@.subrange(from as int, k as int),
        decreases to - k,
    {
        out.push(input[k]);
        k += 1;
    }
}

/// Redacts credit card numbers written as `1234-5678-9012-3456`. Each
/// becomes `XXXX-XXXX-XXXX-3456`: the last four digits are kept.
pub fn redact_dashed_cards(input: &[char]) -> (r: (Vec<char>, usize))
    ensures
        r.0@ == pass_text(Pattern::CardDashed, input@),
        r.1 == pass_count(Pattern::CardDashed, input@),
{
    let n = input.len();
    let mut out: Vec<char> = Vec::with_capacity(n);
    let mut i: usize = 0;
    let mut count: usize = 0;
    let ghost s = input@;
    let ghost p = Pattern::CardDashed;
    let ghost mut done: Seq<char> = Seq::empty();
    let ghost mut lo: int = 0;
    while i < n
        invariant
            n == input.len(),
            s == input@,
            p == Pattern::CardDashed,
            0 <= lo <= i <= n,
            count <= i,
            out@ == done + s.subrange(lo, i as int),
            pass_text(p, s) == done + scan(p, s, lo, i as int),
            pass_count(p, s) == count + scan_count(p, s, lo, i as int),
        decreases n - i,
    {
        if n - i >= 19 && is_credit_card_format(slice_subrange(input, i, i + 19)) {
            push_masked(&mut out, 4);
            out.push('-');
            push_masked(&mut out, 4);
            out.push('-');
            push_masked(&mut out, 4);
            out.push('-');
            push_range(&mut out, input, i + 15, i + 19);
            proof {
                done = out@;
                lo = i + 19;
            }
            i += 19;
            count += 1;
        } else {
            out.push(input[i]);
            i += 1;
        }
    }
    (out, count)
}

/// Whether `input[from..from + len]` is all digits.
fn is_digit_run(input: &[char], from: usize, len: usize) -> (r: bool)
    requires
        from + len <= input.len(),
    ensures
        r == forall|k: int| from <= k < from + len ==> is_digit_char(#[trigger] input@[k]),
{
    let mut k: usize = from;
    while k < from + len
        invariant
            from <= k <= from + len <= input.len(),
            forall|j: int| from <= j < k ==> is_digit_char(#[trigger] input@[j]),
        decreases from + len - k,
    {
        if !is_digit(input[k]) {
            return false;
        }
        k += 1;
    }
    true
}

/// Redacts credit card numbers written as sixteen digits in a row, where no
/// digit stands before or behind them. Each becomes twelve `X` and its last
/// four digits.
pub fn redact_plain_cards(input: &[char]) -> (r: (Vec<char>, usize))
    ensures
        r.0@ == pass_text(Pattern::CardPlain, input@),
        r.1 == pass_count(Pattern::CardPlain, input@),
{
    let n = input.len();
    let mut out: Vec<char> = Vec::with_capacity(n);
    let mut i: usize = 0;
    let mut count: usize = 0;
    let ghost s = input@;
    let ghost p = Pattern::CardPlain;
    let ghost mut done: Seq<char> = Seq::empty();
    let ghost mut lo: int = 0;
    while i < n
        invariant
            n == input.len(),
            s == input@,
            p == Pattern::CardPlain,
            0 <= lo <= i <= n,
            count <= i,
            out@ == done + s.subrange(lo, i as int),
            pass_text(p, s) == done + scan(p, s, lo, i as int),
            pass_count(p, s) == count + scan_count(p, s, lo, i as int),
        decreases n - i,
    {
        let mut found = false;
        if n - i >= 16 && is_digit_run(input, i, 16) {
            // Not part of a longer number.
            let before_ok = i == 0 || !is_digit(input[i - 1]);
            let after_ok = n - i == 16 || !is_digit(input[i + 16]);
            found = before_ok && after_ok;
        }
        if found {
            push_masked(&mut out, 12);
            push_range(&mut out, input, i + 12, i + 16);
            proof {
                done = out@;
                lo = i + 16;
            }
            i += 16;
            count += 1;
        } else {
            out.push(input[i]);
            i += 1;
        }
    }
    (out, count)
}

/// Redacts credit card numbers: first the dashed shape, then, in what that
/// pass made of the text, the plain one. Returns the text and the number of
/// card numbers replaced.
pub fn redact_credit_cards(input: &[char]) -> (r: (Vec<char>, usize))
    ensures
        r.0@ == card_text(input@),
        r.1 == card_count(input@),
{
    let (dashed, dashed_count) = redact_dashed_cards(input);
    let (plain, plain_count) = redact_plain_cards(dashed.as_slice());
    proof {
        lemma_pass_bounds(Pattern::CardDashed, input@);
        lemma_pass_bounds(Pattern::CardPlain, dashed@);
        assert(16 * plain_count <= input.len());
    }
    (plain, dashed_count + plain_count)
}

/// Whether a number stands alone: on either side the text ends or a
/// character stands that is no letter and no digit. `before` and `after`
/// say of the neighbours, where there are any, whether they are
/// alphanumeric.
pub fn stands_alone(before: Option<bool>, after: Option<bool>) -> (r: bool)
    ensures
        r == (before != Some(true) && after != Some(true)),
{
    let before_ok = match before {
        Some(alphanumeric) => !alphanumeric,
        None => true,
    };
    let after_ok = match after {
        Some(alphanumeric) => !alphanumeric,
        None => true,
    };
    before_ok && after_ok
}

/// Whether the neighbours of `input[from..to]` leave it standing alone.
fn has_word_boundaries(input: &[char], from: usize, to: usize) -> (r: bool)
    requires
        from <= to <= input.len(),
    ensures
        r == ((from == 0 || !is_alphanumeric_char(input@[from - 1])) && (to == input.len()
            || !is_alphanumeric_char(input@[to as int]))),
{
    let before = if from == 0 {
        None
    } else {
        Some(is_alphanumeric(input[from - 1]))
    };
    let after = if to == input.len() {
        None
    } else {
        Some(is_alphanumeric(input[to]))
    };
    stands_alone(before, after)
}

/// Check if `s` matches `DDD-DD-DDDD`.
pub fn is_ssn_format(s: &[char]) -> (r: bool)
    ensures
        r == ssn_shape(s@),
{
    if s.len() != 11 {
        return false;
    }
    let mut idx: usize = 0;
    while idx < 11
        invariant
            s.len() == 11,
            idx <= 11,
            forall|k: int|
                #![trigger s@[k]]
                0 <= k < idx ==> if k == 3 || k == 6 {
                    s@[k] == '-'
                } else {
                    is_digit_char(s@[k])
                },
        decreases 11 - idx,
    {
        let c = s[idx];
        if idx == 3 || idx == 6 {
            if c != '-' {
                return false;
            }
        } else if !is_digit(c) {
            return false;
        }
        idx += 1;
    }
    true
}

/// Redacts Social Security Numbers written as `123-45-6789`, where no
/// letter or digit stands before or behind them. Each becomes `XXX-XX-XXXX`.
pub fn redact_ssn(input: &[char]) -> (r: (Vec<char>, usize))
    ensures
        r.0@ == pass_text(Pattern::Ssn, input@),
        r.1 == pass_count(Pattern::Ssn, input@),
{
    let n = input.len();
    let mut out: Vec<char> = Vec::with_capacity(n);
    let mut i: usize = 0;
    let mut count: usize = 0;
    let ghost s = input@;
    let ghost p = Pattern::Ssn;
    let ghost mut done: Seq<char> = Seq::empty();
    let ghost mut lo: int = 0;
    while i < n
        invariant
            n == input.len(),
            s == input@,
            p == Pattern::Ssn,
            0 <= lo <= i <= n,
            count <= i,
            out@ == done + s.subrange(lo, i as int),
            pass_text(p, s) == done + scan(p, s, lo, i as int),
            pass_count(p, s) == count + scan_count(p, s, lo, i as int),
        decreases n - i,
    {
        let found = n - i >= 11 && is_ssn_format(slice_subrange(input, i, i + 11))
            && has_word_boundaries(input, i, i + 11);
        if found {
            push_masked(&mut out, 3);
            out.push('-');
            push_masked(&mut out, 2);
            out.push('-');
            push_masked(&mut out, 4);
            proof {
                done = out@;
                lo = i + 11;
            }
            i += 11;
            count += 1;
        } else {
            out.push(input[i]);
            i += 1;
        }
    }
    (out, count)
}

/// Check if `s` matches `DDD-DDD-DDDD` or `DDD.DDD.DDDD`.
pub fn is_phone_format(s: &[char]) -> (r: bool)
    ensures
        r == phone_shape(s@),
{
    if s.len() != 12 {
        return false;
    }
    // The separator, which must be the same at both places.
    let sep = s[3];
    if sep != '-' && sep != '.' {
        return false;
    }
    let mut idx: usize = 0;
    while idx < 12
        invariant
            s.len() == 12,
            idx <= 12,
            sep == s@[3],
            forall|k: int|
                #![trigger s@[k]]
                0 <= k < idx ==> if k == 3 || k == 7 {
                    s@[k] == s@[3]
                } else {
                    is_digit_char(s@[k])
                },
        decreases 12 - idx,
    {
        let c = s[idx];
        if idx == 3 || idx == 7 {
            if c != sep {
                return false;
            }
        } else if !is_digit(c) {
            return false;
        }
        idx += 1;
    }
    true
}

/// Redacts US phone numbers written as `555-123-4567` or `555.123.4567`,
/// where no letter or digit stands before or behind them. Each becomes
/// `(XXX) XXX-4567`: the last four digits are kept.
pub fn redact_phone_us(input: &[char]) -> (r: (Vec<char>, usize))
    ensures
        r.0@ == pass_text(Pattern::PhoneUs, input@),
        r.1 == pass_count(Pattern::PhoneUs, input@),
{
    let n = input.len();
    let mut out: Vec<char> = Vec::with_capacity(n);
    let mut i: usize = 0;
    let mut count: usize = 0;
    let ghost s = input@;
    let ghost p = Pattern::PhoneUs;
    let ghost mut done: Seq<char> = Seq::empty();
    let ghost mut lo: int = 0;
    while i < n
        invariant
            n == input.len(),
            s == input@,
            p == Pattern::PhoneUs,
            0 <= lo <= i <= n,
            count <= i,
            out@ == done + s.subrange(lo, i as int),
            pass_text(p, s) == done + scan(p, s, lo, i as int),
            pass_count(p, s) == count + scan_count(p, s, lo, i as int),
        decreases n - i,
    {
        let found = n - i >= 12 && is_phone_format(slice_subrange(input, i, i + 12))
            && has_word_boundaries(input, i, i + 12);
        if found {
            out.push('(');
            push_masked(&mut out, 3);
            out.push(')');
            out.push(' ');
            push_masked(&mut out, 3);
            out.push('-');
            push_range(&mut out, input, i + 8, i + 12);
            proof {
                done = out@;
                lo = i + 12;
            }
            i += 12;
            count += 1;
        } else {
            out.push(input[i]);
            i += 1;
        }
    }
    (out, count)
}

/// Whether `c` can stand in the local part of an email address, given
/// whether it is alphanumeric.
pub fn is_local_part_char(c: char, alphanumeric: bool) -> (r: bool)
    ensures
        r == (alphanumeric || c == '.' || c == '_' || c == '%' || c == '+' || c == '-'),
{
    alphanumeric || c == '.' || c == '_' || c == '%' || c == '+' || c == '-'
}

/// Whether `c` can stand in the domain of an email address, given whether
/// it is alphanumeric.
pub fn is_domain_part_char(c: char, alphanumeric: bool) -> (r: bool)
    ensures
        r == (alphanumeric || c == '.' || c == '-'),
{
    alphanumeric || c == '.' || c == '-'
}

/// Find where an email address begins, given the place of its `@`: the
/// local part reaches back over letters, digits and `. _ % + -`, but not
/// past `lo`, where the scan last resumed.
pub fn find_email_start(chars: &[char], lo: usize, at_pos: usize) -> (start: usize)
    requires
        lo <= at_pos <= chars.len(),
    ensures
        start == local_run_start(chars@, lo as int, at_pos as int),
        lo <= start <= at_pos,
{
    let mut start = at_pos;
    while start > lo
        invariant
            lo <= start <= at_pos <= chars.len(),
            local_run_start(chars@, lo as int, at_pos as int) == local_run_start(
                chars@,
                lo as int,
                start as int,
            ),
        decreases start,
    {
        let c = chars[start - 1];
        if is_local_part_char(c, is_alphanumeric(c)) {
            start -= 1;
        } else {
            return start;
        }
    }
    start
}

/// Find where an email address ends, given the place of its `@`: the domain
/// reaches on over letters, digits, `.` and `-`.
pub fn find_email_end(chars: &[char], at_pos: usize) -> (end: usize)
    requires
        at_pos < chars.len(),
    ensures
        end == at_pos + 1 + domain_run_len(chars@, at_pos + 1),
        at_pos < end <= chars.len(),
{
    let mut end = at_pos + 1;
    while end < chars.len()
        invariant
            at_pos < end <= chars.len(),
            at_pos + 1 + domain_run_len(chars@, at_pos + 1) == end + domain_run_len(
                chars@,
                end as int,
            ),
        decreases chars.len() - end,
    {
        let c = chars[end];
        if is_domain_part_char(c, is_alphanumeric(c)) {
            end += 1;
        } else {
            return end;
        }
    }
    end
}

/// Whether `chars[from..to]` can be the domain of an email address.
fn is_domain(chars: &[char], from: usize, to: usize) -> (r: bool)
    requires
        from <= to <= chars.len(),
    ensures
        r == is_valid_domain(chars@.subrange(from as int, to as int)),
{
    let ghost d = chars@.subrange(from as int, to as int);
    if from == to {
        return false;
    }
    if chars[from] == '.' || chars[to - 1] == '.' {
        return false;
    }
    let mut k: usize = from;
    while k < to
        invariant
            from <= k <= to <= chars.len(),
            d == chars@.subrange(from as int, to as int),
            d.first() != '.' && d.last() != '.',
            forall|j: int| 0 <= j < k - from ==> d[j] != '.',
        decreases to - k,
    {
        if chars[k] == '.' {
            assert(d[k - from] == '.');
            return true;
        }
        k += 1;
    }
    false
}

/// Redacts email addresses: a local part, `@`, and a domain that holds a
/// dot and neither begins nor ends with one. Each becomes
/// `[EMAIL REDACTED]`.
pub fn redact_email(input: &[char]) -> (r: (Vec<char>, usize))
    ensures
        r.0@ == pass_text(Pattern::Email, input@),
        r.1 == pass_count(Pattern::Email, input@),
{
    let n = input.len();
    let mut out: Vec<char> = Vec::with_capacity(n);
    let mut i: usize = 0;
    let mut lo: usize = 0;
    let mut count: usize = 0;
    let ghost s = input@;
    let ghost p = Pattern::Email;
    let ghost mut done: Seq<char> = Seq::empty();
    while i < n
        invariant
            n == input.len(),
            s == input@,
            p == Pattern::Email,
            0 <= lo <= i <= n,
            count <= i,
            out@ == done + s.subrange(lo as int, i as int),
            pass_text(p, s) == done + scan(p, s, lo as int, i as int),
            pass_count(p, s) == count + scan_count(p, s, lo as int, i as int),
        decreases n - i,
    {
        let mut start = i;
        let mut end = i;
        let mut found = false;
        if input[i] == '@' {
            start = find_email_start(input, lo, i);
            end = find_email_end(input, i);
            found = start < i && is_domain(input, i + 1, end);
        }
        if found {
            // Take back the local part, which is already in the output.
            out.truncate(out.len() - (i - start));
            out.push('[');
            out.push('E');
            out.push('M');
            out.push('A');
            out.push('I');
            out.push('L');
            out.push(' ');
            out.push('R');
            out.push('E');
            out.push('D');
            out.push('A');
            out.push('C');
            out.push('T');
            out.push('E');
            out.push('D');
            out.push(']');
            proof {
                done = out@;
            }
            i = end;
            lo = end;
            count += 1;
        } else {
            out.push(input[i]);
            proof {
                assert(s.subrange(lo as int, i as int).push(s[i as int]) == s.subrange(
                    lo as int,
                    i + 1,
                ));
            }
            i += 1;
        }
    }
    (out, count)
}

} // verus!
