//! What holds of every run of the engine and of the orchestrator.

use vstd::prelude::*;
use vstd::utf8::{
    decode_utf8, decode_utf8_encode_utf8, encode_utf8_decode_utf8, encode_utf8_valid_utf8,
    valid_utf8,
};
use crate::patterns::category::Category;
use crate::patterns::matcher::{found, redacted_text, redaction, stage, text_before, total_found};
use crate::text::is_digit_char;
use crate::patterns::model::{
    card_text, claims, is_local_char, lemma_found_stride, lemma_local_run_start_bounds,
    lemma_pass_bounds, lemma_scan_bounds, lemma_unmatched_pass, local_run_start, pass_claims,
    pass_count, pass_spans, pass_text, scan, scan_count, spans, Pattern,
};

verus! {

/// Whether `p` is found somewhere in `s`, read on its own.
pub open spec fn occurs(p: Pattern, s: Seq<char>) -> bool {
    exists|i: int| p.found_at(s, 0, i)
}

/// Whether a match of category `c` is found somewhere in `s`.
pub open spec fn category_occurs(c: Category, s: Seq<char>) -> bool {
    match c {
        Category::CreditCard => occurs(Pattern::CardDashed, s) || occurs(Pattern::CardPlain, s),
        Category::Ssn => occurs(Pattern::Ssn, s),
        Category::Email => occurs(Pattern::Email, s),
        Category::PhoneUs => occurs(Pattern::PhoneUs, s),
    }
}

/// Whether a match of an enabled category is found somewhere in `s`.
pub open spec fn any_occurs(on: Set<Category>, s: Seq<char>) -> bool {
    exists|c: Category| on.contains(c) && category_occurs(c, s)
}

/// Looking back from further left finds a local part that begins no later.
proof fn lemma_local_run_start_mono(s: Seq<char>, lo: int, at: int)
    requires
        0 <= lo <= at,
    ensures
        local_run_start(s, 0, at) <= local_run_start(s, lo, at),
    decreases at - lo,
{
    if lo < at && 0 < at <= s.len() && is_local_char(s[at - 1]) {
        lemma_local_run_start_mono(s, lo, at - 1);
    } else {
        lemma_local_run_start_bounds(s, 0, at);
    }
}

/// What the scan finds after it has resumed somewhere, is found in the text
/// read on its own too.
proof fn lemma_found_from_start(p: Pattern, s: Seq<char>, lo: int, i: int)
    requires
        0 <= lo <= i,
        p.found_at(s, lo, i),
    ensures
        p.found_at(s, 0, i),
{
    if p == Pattern::Email {
        lemma_local_run_start_mono(s, lo, i);
    }
}

/// Where the pattern does not occur, the scan finds nothing.
proof fn lemma_absent_scan(p: Pattern, s: Seq<char>, lo: int, i: int)
    requires
        0 <= lo <= i,
        !occurs(p, s),
    ensures
        scan_count(p, s, lo, i) == 0,
    decreases s.len() - i,
{
    if i < s.len() {
        if p.found_at(s, lo, i) {
            lemma_found_from_start(p, s, lo, i);
        }
        lemma_absent_scan(p, s, lo, i + 1);
    }
}

/// Where the pattern occurs at or behind `i`, a scan that has not resumed
/// anywhere yet finds something.
proof fn lemma_present_scan(p: Pattern, s: Seq<char>, i: int, at: int)
    requires
        0 <= i <= at,
        p.found_at(s, 0, at),
    ensures
        scan_count(p, s, 0, i) > 0,
    decreases at - i,
{
    lemma_found_stride(p, s, 0, at);
    if !p.found_at(s, 0, i) {
        lemma_present_scan(p, s, i + 1, at);
    }
}

/// A pass replaces something exactly when its pattern occurs in the text.
pub proof fn lemma_pass_matches_iff_occurs(p: Pattern, s: Seq<char>)
    ensures
        pass_count(p, s) > 0 <==> occurs(p, s),
{
    if occurs(p, s) {
        let at = choose|i: int| p.found_at(s, 0, i);
        lemma_found_stride(p, s, 0, at);
        lemma_present_scan(p, s, 0, at);
    } else {
        lemma_absent_scan(p, s, 0, 0);
    }
}

/// A detector replaces something exactly when a match of its category
/// occurs in the text, and else leaves the text as it is.
pub proof fn lemma_category_matches_iff_occurs(c: Category, s: Seq<char>)
    ensures
        c.count(s) > 0 <==> category_occurs(c, s),
        !category_occurs(c, s) ==> c.text(s) == s,
{
    match c {
        Category::CreditCard => {
            lemma_pass_matches_iff_occurs(Pattern::CardDashed, s);
            lemma_unmatched_pass(Pattern::CardDashed, s);
            if !occurs(Pattern::CardDashed, s) {
                lemma_pass_matches_iff_occurs(Pattern::CardPlain, s);
                lemma_unmatched_pass(Pattern::CardPlain, s);
            }
        },
        Category::Ssn => {
            lemma_pass_matches_iff_occurs(Pattern::Ssn, s);
            lemma_unmatched_pass(Pattern::Ssn, s);
        },
        Category::Email => {
            lemma_pass_matches_iff_occurs(Pattern::Email, s);
            lemma_unmatched_pass(Pattern::Email, s);
        },
        Category::PhoneUs => {
            lemma_pass_matches_iff_occurs(Pattern::PhoneUs, s);
            lemma_unmatched_pass(Pattern::PhoneUs, s);
        },
    }
}

/// A run replaces something exactly when a match of an enabled category
/// occurs in the text, and else leaves the text as it is.
pub proof fn lemma_run_matches_iff_occurs(on: Set<Category>, t: Seq<char>)
    ensures
        total_found(on, t) > 0 <==> any_occurs(on, t),
        !any_occurs(on, t) ==> redacted_text(on, t) == t,
        !any_occurs(on, t) ==> forall|c: Category| found(on, c, t) == 0,
{
    lemma_category_matches_iff_occurs(Category::CreditCard, t);
    lemma_category_matches_iff_occurs(Category::Ssn, t);
    lemma_category_matches_iff_occurs(Category::Email, t);
    lemma_category_matches_iff_occurs(Category::PhoneUs, t);
    if any_occurs(on, t) {
        // The first enabled category that occurs still reads the text as
        // it came in.
        let first = if on.contains(Category::CreditCard) && category_occurs(
            Category::CreditCard,
            t,
        ) {
            Category::CreditCard
        } else if on.contains(Category::Ssn) && category_occurs(Category::Ssn, t) {
            Category::Ssn
        } else if on.contains(Category::Email) && category_occurs(Category::Email, t) {
            Category::Email
        } else {
            Category::PhoneUs
        };
        assert(on.contains(first) && category_occurs(first, t));
        assert(text_before(on, first, t) == t);
        assert(found(on, first, t) > 0);
    } else {
        assert(stage(on, Category::CreditCard, t) == t);
        assert(stage(on, Category::Ssn, t) == t);
        assert(stage(on, Category::Email, t) == t);
        assert(stage(on, Category::PhoneUs, t) == t);
        assert forall|c: Category| found(on, c, t) == 0 by {
            assert(text_before(on, c, t) == t);
        }
    }
}

/// A buffer that holds no match of an enabled category is left as it is:
/// nothing is reported as redacted, and the content is the input, byte for
/// byte. (A buffer that is not valid UTF-8 holds no match.)
pub proof fn lemma_clean_input_unchanged(on: Set<Category>, input: Seq<u8>)
    requires
        valid_utf8(input) ==> !any_occurs(on, decode_utf8(input)),
    ensures
        redaction(on, input).redacted == false,
        redaction(on, input).match_count == 0,
        redaction(on, input).matched_patterns == Set::<Category>::empty(),
        redaction(on, input).content == input,
{
    if valid_utf8(input) {
        let t = decode_utf8(input);
        lemma_run_matches_iff_occurs(on, t);
        decode_utf8_encode_utf8(input);
        assert(redaction(on, input).matched_patterns =~= Set::<Category>::empty());
    }
}

/// Something is redacted exactly when the buffer is valid UTF-8 and its
/// text holds a match of an enabled category.
pub proof fn lemma_redacted_iff_occurs(on: Set<Category>, input: Seq<u8>)
    ensures
        redaction(on, input).redacted <==> valid_utf8(input) && any_occurs(
            on,
            decode_utf8(input),
        ),
{
    if valid_utf8(input) {
        lemma_run_matches_iff_occurs(on, decode_utf8(input));
    }
}

/// Running the orchestrator on its own output, with the same categories
/// enabled, changes nothing and finds nothing, provided the output holds no
/// match of an enabled category.
///
/// The proviso is needed: the digits a token keeps can form a new match
/// with what follows them, and a token can end a domain that ran on too far
/// before.
pub proof fn lemma_rerun_unchanged(on: Set<Category>, input: Seq<u8>)
    requires
        valid_utf8(input) ==> !any_occurs(on, redacted_text(on, decode_utf8(input))),
    ensures
        redaction(on, redaction(on, input).content).content == redaction(on, input).content,
        redaction(on, redaction(on, input).content).match_count == 0,
        redaction(on, redaction(on, input).content).redacted == false,
{
    let once = redaction(on, input).content;
    if valid_utf8(input) {
        let t = redacted_text(on, decode_utf8(input));
        encode_utf8_valid_utf8(t);
        encode_utf8_decode_utf8(t);
    }
    lemma_clean_input_unchanged(on, once);
}

/// Where a pass replaces a span by a token of the same length, the token
/// stands in the output where the span stood in the input.
proof fn lemma_claimed_token(p: Pattern, s: Seq<char>, lo: int, from: int, i: int)
    requires
        p.keeps_length(),
        0 <= lo <= from <= s.len(),
        claims(p, s, lo, from, i),
    ensures
        from <= i,
        i + p.reach(s, i) <= s.len(),
        scan(p, s, lo, from).len() == s.len() - lo,
        scan(p, s, lo, from).subrange(i - lo, i - lo + p.reach(s, i)) == p.token(s, i),
    decreases s.len() - from,
{
    lemma_scan_bounds(p, s, lo, from);
    if p.found_at(s, lo, from) {
        lemma_found_stride(p, s, lo, from);
        let e = p.span_end(s, from);
        lemma_scan_bounds(p, s, e, e);
        let head = s.subrange(lo, from) + p.token(s, from);
        assert(scan(p, s, lo, from) == head + scan(p, s, e, e));
        assert(head.len() == e - lo);
        if from == i {
            assert(scan(p, s, lo, from).subrange(i - lo, i - lo + p.reach(s, i)) =~= p.token(
                s,
                i,
            ));
        } else {
            lemma_claimed_token(p, s, e, e, i);
            assert(scan(p, s, lo, from).subrange(i - lo, i - lo + p.reach(s, i)) =~= scan(
                p,
                s,
                e,
                e,
            ).subrange(i - e, i - e + p.reach(s, i)));
        }
    } else {
        lemma_claimed_token(p, s, lo, from + 1, i);
    }
}

/// Where a pass replaces spans by tokens of the same length, a character
/// that no replaced span holds stays where it is.
proof fn lemma_unclaimed_kept(p: Pattern, s: Seq<char>, lo: int, from: int, j: int)
    requires
        p.keeps_length(),
        0 <= lo <= from <= s.len(),
        lo <= j < s.len(),
        forall|i: int| #[trigger] claims(p, s, lo, from, i) ==> !(i <= j < i + p.reach(s, i)),
    ensures
        scan(p, s, lo, from).len() == s.len() - lo,
        scan(p, s, lo, from)[j - lo] == s[j],
    decreases s.len() - from,
{
    lemma_scan_bounds(p, s, lo, from);
    if from >= s.len() {
    } else if p.found_at(s, lo, from) {
        lemma_found_stride(p, s, lo, from);
        let e = p.span_end(s, from);
        lemma_scan_bounds(p, s, e, e);
        let head = s.subrange(lo, from) + p.token(s, from);
        assert(scan(p, s, lo, from) == head + scan(p, s, e, e));
        assert(head.len() == e - lo);
        assert(claims(p, s, lo, from, from));
        if j >= e {
            assert forall|i: int| #[trigger] claims(p, s, e, e, i) implies !(i <= j < i + p.reach(
                s,
                i,
            )) by {
                assert(claims(p, s, lo, from, i));
            }
            lemma_unclaimed_kept(p, s, e, e, j);
        }
    } else {
        assert forall|i: int| #[trigger] claims(p, s, lo, from + 1, i) implies !(i <= j < i
            + p.reach(s, i)) by {
            assert(claims(p, s, lo, from, i));
        }
        lemma_unclaimed_kept(p, s, lo, from + 1, j);
    }
}

/// What a pass replaces was found there, in the text read on its own.
proof fn lemma_claimed_found(p: Pattern, s: Seq<char>, lo: int, from: int, i: int)
    requires
        0 <= lo <= from <= s.len(),
        claims(p, s, lo, from, i),
    ensures
        p.found_at(s, 0, i),
    decreases s.len() - from,
{
    if p.found_at(s, lo, from) {
        lemma_found_stride(p, s, lo, from);
        if from == i {
            lemma_found_from_start(p, s, lo, i);
        } else {
            let e = p.span_end(s, from);
            lemma_claimed_found(p, s, e, e, i);
        }
    } else {
        lemma_claimed_found(p, s, lo, from + 1, i);
    }
}

/// Sixteen digits in a row with no digit before or behind them overlap no
/// other such run, so the plain pass replaces every one of them.
proof fn lemma_plain_card_claimed(s: Seq<char>, lo: int, from: int, i: int)
    requires
        0 <= lo <= from <= i,
        Pattern::CardPlain.found_at(s, 0, i),
    ensures
        claims(Pattern::CardPlain, s, lo, from, i),
    decreases i - from,
{
    let p = Pattern::CardPlain;
    if from == i {
    } else if p.found_at(s, lo, from) {
        assert(from + 16 < i) by {
            if i <= from + 16 {
                assert(is_digit_char(s[i - 1]));
            }
        }
        lemma_plain_card_claimed(s, from + 16, from + 16, i);
    } else {
        lemma_plain_card_claimed(s, lo, from + 1, i);
    }
}

/// Twelve times `X`, in groups of four behind which a dash stands.
pub open spec fn dashed_mask() -> Seq<char> {
    seq!['X', 'X', 'X', 'X', '-', 'X', 'X', 'X', 'X', '-', 'X', 'X', 'X', 'X', '-']
}

/// Twelve times `X`.
pub open spec fn plain_mask() -> Seq<char> {
    seq!['X', 'X', 'X', 'X', 'X', 'X', 'X', 'X', 'X', 'X', 'X', 'X']
}

/// The pass for dashed card numbers keeps the length of the text, and of
/// each number it replaces it masks the first twelve digits and keeps the
/// last four as they are, in their place.
pub proof fn lemma_dashed_card_keeps_last_four(s: Seq<char>, i: int)
    requires
        pass_claims(Pattern::CardDashed, s, i),
    ensures
        0 <= i && i + 19 <= s.len(),
        pass_text(Pattern::CardDashed, s).len() == s.len(),
        pass_text(Pattern::CardDashed, s).subrange(i, i + 15) == dashed_mask(),
        pass_text(Pattern::CardDashed, s).subrange(i + 15, i + 19) == s.subrange(i + 15, i + 19),
{
    let p = Pattern::CardDashed;
    let out = pass_text(p, s);
    lemma_claimed_token(p, s, 0, 0, i);
    assert(out.subrange(i, i + 19) == p.token(s, i));
    assert(out.subrange(i, i + 15) =~= out.subrange(i, i + 19).subrange(0, 15));
    assert(out.subrange(i + 15, i + 19) =~= out.subrange(i, i + 19).subrange(15, 19));
    assert(p.token(s, i).subrange(0, 15) =~= dashed_mask());
    assert(p.token(s, i).subrange(15, 19) =~= s.subrange(i + 15, i + 19));
}

/// The pass for plain card numbers keeps the length of the text, and of
/// every run of sixteen digits that stands alone it masks the first twelve
/// and keeps the last four as they are, in their place.
pub proof fn lemma_plain_card_keeps_last_four(s: Seq<char>, i: int)
    requires
        Pattern::CardPlain.found_at(s, 0, i),
    ensures
        pass_text(Pattern::CardPlain, s).len() == s.len(),
        pass_text(Pattern::CardPlain, s).subrange(i, i + 12) == plain_mask(),
        pass_text(Pattern::CardPlain, s).subrange(i + 12, i + 16) == s.subrange(i + 12, i + 16),
{
    let p = Pattern::CardPlain;
    let out = pass_text(p, s);
    lemma_plain_card_claimed(s, 0, 0, i);
    lemma_claimed_token(p, s, 0, 0, i);
    assert(out.subrange(i, i + 16) == p.token(s, i));
    assert(out.subrange(i, i + 12) =~= out.subrange(i, i + 16).subrange(0, 12));
    assert(out.subrange(i + 12, i + 16) =~= out.subrange(i, i + 16).subrange(12, 16));
    assert(p.token(s, i).subrange(0, 12) =~= plain_mask());
    assert(p.token(s, i).subrange(12, 16) =~= s.subrange(i + 12, i + 16));
}

/// Of a dashed card number, the credit card detector masks the first twelve
/// digits and keeps the last four, in their place.
///
/// This holds unless those four digits, with twelve more behind them, make
/// up a plain card number that the second pass then replaces in its turn.
pub proof fn lemma_card_detector_keeps_last_four(s: Seq<char>, i: int)
    requires
        pass_claims(Pattern::CardDashed, s, i),
        !Pattern::CardPlain.found_at(pass_text(Pattern::CardDashed, s), 0, i + 15),
    ensures
        0 <= i && i + 19 <= s.len(),
        card_text(s).len() == s.len(),
        card_text(s).subrange(i, i + 15) == dashed_mask(),
        card_text(s).subrange(i + 15, i + 19) == s.subrange(i + 15, i + 19),
{
    let d = pass_text(Pattern::CardDashed, s);
    let p = Pattern::CardPlain;
    lemma_dashed_card_keeps_last_four(s, i);
    lemma_claimed_found(Pattern::CardDashed, s, 0, 0, i);
    lemma_pass_bounds(p, d);
    let w = s.subrange(i, i + 19);
    assert forall|j: int| i <= j < i + 19 implies card_text(s)[j] == d[j] by {
        assert forall|k: int| #[trigger] claims(p, d, 0, 0, k) implies !(k <= j < k + p.reach(
            d,
            k,
        )) by {
            lemma_claimed_found(p, d, 0, 0, k);
            if k <= j < k + 16 {
                assert(is_digit_char(d[j]));
                if j < i + 15 {
                    assert(d[j] == d.subrange(i, i + 15)[j - i]);
                } else if k < i + 15 {
                    assert(is_digit_char(d[i + 14]));
                    assert(d[i + 14] == d.subrange(i, i + 15)[14]);
                } else {
                    assert(k > i + 15);
                    assert(d[k - 1] == d.subrange(i + 15, i + 19)[k - 1 - (i + 15)]);
                    assert(s[k - 1] == w[k - 1 - i]);
                    assert(is_digit_char(w[k - 1 - i]));
                }
            }
        }
        lemma_unclaimed_kept(p, d, 0, 0, j);
    }
    assert(card_text(s).subrange(i, i + 15) =~= d.subrange(i, i + 15));
    assert(card_text(s).subrange(i + 15, i + 19) =~= d.subrange(i + 15, i + 19));
}

/// Of a plain card number, in the text as the first pass left it, the
/// credit card detector masks the first twelve digits and keeps the last
/// four, in their place.
pub proof fn lemma_card_detector_keeps_plain_last_four(s: Seq<char>, i: int)
    requires
        Pattern::CardPlain.found_at(pass_text(Pattern::CardDashed, s), 0, i),
    ensures
        card_text(s).len() == s.len(),
        card_text(s).subrange(i, i + 12) == plain_mask(),
        card_text(s).subrange(i + 12, i + 16) == pass_text(Pattern::CardDashed, s).subrange(
            i + 12,
            i + 16,
        ),
{
    lemma_pass_bounds(Pattern::CardDashed, s);
    lemma_plain_card_keeps_last_four(pass_text(Pattern::CardDashed, s), i);
}

/// What is left of a scan replaces as many spans as it counts matches; each
/// lies within the text behind the place where the scan last resumed, and
/// each ends before the next begins.
proof fn lemma_spans_in_order(p: Pattern, s: Seq<char>, lo: int, from: int)
    requires
        0 <= lo <= from <= s.len(),
    ensures
        spans(p, s, lo, from).len() == scan_count(p, s, lo, from),
        forall|a: int|
            0 <= a < spans(p, s, lo, from).len() ==> lo <= (#[trigger] spans(p, s, lo, from)[a]).0
                < spans(p, s, lo, from)[a].1 <= s.len(),
        forall|a: int, b: int|
            0 <= a < b < spans(p, s, lo, from).len() ==> (#[trigger] spans(p, s, lo, from)[a]).1 <= (
            #[trigger] spans(p, s, lo, from)[b]).0,
    decreases s.len() - from,
{
    if from >= s.len() {
    } else if p.found_at(s, lo, from) {
        lemma_found_stride(p, s, lo, from);
        let e = p.span_end(s, from);
        lemma_spans_in_order(p, s, e, e);
        let rest = spans(p, s, e, e);
        let all = spans(p, s, lo, from);
        assert(all == seq![(p.span_start(s, lo, from), e)] + rest);
        assert forall|a: int| 0 <= a < all.len() implies lo <= (#[trigger] all[a]).0 < all[a].1
            <= s.len() by {
            if a > 0 {
                assert(all[a] == rest[a - 1]);
            }
        }
        assert forall|a: int, b: int| 0 <= a < b < all.len() implies (#[trigger] all[a]).1 <= (
        #[trigger] all[b]).0 by {
            assert(all[b] == rest[b - 1]);
            if a > 0 {
                assert(all[a] == rest[a - 1]);
            }
        }
    } else {
        lemma_spans_in_order(p, s, lo, from + 1);
    }
}

/// The spans that one pass replaces do not overlap: each lies within the
/// text, is not empty, and ends before the next begins. There is one for
/// each match the pass counts.
pub proof fn lemma_spans_apart(p: Pattern, s: Seq<char>)
    ensures
        pass_spans(p, s).len() == pass_count(p, s),
        forall|a: int|
            0 <= a < pass_spans(p, s).len() ==> 0 <= (#[trigger] pass_spans(p, s)[a]).0
                < pass_spans(p, s)[a].1 <= s.len(),
        forall|a: int, b: int|
            0 <= a < b < pass_spans(p, s).len() ==> (#[trigger] pass_spans(p, s)[a]).1 <= (
            #[trigger] pass_spans(p, s)[b]).0,
{
    lemma_spans_in_order(p, s, 0, 0);
}

/// Whether `j` is the place of one of the first twelve digits of a plain
/// card number in `s`.
pub open spec fn in_masked_digits(s: Seq<char>, j: int) -> bool {
    exists|m: int| Pattern::CardPlain.found_at(s, 0, m) && m <= j < m + 12
}

/// What the pass for plain card numbers does to each character: the first
/// twelve digits of a card number become `X`, everything else stays.
pub proof fn lemma_plain_pass_at(s: Seq<char>, j: int)
    requires
        0 <= j < s.len(),
    ensures
        pass_text(Pattern::CardPlain, s).len() == s.len(),
        pass_text(Pattern::CardPlain, s)[j] == if in_masked_digits(s, j) {
            'X'
        } else {
            s[j]
        },
{
    let p = Pattern::CardPlain;
    let out = pass_text(p, s);
    lemma_pass_bounds(p, s);
    if in_masked_digits(s, j) {
        let m = choose|m: int| p.found_at(s, 0, m) && m <= j < m + 12;
        lemma_plain_card_claimed(s, 0, 0, m);
        lemma_claimed_token(p, s, 0, 0, m);
        assert(out[j] == out.subrange(m, m + 16)[j - m]);
    } else if exists|i: int| claims(p, s, 0, 0, i) && i <= j < i + 16 {
        // One of the four digits that are kept.
        let i = choose|i: int| claims(p, s, 0, 0, i) && i <= j < i + 16;
        lemma_claimed_found(p, s, 0, 0, i);
        lemma_claimed_token(p, s, 0, 0, i);
        assert(out[j] == out.subrange(i, i + 16)[j - i]);
    } else {
        lemma_unclaimed_kept(p, s, 0, 0, j);
    }
}

/// A second pass for plain card numbers finds nothing in what the first
/// has left: the four digits a token keeps stand between `X` and what is
/// no digit.
pub proof fn lemma_plain_pass_settles(s: Seq<char>)
    ensures
        pass_count(Pattern::CardPlain, pass_text(Pattern::CardPlain, s)) == 0,
        pass_text(Pattern::CardPlain, pass_text(Pattern::CardPlain, s)) == pass_text(
            Pattern::CardPlain,
            s,
        ),
{
    let p = Pattern::CardPlain;
    let out = pass_text(p, s);
    lemma_pass_bounds(p, s);
    assert forall|k: int| !p.found_at(out, 0, k) by {
        if p.found_at(out, 0, k) {
            // Digits in the output are digits of the input, in their place.
            assert forall|j: int| k <= j < k + 16 implies s[j] == out[j] && !in_masked_digits(
                s,
                j,
            ) by {
                lemma_plain_pass_at(s, j);
                assert(is_digit_char(out[j]));
            }
            assert(is_digit_char(out[k]) && is_digit_char(out[k + 4]) && is_digit_char(
                out[k + 15],
            ));
            if k > 0 {
                lemma_plain_pass_at(s, k - 1);
                if in_masked_digits(s, k - 1) {
                    let m = choose|m: int| p.found_at(s, 0, m) && m <= k - 1 < m + 12;
                    if k < m + 12 {
                        assert(in_masked_digits(s, k));
                    } else {
                        assert(is_digit_char(s[m + 16]));
                    }
                }
            }
            if k + 16 < s.len() {
                lemma_plain_pass_at(s, k + 16);
                if in_masked_digits(s, k + 16) {
                    let m = choose|m: int| p.found_at(s, 0, m) && m <= k + 16 < m + 12;
                    assert(is_digit_char(s[m - 1]));
                }
            }
            assert(p.found_at(s, 0, k));
            assert(in_masked_digits(s, k));
        }
    }
    lemma_pass_matches_iff_occurs(p, out);
    lemma_unmatched_pass(p, out);
}

} // verus!
