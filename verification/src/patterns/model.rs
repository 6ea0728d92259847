//! The mathematical model of the pattern engine.
//!
//! A text is a `Seq<char>`. Each pattern says where it is found in a text,
//! which span of the text such a match claims, and what replaces the span.
//! `scan` is the left-to-right pass that replaces every match it meets and
//! resumes behind it, so the spans claimed by one pass never overlap.

use vstd::prelude::*;
use crate::text::{is_alphanumeric_char, is_digit_char};

verus! {

/// `DDDD-DDDD-DDDD-DDDD`: sixteen digits in four dash-separated groups.
pub open spec fn dashed_card_shape(w: Seq<char>) -> bool {
    &&& w.len() == 19
    &&& forall|k: int|
        #![trigger w[k]]
        0 <= k < 19 ==> if k == 4 || k == 9 || k == 14 {
            w[k] == '-'
        } else {
            is_digit_char(w[k])
        }
}

/// `DDD-DD-DDDD`.
pub open spec fn ssn_shape(w: Seq<char>) -> bool {
    &&& w.len() == 11
    &&& forall|k: int|
        #![trigger w[k]]
        0 <= k < 11 ==> if k == 3 || k == 6 {
            w[k] == '-'
        } else {
            is_digit_char(w[k])
        }
}

/// `DDD-DDD-DDDD` or `DDD.DDD.DDDD`: the separator is `-` or `.`, the same
/// one at both places.
pub open spec fn phone_shape(w: Seq<char>) -> bool {
    &&& w.len() == 12
    &&& (w[3] == '-' || w[3] == '.')
    &&& forall|k: int|
        #![trigger w[k]]
        0 <= k < 12 ==> if k == 3 || k == 7 {
            w[k] == w[3]
        } else {
            is_digit_char(w[k])
        }
}

/// Characters of the local part of an email address.
pub open spec fn is_local_char(c: char) -> bool {
    is_alphanumeric_char(c) || c == '.' || c == '_' || c == '%' || c == '+' || c == '-'
}

/// Characters of the domain of an email address.
pub open spec fn is_domain_char(c: char) -> bool {
    is_alphanumeric_char(c) || c == '.' || c == '-'
}

/// Where the longest run of local-part characters that ends just before
/// `at` begins, looking no further back than `lo`.
pub open spec fn local_run_start(s: Seq<char>, lo: int, at: int) -> int
    decreases at - lo,
{
    if lo < at && 0 < at <= s.len() && is_local_char(s[at - 1]) {
        local_run_start(s, lo, at - 1)
    } else {
        at
    }
}

/// The length of the longest run of domain characters that begins at `from`.
pub open spec fn domain_run_len(s: Seq<char>, from: int) -> nat
    decreases s.len() - from,
{
    if 0 <= from < s.len() && is_domain_char(s[from]) {
        1 + domain_run_len(s, from + 1)
    } else {
        0
    }
}

/// A run of domain characters ends within the text.
pub proof fn lemma_domain_run_fits(s: Seq<char>, from: int)
    requires
        0 <= from <= s.len(),
    ensures
        from + domain_run_len(s, from) <= s.len(),
    decreases s.len() - from,
{
    if from < s.len() && is_domain_char(s[from]) {
        lemma_domain_run_fits(s, from + 1);
    }
}

/// A domain holds a dot, and neither begins nor ends with one.
pub open spec fn is_valid_domain(d: Seq<char>) -> bool {
    &&& d.len() > 0
    &&& d.contains('.')
    &&& d.first() != '.'
    &&& d.last() != '.'
}

/// The patterns of the engine. A credit card number comes in two shapes,
/// each scanned for in a pass of its own.
#[derive(Clone, Copy, PartialEq, Eq, Structural, Debug)]
pub enum Pattern {
    CardDashed,
    CardPlain,
    Ssn,
    Email,
    PhoneUs,
}

impl Pattern {
    /// Whether the pattern is found at `i`: for an email address `i` is the
    /// place of its `@`, for the others the place of their first digit. `lo`
    /// is where the scan last resumed; an email address reaches no further
    /// back than that.
    pub open spec fn found_at(self, s: Seq<char>, lo: int, i: int) -> bool {
        match self {
            Pattern::CardDashed => {
                &&& 0 <= i && i + 19 <= s.len()
                &&& dashed_card_shape(s.subrange(i, i + 19))
            },
            Pattern::CardPlain => {
                &&& 0 <= i && i + 16 <= s.len()
                &&& forall|k: int| i <= k < i + 16 ==> is_digit_char(#[trigger] s[k])
                &&& (i == 0 || !is_digit_char(s[i - 1]))
                &&& (i + 16 == s.len() || !is_digit_char(s[i + 16]))
            },
            Pattern::Ssn => {
                &&& 0 <= i && i + 11 <= s.len()
                &&& ssn_shape(s.subrange(i, i + 11))
                &&& (i == 0 || !is_alphanumeric_char(s[i - 1]))
                &&& (i + 11 == s.len() || !is_alphanumeric_char(s[i + 11]))
            },
            Pattern::Email => {
                &&& 0 <= lo <= i < s.len()
                &&& s[i] == '@'
                &&& local_run_start(s, lo, i) < i
                &&& is_valid_domain(s.subrange(i + 1, i + 1 + domain_run_len(s, i + 1)))
            },
            Pattern::PhoneUs => {
                &&& 0 <= i && i + 12 <= s.len()
                &&& phone_shape(s.subrange(i, i + 12))
                &&& (i == 0 || !is_alphanumeric_char(s[i - 1]))
                &&& (i + 12 == s.len() || !is_alphanumeric_char(s[i + 12]))
            },
        }
    }

    /// Where the span claimed by a match found at `i` begins.
    pub open spec fn span_start(self, s: Seq<char>, lo: int, i: int) -> int {
        match self {
            Pattern::Email => local_run_start(s, lo, i),
            _ => i,
        }
    }

    /// How far the span claimed by a match found at `i` reaches from `i` on.
    pub open spec fn reach(self, s: Seq<char>, i: int) -> nat {
        match self {
            Pattern::CardDashed => 19,
            Pattern::CardPlain => 16,
            Pattern::Ssn => 11,
            Pattern::Email => 1 + domain_run_len(s, i + 1),
            Pattern::PhoneUs => 12,
        }
    }

    /// Where the span claimed by a match found at `i` ends, and the scan
    /// resumes.
    pub open spec fn span_end(self, s: Seq<char>, i: int) -> int {
        i + self.reach(s, i)
    }

    /// What replaces the span claimed by a match found at `i`.
    pub open spec fn token(self, s: Seq<char>, i: int) -> Seq<char> {
        match self {
            Pattern::CardDashed => seq![
                'X', 'X', 'X', 'X', '-', 'X', 'X', 'X', 'X', '-', 'X', 'X', 'X', 'X', '-',
            ] + s.subrange(i + 15, i + 19),
            Pattern::CardPlain => seq![
                'X', 'X', 'X', 'X', 'X', 'X', 'X', 'X', 'X', 'X', 'X', 'X',
            ] + s.subrange(i + 12, i + 16),
            Pattern::Ssn => seq!['X', 'X', 'X', '-', 'X', 'X', '-', 'X', 'X', 'X', 'X'],
            Pattern::Email => seq![
                '[', 'E', 'M', 'A', 'I', 'L', ' ', 'R', 'E', 'D', 'A', 'C', 'T', 'E', 'D', ']',
            ],
            Pattern::PhoneUs => seq!['(', 'X', 'X', 'X', ')', ' ', 'X', 'X', 'X', '-'] + s.subrange(
                i + 8,
                i + 12,
            ),
        }
    }
}

/// The text that a pass for `p` makes of `s` from `lo` on, when it last
/// resumed at `lo` and has looked at everything before `i`.
pub open spec fn scan(p: Pattern, s: Seq<char>, lo: int, i: int) -> Seq<char>
    recommends
        0 <= lo <= i,
    decreases s.len() - i,
{
    if i >= s.len() {
        s.subrange(lo, s.len() as int)
    } else if p.found_at(s, lo, i) {
        proof {
            lemma_domain_run_fits(s, i + 1);
        }
        s.subrange(lo, p.span_start(s, lo, i)) + p.token(s, i) + scan(
            p,
            s,
            p.span_end(s, i),
            p.span_end(s, i),
        )
    } else {
        scan(p, s, lo, i + 1)
    }
}

/// How many matches a pass for `p` replaces in `s` from `i` on, when it last
/// resumed at `lo`.
pub open spec fn scan_count(p: Pattern, s: Seq<char>, lo: int, i: int) -> nat
    recommends
        0 <= lo <= i,
    decreases s.len() - i,
{
    if i >= s.len() {
        0
    } else if p.found_at(s, lo, i) {
        proof {
            lemma_domain_run_fits(s, i + 1);
        }
        1 + scan_count(p, s, p.span_end(s, i), p.span_end(s, i))
    } else {
        scan_count(p, s, lo, i + 1)
    }
}

/// Whether a pass for `p`, at `from` after it last resumed at `lo`, goes on
/// to replace a match found at `i`.
pub open spec fn claims(p: Pattern, s: Seq<char>, lo: int, from: int, i: int) -> bool
    recommends
        0 <= lo <= from,
    decreases s.len() - from,
{
    if from >= s.len() || i < from {
        false
    } else if p.found_at(s, lo, from) {
        proof {
            lemma_domain_run_fits(s, from + 1);
        }
        from == i || claims(p, s, p.span_end(s, from), p.span_end(s, from), i)
    } else {
        claims(p, s, lo, from + 1, i)
    }
}

/// The spans that a pass for `p` goes on to replace, at `from` after it
/// last resumed at `lo`: for each where it begins and where it ends, in the
/// order in which the pass meets them.
pub open spec fn spans(p: Pattern, s: Seq<char>, lo: int, from: int) -> Seq<(int, int)>
    recommends
        0 <= lo <= from,
    decreases s.len() - from,
{
    if from >= s.len() {
        Seq::empty()
    } else if p.found_at(s, lo, from) {
        proof {
            lemma_domain_run_fits(s, from + 1);
        }
        seq![(p.span_start(s, lo, from), p.span_end(s, from))] + spans(
            p,
            s,
            p.span_end(s, from),
            p.span_end(s, from),
        )
    } else {
        spans(p, s, lo, from + 1)
    }
}

/// The spans that one whole pass for `p` replaces.
pub open spec fn pass_spans(p: Pattern, s: Seq<char>) -> Seq<(int, int)> {
    spans(p, s, 0, 0)
}

/// Whether one whole pass for `p` replaces a match found at `i`.
pub open spec fn pass_claims(p: Pattern, s: Seq<char>, i: int) -> bool {
    claims(p, s, 0, 0, i)
}

/// The text after one whole pass for `p`.
pub open spec fn pass_text(p: Pattern, s: Seq<char>) -> Seq<char> {
    scan(p, s, 0, 0)
}

/// The number of matches one whole pass for `p` replaces.
pub open spec fn pass_count(p: Pattern, s: Seq<char>) -> nat {
    scan_count(p, s, 0, 0)
}

/// The text after the two credit card passes: the dashed shape first, then
/// the plain one in what the first pass made of the text.
pub open spec fn card_text(s: Seq<char>) -> Seq<char> {
    pass_text(Pattern::CardPlain, pass_text(Pattern::CardDashed, s))
}

/// The number of credit card numbers the two passes replace.
pub open spec fn card_count(s: Seq<char>) -> nat {
    pass_count(Pattern::CardDashed, s) + pass_count(
        Pattern::CardPlain,
        pass_text(Pattern::CardDashed, s),
    )
}

impl Pattern {
    /// The least number of characters a match takes the scan forward.
    pub open spec fn stride(self) -> nat {
        match self {
            Pattern::CardDashed => 19,
            Pattern::CardPlain => 16,
            Pattern::Ssn => 11,
            Pattern::Email => 4,
            Pattern::PhoneUs => 12,
        }
    }

    /// Whether the pattern's token is as long as the span it replaces.
    pub open spec fn keeps_length(self) -> bool {
        self == Pattern::CardDashed || self == Pattern::CardPlain || self == Pattern::Ssn
    }

    /// The length of the pattern's token.
    pub open spec fn token_len(self) -> nat {
        match self {
            Pattern::CardDashed => 19,
            Pattern::CardPlain => 16,
            Pattern::Ssn => 11,
            Pattern::Email => 16,
            Pattern::PhoneUs => 14,
        }
    }
}

/// A valid domain has at least three characters.
pub proof fn lemma_valid_domain_len(d: Seq<char>)
    requires
        is_valid_domain(d),
    ensures
        d.len() >= 3,
{
    let k = choose|k: int| 0 <= k < d.len() && d[k] == '.';
    assert(0 < k < d.len() - 1);
}

/// A match takes the scan forward by at least the pattern's stride, and
/// never past the end of the text.
pub proof fn lemma_found_stride(p: Pattern, s: Seq<char>, lo: int, i: int)
    requires
        p.found_at(s, lo, i),
    ensures
        i + p.stride() <= p.span_end(s, i) <= s.len(),
        0 <= i,
        p == Pattern::Email ==> lo <= p.span_start(s, lo, i) < i,
        p != Pattern::Email ==> p.span_start(s, lo, i) == i,
        p.token(s, i).len() == p.token_len(),
{
    if p == Pattern::Email {
        lemma_domain_run_fits(s, i + 1);
        lemma_valid_domain_len(s.subrange(i + 1, i + 1 + domain_run_len(s, i + 1)));
        lemma_local_run_start_bounds(s, lo, i);
    }
}

/// The run of local-part characters begins between `lo` and `at`.
pub proof fn lemma_local_run_start_bounds(s: Seq<char>, lo: int, at: int)
    requires
        lo <= at,
    ensures
        lo <= local_run_start(s, lo, at) <= at,
    decreases at - lo,
{
    if lo < at && 0 < at <= s.len() && is_local_char(s[at - 1]) {
        lemma_local_run_start_bounds(s, lo, at - 1);
    }
}

/// Bounds on what is left of a scan: each match takes at least the
/// pattern's stride, and the text grows by no more than a token per match.
pub proof fn lemma_scan_bounds(p: Pattern, s: Seq<char>, lo: int, i: int)
    requires
        0 <= lo <= i <= s.len(),
    ensures
        p.stride() * scan_count(p, s, lo, i) <= s.len() - i,
        scan(p, s, lo, i).len() <= (s.len() - lo) + p.token_len() * scan_count(p, s, lo, i),
        p.keeps_length() ==> scan(p, s, lo, i).len() == s.len() - lo,
    decreases s.len() - i,
{
    if i >= s.len() {
    } else if p.found_at(s, lo, i) {
        lemma_found_stride(p, s, lo, i);
        let e = p.span_end(s, i);
        lemma_scan_bounds(p, s, e, e);
        let c = scan_count(p, s, e, e);
        assert(p.stride() * (1 + c) == p.stride() + p.stride() * c) by (nonlinear_arith);
        assert(p.token_len() * (1 + c) == p.token_len() + p.token_len() * c) by (nonlinear_arith);
    } else {
        lemma_scan_bounds(p, s, lo, i + 1);
    }
}

/// Bounds on one whole pass.
pub proof fn lemma_pass_bounds(p: Pattern, s: Seq<char>)
    ensures
        p.stride() * pass_count(p, s) <= s.len(),
        pass_text(p, s).len() <= s.len() + p.token_len() * pass_count(p, s),
        p.keeps_length() ==> pass_text(p, s).len() == s.len(),
{
    lemma_scan_bounds(p, s, 0, 0);
}

/// A scan that replaces nothing leaves the text as it is.
pub proof fn lemma_unmatched_scan(p: Pattern, s: Seq<char>, lo: int, i: int)
    requires
        0 <= lo <= i <= s.len(),
        scan_count(p, s, lo, i) == 0,
    ensures
        scan(p, s, lo, i) == s.subrange(lo, s.len() as int),
    decreases s.len() - i,
{
    if i < s.len() {
        lemma_unmatched_scan(p, s, lo, i + 1);
    }
}

/// A pass that replaces nothing leaves the text as it is.
pub proof fn lemma_unmatched_pass(p: Pattern, s: Seq<char>)
    ensures
        pass_count(p, s) == 0 ==> pass_text(p, s) == s,
{
    if pass_count(p, s) == 0 {
        lemma_unmatched_scan(p, s, 0, 0);
    }
}

} // verus!
