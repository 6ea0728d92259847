//! The redaction orchestrator: the enabled detectors, applied to one buffer
//! in the fixed order credit card, SSN, email, phone, each to what the one
//! before it made of the text.

use vstd::prelude::*;
use vstd::slice::slice_to_vec;
use vstd::utf8::{decode_utf8, encode_utf8, valid_utf8};
use crate::patterns::category::{Category, CategorySet};
use crate::patterns::engine::{redact_credit_cards, redact_email, redact_phone_us, redact_ssn};
use crate::text::{decode, encode};

verus! {

/// What the detector of `c` makes of `t`, if it is among the enabled ones.
pub open spec fn stage(on: Set<Category>, c: Category, t: Seq<char>) -> Seq<char> {
    if on.contains(c) {
        c.text(t)
    } else {
        t
    }
}

/// The text that reaches the detector of `c` in a run on `t`: what the
/// detectors before it have made of `t`.
pub open spec fn text_before(on: Set<Category>, c: Category, t: Seq<char>) -> Seq<char> {
    match c {
        Category::CreditCard => t,
        Category::Ssn => stage(on, Category::CreditCard, t),
        Category::Email => stage(on, Category::Ssn, stage(on, Category::CreditCard, t)),
        Category::PhoneUs => stage(
            on,
            Category::Email,
            stage(on, Category::Ssn, stage(on, Category::CreditCard, t)),
        ),
    }
}

/// The text after all enabled detectors have run on `t`.
pub open spec fn redacted_text(on: Set<Category>, t: Seq<char>) -> Seq<char> {
    stage(on, Category::PhoneUs, text_before(on, Category::PhoneUs, t))
}

/// The number of matches of `c` in a run on `t`.
pub open spec fn found(on: Set<Category>, c: Category, t: Seq<char>) -> nat {
    if on.contains(c) {
        c.count(text_before(on, c, t))
    } else {
        0
    }
}

/// The number of matches of all categories in a run on `t`.
pub open spec fn total_found(on: Set<Category>, t: Seq<char>) -> nat {
    found(on, Category::CreditCard, t) + found(on, Category::Ssn, t) + found(
        on,
        Category::Email,
        t,
    ) + found(on, Category::PhoneUs, t)
}

/// What a `RedactionResult` stands for.
pub struct Redaction {
    /// Whether any redactions were made.
    pub redacted: bool,
    /// Number of matches replaced, over all categories.
    pub match_count: nat,
    /// The categories that matched.
    pub matched_patterns: Set<Category>,
    /// The sanitized content.
    pub content: Seq<u8>,
}

/// The redaction of a buffer with the detectors `on` enabled: the buffer
/// itself, untouched, if it is not valid UTF-8; else the encoding of the
/// redacted text, with the matches counted and their categories listed.
pub open spec fn redaction(on: Set<Category>, input: Seq<u8>) -> Redaction {
    if valid_utf8(input) {
        let t = decode_utf8(input);
        Redaction {
            redacted: total_found(on, t) > 0,
            match_count: total_found(on, t),
            matched_patterns: Set::new(|c: Category| found(on, c, t) > 0),
            content: encode_utf8(redacted_text(on, t)),
        }
    } else {
        Redaction { redacted: false, match_count: 0, matched_patterns: Set::empty(), content: input }
    }
}

/// Run on a text of `n` characters, the detectors find no more than `n`
/// matches.
pub proof fn lemma_total_found_bound(on: Set<Category>, t: Seq<char>)
    ensures
        total_found(on, t) <= t.len(),
{
    let t1 = text_before(on, Category::Ssn, t);
    let t2 = text_before(on, Category::Email, t);
    let t3 = text_before(on, Category::PhoneUs, t);
    Category::CreditCard.lemma_bounds(t);
    Category::Ssn.lemma_bounds(t1);
    Category::Email.lemma_bounds(t2);
    // Only the email detector lets the text grow before the phone detector
    // reads it, by no more than four times its length.
    Category::PhoneUs.lemma_bounds(t3);
}

/// Result of a redaction operation.
#[derive(Debug, Clone)]
pub struct RedactionResult {
    /// Whether any redactions were made.
    pub redacted: bool,
    /// Number of matches replaced, over all categories.
    pub match_count: u32,
    /// The categories that matched.
    pub matched_patterns: CategorySet,
    /// The sanitized content.
    pub content: Vec<u8>,
}

impl View for RedactionResult {
    type V = Redaction;

    open spec fn view(&self) -> Redaction {
        Redaction {
            redacted: self.redacted,
            match_count: self.match_count as nat,
            matched_patterns: self.matched_patterns@,
            content: self.content@,
        }
    }
}

impl RedactionResult {
    /// A result reports a redaction exactly when it counts a match.
    pub open spec fn wf(&self) -> bool {
        self.redacted == (self.match_count > 0)
    }
}

/// Matcher for PII patterns with configurable pattern enablement.
pub struct PiiPatternMatcher {
    enable_credit_card: bool,
    enable_ssn: bool,
    enable_email: bool,
    enable_phone_us: bool,
}

impl View for PiiPatternMatcher {
    type V = Set<Category>;

    /// The categories whose detector is enabled.
    closed spec fn view(&self) -> Set<Category> {
        Set::new(
            |c: Category|
                match c {
                    Category::CreditCard => self.enable_credit_card,
                    Category::Ssn => self.enable_ssn,
                    Category::Email => self.enable_email,
                    Category::PhoneUs => self.enable_phone_us,
                },
        )
    }
}

impl PiiPatternMatcher {
    /// Create a new pattern matcher with specified patterns enabled.
    pub fn new(
        enable_credit_card: bool,
        enable_ssn: bool,
        enable_email: bool,
        enable_phone_us: bool,
    ) -> (r: Self)
        ensures
            r@.contains(Category::CreditCard) == enable_credit_card,
            r@.contains(Category::Ssn) == enable_ssn,
            r@.contains(Category::Email) == enable_email,
            r@.contains(Category::PhoneUs) == enable_phone_us,
    {
        Self { enable_credit_card, enable_ssn, enable_email, enable_phone_us }
    }

    /// Create a matcher with all patterns enabled.
    pub fn all() -> (r: Self)
        ensures
            r@ == Set::<Category>::full(),
    {
        Self::new(true, true, true, true)
    }

    /// Create a matcher with default patterns (no phone).
    pub fn default_patterns() -> (r: Self)
        ensures
            r@ == Set::<Category>::full().remove(Category::PhoneUs),
    {
        Self::new(true, true, true, false)
    }

    /// Whether the detector of category `c` is enabled.
    pub fn is_enabled(&self, c: Category) -> (r: bool)
        ensures
            r == self@.contains(c),
    {
        match c {
            Category::CreditCard => self.enable_credit_card,
            Category::Ssn => self.enable_ssn,
            Category::Email => self.enable_email,
            Category::PhoneUs => self.enable_phone_us,
        }
    }

    /// Runs the detector of `c` over `text` if it is enabled, and returns
    /// what it made of the text and how many matches it replaced.
    fn run_stage(&self, c: Category, text: Vec<char>) -> (r: (Vec<char>, usize))
        ensures
            r.0@ == stage(self@, c, text@),
            r.1 == if self@.contains(c) {
                c.count(text@)
            } else {
                0
            },
    {
        if !self.is_enabled(c) {
            return (text, 0);
        }
        let (new_text, count) = match c {
            Category::CreditCard => redact_credit_cards(text.as_slice()),
            Category::Ssn => redact_ssn(text.as_slice()),
            Category::Email => redact_email(text.as_slice()),
            Category::PhoneUs => redact_phone_us(text.as_slice()),
        };
        if count > 0 {
            (new_text, count)
        } else {
            proof {
                c.lemma_bounds(text@);
            }
            (text, 0)
        }
    }

    /// Perform redaction on the input bytes.
    ///
    /// The number of matches is reported in 32 bits, so the buffer may hold
    /// no more bytes than that counts.
    pub fn redact(&self, input: &[u8]) -> (r: RedactionResult)
        requires
            input@.len() <= u32::MAX,
        ensures
            r@ == redaction(self@, input@),
            r.wf(),
            !valid_utf8(input@) ==> r.content@ == input@ && r.match_count == 0,
    {
        let text = match decode(input) {
            Some(text) => text,
            None => {
                // Not valid UTF-8: returned unchanged.
                return RedactionResult {
                    redacted: false,
                    match_count: 0,
                    matched_patterns: CategorySet::new(),
                    content: slice_to_vec(input),
                };
            },
        };
        let ghost t = text@;
        proof {
            lemma_total_found_bound(self@, t);
        }
        let mut match_count: usize = 0;
        let mut matched_patterns = CategorySet::new();

        // Each detector runs on what the one before it made of the text.
        let (text, count) = self.run_stage(Category::CreditCard, text);
        if count > 0 {
            matched_patterns.insert(Category::CreditCard);
            match_count += count;
        }
        let (text, count) = self.run_stage(Category::Ssn, text);
        if count > 0 {
            matched_patterns.insert(Category::Ssn);
            match_count += count;
        }
        let (text, count) = self.run_stage(Category::Email, text);
        if count > 0 {
            matched_patterns.insert(Category::Email);
            match_count += count;
        }
        let (text, count) = self.run_stage(Category::PhoneUs, text);
        if count > 0 {
            matched_patterns.insert(Category::PhoneUs);
            match_count += count;
        }
        assert(matched_patterns@ =~= Set::new(|c: Category| found(self@, c, t) > 0));

        RedactionResult {
            redacted: match_count > 0,
            match_count: match_count as u32,
            matched_patterns,
            content: encode(text.as_slice()),
        }
    }
}

} // verus!
