//! The categories of personal data the engine knows, and sets of them.

use vstd::prelude::*;
use crate::patterns::model::{
    card_count, card_text, lemma_pass_bounds, lemma_unmatched_pass, pass_count, pass_text, Pattern,
};
use crate::text::str_eq;

verus! {

/// A category of personal data.
#[derive(Clone, Copy, PartialEq, Eq, Structural, Debug, Hash)]
pub enum Category {
    CreditCard,
    Ssn,
    Email,
    PhoneUs,
}

impl Category {
    /// The label a category goes by in configuration and in reports.
    pub open spec fn label(self) -> Seq<char> {
        match self {
            Category::CreditCard => "credit_card"@,
            Category::Ssn => "ssn"@,
            Category::Email => "email"@,
            Category::PhoneUs => "phone_us"@,
        }
    }

    /// The text after the category's detector has run over `s`.
    pub open spec fn text(self, s: Seq<char>) -> Seq<char> {
        match self {
            Category::CreditCard => card_text(s),
            Category::Ssn => pass_text(Pattern::Ssn, s),
            Category::Email => pass_text(Pattern::Email, s),
            Category::PhoneUs => pass_text(Pattern::PhoneUs, s),
        }
    }

    /// The number of matches the category's detector replaces in `s`.
    pub open spec fn count(self, s: Seq<char>) -> nat {
        match self {
            Category::CreditCard => card_count(s),
            Category::Ssn => pass_count(Pattern::Ssn, s),
            Category::Email => pass_count(Pattern::Email, s),
            Category::PhoneUs => pass_count(Pattern::PhoneUs, s),
        }
    }

    /// Each match of the category takes up at least this many characters of
    /// the text. For a credit card number it is half the length of the
    /// plain shape: a number of that shape may begin with the last four
    /// digits of a dashed one.
    pub open spec fn stride(self) -> nat {
        match self {
            Category::CreditCard => 8,
            Category::Ssn => 11,
            Category::Email => 4,
            Category::PhoneUs => 12,
        }
    }

    /// Whether the category's tokens are as long as what they replace.
    pub open spec fn keeps_length(self) -> bool {
        self == Category::CreditCard || self == Category::Ssn
    }

    /// What a detector can do to a text: it finds no more matches than fit
    /// into it, adds no more than a token for each, and changes nothing
    /// where it finds nothing.
    pub proof fn lemma_bounds(self, s: Seq<char>)
        ensures
            self.stride() * self.count(s) <= s.len(),
            self.text(s).len() <= s.len() + 16 * self.count(s),
            self.keeps_length() ==> self.text(s).len() == s.len(),
            self.count(s) == 0 ==> self.text(s) == s,
    {
        match self {
            Category::CreditCard => {
                let d = pass_text(Pattern::CardDashed, s);
                lemma_pass_bounds(Pattern::CardDashed, s);
                lemma_pass_bounds(Pattern::CardPlain, d);
                lemma_unmatched_pass(Pattern::CardDashed, s);
                lemma_unmatched_pass(Pattern::CardPlain, d);
            },
            Category::Ssn => {
                lemma_pass_bounds(Pattern::Ssn, s);
                lemma_unmatched_pass(Pattern::Ssn, s);
            },
            Category::Email => {
                lemma_pass_bounds(Pattern::Email, s);
                lemma_unmatched_pass(Pattern::Email, s);
            },
            Category::PhoneUs => {
                lemma_pass_bounds(Pattern::PhoneUs, s);
                lemma_unmatched_pass(Pattern::PhoneUs, s);
            },
        }
    }

    /// The category's label.
    pub fn name(self) -> (r: &'static str)
        ensures
            r@ == self.label(),
    {
        match self {
            Category::CreditCard => "credit_card",
            Category::Ssn => "ssn",
            Category::Email => "email",
            Category::PhoneUs => "phone_us",
        }
    }
}

/// A set of categories.
#[derive(Clone, Copy, Debug)]
pub struct CategorySet {
    credit_card: bool,
    ssn: bool,
    email: bool,
    phone_us: bool,
}

impl View for CategorySet {
    type V = Set<Category>;

    closed spec fn view(&self) -> Set<Category> {
        Set::new(
            |c: Category|
                match c {
                    Category::CreditCard => self.credit_card,
                    Category::Ssn => self.ssn,
                    Category::Email => self.email,
                    Category::PhoneUs => self.phone_us,
                },
        )
    }
}

impl CategorySet {
    /// The set of no category.
    pub fn new() -> (r: Self)
        ensures
            r@ == Set::<Category>::empty(),
    {
        CategorySet { credit_card: false, ssn: false, email: false, phone_us: false }
    }

    /// The set of the categories whose flag is set.
    pub fn of(credit_card: bool, ssn: bool, email: bool, phone_us: bool) -> (r: Self)
        ensures
            r@.contains(Category::CreditCard) == credit_card,
            r@.contains(Category::Ssn) == ssn,
            r@.contains(Category::Email) == email,
            r@.contains(Category::PhoneUs) == phone_us,
    {
        CategorySet { credit_card, ssn, email, phone_us }
    }

    /// Adds a category.
    pub fn insert(&mut self, c: Category)
        ensures
            final(self)@ == old(self)@.insert(c),
    {
        match c {
            Category::CreditCard => {
                self.credit_card = true;
            },
            Category::Ssn => {
                self.ssn = true;
            },
            Category::Email => {
                self.email = true;
            },
            Category::PhoneUs => {
                self.phone_us = true;
            },
        }
    }

    /// Whether the category is in the set.
    pub fn has(&self, c: Category) -> (r: bool)
        ensures
            r == self@.contains(c),
    {
        match c {
            Category::CreditCard => self.credit_card,
            Category::Ssn => self.ssn,
            Category::Email => self.email,
            Category::PhoneUs => self.phone_us,
        }
    }

    /// Whether a category with this label is in the set.
    pub fn contains(&self, label: &str) -> (r: bool)
        ensures
            r == exists|c: Category| self@.contains(c) && c.label() == label@,
    {
        let r = (self.credit_card && str_eq(label, Category::CreditCard.name())) || (self.ssn
            && str_eq(label, Category::Ssn.name())) || (self.email && str_eq(
            label,
            Category::Email.name(),
        )) || (self.phone_us && str_eq(label, Category::PhoneUs.name()));
        proof {
            if r {
                let c = if self.credit_card && label@ == Category::CreditCard.label() {
                    Category::CreditCard
                } else if self.ssn && label@ == Category::Ssn.label() {
                    Category::Ssn
                } else if self.email && label@ == Category::Email.label() {
                    Category::Email
                } else {
                    Category::PhoneUs
                };
                assert(self@.contains(c) && c.label() == label@);
            }
        }
        r
    }

    /// Whether the set holds no category.
    pub fn is_empty(&self) -> (r: bool)
        ensures
            r == (self@ == Set::<Category>::empty()),
    {
        let r = !self.credit_card && !self.ssn && !self.email && !self.phone_us;
        proof {
            if r {
                assert(self@ =~= Set::<Category>::empty());
            } else {
                let c = if self.credit_card {
                    Category::CreditCard
                } else if self.ssn {
                    Category::Ssn
                } else if self.email {
                    Category::Email
                } else {
                    Category::PhoneUs
                };
                assert(self@.contains(c));
            }
        }
        r
    }
}

} // verus!
