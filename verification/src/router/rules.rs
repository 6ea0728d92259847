//! Routing rules: conditions on headers and cookies, and the choice of the
//! rule that applies to a request.

use vstd::prelude::*;
use crate::router::cookies::{clone_pairs, get, lookup, pairs};
use crate::text::{contains, holds, lowercase, str_chars, str_eq, to_lowercase};

verus! {

/// Whether `regex::Regex::new` accepts `pattern` as a regular expression.
pub uninterp spec fn regex_compiles(pattern: Seq<char>) -> bool;

/// Whether the regular expression `pattern` has a match somewhere in
/// `haystack`, as `regex::Regex::is_match` finds it.
pub uninterp spec fn regex_is_match(pattern: Seq<char>, haystack: Seq<char>) -> bool;

/// Trusted: `regex::Regex::new`, and `regex::Regex::is_match` on what it
/// returns. The result is `None` where the pattern is refused, and else
/// whether the expression has a match in `haystack`. The contract only
/// names the two answers.
#[verifier::external_body]
fn regex_search(pattern: &str, haystack: &str) -> (r: Option<bool>)
    ensures
        r is Some <==> regex_compiles(pattern@),
        r matches Some(found) ==> found == regex_is_match(pattern@, haystack@),
{
    match regex::Regex::new(pattern) {
        Ok(regex) => Some(regex.is_match(haystack)),
        Err(_) => None,
    }
}

/// What a `Condition` stands for.
pub struct ConditionView {
    pub condition_type: Seq<char>,
    pub key: Seq<char>,
    pub operator: Seq<char>,
    pub value: Seq<char>,
}

/// One condition of a rule: a header or a cookie, an operator, and the
/// value to hold it against.
#[derive(Debug, Clone)]
pub struct Condition {
    /// `header` or `cookie`.
    pub condition_type: String,
    /// The name of the header or cookie.
    pub key: String,
    /// `equals`, `contains` or `regex`.
    pub operator: String,
    /// What the header or cookie is held against.
    pub value: String,
}

impl View for Condition {
    type V = ConditionView;

    open spec fn view(&self) -> ConditionView {
        ConditionView {
            condition_type: self.condition_type@,
            key: self.key@,
            operator: self.operator@,
            value: self.value@,
        }
    }
}

/// What a list of conditions stands for.
pub open spec fn conditions_view(v: Seq<Condition>) -> Seq<ConditionView> {
    Seq::new(v.len(), |k: int| v[k]@)
}

/// What the condition looks at: the header or the cookie of its key, the
/// key put in lower case. A condition of another type looks at nothing.
pub open spec fn subject(
    c: ConditionView,
    headers: Seq<(Seq<char>, Seq<char>)>,
    cookies: Seq<(Seq<char>, Seq<char>)>,
) -> Option<Seq<char>> {
    if c.condition_type == "header"@ {
        lookup(headers, lowercase(c.key))
    } else if c.condition_type == "cookie"@ {
        lookup(cookies, lowercase(c.key))
    } else {
        None
    }
}

/// What a search for the regular expression `pattern` in `haystack` gives:
/// nothing where the pattern is refused, else whether a match was found.
pub open spec fn regex_found(pattern: Seq<char>, haystack: Seq<char>) -> Option<bool> {
    if regex_compiles(pattern) {
        Some(regex_is_match(pattern, haystack))
    } else {
        None
    }
}

/// Whether `subject` satisfies the operator, given what the search for
/// `value` as a regular expression in it gave.
pub open spec fn verdict(
    operator: Seq<char>,
    subject: Seq<char>,
    value: Seq<char>,
    regex: Option<bool>,
) -> bool {
    if operator == "equals"@ {
        subject == value
    } else if operator == "contains"@ {
        holds(subject, value)
    } else if operator == "regex"@ {
        regex == Some(true)
    } else {
        false
    }
}

/// Whether what a condition looks at satisfies it. Nothing satisfies no
/// condition, nor does anything an unknown operator or a pattern that is no
/// regular expression.
pub open spec fn operator_holds(
    operator: Seq<char>,
    subject: Option<Seq<char>>,
    value: Seq<char>,
) -> bool {
    match subject {
        Some(v) => verdict(operator, v, value, regex_found(value, v)),
        None => false,
    }
}

/// Whether a request with these headers and cookies meets the condition.
pub open spec fn condition_holds(
    c: ConditionView,
    headers: Seq<(Seq<char>, Seq<char>)>,
    cookies: Seq<(Seq<char>, Seq<char>)>,
) -> bool {
    operator_holds(c.operator, subject(c, headers, cookies), c.value)
}

/// Whether a request with these headers and cookies meets all conditions.
pub open spec fn all_hold(
    conditions: Seq<ConditionView>,
    headers: Seq<(Seq<char>, Seq<char>)>,
    cookies: Seq<(Seq<char>, Seq<char>)>,
) -> bool {
    forall|k: int|
        0 <= k < conditions.len() ==> condition_holds(#[trigger] conditions[k], headers, cookies)
}

/// Whether `subject` satisfies the operator. `regex` is what the search for
/// `value` as a regular expression in `subject` gave; only the operator
/// `regex` looks at it.
pub fn operator_verdict(operator: &str, subject: &str, value: &str, regex: Option<bool>) -> (r:
    bool)
    ensures
        r == verdict(operator@, subject@, value@, regex),
{
    if str_eq(operator, "equals") {
        str_eq(subject, value)
    } else if str_eq(operator, "contains") {
        let hay = str_chars(subject);
        let needle = str_chars(value);
        contains(hay.as_slice(), needle.as_slice())
    } else if str_eq(operator, "regex") {
        match regex {
            Some(found) => found,
            None => false,
        }
    } else {
        false
    }
}

/// Whether a request with these headers and cookies meets the condition.
pub fn check_condition(
    condition: &Condition,
    headers: &Vec<(String, String)>,
    cookies: &Vec<(String, String)>,
) -> (r: bool)
    ensures
        r == condition_holds(condition@, pairs(headers@), pairs(cookies@)),
{
    let key = to_lowercase(condition.key.as_str());
    let value = if str_eq(condition.condition_type.as_str(), "header") {
        get(headers, key.as_str())
    } else if str_eq(condition.condition_type.as_str(), "cookie") {
        get(cookies, key.as_str())
    } else {
        None
    };
    assert(match value {
        Some(v) => subject(condition@, pairs(headers@), pairs(cookies@)) == Some(v@),
        None => subject(condition@, pairs(headers@), pairs(cookies@)) is None,
    });
    match value {
        Some(v) => {
            // Only the operator `regex` has the pattern compiled.
            let regex = if str_eq(condition.operator.as_str(), "regex") {
                regex_search(condition.value.as_str(), v)
            } else {
                None
            };
            operator_verdict(condition.operator.as_str(), v, condition.value.as_str(), regex)
        },
        None => false,
    }
}

/// Whether a request with these headers and cookies meets all conditions.
pub fn evaluate_conditions(
    conditions: &[Condition],
    headers: &Vec<(String, String)>,
    cookies: &Vec<(String, String)>,
) -> (r: bool)
    ensures
        r == all_hold(conditions_view(conditions@), pairs(headers@), pairs(cookies@)),
{
    let ghost views = conditions_view(conditions@);
    let mut k: usize = 0;
    while k < conditions.len()
        invariant
            k <= conditions.len(),
            views == conditions_view(conditions@),
            forall|j: int|
                0 <= j < k ==> condition_holds(#[trigger] views[j], pairs(headers@), pairs(cookies@)),
        decreases conditions.len() - k,
    {
        assert(views[k as int] == conditions@[k as int]@);
        if !check_condition(&conditions[k], headers, cookies) {
            // All conditions must match.
            return false;
        }
        k += 1;
    }
    true
}

/// What a `RoutingRule` stands for.
pub struct RuleView {
    pub name: Seq<char>,
    pub priority: int,
    pub conditions: Seq<ConditionView>,
    pub target: Seq<char>,
    pub add_headers: Seq<(Seq<char>, Seq<char>)>,
}

/// A routing rule: where a request that meets all its conditions goes.
#[derive(Debug, Clone)]
pub struct RoutingRule {
    /// The name the rule is reported by.
    pub name: String,
    /// Rules with lower numbers are tried first.
    pub priority: i32,
    /// The conditions, all of which a request must meet.
    pub conditions: Vec<Condition>,
    /// The upstream target.
    pub target: String,
    /// Headers to put on a request that the rule routes.
    pub add_headers: Vec<(String, String)>,
}

impl View for RoutingRule {
    type V = RuleView;

    open spec fn view(&self) -> RuleView {
        RuleView {
            name: self.name@,
            priority: self.priority as int,
            conditions: conditions_view(self.conditions@),
            target: self.target@,
            add_headers: pairs(self.add_headers@),
        }
    }
}

/// What a list of rules stands for.
pub open spec fn rules_view(v: Seq<RoutingRule>) -> Seq<RuleView> {
    Seq::new(v.len(), |k: int| v[k]@)
}

/// Whether rule `a` is tried no later than rule `b`: its number is lower,
/// or the same and it stands no later in the list.
pub open spec fn tried_first(rules: Seq<RuleView>, a: int, b: int) -> bool {
    rules[a].priority < rules[b].priority || (rules[a].priority == rules[b].priority && a <= b)
}

/// Whether rule `k` is the one that routes the request: the request meets
/// its conditions, and it is tried before any other rule the request
/// meets.
pub open spec fn is_selected(
    rules: Seq<RuleView>,
    headers: Seq<(Seq<char>, Seq<char>)>,
    cookies: Seq<(Seq<char>, Seq<char>)>,
    k: int,
) -> bool {
    &&& 0 <= k < rules.len()
    &&& all_hold(rules[k].conditions, headers, cookies)
    &&& forall|j: int|
        0 <= j < rules.len() && all_hold(#[trigger] rules[j].conditions, headers, cookies)
            ==> tried_first(rules, k, j)
}

/// The rule that routes the request, if it meets any.
pub open spec fn selected(
    rules: Seq<RuleView>,
    headers: Seq<(Seq<char>, Seq<char>)>,
    cookies: Seq<(Seq<char>, Seq<char>)>,
) -> Option<int> {
    if exists|k: int| is_selected(rules, headers, cookies, k) {
        Some(choose|k: int| is_selected(rules, headers, cookies, k))
    } else {
        None
    }
}

/// No two rules route the same request.
pub proof fn lemma_selected_unique(
    rules: Seq<RuleView>,
    headers: Seq<(Seq<char>, Seq<char>)>,
    cookies: Seq<(Seq<char>, Seq<char>)>,
    a: int,
    b: int,
)
    requires
        is_selected(rules, headers, cookies, a),
        is_selected(rules, headers, cookies, b),
    ensures
        a == b,
{
}

/// Finds the rule that routes a request with these headers and cookies:
/// among the rules it meets, the one with the lowest number, and of
/// several with that number the first.
pub fn select_rule(
    rules: &Vec<RoutingRule>,
    headers: &Vec<(String, String)>,
    cookies: &Vec<(String, String)>,
) -> (r: Option<usize>)
    ensures
        match r {
            Some(k) => selected(rules_view(rules@), pairs(headers@), pairs(cookies@)) == Some(
                k as int,
            ),
            None => selected(rules_view(rules@), pairs(headers@), pairs(cookies@)) is None,
        },
        r is None <==> forall|j: int|
            0 <= j < rules.len() ==> !all_hold(
                #[trigger] rules_view(rules@)[j].conditions,
                pairs(headers@),
                pairs(cookies@),
            ),
{
    let ghost views = rules_view(rules@);
    let ghost h = pairs(headers@);
    let ghost c = pairs(cookies@);
    let mut best: Option<usize> = None;
    let mut k: usize = 0;
    while k < rules.len()
        invariant
            k <= rules.len(),
            views == rules_view(rules@),
            h == pairs(headers@),
            c == pairs(cookies@),
            match best {
                Some(b) => {
                    &&& b < k
                    &&& all_hold(views[b as int].conditions, h, c)
                    &&& forall|j: int|
                        0 <= j < k && all_hold(#[trigger] views[j].conditions, h, c)
                            ==> tried_first(views, b as int, j)
                },
                None => forall|j: int|
                    0 <= j < k ==> !all_hold(#[trigger] views[j].conditions, h, c),
            },
        decreases rules.len() - k,
    {
        if evaluate_conditions(rules[k].conditions.as_slice(), headers, cookies) {
            match best {
                Some(b) => {
                    if rules[k].priority < rules[b].priority {
                        best = Some(k);
                    }
                },
                None => {
                    best = Some(k);
                },
            }
        }
        k += 1;
    }
    proof {
        match best {
            Some(b) => {
                assert(is_selected(views, h, c, b as int));
                let chosen = choose|k: int| is_selected(views, h, c, k);
                lemma_selected_unique(views, h, c, chosen, b as int);
            },
            None => {},
        }
    }
    best
}

impl Condition {
    /// A copy of the condition.
    pub fn duplicate(&self) -> (r: Self)
        ensures
            r@ == self@,
    {
        Condition {
            condition_type: self.condition_type.clone(),
            key: self.key.clone(),
            operator: self.operator.clone(),
            value: self.value.clone(),
        }
    }
}

impl RoutingRule {
    /// A copy of the rule.
    pub fn duplicate(&self) -> (r: Self)
        ensures
            r@ == self@,
    {
        let mut conditions: Vec<Condition> = Vec::new();
        let mut k: usize = 0;
        while k < self.conditions.len()
            invariant
                k <= self.conditions.len(),
                conditions@.len() == k,
                forall|j: int| 0 <= j < k ==> conditions@[j]@ == self.conditions@[j]@,
            decreases self.conditions.len() - k,
        {
            conditions.push(self.conditions[k].duplicate());
            k += 1;
        }
        assert(conditions_view(conditions@) =~= conditions_view(self.conditions@));
        RoutingRule {
            name: self.name.clone(),
            priority: self.priority,
            conditions,
            target: self.target.clone(),
            add_headers: clone_pairs(&self.add_headers),
        }
    }
}

} // verus!
