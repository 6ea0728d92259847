//! The smart router: picks an upstream target for a request from rules on
//! its headers and cookies, among them those for A/B tests and canary
//! releases.
//!
//! The router never touches the host. It is handed the request path and
//! headers as plain values and answers with the routing decision.

pub mod cookies;
pub mod rules;

use vstd::prelude::*;
use vstd::string::StringExecFns;
use crate::router::cookies::{clone_pairs, cookie_pairs, get, lookup, pairs, parse_cookies};
use crate::router::rules::{rules_view, select_rule, selected, RoutingRule, RuleView};
use crate::text::{lowercase, starts_with, str_chars, str_eq, to_lowercase};

verus! {

/// The log level of a configuration that names none.
pub fn default_log_level() -> (r: String)
    ensures
        r@ == "info"@,
{
    String::from_str("info")
}

/// The target of requests that no rule routes, in a configuration that
/// names none.
pub fn default_target() -> (r: String)
    ensures
        r@ == "v1"@,
{
    String::from_str("v1")
}

/// What a router's `PluginConfig` stands for.
pub struct RouterPolicy {
    pub log_level: Seq<char>,
    pub default_target: Seq<char>,
    pub debug: bool,
    pub rules: Seq<RuleView>,
}

impl RouterPolicy {
    /// The policy of a router that was given no configuration: everything
    /// goes to `v1`.
    pub open spec fn default_policy() -> RouterPolicy {
        RouterPolicy {
            log_level: "info"@,
            default_target: "v1"@,
            debug: false,
            rules: Seq::empty(),
        }
    }
}

/// Router configuration.
#[derive(Debug, Clone)]
pub struct PluginConfig {
    /// Log level for the plugin.
    pub log_level: String,
    /// Where requests go that no rule routes.
    pub default_target: String,
    pub debug: bool,
    /// The routing rules.
    pub rules: Vec<RoutingRule>,
}

impl View for PluginConfig {
    type V = RouterPolicy;

    open spec fn view(&self) -> RouterPolicy {
        RouterPolicy {
            log_level: self.log_level@,
            default_target: self.default_target@,
            debug: self.debug,
            rules: rules_view(self.rules@),
        }
    }
}

impl Default for PluginConfig {
    fn default() -> (r: Self)
        ensures
            r@ == RouterPolicy::default_policy(),
    {
        let r = Self {
            log_level: default_log_level(),
            default_target: default_target(),
            debug: false,
            rules: Vec::new(),
        };
        assert(r@.rules =~= Seq::<RuleView>::empty());
        r
    }
}

impl PluginConfig {
    /// A copy of the configuration.
    pub fn duplicate(&self) -> (r: Self)
        ensures
            r@ == self@,
    {
        let mut rules: Vec<RoutingRule> = Vec::new();
        let mut k: usize = 0;
        while k < self.rules.len()
            invariant
                k <= self.rules.len(),
                rules@.len() == k,
                forall|j: int| 0 <= j < k ==> rules@[j]@ == self.rules@[j]@,
            decreases self.rules.len() - k,
        {
            rules.push(self.rules[k].duplicate());
            k += 1;
        }
        assert(rules_view(rules@) =~= rules_view(self.rules@));
        Self {
            log_level: self.log_level.clone(),
            default_target: self.default_target.clone(),
            debug: self.debug,
            rules,
        }
    }
}

/// Headers with their names put in lower case.
pub open spec fn lowercase_names(raw: Seq<(Seq<char>, Seq<char>)>) -> Seq<
    (Seq<char>, Seq<char>),
> {
    Seq::new(raw.len(), |k: int| (lowercase(raw[k].0), raw[k].1))
}

/// The path a request is sent on with, where it is rewritten: a request
/// bound for `v2` whose path does not begin with `/v2` gets `/v2` put
/// before its path.
pub open spec fn rewritten_path(target: Seq<char>, path: Seq<char>) -> Option<Seq<char>> {
    if target == "v2"@ && !"/v2"@.is_prefix_of(path) {
        Some("/v2"@ + path)
    } else {
        None
    }
}

/// What a `RoutingDecision` stands for.
pub struct Routing {
    pub target: Seq<char>,
    pub reason: Seq<char>,
    pub headers_to_add: Seq<(Seq<char>, Seq<char>)>,
    pub new_path: Option<Seq<char>>,
}

/// The routing of a request with path `path` and headers `headers`, their
/// names in lower case: by the rule that routes it, named as the reason, or
/// else to the default target.
pub open spec fn routing(
    policy: RouterPolicy,
    path: Seq<char>,
    headers: Seq<(Seq<char>, Seq<char>)>,
) -> Routing {
    let cookies = cookie_pairs(
        match lookup(headers, "cookie"@) {
            Some(c) => c,
            None => Seq::empty(),
        },
    );
    match selected(policy.rules, headers, cookies) {
        Some(k) => Routing {
            target: policy.rules[k].target,
            reason: policy.rules[k].name,
            headers_to_add: policy.rules[k].add_headers,
            new_path: rewritten_path(policy.rules[k].target, path),
        },
        None => Routing {
            target: policy.default_target,
            reason: "default"@,
            headers_to_add: Seq::empty(),
            new_path: rewritten_path(policy.default_target, path),
        },
    }
}

/// Where a request goes, and what is to be done to it on the way.
#[derive(Debug, Clone)]
pub struct RoutingDecision {
    /// The upstream target.
    pub target: String,
    /// The name of the rule that routed the request, or `default`.
    pub reason: String,
    /// Headers to put on the request.
    pub headers_to_add: Vec<(String, String)>,
    /// The path to send the request on with, where it is rewritten.
    pub new_path: Option<String>,
}

impl View for RoutingDecision {
    type V = Routing;

    open spec fn view(&self) -> Routing {
        Routing {
            target: self.target@,
            reason: self.reason@,
            headers_to_add: pairs(self.headers_to_add@),
            new_path: match self.new_path {
                Some(p) => Some(p@),
                None => None,
            },
        }
    }
}

impl RoutingDecision {
    /// The headers to put on the request, as names and values: one that
    /// names the router, one that gives the reason, then those of the rule.
    pub fn request_headers(&self) -> (r: Vec<(String, String)>)
        ensures
            pairs(r@) == seq![("X-Routed-By"@, "smart-router"@), ("X-Route-Reason"@, self@.reason)]
                + self@.headers_to_add,
    {
        let mut r: Vec<(String, String)> = Vec::new();
        r.push((String::from_str("X-Routed-By"), String::from_str("smart-router")));
        r.push((String::from_str("X-Route-Reason"), self.reason.clone()));
        let mut k: usize = 0;
        while k < self.headers_to_add.len()
            invariant
                k <= self.headers_to_add.len(),
                pairs(r@) == seq![
                    ("X-Routed-By"@, "smart-router"@),
                    ("X-Route-Reason"@, self@.reason),
                ] + self@.headers_to_add.take(k as int),
            decreases self.headers_to_add.len() - k,
        {
            let ghost before = pairs(r@);
            r.push((self.headers_to_add[k].0.clone(), self.headers_to_add[k].1.clone()));
            assert(pairs(r@) =~= before + seq![self@.headers_to_add[k as int]]);
            assert(self@.headers_to_add.take(k + 1) =~= self@.headers_to_add.take(k as int) + seq![
                self@.headers_to_add[k as int],
            ]);
            k += 1;
        }
        r
    }
}

/// The header that marks a response as having passed the router, as name
/// and value.
pub fn response_marker() -> (r: (&'static str, &'static str))
    ensures
        r.0@ == "X-Smart-Router"@,
        r.1@ == "active"@,
{
    ("X-Smart-Router", "active")
}

/// The path to send a request on with, where it is rewritten.
pub fn rewrite_path(target: &str, path: &str) -> (r: Option<String>)
    ensures
        (match r {
            Some(p) => Some(p@),
            None => None,
        }) == rewritten_path(target@, path@),
{
    if str_eq(target, "v2") {
        let path_chars = str_chars(path);
        let prefix = str_chars("/v2");
        if !starts_with(path_chars.as_slice(), prefix.as_slice()) {
            return Some(String::from_str("/v2").concat(path));
        }
    }
    None
}

/// Puts the names of headers in lower case.
pub fn collect_headers(all_headers: &Vec<(String, String)>) -> (r: Vec<(String, String)>)
    ensures
        pairs(r@) == lowercase_names(pairs(all_headers@)),
{
    let mut r: Vec<(String, String)> = Vec::new();
    let mut k: usize = 0;
    while k < all_headers.len()
        invariant
            k <= all_headers.len(),
            r@.len() == k,
            forall|j: int|
                0 <= j < k ==> r@[j].0@ == lowercase(all_headers@[j].0@) && r@[j].1@
                    == all_headers@[j].1@,
        decreases all_headers.len() - k,
    {
        r.push((to_lowercase(all_headers[k].0.as_str()), all_headers[k].1.clone()));
        k += 1;
    }
    r
}

/// The router of one exchange.
pub struct SmartRouterHttp {
    context_id: u32,
    config: PluginConfig,
}

impl View for SmartRouterHttp {
    type V = RouterPolicy;

    closed spec fn view(&self) -> RouterPolicy {
        self.config@
    }
}

impl SmartRouterHttp {
    /// The router of an exchange that has just begun.
    pub fn new(context_id: u32, config: PluginConfig) -> (r: Self)
        ensures
            r@ == config@,
            r.id() == context_id,
    {
        Self { context_id, config }
    }

    /// The number the host gave the exchange.
    pub closed spec fn id(&self) -> u32 {
        self.context_id
    }

    /// The number the host gave the exchange.
    pub fn context_id(&self) -> (r: u32)
        ensures
            r == self.id(),
    {
        self.context_id
    }

    /// Routes a request, given its path and its headers, their names
    /// already in lower case.
    pub fn route(&self, path: &str, headers: &Vec<(String, String)>) -> (r: RoutingDecision)
        ensures
            r@ == routing(self@, path@, pairs(headers@)),
    {
        // Parse cookies.
        let cookies = match get(headers, "cookie") {
            Some(c) => parse_cookies(c),
            None => parse_cookies(""),
        };
        proof {
            reveal_strlit("");
        }
        // Use the matched rule or the default.
        match select_rule(&self.config.rules, headers, &cookies) {
            Some(k) => {
                let rule = &self.config.rules[k];
                RoutingDecision {
                    target: rule.target.clone(),
                    reason: rule.name.clone(),
                    headers_to_add: clone_pairs(&rule.add_headers),
                    new_path: rewrite_path(rule.target.as_str(), path),
                }
            },
            None => {
                let r = RoutingDecision {
                    target: self.config.default_target.clone(),
                    reason: String::from_str("default"),
                    headers_to_add: Vec::new(),
                    new_path: rewrite_path(self.config.default_target.as_str(), path),
                };
                assert(pairs(r.headers_to_add@) =~= Seq::<(Seq<char>, Seq<char>)>::empty());
                r
            },
        }
    }

    /// The request headers have come; `path` is the request path, if the
    /// host has one, and `all_headers` are the request's headers. Decides
    /// where the request goes. A request without a path counts as one for
    /// `/`; the names of the headers are put in lower case before they are
    /// looked at.
    pub fn on_http_request_headers(
        &self,
        path: Option<&str>,
        all_headers: &Vec<(String, String)>,
    ) -> (r: RoutingDecision)
        ensures
            r@ == routing(
                self@,
                match path {
                    Some(p) => p@,
                    None => "/"@,
                },
                lowercase_names(pairs(all_headers@)),
            ),
    {
        let current_path = match path {
            Some(p) => p,
            None => "/",
        };
        let headers = collect_headers(all_headers);
        self.route(current_path, &headers)
    }
}

/// The root of the router plugin: it holds the configuration and makes a
/// router for each exchange.
pub struct SmartRouterRoot {
    config: PluginConfig,
}

impl View for SmartRouterRoot {
    type V = RouterPolicy;

    closed spec fn view(&self) -> RouterPolicy {
        self.config@
    }
}

impl SmartRouterRoot {
    /// A root with the default configuration.
    pub fn new() -> (r: Self)
        ensures
            r@ == RouterPolicy::default_policy(),
    {
        Self { config: PluginConfig::default() }
    }

    /// The host has configured the plugin; `parsed` is the configuration
    /// it gave, or `None` where it gave none or one that could not be read.
    /// A configuration that was read replaces the one in force; else the
    /// one in force stays.
    pub fn on_configure(&mut self, parsed: Option<PluginConfig>)
        ensures
            final(self)@ == match parsed {
                Some(c) => c@,
                None => old(self)@,
            },
    {
        if let Some(config) = parsed {
            self.config = config;
        }
    }

    /// The number of rules in force.
    pub fn rule_count(&self) -> (r: usize)
        ensures
            r == self@.rules.len(),
    {
        self.config.rules.len()
    }

    /// The router for a new exchange, with the configuration in force.
    pub fn create_http_context(&self, context_id: u32) -> (r: SmartRouterHttp)
        ensures
            r@ == self@,
            r.id() == context_id,
    {
        SmartRouterHttp::new(context_id, self.config.duplicate())
    }
}

} // verus!
