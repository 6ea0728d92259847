use edge_filters::router::cookies::{clone_pairs, get, parse_cookies};
use edge_filters::router::rules::{
    check_condition, evaluate_conditions, operator_verdict, select_rule, Condition, RoutingRule,
};
use edge_filters::router::{
    collect_headers, default_log_level, default_target, response_marker, rewrite_path,
    PluginConfig, SmartRouterHttp, SmartRouterRoot,
};

fn pair(k: &str, v: &str) -> (String, String) {
    (k.to_string(), v.to_string())
}

fn cond(kind: &str, key: &str, operator: &str, value: &str) -> Condition {
    Condition {
        condition_type: kind.to_string(),
        key: key.to_string(),
        operator: operator.to_string(),
        value: value.to_string(),
    }
}

fn rule(name: &str, priority: i32, conditions: Vec<Condition>, target: &str) -> RoutingRule {
    RoutingRule {
        name: name.to_string(),
        priority,
        conditions,
        target: target.to_string(),
        add_headers: vec![pair("X-Rule", name)],
    }
}

#[test]
fn router_defaults() {
    assert_eq!(default_log_level(), "info");
    assert_eq!(default_target(), "v1");
    let config = PluginConfig::default();
    assert_eq!(config.log_level, "info");
    assert_eq!(config.default_target, "v1");
    assert!(!config.debug);
    assert!(config.rules.is_empty());
}

#[test]
fn cookies_are_read() {
    assert_eq!(parse_cookies("a=1; b=2"), vec![pair("a", "1"), pair("b", "2")]);
    assert_eq!(parse_cookies(""), vec![]);
    assert_eq!(parse_cookies(";;"), vec![]);
    assert_eq!(parse_cookies("novalue"), vec![]);
    assert_eq!(parse_cookies("a=1;"), vec![pair("a", "1")]);
    assert_eq!(parse_cookies("  Beta = on ;\tX=y=z "), vec![pair("beta", "on"), pair("x", "y=z")]);
    assert_eq!(parse_cookies("=v"), vec![pair("", "v")]);
    assert_eq!(parse_cookies("k="), vec![pair("k", "")]);
    assert_eq!(parse_cookies("\u{00a0}K\u{3000}=\u{2003}v\u{00a0}"), vec![pair("k", "v")]);
    assert_eq!(parse_cookies("a=1; A=2"), vec![pair("a", "1"), pair("a", "2")]);
}

#[test]
fn last_value_counts() {
    let map = vec![pair("a", "1"), pair("b", "2"), pair("a", "3")];
    assert_eq!(get(&map, "a"), Some("3"));
    assert_eq!(get(&map, "b"), Some("2"));
    assert_eq!(get(&map, "c"), None);
    assert_eq!(get(&map, "A"), None);
    assert_eq!(get(&vec![], "a"), None);
    assert_eq!(clone_pairs(&map), map);
    let cookies = parse_cookies("a=1; A=2");
    assert_eq!(get(&cookies, "a"), Some("2"));
}

#[test]
fn header_names_are_lowered() {
    let raw = vec![pair("X-Version", "Beta"), pair("cookie", "A=b"), pair("ACCEPT", "*/*")];
    assert_eq!(
        collect_headers(&raw),
        vec![pair("x-version", "Beta"), pair("cookie", "A=b"), pair("accept", "*/*")]
    );
}

#[test]
fn operators() {
    assert!(operator_verdict("equals", "beta", "beta", None));
    assert!(!operator_verdict("equals", "beta", "bet", Some(true)));
    assert!(!operator_verdict("equals", "Beta", "beta", None));
    assert!(operator_verdict("contains", "Mozilla/5.0 (iPhone)", "iPhone", None));
    assert!(operator_verdict("contains", "abc", "", None));
    assert!(!operator_verdict("contains", "abc", "abd", Some(true)));
    assert!(!operator_verdict("starts_with", "abc", "a", Some(true)));
    assert!(!operator_verdict("", "abc", "abc", Some(true)));
    assert!(!operator_verdict("EQUALS", "abc", "abc", None));
    assert!(operator_verdict("regex", "abc", "b", Some(true)));
    assert!(!operator_verdict("regex", "abc", "abc", Some(false)));
    assert!(!operator_verdict("regex", "abc", "abc", None));
}

#[test]
fn conditions() {
    let headers = vec![pair("x-version", "beta-2"), pair("user-agent", "curl/8.0")];
    let cookies = vec![pair("canary", "true")];
    assert!(check_condition(&cond("header", "X-Version", "equals", "beta-2"), &headers, &cookies));
    assert!(check_condition(&cond("header", "x-version", "contains", "beta"), &headers, &cookies));
    assert!(check_condition(&cond("cookie", "Canary", "equals", "true"), &headers, &cookies));
    assert!(!check_condition(&cond("cookie", "x-version", "equals", "beta-2"), &headers, &cookies));
    assert!(!check_condition(&cond("header", "missing", "equals", ""), &headers, &cookies));
    assert!(!check_condition(&cond("query", "x-version", "equals", "beta-2"), &headers, &cookies));
    assert!(!check_condition(&cond("header", "x-version", "matches", "beta-2"), &headers, &cookies));
    // Regular expressions.
    assert!(check_condition(&cond("header", "x-version", "regex", r"^beta-\d+$"), &headers, &cookies));
    assert!(check_condition(&cond("header", "user-agent", "regex", "curl"), &headers, &cookies));
    assert!(!check_condition(&cond("header", "x-version", "regex", r"^beta$"), &headers, &cookies));
    // What is no regular expression matches nothing.
    assert!(!check_condition(&cond("header", "x-version", "regex", "beta-(2"), &headers, &cookies));
    assert!(!check_condition(&cond("header", "missing", "regex", ".*"), &headers, &cookies));
}

#[test]
fn all_conditions_must_hold() {
    let headers = vec![pair("x-version", "beta")];
    let cookies = vec![pair("canary", "true")];
    let yes = cond("header", "x-version", "equals", "beta");
    let also = cond("cookie", "canary", "equals", "true");
    let no = cond("cookie", "canary", "equals", "false");
    assert!(evaluate_conditions(&[], &headers, &cookies));
    assert!(evaluate_conditions(&[yes.duplicate()], &headers, &cookies));
    assert!(evaluate_conditions(&[yes.duplicate(), also.duplicate()], &headers, &cookies));
    assert!(!evaluate_conditions(&[yes.duplicate(), no.duplicate()], &headers, &cookies));
    assert!(!evaluate_conditions(&[no.duplicate(), yes.duplicate()], &headers, &cookies));
}

#[test]
fn lowest_number_wins() {
    let headers = vec![pair("x-version", "beta")];
    let cookies = vec![];
    let hit = || vec![cond("header", "x-version", "equals", "beta")];
    let miss = || vec![cond("header", "x-version", "equals", "alpha")];
    let rules = vec![
        rule("late", 10, hit(), "v2"),
        rule("never", 1, miss(), "v3"),
        rule("early", 5, hit(), "v4"),
        rule("tie", 5, hit(), "v5"),
        rule("open", 7, vec![], "v6"),
    ];
    assert_eq!(select_rule(&rules, &headers, &cookies), Some(2));
    assert_eq!(select_rule(&rules[..2].to_vec(), &headers, &cookies), Some(0));
    assert_eq!(select_rule(&rules[1..2].to_vec(), &headers, &cookies), None);
    assert_eq!(select_rule(&vec![], &headers, &cookies), None);
    let negative = vec![rule("a", 0, hit(), "v2"), rule("b", -3, hit(), "v3")];
    assert_eq!(select_rule(&negative, &headers, &cookies), Some(1));
    let ties = vec![rule("a", 2, hit(), "v2"), rule("b", 2, hit(), "v3"), rule("c", 2, hit(), "v4")];
    assert_eq!(select_rule(&ties, &headers, &cookies), Some(0));
}

#[test]
fn paths_are_rewritten_for_v2() {
    assert_eq!(rewrite_path("v2", "/api/user"), Some("/v2/api/user".to_string()));
    assert_eq!(rewrite_path("v2", "/"), Some("/v2/".to_string()));
    assert_eq!(rewrite_path("v2", ""), Some("/v2".to_string()));
    assert_eq!(rewrite_path("v2", "/v2/api"), None);
    assert_eq!(rewrite_path("v2", "/v2"), None);
    assert_eq!(rewrite_path("v2", "/v22"), None);
    assert_eq!(rewrite_path("v1", "/api/user"), None);
    assert_eq!(rewrite_path("V2", "/api/user"), None);
    assert_eq!(rewrite_path("", "/api/user"), None);
}

#[test]
fn requests_are_routed() {
    let config = PluginConfig {
        log_level: "info".to_string(),
        default_target: "v1".to_string(),
        debug: false,
        rules: vec![
            rule("beta-users", 2, vec![cond("cookie", "Beta", "equals", "on")], "v2"),
            rule(
                "internal",
                1,
                vec![
                    cond("header", "X-Internal", "regex", "^(yes|true)$"),
                    cond("header", "user-agent", "contains", "probe"),
                ],
                "v3",
            ),
        ],
    };
    let mut root = SmartRouterRoot::new();
    assert_eq!(root.rule_count(), 0);
    root.on_configure(None);
    assert_eq!(root.rule_count(), 0);
    root.on_configure(Some(config));
    assert_eq!(root.rule_count(), 2);
    let router = root.create_http_context(9);
    assert_eq!(router.context_id(), 9);

    // No rule: the default target.
    let d = router.on_http_request_headers(Some("/api"), &vec![pair("Accept", "*/*")]);
    assert_eq!(d.target, "v1");
    assert_eq!(d.reason, "default");
    assert!(d.headers_to_add.is_empty());
    assert_eq!(d.new_path, None);

    // A cookie rule; header and cookie names in any case.
    let d = router.on_http_request_headers(
        Some("/api"),
        &vec![pair("Accept", "*/*"), pair("Cookie", "theme=dark; BETA = on")],
    );
    assert_eq!(d.target, "v2");
    assert_eq!(d.reason, "beta-users");
    assert_eq!(d.headers_to_add, vec![pair("X-Rule", "beta-users")]);
    assert_eq!(d.new_path, Some("/v2/api".to_string()));

    assert_eq!(
        d.request_headers(),
        vec![
            pair("X-Routed-By", "smart-router"),
            pair("X-Route-Reason", "beta-users"),
            pair("X-Rule", "beta-users"),
        ]
    );
    assert_eq!(response_marker(), ("X-Smart-Router", "active"));

    // Already on the new path: no rewrite.
    let d = router.on_http_request_headers(Some("/v2/api"), &vec![pair("cookie", "beta=on")]);
    assert_eq!(d.target, "v2");
    assert_eq!(d.new_path, None);

    // No path counts as `/`.
    let d = router.on_http_request_headers(None, &vec![pair("cookie", "beta=on")]);
    assert_eq!(d.new_path, Some("/v2/".to_string()));

    // Both rules hold: the lower number wins.
    let d = router.on_http_request_headers(
        Some("/api"),
        &vec![
            pair("cookie", "beta=on"),
            pair("X-INTERNAL", "true"),
            pair("User-Agent", "probe/1.0"),
        ],
    );
    assert_eq!(d.target, "v3");
    assert_eq!(d.reason, "internal");
    assert_eq!(d.new_path, None);

    // One of its conditions fails.
    let d = router.on_http_request_headers(
        Some("/api"),
        &vec![pair("X-Internal", "true"), pair("User-Agent", "curl")],
    );
    assert_eq!(d.target, "v1");

    // Handed headers as they are, `route` does not lower their names.
    let d = router.route("/api", &vec![pair("Cookie", "beta=on")]);
    assert_eq!(d.target, "v1");
    let d = router.route("/api", &vec![pair("cookie", "beta=on")]);
    assert_eq!(d.target, "v2");

    let fresh = SmartRouterHttp::new(1, PluginConfig::default());
    let d = fresh.on_http_request_headers(Some("/x"), &vec![]);
    assert_eq!(d.target, "v1");
    assert_eq!(d.reason, "default");
    assert_eq!(
        d.request_headers(),
        vec![pair("X-Routed-By", "smart-router"), pair("X-Route-Reason", "default")]
    );
}

#[test]
fn default_target_v2_rewrites_too() {
    let config = PluginConfig {
        log_level: "info".to_string(),
        default_target: "v2".to_string(),
        debug: true,
        rules: vec![],
    };
    let router = SmartRouterHttp::new(1, config.duplicate());
    let d = router.on_http_request_headers(Some("/api"), &vec![]);
    assert_eq!(d.target, "v2");
    assert_eq!(d.reason, "default");
    assert_eq!(d.new_path, Some("/v2/api".to_string()));
    assert!(config.duplicate().debug);
}

#[test]
fn rules_are_copied_whole() {
    let r = RoutingRule {
        name: "n".to_string(),
        priority: -4,
        conditions: vec![cond("header", "k", "equals", "v"), cond("cookie", "c", "regex", ".")],
        target: "t".to_string(),
        add_headers: vec![pair("a", "b"), pair("c", "d")],
    };
    let copy = r.duplicate();
    assert_eq!(copy.name, "n");
    assert_eq!(copy.priority, -4);
    assert_eq!(copy.target, "t");
    assert_eq!(copy.add_headers, r.add_headers);
    assert_eq!(copy.conditions.len(), 2);
    assert_eq!(copy.conditions[1].condition_type, "cookie");
    assert_eq!(copy.conditions[1].key, "c");
    assert_eq!(copy.conditions[1].operator, "regex");
    assert_eq!(copy.conditions[1].value, ".");
}
