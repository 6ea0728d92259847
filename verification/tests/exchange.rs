use edge_filters::config::{
    default_log_level, default_max_body_size, default_true, level_from_lowercase, LogLevel,
    PatternConfig, PluginConfig,
};
use edge_filters::filter::{
    entry_matches, exceeds_limit, is_textual_content_type, BodyAction, Phase, PiiScrubberHttp,
    PiiScrubberRoot, ScrubOutcome,
};
use edge_filters::patterns::Category;

fn path_chars(s: &str) -> Vec<char> {
    s.chars().collect()
}

fn filter() -> PiiScrubberHttp {
    PiiScrubberHttp::new(7, PluginConfig::default())
}

#[test]
fn defaults() {
    let config = PluginConfig::default();
    assert_eq!(config.log_level, "info");
    assert_eq!(config.bypass_paths, vec!["/health".to_string(), "/metrics".to_string()]);
    assert_eq!(config.max_body_size_bytes, 1_048_576);
    assert_eq!(default_log_level(), "info");
    assert_eq!(default_max_body_size(), 1_048_576);
    assert!(default_true());
    let patterns = PatternConfig::default();
    let matcher = patterns.matcher();
    assert!(matcher.is_enabled(Category::CreditCard));
    assert!(matcher.is_enabled(Category::Ssn));
    assert!(matcher.is_enabled(Category::Email));
    assert!(!matcher.is_enabled(Category::PhoneUs));
}

#[test]
fn log_levels() {
    assert_eq!(level_from_lowercase("trace"), LogLevel::Trace);
    assert_eq!(level_from_lowercase("debug"), LogLevel::Debug);
    assert_eq!(level_from_lowercase("info"), LogLevel::Info);
    assert_eq!(level_from_lowercase("warn"), LogLevel::Warn);
    assert_eq!(level_from_lowercase("error"), LogLevel::Error);
    assert_eq!(level_from_lowercase("loud"), LogLevel::Info);
    assert_eq!(level_from_lowercase(""), LogLevel::Info);
    assert_eq!(level_from_lowercase("DEBUG"), LogLevel::Info);
    let config = PluginConfig { log_level: "DeBuG".to_string(), ..Default::default() };
    assert_eq!(config.level(), LogLevel::Debug);
    let config = PluginConfig { log_level: "WARN".to_string(), ..Default::default() };
    assert_eq!(config.level(), LogLevel::Warn);
    let config = PluginConfig { log_level: "verbose".to_string(), ..Default::default() };
    assert_eq!(config.level(), LogLevel::Info);
}

#[test]
fn configuration_is_replaced_whole_or_kept() {
    let mut root = PiiScrubberRoot::new();
    assert_eq!(root.bypass_path_count(), 2);
    assert_eq!(root.on_configure(None), LogLevel::Info);
    assert_eq!(root.bypass_path_count(), 2);
    let given = PluginConfig {
        log_level: "Error".to_string(),
        patterns: PatternConfig { credit_card: false, ssn: true, email: false, phone_us: true },
        bypass_paths: vec!["/a".to_string(), "/b/*".to_string(), "/c".to_string()],
        max_body_size_bytes: 10,
    };
    assert_eq!(root.on_configure(Some(given)), LogLevel::Error);
    assert_eq!(root.bypass_path_count(), 3);
    // What cannot be read leaves the configuration in force.
    assert_eq!(root.on_configure(None), LogLevel::Error);
    assert_eq!(root.bypass_path_count(), 3);

    let mut ctx = root.create_http_context(42);
    assert_eq!(ctx.context_id(), 42);
    assert!(ctx.should_scrub());
    assert_eq!(ctx.accumulated_body_size(), 0);
    assert_eq!(ctx.request_path(), "");
    assert!(ctx.should_bypass_path("/b/x"));
    assert!(!ctx.should_bypass_path("/health"));
    let r = ctx.redact_pii(b"123-45-6789 a@b.c 555-123-4567");
    assert_eq!(String::from_utf8_lossy(&r.content), "XXX-XX-XXXX a@b.c (XXX) XXX-4567");
    ctx.on_http_request_headers(Some("/x"));
    assert_eq!(ctx.on_http_response_headers(None, Some("11")), ScrubOutcome::TooLarge);
}

#[test]
fn bypass_entries() {
    assert!(entry_matches(&path_chars("/health"), &path_chars("/health")));
    assert!(!entry_matches(&path_chars("/health"), &path_chars("/health/")));
    assert!(!entry_matches(&path_chars("/health"), &path_chars("/healthz")));
    assert!(entry_matches(&path_chars("/api/internal/*"), &path_chars("/api/internal/debug")));
    assert!(entry_matches(&path_chars("/api/internal/*"), &path_chars("/api/internal/")));
    assert!(!entry_matches(&path_chars("/api/internal/*"), &path_chars("/api/internal")));
    assert!(!entry_matches(&path_chars("/api/internal/*"), &path_chars("/api/user")));
    assert!(entry_matches(&path_chars("*"), &path_chars("/anything")));
    assert!(entry_matches(&path_chars("*"), &path_chars("")));
    assert!(entry_matches(&path_chars(""), &path_chars("")));
    assert!(!entry_matches(&path_chars(""), &path_chars("/")));
    // Only a final `*` is a wildcard.
    assert!(!entry_matches(&path_chars("/a/*/b"), &path_chars("/a/x/b")));
    assert!(entry_matches(&path_chars("/a/*/b"), &path_chars("/a/*/b")));
    // The entry's own `*` is not part of the prefix.
    assert!(!entry_matches(&path_chars("/a*"), &path_chars("/")));
    assert!(entry_matches(&path_chars("/a*"), &path_chars("/a*")));
}

#[test]
fn bypass_list_is_tried_in_order() {
    let config = PluginConfig {
        bypass_paths: vec!["/x".to_string(), "/y/*".to_string(), "/z".to_string()],
        ..Default::default()
    };
    let ctx = PiiScrubberHttp::new(1, config);
    assert!(ctx.should_bypass_path("/x"));
    assert!(ctx.should_bypass_path("/y/1"));
    assert!(ctx.should_bypass_path("/z"));
    assert!(!ctx.should_bypass_path("/w"));
    let none = PiiScrubberHttp::new(1, PluginConfig { bypass_paths: vec![], ..Default::default() });
    assert!(!none.should_bypass_path("/health"));
}

#[test]
fn request_path_decides_once() {
    let mut ctx = filter();
    ctx.on_http_request_headers(Some("/api/user"));
    assert!(ctx.should_scrub());
    assert_eq!(ctx.request_path(), "/api/user");

    let mut ctx = filter();
    ctx.on_http_request_headers(Some("/health"));
    assert!(!ctx.should_scrub());
    assert_eq!(ctx.request_path(), "/health");
    assert_eq!(
        ctx.on_http_response_headers(Some("application/json"), Some("10")),
        ScrubOutcome::Bypassed
    );
    assert!(!ctx.should_scrub());
    assert_eq!(ctx.on_http_response_body(10, true), BodyAction::Continue);
    assert_eq!(ctx.accumulated_body_size(), 0);

    // Without a path the response is scrubbed.
    let mut ctx = filter();
    ctx.on_http_request_headers(None);
    assert!(ctx.should_scrub());
    assert_eq!(ctx.phase(), Phase::Scrubbing);
    assert_eq!(ctx.request_path(), "");
}

#[test]
fn content_types() {
    assert!(is_textual_content_type("application/json"));
    assert!(is_textual_content_type("text/html; charset=utf-8"));
    assert!(is_textual_content_type("application/problem+json"));
    assert!(!is_textual_content_type("image/png"));
    assert!(!is_textual_content_type(""));
    assert!(!is_textual_content_type("application/JSON"));

    let mut ctx = filter();
    assert_eq!(ctx.on_http_response_headers(Some("image/png"), None), ScrubOutcome::NonText);
    assert!(!ctx.should_scrub());
    let mut ctx = filter();
    assert_eq!(ctx.on_http_response_headers(Some("Application/JSON"), None), ScrubOutcome::WillScrub);
    assert!(ctx.should_scrub());
    let mut ctx = filter();
    assert_eq!(ctx.on_http_response_headers(Some("TEXT/Plain"), None), ScrubOutcome::WillScrub);
    // No content type at all does not gate.
    let mut ctx = filter();
    assert_eq!(ctx.on_http_response_headers(None, None), ScrubOutcome::WillScrub);
    // The type is looked at before the length.
    let mut ctx = filter();
    assert_eq!(
        ctx.on_http_response_headers(Some("video/mp4"), Some("99999999")),
        ScrubOutcome::NonText
    );
    // Handed a type already in lower case, nothing is lowered again.
    let mut ctx = filter();
    assert_eq!(ctx.decide_on_response(Some("Application/JSON"), None), ScrubOutcome::NonText);
}

#[test]
fn declared_length() {
    assert!(exceeds_limit("1048577", 1_048_576));
    assert!(!exceeds_limit("1048576", 1_048_576));
    assert!(!exceeds_limit("0", 0));
    assert!(exceeds_limit("1", 0));
    assert!(!exceeds_limit("lots", 0));
    assert!(!exceeds_limit("", 0));
    assert!(!exceeds_limit("99999999999999999999999999999999999999", 0));

    let mut ctx = filter();
    assert_eq!(
        ctx.on_http_response_headers(Some("application/json"), Some("1048577")),
        ScrubOutcome::TooLarge
    );
    assert!(!ctx.should_scrub());
    // Its body is never asked for.
    assert_eq!(ctx.on_http_response_body(100, false), BodyAction::Continue);
    assert_eq!(ctx.on_http_response_body(100, true), BodyAction::Continue);
    assert_eq!(ctx.accumulated_body_size(), 0);

    let mut ctx = filter();
    assert_eq!(
        ctx.on_http_response_headers(Some("application/json"), Some("1048576")),
        ScrubOutcome::WillScrub
    );
    // A length that is no number is no length.
    let mut ctx = filter();
    assert_eq!(
        ctx.on_http_response_headers(Some("text/plain"), Some("12 bytes")),
        ScrubOutcome::WillScrub
    );
    assert!(ctx.should_scrub());
}

#[test]
fn outcome_markers() {
    assert_eq!(ScrubOutcome::Bypassed.marker(), "bypassed");
    assert_eq!(ScrubOutcome::NonText.marker(), "non-text");
    assert_eq!(ScrubOutcome::TooLarge.marker(), "too-large");
    assert_eq!(ScrubOutcome::WillScrub.marker(), "will-scrub");
    assert!(ScrubOutcome::WillScrub.removes_content_length());
    assert!(!ScrubOutcome::Bypassed.removes_content_length());
    assert!(!ScrubOutcome::NonText.removes_content_length());
    assert!(!ScrubOutcome::TooLarge.removes_content_length());
    assert_eq!(
        ScrubOutcome::WillScrub.diagnostic_headers(),
        [("X-WASM-Active", "true"), ("X-WASM-Scrub", "will-scrub")]
    );
    assert_eq!(
        ScrubOutcome::TooLarge.diagnostic_headers(),
        [("X-WASM-Active", "true"), ("X-WASM-Scrub", "too-large")]
    );
}

fn ready(limit: usize) -> PiiScrubberHttp {
    let config = PluginConfig { max_body_size_bytes: limit, ..Default::default() };
    let mut ctx = PiiScrubberHttp::new(1, config);
    ctx.on_http_request_headers(Some("/api/user"));
    assert_eq!(ctx.on_http_response_headers(Some("application/json"), None), ScrubOutcome::WillScrub);
    ctx
}

#[test]
fn body_is_scanned_when_complete() {
    let mut ctx = filter();
    assert_eq!(ctx.phase(), Phase::Undetermined);
    ctx.on_http_request_headers(Some("/api/user"));
    assert_eq!(ctx.phase(), Phase::Scrubbing);
    assert_eq!(ctx.on_http_response_headers(Some("application/json"), None), ScrubOutcome::WillScrub);
    assert_eq!(ctx.phase(), Phase::WillScrub);
    assert!(ctx.content_type_known_textual());
    assert_eq!(ctx.on_http_response_body(10, false), BodyAction::Continue);
    assert_eq!(ctx.phase(), Phase::Accumulating);
    assert_eq!(ctx.accumulated_body_size(), 10);
    assert_eq!(ctx.on_http_response_body(0, false), BodyAction::Continue);
    assert_eq!(ctx.on_http_response_body(15, true), BodyAction::Scan { size: 25 });
    assert_eq!(ctx.phase(), Phase::Finalizing);
    assert_eq!(ctx.accumulated_body_size(), 25);
    assert!(ctx.should_scrub());

    let body = b"{\"ssn\": \"123-45-6789\"}: ";
    let result = ctx.scrub(Some(body)).unwrap();
    assert_eq!(ctx.phase(), Phase::Done);
    assert!(result.redacted);
    assert_eq!(result.match_count, 1);
    assert_eq!(String::from_utf8_lossy(&result.content), "{\"ssn\": \"XXX-XX-XXXX\"}: ");
    // The body is scanned once.
    assert!(ctx.scrub(Some(body)).is_none());
    assert_eq!(ctx.on_http_response_body(5, true), BodyAction::Continue);
    assert_eq!(ctx.accumulated_body_size(), 25);
}

#[test]
fn body_goes_out_as_it_is() {
    // Nothing matched.
    let mut ctx = ready(100);
    assert_eq!(ctx.on_http_response_body(12, true), BodyAction::Scan { size: 12 });
    assert!(ctx.scrub(Some(b"{\"ok\": true}")).is_none());
    assert_eq!(ctx.phase(), Phase::Done);
    // The host had no body to give.
    let mut ctx = ready(100);
    assert_eq!(ctx.on_http_response_body(12, true), BodyAction::Scan { size: 12 });
    assert!(ctx.scrub(None).is_none());
    assert_eq!(ctx.phase(), Phase::Done);
    // Not UTF-8: nothing to replace.
    let mut ctx = ready(100);
    assert_eq!(ctx.on_http_response_body(2, true), BodyAction::Scan { size: 2 });
    assert!(ctx.scrub(Some(&[0xff, b'1'])).is_none());
    // A body that was not asked for is not looked at.
    let mut ctx = ready(100);
    assert!(ctx.scrub(Some(b"123-45-6789")).is_none());
    assert_eq!(ctx.phase(), Phase::WillScrub);
    assert_eq!(ctx.on_http_response_body(5, false), BodyAction::Continue);
    assert!(ctx.scrub(Some(b"123-45-6789")).is_none());
    assert_eq!(ctx.phase(), Phase::Accumulating);
}

#[test]
fn body_over_the_limit_is_let_pass() {
    let mut ctx = ready(20);
    assert_eq!(ctx.on_http_response_body(10, false), BodyAction::Continue);
    assert_eq!(ctx.on_http_response_body(11, true), BodyAction::Continue);
    assert_eq!(ctx.accumulated_body_size(), 21);
    assert_eq!(ctx.phase(), Phase::Done);
    assert!(ctx.scrub(Some(b"123-45-6789")).is_none());

    let mut ctx = ready(20);
    assert_eq!(ctx.on_http_response_body(20, true), BodyAction::Scan { size: 20 });

    let mut ctx = ready(0);
    assert_eq!(ctx.on_http_response_body(0, true), BodyAction::Scan { size: 0 });

    let mut ctx = ready(0);
    assert_eq!(ctx.on_http_response_body(1, true), BodyAction::Continue);
}

#[test]
fn chunks_before_the_response_headers_are_ignored() {
    let mut ctx = filter();
    assert_eq!(ctx.on_http_response_body(10, true), BodyAction::Continue);
    assert_eq!(ctx.accumulated_body_size(), 0);
    assert_eq!(ctx.phase(), Phase::Undetermined);
    ctx.on_http_request_headers(Some("/api"));
    assert_eq!(ctx.on_http_response_body(10, true), BodyAction::Continue);
    assert_eq!(ctx.accumulated_body_size(), 0);
    assert_eq!(ctx.phase(), Phase::Scrubbing);
}

#[test]
fn decisions_are_made_once() {
    let mut ctx = filter();
    ctx.on_http_request_headers(Some("/health"));
    assert_eq!(ctx.phase(), Phase::Bypassed);
    // A second set of request headers changes nothing.
    ctx.on_http_request_headers(Some("/api/user"));
    assert_eq!(ctx.phase(), Phase::Bypassed);
    assert_eq!(ctx.request_path(), "/health");
    assert_eq!(ctx.on_http_response_headers(Some("text/plain"), None), ScrubOutcome::Bypassed);
    assert_eq!(ctx.phase(), Phase::PassThrough);
    assert!(!ctx.content_type_known_textual());
    assert_eq!(ctx.on_http_response_headers(Some("text/plain"), None), ScrubOutcome::Bypassed);
    assert_eq!(ctx.phase(), Phase::PassThrough);

    let mut ctx = filter();
    assert_eq!(ctx.on_http_response_headers(Some("image/png"), None), ScrubOutcome::NonText);
    assert_eq!(ctx.phase(), Phase::GatedByType);
    assert!(!ctx.content_type_known_textual());
    assert_eq!(ctx.on_http_response_headers(Some("text/plain"), None), ScrubOutcome::NonText);
    assert_eq!(ctx.phase(), Phase::GatedByType);
    ctx.on_http_request_headers(Some("/api/user"));
    assert_eq!(ctx.phase(), Phase::GatedByType);

    let mut ctx = filter();
    assert_eq!(ctx.on_http_response_headers(None, Some("9999999")), ScrubOutcome::TooLarge);
    assert_eq!(ctx.phase(), Phase::GatedBySize);
    assert_eq!(ctx.on_http_response_headers(None, Some("1")), ScrubOutcome::TooLarge);

    // Without a content type nothing is known of it.
    let mut ctx = filter();
    assert_eq!(ctx.on_http_response_headers(None, None), ScrubOutcome::WillScrub);
    assert!(!ctx.content_type_known_textual());
}

#[test]
fn response_headers_that_come_again_can_still_gate() {
    let mut ctx = ready(100);
    assert_eq!(ctx.on_http_response_headers(Some("text/html"), Some("100")), ScrubOutcome::WillScrub);
    assert_eq!(ctx.phase(), Phase::WillScrub);
    assert_eq!(ctx.on_http_response_body(10, false), BodyAction::Continue);
    assert_eq!(ctx.on_http_response_headers(None, None), ScrubOutcome::WillScrub);
    assert_eq!(ctx.phase(), Phase::Accumulating);
    assert_eq!(ctx.accumulated_body_size(), 10);
    assert!(!ctx.content_type_known_textual());
    assert_eq!(ctx.on_http_response_headers(None, Some("101")), ScrubOutcome::TooLarge);
    assert_eq!(ctx.phase(), Phase::GatedBySize);
    assert_eq!(ctx.on_http_response_body(10, true), BodyAction::Continue);

    let mut ctx = ready(100);
    assert_eq!(ctx.on_http_response_headers(Some("image/png"), Some("9999")), ScrubOutcome::NonText);
    assert_eq!(ctx.phase(), Phase::GatedByType);
    assert!(!ctx.content_type_known_textual());

    // Gated while the host is asked for the body: the body is not looked at.
    let mut ctx = ready(100);
    assert_eq!(ctx.on_http_response_body(11, true), BodyAction::Scan { size: 11 });
    assert_eq!(ctx.on_http_response_headers(None, Some("101")), ScrubOutcome::TooLarge);
    assert!(ctx.scrub(Some(b"123-45-6789")).is_none());
    assert_eq!(ctx.phase(), Phase::GatedBySize);
}

#[test]
fn phases_that_scrub() {
    for phase in [
        Phase::Undetermined,
        Phase::Scrubbing,
        Phase::WillScrub,
        Phase::Accumulating,
        Phase::Finalizing,
        Phase::Done,
    ] {
        assert!(phase.should_scrub());
    }
    for phase in [Phase::Bypassed, Phase::PassThrough, Phase::GatedByType, Phase::GatedBySize] {
        assert!(!phase.should_scrub());
    }
}

#[test]
fn duplicate_keeps_everything() {
    let config = PluginConfig {
        log_level: "warn".to_string(),
        patterns: PatternConfig { credit_card: false, ssn: true, email: false, phone_us: true },
        bypass_paths: vec!["/a".to_string(), "/b/*".to_string()],
        max_body_size_bytes: 5,
    };
    let copy = config.duplicate();
    assert_eq!(copy.log_level, "warn");
    assert!(!copy.patterns.credit_card && copy.patterns.ssn);
    assert!(!copy.patterns.email && copy.patterns.phone_us);
    assert_eq!(copy.bypass_paths, config.bypass_paths);
    assert_eq!(copy.max_body_size_bytes, 5);
}
