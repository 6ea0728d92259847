use edge_filters::config::PluginConfig;
use edge_filters::filter::PiiScrubberHttp;

#[test]
fn test_default_config() {
    let config = PluginConfig::default();
    assert!(config.patterns.credit_card);
    assert!(config.patterns.ssn);
    assert!(config.patterns.email);
    assert!(!config.patterns.phone_us);
}

#[test]
fn test_bypass_path_exact() {
    let config = PluginConfig {
        bypass_paths: vec!["/health".to_string()],
        ..Default::default()
    };
    let ctx = PiiScrubberHttp::new(1, config);

    assert!(ctx.should_bypass_path("/health"));
    assert!(!ctx.should_bypass_path("/api/user"));
}

#[test]
fn test_bypass_path_wildcard() {
    let config = PluginConfig {
        bypass_paths: vec!["/api/internal/*".to_string()],
        ..Default::default()
    };
    let ctx = PiiScrubberHttp::new(1, config);

    assert!(ctx.should_bypass_path("/api/internal/debug"));
    assert!(ctx.should_bypass_path("/api/internal/metrics"));
    assert!(!ctx.should_bypass_path("/api/user"));
}
