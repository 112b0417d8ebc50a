use zap_core::{BuildConfig, Config, HomeConfig, LiveServerConfig, SiteConfig, ZapConfig};

#[test]
fn test_default_config() {
    let config = ZapConfig::default();
    assert_eq!(config.build.source, "./site");
    assert_eq!(config.build.output, "./out");
    assert_eq!(config.build.theme, "./theme");
    assert_eq!(config.build.port, 3000);
}

#[test]
fn build_config_defaults() {
    let build = BuildConfig::default();
    assert_eq!(build.config, "./zap.toml");
    assert_eq!(build.host, "127.0.0.1");
    assert!(!build.open);
}

#[test]
fn config_defaults_are_empty() {
    let config = Config::default();
    assert!(config.site.is_none());
    assert!(config.home.is_none());
}

#[test]
fn site_config_defaults() {
    let site = SiteConfig::default();
    assert_eq!(site.title.as_deref(), Some("Zap"));
    assert!(site.tagline.is_some());
    assert!(site.secondary_tagline.is_none());
    assert!(site.small_tag.is_none());
}

#[test]
fn home_config_defaults() {
    let home = HomeConfig::default();
    assert!(home.hero);
    assert!(home.primary_action.is_none());
    assert!(home.secondary_action.is_none());
    assert!(home.features.is_empty());
}

#[test]
fn zap_config_accessors() {
    let config = ZapConfig::default();
    assert!(config.site_config().site.is_none());
    assert_eq!(config.build_config().source, "./site");
}

#[test]
fn live_server_config_defaults() {
    let cfg = LiveServerConfig::default();
    assert_eq!(cfg.host, "127.0.0.1");
    assert_eq!(cfg.port, 3000);
    assert_eq!(cfg.root, ".");
    assert!(!cfg.open);
    assert!(cfg.ignore.is_empty());
}
