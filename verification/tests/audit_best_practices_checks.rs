use eigen::build::audit::checks::best_practices::{page_checks, site_checks};
use eigen::config::{
    AssetsConfig, BuildConfig, FeedConfig, RobotsConfig, SiteConfig, SiteMeta, SiteSchemaConfig, SiteSeoConfig,
};
use std::collections::HashMap;

/// The configuration of a site that sets only `[site]`.
fn minimal_config() -> SiteConfig {
    SiteConfig {
        site: SiteMeta {
            name: "Test".to_string(),
            base_url: "https://example.com".to_string(),
            seo: SiteSeoConfig::default(),
            schema: SiteSchemaConfig::default(),
            extra: HashMap::new(),
        },
        build: BuildConfig::default(),
        assets: AssetsConfig::default(),
        feed: Vec::new(),
        robots: None,
        audit: None,
    }
}

/// A feed section that sets only `file`.
fn feed_config() -> FeedConfig {
    FeedConfig {
        file: None,
        source: None,
        query_path: None,
        root: None,
        sort: None,
        title: None,
        path: "feed.xml".to_string(),
        author: None,
        limit: 20,
        title_field: "title".to_string(),
        date_field: "date".to_string(),
        summary_field: None,
        slug_field: "slug".to_string(),
        link_prefix: None,
    }
}


#[test]
fn test_base_url_empty() {
    let mut config = minimal_config();
    config.site.base_url = String::new();
    let findings = site_checks(&config, false);
    assert!(findings.iter().any(|f| f.id == "bp/base-url"));
}

#[test]
fn test_base_url_localhost() {
    let mut config = minimal_config();
    config.site.base_url = "http://localhost:3000".into();
    let findings = site_checks(&config, false);
    assert!(findings.iter().any(|f| f.id == "bp/base-url"));
}

#[test]
fn test_base_url_valid() {
    let mut config = minimal_config();
    config.site.base_url = "https://mysite.com".into();
    let findings = site_checks(&config, false);
    assert!(!findings.iter().any(|f| f.id == "bp/base-url"));
}

#[test]
fn test_no_favicon() {
    let config = minimal_config();
    let findings = site_checks(&config, false);
    assert!(findings.iter().any(|f| f.id == "bp/favicon"));
}

#[test]
fn test_has_favicon() {
    let config = minimal_config();
    let findings = site_checks(&config, true);
    assert!(!findings.iter().any(|f| f.id == "bp/favicon"));
}

#[test]
fn test_http_links() {
    let html = r#"<html><head></head><body><a href="http://insecure.com">Link</a></body></html>"#;
    let findings = page_checks(html, "/test.html", "templates/test.html");
    assert!(findings.iter().any(|f| f.id == "bp/https-links"));
}

#[test]
fn test_https_links_ok() {
    let html = r#"<html><head></head><body><a href="https://secure.com">Link</a></body></html>"#;
    let findings = page_checks(html, "/test.html", "templates/test.html");
    assert!(!findings.iter().any(|f| f.id == "bp/https-links"));
}

#[test]
fn test_localhost_http_not_flagged() {
    let html = r#"<html><head></head><body><a href="http://localhost:3000">Dev</a></body></html>"#;
    let findings = page_checks(html, "/test.html", "templates/test.html");
    assert!(!findings.iter().any(|f| f.id == "bp/https-links"));
}
