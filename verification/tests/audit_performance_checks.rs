use eigen::build::audit::checks::performance::{page_checks, site_checks};
use eigen::config::{
    AssetsConfig, BuildConfig, FeedConfig, RobotsConfig, SiteConfig, SiteMeta, SiteSchemaConfig, SiteSeoConfig,
};
use std::collections::HashMap;

/// The configuration of a site that sets only `[site]`.
fn minimal_config() -> SiteConfig {
    SiteConfig {
        site: SiteMeta {
            name: "Test".to_string(),
            base_url: "https://example.com".to_string(),
            seo: SiteSeoConfig::default(),
            schema: SiteSchemaConfig::default(),
            extra: HashMap::new(),
        },
        build: BuildConfig::default(),
        assets: AssetsConfig::default(),
        feed: Vec::new(),
        robots: None,
        audit: None,
    }
}

/// A feed section that sets only `file`.
fn feed_config() -> FeedConfig {
    FeedConfig {
        file: None,
        source: None,
        query_path: None,
        root: None,
        sort: None,
        title: None,
        path: "feed.xml".to_string(),
        author: None,
        limit: 20,
        title_field: "title".to_string(),
        date_field: "date".to_string(),
        summary_field: None,
        slug_field: "slug".to_string(),
        link_prefix: None,
    }
}


#[test]
fn image_optimization_disabled_flags() {
    let config: SiteConfig = {
    let mut c = minimal_config();
    c.assets.images.optimize = false;
    c
};
    let findings = site_checks(&config);
    assert!(findings.iter().any(|f| f.id == "perf/image-optimization"));
}

#[test]
fn image_optimization_enabled_no_flag() {
    let config = minimal_config();
    let findings = site_checks(&config);
    assert!(!findings.iter().any(|f| f.id == "perf/image-optimization"));
}

#[test]
fn image_formats_empty_flags() {
    let config: SiteConfig = {
    let mut c = minimal_config();
    c.assets.images.optimize = true;
    c.assets.images.formats = Vec::new();
    c
};
    let findings = site_checks(&config);
    assert!(findings.iter().any(|f| f.id == "perf/image-formats"));
}

#[test]
fn image_formats_present_no_flag() {
    let config = minimal_config();
    let findings = site_checks(&config);
    // Default formats = ["webp", "avif"], so should NOT flag.
    assert!(!findings.iter().any(|f| f.id == "perf/image-formats"));
}

#[test]
fn image_formats_not_flagged_when_optimization_off() {
    // If optimize is false and formats is empty, only the optimization
    // check fires — not the formats check.
    let config: SiteConfig = {
    let mut c = minimal_config();
    c.assets.images.optimize = false;
    c.assets.images.formats = Vec::new();
    c
};
    let findings = site_checks(&config);
    assert!(!findings.iter().any(|f| f.id == "perf/image-formats"));
}

#[test]
fn minification_disabled_flags() {
    let config: SiteConfig = {
    let mut c = minimal_config();
    c.build.minify = false;
    c
};
    let findings = site_checks(&config);
    assert!(findings.iter().any(|f| f.id == "perf/minification"));
}

#[test]
fn minification_enabled_no_flag() {
    let config = minimal_config();
    let findings = site_checks(&config);
    assert!(!findings.iter().any(|f| f.id == "perf/minification"));
}

#[test]
fn critical_css_disabled_flags() {
    // Default is disabled, so minimal config should flag.
    let config = minimal_config();
    let findings = site_checks(&config);
    assert!(findings.iter().any(|f| f.id == "perf/critical-css"));
}

#[test]
fn critical_css_enabled_no_flag() {
    let config: SiteConfig = {
    let mut c = minimal_config();
    c.build.critical_css.enabled = true;
    c
};
    let findings = site_checks(&config);
    assert!(!findings.iter().any(|f| f.id == "perf/critical-css"));
}

#[test]
fn bundling_disabled_flags() {
    // Default is disabled.
    let config = minimal_config();
    let findings = site_checks(&config);
    assert!(findings.iter().any(|f| f.id == "perf/bundling"));
}

#[test]
fn bundling_enabled_no_flag() {
    let config: SiteConfig = {
    let mut c = minimal_config();
    c.build.bundling.enabled = true;
    c
};
    let findings = site_checks(&config);
    assert!(!findings.iter().any(|f| f.id == "perf/bundling"));
}

#[test]
fn content_hash_disabled_flags() {
    // Default is disabled.
    let config = minimal_config();
    let findings = site_checks(&config);
    assert!(findings.iter().any(|f| f.id == "perf/content-hash"));
}

#[test]
fn content_hash_enabled_no_flag() {
    let config: SiteConfig = {
    let mut c = minimal_config();
    c.build.content_hash.enabled = true;
    c
};
    let findings = site_checks(&config);
    assert!(!findings.iter().any(|f| f.id == "perf/content-hash"));
}

#[test]
fn preload_hints_disabled_flags() {
    let config: SiteConfig = {
    let mut c = minimal_config();
    c.build.hints.enabled = false;
    c
};
    let findings = site_checks(&config);
    assert!(findings.iter().any(|f| f.id == "perf/preload-hints"));
}

#[test]
fn preload_hints_enabled_no_flag() {
    // Default is enabled.
    let config = minimal_config();
    let findings = site_checks(&config);
    assert!(!findings.iter().any(|f| f.id == "perf/preload-hints"));
}

#[test]
fn render_blocking_script_in_head_flags() {
    let html = r#"<html><head><script src="/js/app.js"></script></head><body></body></html>"#;
    let config = minimal_config();
    let findings = page_checks(html, "/index.html", "index.html", &config);
    assert!(findings
        .iter()
        .any(|f| f.id == "perf/render-blocking-scripts"));
}

#[test]
fn deferred_script_in_head_no_flag() {
    let html =
        r#"<html><head><script src="/js/app.js" defer></script></head><body></body></html>"#;
    let config = minimal_config();
    let findings = page_checks(html, "/index.html", "index.html", &config);
    assert!(!findings
        .iter()
        .any(|f| f.id == "perf/render-blocking-scripts"));
}

#[test]
fn async_script_in_head_no_flag() {
    let html =
        r#"<html><head><script src="/js/app.js" async></script></head><body></body></html>"#;
    let config = minimal_config();
    let findings = page_checks(html, "/index.html", "index.html", &config);
    assert!(!findings
        .iter()
        .any(|f| f.id == "perf/render-blocking-scripts"));
}

#[test]
fn inline_script_in_head_no_flag() {
    let html =
        r#"<html><head><script>console.log("hi")</script></head><body></body></html>"#;
    let config = minimal_config();
    let findings = page_checks(html, "/index.html", "index.html", &config);
    assert!(!findings
        .iter()
        .any(|f| f.id == "perf/render-blocking-scripts"));
}

#[test]
fn script_in_body_no_flag() {
    let html =
        r#"<html><head></head><body><script src="/js/app.js"></script></body></html>"#;
    let config = minimal_config();
    let findings = page_checks(html, "/index.html", "index.html", &config);
    assert!(!findings
        .iter()
        .any(|f| f.id == "perf/render-blocking-scripts"));
}

#[test]
fn img_without_srcset_flags_when_optimize_off() {
    let html =
        r#"<html><head></head><body><img src="/img/hero.jpg"></body></html>"#;
    let config: SiteConfig = {
    let mut c = minimal_config();
    c.assets.images.optimize = false;
    c
};
    let findings = page_checks(html, "/index.html", "index.html", &config);
    assert!(findings.iter().any(|f| f.id == "perf/large-image"));
}

#[test]
fn img_with_srcset_no_flag_when_optimize_off() {
    let html = r#"<html><head></head><body><img src="/img/hero.jpg" srcset="/img/hero-480.jpg 480w, /img/hero-768.jpg 768w"></body></html>"#;
    let config: SiteConfig = {
    let mut c = minimal_config();
    c.assets.images.optimize = false;
    c
};
    let findings = page_checks(html, "/index.html", "index.html", &config);
    assert!(!findings.iter().any(|f| f.id == "perf/large-image"));
}

#[test]
fn img_without_srcset_no_flag_when_optimize_on() {
    let html =
        r#"<html><head></head><body><img src="/img/hero.jpg"></body></html>"#;
    let config = minimal_config(); // optimize defaults to true
    let findings = page_checks(html, "/index.html", "index.html", &config);
    assert!(!findings.iter().any(|f| f.id == "perf/large-image"));
}

#[test]
fn font_without_preload_flags_when_hints_off() {
    let html = r#"<html><head><link href="/fonts/inter.woff2" rel="stylesheet"></head><body></body></html>"#;
    let config: SiteConfig = {
    let mut c = minimal_config();
    c.build.hints.enabled = false;
    c
};
    let findings = page_checks(html, "/index.html", "index.html", &config);
    assert!(findings.iter().any(|f| f.id == "perf/font-preload"));
}

#[test]
fn font_with_preload_no_flag_when_hints_off() {
    let html = r#"<html><head><link href="/fonts/inter.woff2" rel="preload" as="font" crossorigin></head><body></body></html>"#;
    let config: SiteConfig = {
    let mut c = minimal_config();
    c.build.hints.enabled = false;
    c
};
    let findings = page_checks(html, "/index.html", "index.html", &config);
    assert!(!findings.iter().any(|f| f.id == "perf/font-preload"));
}

#[test]
fn font_without_preload_no_flag_when_hints_on() {
    let html = r#"<html><head><link href="/fonts/inter.woff2" rel="stylesheet"></head><body></body></html>"#;
    let config = minimal_config(); // hints.enabled defaults to true
    let findings = page_checks(html, "/index.html", "index.html", &config);
    assert!(!findings.iter().any(|f| f.id == "perf/font-preload"));
}

#[test]
fn font_preload_checks_all_extensions() {
    let config: SiteConfig = {
    let mut c = minimal_config();
    c.build.hints.enabled = false;
    c
};
    for ext in &[".woff", ".woff2", ".ttf", ".otf"] {
        let html = format!(
            r#"<html><head><link href="/fonts/font{}" rel="stylesheet"></head><body></body></html>"#,
            ext
        );
        let findings = page_checks(&html, "/index.html", "index.html", &config);
        assert!(
            findings.iter().any(|f| f.id == "perf/font-preload"),
            "Expected perf/font-preload for extension {}",
            ext
        );
    }
}

#[test]
fn non_font_link_no_flag() {
    let html = r#"<html><head><link href="/css/style.css" rel="stylesheet"></head><body></body></html>"#;
    let config: SiteConfig = {
    let mut c = minimal_config();
    c.build.hints.enabled = false;
    c
};
    let findings = page_checks(html, "/index.html", "index.html", &config);
    assert!(!findings.iter().any(|f| f.id == "perf/font-preload"));
}

#[test]
fn default_config_site_findings() {
    let config = minimal_config();
    let findings = site_checks(&config);
    let ids: Vec<&str> = findings.iter().map(|f| f.id).collect();

    // Defaults: optimize=true, formats=["webp","avif"], minify=true,
    // critical_css.enabled=false, bundling.enabled=false,
    // content_hash.enabled=false, hints.enabled=true.
    assert!(!ids.contains(&"perf/image-optimization"));
    assert!(!ids.contains(&"perf/image-formats"));
    assert!(!ids.contains(&"perf/minification"));
    assert!(ids.contains(&"perf/critical-css"));
    assert!(ids.contains(&"perf/bundling"));
    assert!(ids.contains(&"perf/content-hash"));
    assert!(!ids.contains(&"perf/preload-hints"));
}

#[test]
fn all_enabled_config_no_site_findings() {
    let config: SiteConfig = {
    let mut c = minimal_config();
    c.build.minify = true;
    c.build.critical_css.enabled = true;
    c.build.bundling.enabled = true;
    c.build.content_hash.enabled = true;
    c.build.hints.enabled = true;
    c.assets.images.optimize = true;
    c.assets.images.formats = vec!["webp".to_string()];
    c
};
    let findings = site_checks(&config);
    assert!(
        findings.is_empty(),
        "Expected no findings but got: {:?}",
        findings.iter().map(|f| f.id).collect::<Vec<_>>()
    );
}

#[test]
fn multiple_render_blocking_scripts() {
    let html = r#"<html><head>
            <script src="/js/a.js"></script>
            <script src="/js/b.js"></script>
            <script src="/js/c.js" defer></script>
        </head><body></body></html>"#;
    let config = minimal_config();
    let findings = page_checks(html, "/index.html", "index.html", &config);
    let blocking: Vec<_> = findings
        .iter()
        .filter(|f| f.id == "perf/render-blocking-scripts")
        .collect();
    assert_eq!(blocking.len(), 2);
}
