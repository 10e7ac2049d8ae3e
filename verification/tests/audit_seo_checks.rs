use eigen::build::audit::checks::seo::{page_checks, site_checks};
use eigen::build::audit::{Category, Scope, Severity};
use eigen::config::{
    AssetsConfig, BuildConfig, FeedConfig, RobotsConfig, SiteConfig, SiteMeta, SiteSchemaConfig, SiteSeoConfig,
};
use std::collections::HashMap;

/// The configuration of a site that sets only `[site]`.
fn minimal_config() -> SiteConfig {
    SiteConfig {
        site: SiteMeta {
            name: "Test".to_string(),
            base_url: "https://example.com".to_string(),
            seo: SiteSeoConfig::default(),
            schema: SiteSchemaConfig::default(),
            extra: HashMap::new(),
        },
        build: BuildConfig::default(),
        assets: AssetsConfig::default(),
        feed: Vec::new(),
        robots: None,
        audit: None,
    }
}

/// A feed section that sets only `file`.
fn feed_config() -> FeedConfig {
    FeedConfig {
        file: None,
        source: None,
        query_path: None,
        root: None,
        sort: None,
        title: None,
        path: "feed.xml".to_string(),
        author: None,
        limit: 20,
        title_field: "title".to_string(),
        date_field: "date".to_string(),
        summary_field: None,
        slug_field: "slug".to_string(),
        link_prefix: None,
    }
}

/// A configuration with `[robots]`.
fn config_with_robots() -> SiteConfig {
    let mut c = minimal_config();
    c.robots = Some(RobotsConfig { sitemap: true, extra_sitemaps: Vec::new(), rules: Vec::new() });
    c
}

/// A configuration with a feed.
fn config_with_feed() -> SiteConfig {
    let mut c = minimal_config();
    let mut f = feed_config();
    f.file = Some("posts.json".to_string());
    c.feed.push(("blog".to_string(), f));
    c
}

const GOOD_HTML: &str = r#"<!DOCTYPE html>
<html>
<head>
    <title>My Page</title>
    <meta name="description" content="A great page">
    <link rel="canonical" href="https://example.com/page">
    <meta property="og:title" content="My Page">
    <meta property="og:description" content="A great page">
    <meta property="og:image" content="https://example.com/img.jpg">
    <meta name="twitter:card" content="summary_large_image">
    <script type="application/ld+json">{"@type":"WebPage"}</script>
</head>
<body>
    <h1>Hello World</h1>
</body>
</html>"#;

const BAD_HTML: &str = "<html><head></head><body><p>hello</p></body></html>";

#[test]
fn sitemap_missing() {
    let findings = site_checks(&minimal_config(), false);
    assert!(findings.iter().any(|f| f.id == "seo/sitemap"));
}

#[test]
fn sitemap_present() {
    let findings = site_checks(&minimal_config(), true);
    assert!(!findings.iter().any(|f| f.id == "seo/sitemap"));
}

#[test]
fn robots_not_configured() {
    let findings = site_checks(&minimal_config(), false);
    assert!(findings.iter().any(|f| f.id == "seo/robots-txt"));
}

#[test]
fn robots_configured() {
    let findings = site_checks(&config_with_robots(), false);
    assert!(!findings.iter().any(|f| f.id == "seo/robots-txt"));
}

#[test]
fn feed_empty() {
    let findings = site_checks(&minimal_config(), false);
    assert!(findings.iter().any(|f| f.id == "seo/feed"));
}

#[test]
fn feed_configured() {
    let findings = site_checks(&config_with_feed(), false);
    assert!(!findings.iter().any(|f| f.id == "seo/feed"));
}

#[test]
fn site_checks_severity_and_category() {
    let findings = site_checks(&minimal_config(), false);

    let sitemap = findings.iter().find(|f| f.id == "seo/sitemap").unwrap();
    assert_eq!(sitemap.severity, Severity::Critical);
    assert_eq!(sitemap.category, Category::Seo);
    assert_eq!(sitemap.scope, Scope::Site);

    let robots = findings.iter().find(|f| f.id == "seo/robots-txt").unwrap();
    assert_eq!(robots.severity, Severity::High);

    let feed = findings.iter().find(|f| f.id == "seo/feed").unwrap();
    assert_eq!(feed.severity, Severity::Low);
}

#[test]
fn good_html_no_findings() {
    let findings = page_checks(GOOD_HTML, "/page.html", "templates/page.html");
    assert!(findings.is_empty(), "expected no findings, got: {findings:?}");
}

#[test]
fn bad_html_all_findings() {
    let findings = page_checks(BAD_HTML, "/page.html", "templates/page.html");
    let ids: Vec<&str> = findings.iter().map(|f| f.id).collect();
    assert!(ids.contains(&"seo/meta-title"));
    assert!(ids.contains(&"seo/meta-description"));
    assert!(ids.contains(&"seo/canonical"));
    assert!(ids.contains(&"seo/og-tags"));
    assert!(ids.contains(&"seo/twitter-tags"));
    assert!(ids.contains(&"seo/structured-data"));
    assert!(ids.contains(&"seo/heading-hierarchy"));
}

#[test]
fn missing_title() {
    let html = "<html><head><meta name=\"description\" content=\"x\"></head><body><h1>H</h1></body></html>";
    let findings = page_checks(html, "/p", "t.html");
    assert!(findings.iter().any(|f| f.id == "seo/meta-title"));
}

#[test]
fn has_title() {
    let html = "<html><head><title>Hello</title></head><body><h1>H</h1></body></html>";
    let findings = page_checks(html, "/p", "t.html");
    assert!(!findings.iter().any(|f| f.id == "seo/meta-title"));
}

#[test]
fn missing_meta_description() {
    let html = "<html><head><title>T</title></head><body><h1>H</h1></body></html>";
    let findings = page_checks(html, "/p", "t.html");
    assert!(findings.iter().any(|f| f.id == "seo/meta-description"));
}

#[test]
fn has_meta_description() {
    let html =
        "<html><head><meta name=\"description\" content=\"x\"></head><body></body></html>";
    let findings = page_checks(html, "/p", "t.html");
    assert!(!findings.iter().any(|f| f.id == "seo/meta-description"));
}

#[test]
fn missing_canonical() {
    let html = "<html><head><title>T</title></head><body><h1>H</h1></body></html>";
    let findings = page_checks(html, "/p", "t.html");
    assert!(findings.iter().any(|f| f.id == "seo/canonical"));
}

#[test]
fn has_canonical() {
    let html = "<html><head><link rel=\"canonical\" href=\"https://x.com\"></head><body></body></html>";
    let findings = page_checks(html, "/p", "t.html");
    assert!(!findings.iter().any(|f| f.id == "seo/canonical"));
}

#[test]
fn missing_og_tags_partial() {
    // Has og:title but missing og:description and og:image.
    let html = "<html><head><meta property=\"og:title\" content=\"T\"></head><body></body></html>";
    let findings = page_checks(html, "/p", "t.html");
    let og = findings.iter().find(|f| f.id == "seo/og-tags").unwrap();
    assert!(og.message.contains("og:description"));
    assert!(og.message.contains("og:image"));
    assert!(!og.message.contains("og:title"));
}

#[test]
fn has_all_og_tags() {
    let html = r#"<html><head>
            <meta property="og:title" content="T">
            <meta property="og:description" content="D">
            <meta property="og:image" content="I">
        </head><body></body></html>"#;
    let findings = page_checks(html, "/p", "t.html");
    assert!(!findings.iter().any(|f| f.id == "seo/og-tags"));
}

#[test]
fn missing_twitter_card() {
    let html = "<html><head></head><body></body></html>";
    let findings = page_checks(html, "/p", "t.html");
    assert!(findings.iter().any(|f| f.id == "seo/twitter-tags"));
}

#[test]
fn has_twitter_card() {
    let html = "<html><head><meta name=\"twitter:card\" content=\"summary\"></head><body></body></html>";
    let findings = page_checks(html, "/p", "t.html");
    assert!(!findings.iter().any(|f| f.id == "seo/twitter-tags"));
}

#[test]
fn missing_structured_data() {
    let html = "<html><head></head><body></body></html>";
    let findings = page_checks(html, "/p", "t.html");
    assert!(findings.iter().any(|f| f.id == "seo/structured-data"));
}

#[test]
fn has_structured_data() {
    let html = "<html><head><script type=\"application/ld+json\">{}</script></head><body></body></html>";
    let findings = page_checks(html, "/p", "t.html");
    assert!(!findings.iter().any(|f| f.id == "seo/structured-data"));
}

#[test]
fn no_h1() {
    let html = "<html><head></head><body><h2>Sub</h2></body></html>";
    let findings = page_checks(html, "/p", "t.html");
    let h = findings
        .iter()
        .find(|f| f.id == "seo/heading-hierarchy")
        .unwrap();
    assert!(h.message.contains("no <h1>"));
}

#[test]
fn one_h1() {
    let html = "<html><head></head><body><h1>Title</h1></body></html>";
    let findings = page_checks(html, "/p", "t.html");
    assert!(!findings.iter().any(|f| f.id == "seo/heading-hierarchy"));
}

#[test]
fn multiple_h1() {
    let html = "<html><head></head><body><h1>One</h1><h1>Two</h1><h1>Three</h1></body></html>";
    let findings = page_checks(html, "/p", "t.html");
    let h = findings
        .iter()
        .find(|f| f.id == "seo/heading-hierarchy")
        .unwrap();
    assert!(h.message.contains("multiple <h1>"));
    assert!(h.message.contains("3"));
}

#[test]
fn page_checks_fix_file_matches_template() {
    let findings = page_checks(BAD_HTML, "/about.html", "templates/about.html");
    for f in &findings {
        assert_eq!(f.fix.file, "templates/about.html");
    }
}

#[test]
fn page_checks_message_includes_page_path() {
    let findings = page_checks(BAD_HTML, "/about.html", "templates/about.html");
    for f in &findings {
        assert!(
            f.message.contains("/about.html"),
            "finding {} message should contain page path, got: {}",
            f.id,
            f.message
        );
    }
}
