use eigen::build::render::RenderedPage;
use eigen::build::robots::{build_robots_content, format_rule};
use eigen::build::sitemap::{escape_xml, normalize_url_path};
use eigen::config::{RobotsConfig, RobotsRule};

fn default_robots() -> RobotsConfig {
    RobotsConfig {
        sitemap: true,
        extra_sitemaps: Vec::new(),
        rules: vec![RobotsRule { user_agent: "*".into(), allow: vec!["/".into()], disallow: Vec::new() }],
    }
}

#[test]
fn test_build_content_default() {
    let robots = default_robots();
    let content = build_robots_content(&robots, "https://example.com");
    assert_eq!(content, "User-agent: *\nAllow: /\n\nSitemap: https://example.com/sitemap.xml\n");
}

#[test]
fn test_build_content_custom_rules() {
    let robots = RobotsConfig {
        sitemap: true,
        extra_sitemaps: Vec::new(),
        rules: vec![
            RobotsRule { user_agent: "*".into(), allow: vec!["/".into()], disallow: vec!["/admin/".into(), "/private/".into()] },
            RobotsRule { user_agent: "Googlebot".into(), allow: vec!["/".into()], disallow: Vec::new() },
        ],
    };
    let content = build_robots_content(&robots, "https://example.com");
    assert!(content.contains("User-agent: *\nAllow: /\nDisallow: /admin/\nDisallow: /private/\n"));
    assert!(content.contains("User-agent: Googlebot\nAllow: /\n"));
    assert!(content.contains("Sitemap: https://example.com/sitemap.xml\n"));
}

#[test]
fn test_build_content_no_sitemap() {
    let robots = RobotsConfig {
        sitemap: false,
        extra_sitemaps: Vec::new(),
        rules: vec![RobotsRule { user_agent: "*".into(), allow: vec!["/".into()], disallow: Vec::new() }],
    };
    let content = build_robots_content(&robots, "https://example.com");
    assert!(!content.contains("Sitemap:"));
}

#[test]
fn test_build_content_extra_sitemaps() {
    let robots = RobotsConfig {
        sitemap: true,
        extra_sitemaps: vec!["https://example.com/news-sitemap.xml".into()],
        rules: vec![RobotsRule { user_agent: "*".into(), allow: vec!["/".into()], disallow: Vec::new() }],
    };
    let content = build_robots_content(&robots, "https://example.com");
    assert!(content.contains("Sitemap: https://example.com/sitemap.xml\n"));
    assert!(content.contains("Sitemap: https://example.com/news-sitemap.xml\n"));
}

#[test]
fn test_build_content_trailing_slash_base_url() {
    let robots = default_robots();
    let content = build_robots_content(&robots, "https://example.com");
    assert!(content.contains("Sitemap: https://example.com/sitemap.xml"));
    assert!(!content.contains("https://example.com//sitemap.xml"));
}

#[test]
fn test_build_content_disallow_only() {
    let robots = RobotsConfig {
        sitemap: true,
        extra_sitemaps: Vec::new(),
        rules: vec![RobotsRule { user_agent: "*".into(), allow: Vec::new(), disallow: vec!["/secret/".into()] }],
    };
    let content = build_robots_content(&robots, "https://example.com");
    assert!(content.contains("User-agent: *\nDisallow: /secret/\n"));
    assert!(!content.contains("Allow:"));
}

#[test]
fn test_build_content_empty_rules() {
    let robots = RobotsConfig { sitemap: true, extra_sitemaps: Vec::new(), rules: Vec::new() };
    let content = build_robots_content(&robots, "https://example.com");
    assert!(!content.contains("User-agent:"));
    assert!(content.contains("Sitemap: https://example.com/sitemap.xml\n"));
}

#[test]
fn build_content_two_groups_exact() {
    let robots = RobotsConfig {
        sitemap: false,
        extra_sitemaps: vec!["https://x/s.xml".into()],
        rules: vec![
            RobotsRule { user_agent: "a".into(), allow: Vec::new(), disallow: vec!["/".into()] },
            RobotsRule { user_agent: "b".into(), allow: vec!["/".into()], disallow: Vec::new() },
        ],
    };
    assert_eq!(
        build_robots_content(&robots, "https://x"),
        "User-agent: a\nDisallow: /\n\nUser-agent: b\nAllow: /\n\nSitemap: https://x/s.xml\n"
    );
    let empty = RobotsConfig { sitemap: false, extra_sitemaps: Vec::new(), rules: Vec::new() };
    assert_eq!(build_robots_content(&empty, "https://x"), "");
}

#[test]
fn test_format_rule_basic() {
    let rule = RobotsRule { user_agent: "*".into(), allow: vec!["/".into()], disallow: Vec::new() };
    let mut out = String::new();
    format_rule(&mut out, &rule);
    assert_eq!(out, "User-agent: *\nAllow: /\n");
}

#[test]
fn test_format_rule_multiple_paths() {
    let rule = RobotsRule {
        user_agent: "Googlebot".into(),
        allow: vec!["/public/".into(), "/blog/".into()],
        disallow: vec!["/admin/".into()],
    };
    let mut out = String::new();
    format_rule(&mut out, &rule);
    assert_eq!(out, "User-agent: Googlebot\nAllow: /public/\nAllow: /blog/\nDisallow: /admin/\n");
}

#[test]
fn test_normalize_url_path() {
    assert_eq!(normalize_url_path("/about.html"), "/about.html");
    assert_eq!(normalize_url_path("about.html"), "/about.html");
}

#[test]
fn test_escape_xml() {
    assert_eq!(escape_xml("a&b"), "a&amp;b");
    assert_eq!(escape_xml("<tag>"), "&lt;tag&gt;");
    assert_eq!(escape_xml("\"'"), "&quot;&apos;");
}

#[test]
fn rendered_page_record() {
    let p = RenderedPage { url_path: "/x.html".into(), is_index: false, is_dynamic: true, template_path: None };
    assert!(p.is_dynamic && !p.is_index && p.template_path.is_none());
}
