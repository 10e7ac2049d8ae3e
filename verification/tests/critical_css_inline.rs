use eigen::build::content_hash::AssetManifest;
use eigen::build::critical_css::{inline_critical_css, StylesheetCache};
use eigen::build::dist_files::DistFiles;
use eigen::config::CriticalCssConfig;

fn dist(files: &[(&str, &str)]) -> DistFiles {
    DistFiles { files: files.iter().map(|(p, c)| (p.to_string(), c.to_string())).collect() }
}

#[test]
fn test_inline_critical_css_disabled() {
    let config = CriticalCssConfig::default(); // enabled: false
    let mut cache = StylesheetCache::new();
    let html = r#"<html><head><link rel="stylesheet" href="/css/style.css"></head></html>"#;
    let result = inline_critical_css(html, &config, &dist(&[]), &mut cache, None);
    assert_eq!(result, html);
}

#[test]
fn test_inline_critical_css_no_links() {
    let config = CriticalCssConfig { enabled: true, ..Default::default() };
    let mut cache = StylesheetCache::new();
    let html = "<html><head><title>No CSS</title></head><body><p>Hi</p></body></html>";
    let result = inline_critical_css(html, &config, &dist(&[]), &mut cache, None);
    assert_eq!(result, html);
}

#[test]
fn test_inline_critical_css_file_not_found() {
    let files: Vec<(&str, &str)> = Vec::new();
    let config = CriticalCssConfig { enabled: true, ..Default::default() };
    let mut cache = StylesheetCache::new();
    let html = r#"<html><head><link rel="stylesheet" href="/css/missing.css"></head></html>"#;
    let result = inline_critical_css(html, &config, &dist(&files), &mut cache, None);
    // Should return original HTML unchanged.
    assert_eq!(result, html);
}

#[test]
fn test_inline_critical_css_basic() {
    let mut files: Vec<(&str, &str)> = Vec::new();

    files.push(("css/style.css", r#"
        .hero { color: red; }
        .unused { color: green; }
    "#));

    let config = CriticalCssConfig { enabled: true, ..Default::default() };
    let mut cache = StylesheetCache::new();
    let html = r#"<html><head><link rel="stylesheet" href="/css/style.css"></head><body><div class="hero">Hello</div></body></html>"#;

    let result = inline_critical_css(html, &config, &dist(&files), &mut cache, None);

    assert!(result.contains("<style>"));
    assert!(result.contains(".hero"));
    assert!(!result.contains(".unused"));
    assert!(result.contains(r#"rel="preload""#));
    assert!(result.contains("<noscript>"));
}

#[test]
fn test_inline_critical_css_exceeds_max_size() {
    let mut files: Vec<(&str, &str)> = Vec::new();

    let large_css = ".exists { color: red; padding: 0; margin: 0; border: none; }";
    files.push(("css/style.css", large_css));

    let config = CriticalCssConfig {
        enabled: true,
        max_inline_size: 10, // Very small limit.
        ..Default::default()
    };
    let mut cache = StylesheetCache::new();
    let html = r#"<html><head><link rel="stylesheet" href="/css/style.css"></head><body><div class="exists">Hello</div></body></html>"#;

    let result = inline_critical_css(html, &config, &dist(&files), &mut cache, None);

    // Should return original HTML unchanged (no inlining).
    assert_eq!(result, html);
}

#[test]
fn test_inline_critical_css_excluded_pattern() {
    let mut files: Vec<(&str, &str)> = Vec::new();

    files.push(("css/vendor/bootstrap.css", ".btn { color: red; }"));

    let config = CriticalCssConfig {
        enabled: true,
        exclude: vec!["**/vendor/**".to_string()],
        ..Default::default()
    };
    let mut cache = StylesheetCache::new();
    let html = r#"<html><head><link rel="stylesheet" href="/css/vendor/bootstrap.css"></head><body><div class="btn">Click</div></body></html>"#;

    let result = inline_critical_css(html, &config, &dist(&files), &mut cache, None);

    // Excluded stylesheet should not be processed.
    assert_eq!(result, html);
}

#[test]
fn test_inline_critical_css_preload_false() {
    let mut files: Vec<(&str, &str)> = Vec::new();

    files.push(("css/style.css", ".hero { color: red; }"));

    let config = CriticalCssConfig {
        enabled: true,
        preload_full: false,
        ..Default::default()
    };
    let mut cache = StylesheetCache::new();
    let html = r#"<html><head><link rel="stylesheet" href="/css/style.css"></head><body><div class="hero">Hello</div></body></html>"#;

    let result = inline_critical_css(html, &config, &dist(&files), &mut cache, None);

    assert!(result.contains("<style>"));
    assert!(result.contains(".hero"));
    // No preload or noscript.
    assert!(!result.contains("preload"));
    assert!(!result.contains("<noscript>"));
}

#[test]
fn test_inline_critical_css_with_import() {
    let mut files: Vec<(&str, &str)> = Vec::new();

    files.push(("css/base.css", ".base { margin: 0; }"));
    files.push(("css/style.css", r#"
        @import "base.css";
        .hero { color: red; }
        .unused { color: green; }
    "#));

    let config = CriticalCssConfig { enabled: true, ..Default::default() };
    let mut cache = StylesheetCache::new();
    let html = r#"<html><head><link rel="stylesheet" href="/css/style.css"></head><body><div class="hero base">Hello</div></body></html>"#;

    let result = inline_critical_css(html, &config, &dist(&files), &mut cache, None);

    assert!(result.contains("<style>"));
    assert!(result.contains(".hero"));
    assert!(result.contains(".base"));
    assert!(!result.contains(".unused"));
}

#[test]
fn test_stylesheet_cache_reuse() {
    let files = dist(&[("css/style.css", ".hero { color: red; }")]);
    let mut cache = StylesheetCache::new();

    let css1 = cache.get_or_load("/css/style.css", &files, None);
    assert!(css1.is_some());

    // The second load hits the cache, even without the file.
    let css2 = cache.get_or_load("/css/style.css", &dist(&[]), None);
    assert!(css2.is_some());
    assert_eq!(css1, css2);
}

#[test]
fn test_get_or_load_with_manifest_fallback() {
    let css = "body { color: red; }";
    let files = dist(&[("css/style.abc123.css", css)]);

    let mut manifest = AssetManifest::new();
    manifest.insert("/css/style.css".into(), "/css/style.abc123.css".into());

    let mut cache = StylesheetCache::new();
    let result = cache.get_or_load("/css/style.css", &files, Some(&manifest));
    assert!(result.is_some(), "should resolve via manifest fallback");
    assert_eq!(result.unwrap(), css);
}

#[test]
fn test_get_or_load_without_manifest() {
    let css = "body { color: blue; }";
    let files = dist(&[("css/style.css", css)]);

    let mut cache = StylesheetCache::new();
    let result = cache.get_or_load("/css/style.css", &files, None);
    assert!(result.is_some());
    assert_eq!(result.unwrap(), css);
}

#[test]
fn inline_critical_css_exact_output() {
    let files = dist(&[("s.css", ".a { color: red; }\n.b { color: blue; }")]);
    let config = CriticalCssConfig { enabled: true, preload_full: false, ..Default::default() };
    let mut cache = StylesheetCache::new();
    let html = r#"<head><link rel="stylesheet" href="/s.css"></head><body><p class="a">x</p></body>"#;
    let result = inline_critical_css(html, &config, &files, &mut cache, None);
    assert_eq!(result, "<head><style>.a {\n  color: red;\n}</style></head><body><p class=\"a\">x</p></body>");
}
