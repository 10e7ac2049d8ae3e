use eigen::build::critical_css::rewrite::{extract_stylesheet_hrefs, rewrite_html};

#[test]
fn test_extract_single_link() {
    let html = r#"<html><head><link rel="stylesheet" href="/css/style.css"></head></html>"#;
    let hrefs = extract_stylesheet_hrefs(html, &[]);
    assert_eq!(hrefs, vec!["/css/style.css"]);
}

#[test]
fn test_extract_multiple_links() {
    let html = r#"<html><head>
            <link rel="stylesheet" href="/css/reset.css">
            <link rel="stylesheet" href="/css/main.css">
        </head></html>"#;
    let hrefs = extract_stylesheet_hrefs(html, &[]);
    assert_eq!(hrefs, vec!["/css/reset.css", "/css/main.css"]);
}

#[test]
fn test_extract_skips_external() {
    let html = r#"<link rel="stylesheet" href="https://cdn.example.com/style.css">"#;
    let hrefs = extract_stylesheet_hrefs(html, &[]);
    assert!(hrefs.is_empty());
}

#[test]
fn test_extract_skips_media_attr() {
    let html = r#"<link rel="stylesheet" href="/css/print.css" media="print">"#;
    let hrefs = extract_stylesheet_hrefs(html, &[]);
    assert!(hrefs.is_empty());
}

#[test]
fn test_extract_skips_excluded_pattern() {
    let html = r#"<link rel="stylesheet" href="/css/vendor/bootstrap.css">"#;
    let hrefs = extract_stylesheet_hrefs(html, &["**/vendor/**".to_string()]);
    assert!(hrefs.is_empty());
}

#[test]
fn test_extract_preserves_non_stylesheet_links() {
    let html = r#"<link rel="icon" href="/favicon.ico"><link rel="stylesheet" href="/css/style.css">"#;
    let hrefs = extract_stylesheet_hrefs(html, &[]);
    assert_eq!(hrefs, vec!["/css/style.css"]);
}

#[test]
fn test_rewrite_single_link() {
    let html = r#"<html><head><link rel="stylesheet" href="/css/style.css"></head><body><p>Hi</p></body></html>"#;
    let result = rewrite_html(
        html,
        "body { color: red; }",
        &["/css/style.css".to_string()],
        true,
    ).unwrap();

    assert!(result.contains("<style>body { color: red; }</style>"));
    assert!(result.contains(r#"rel="preload""#));
    assert!(result.contains(r#"as="style""#));
    assert!(result.contains("onload="));
    assert!(result.contains("<noscript>"));
    // The only remaining stylesheet link should be inside <noscript>.
    // Count occurrences: rel="stylesheet" should appear exactly once (in noscript).
    assert_eq!(result.matches(r#"rel="stylesheet""#).count(), 1);
}

#[test]
fn test_rewrite_no_preload() {
    let html = r#"<html><head><link rel="stylesheet" href="/css/style.css"></head></html>"#;
    let result = rewrite_html(
        html,
        "body { color: red; }",
        &["/css/style.css".to_string()],
        false,
    ).unwrap();

    assert!(result.contains("<style>body { color: red; }</style>"));
    // No preload link, no noscript fallback.
    assert!(!result.contains("preload"));
    assert!(!result.contains("<noscript>"));
}

#[test]
fn test_rewrite_multiple_links() {
    let html = r#"<html><head>
            <link rel="stylesheet" href="/css/reset.css">
            <link rel="stylesheet" href="/css/main.css">
        </head></html>"#;
    let result = rewrite_html(
        html,
        ".a { color: red; } .b { color: blue; }",
        &["/css/reset.css".to_string(), "/css/main.css".to_string()],
        true,
    ).unwrap();

    // Should have exactly one <style> block.
    assert_eq!(result.matches("<style>").count(), 1);
    // Both links should be rewritten to preload.
    assert_eq!(result.matches(r#"rel="preload""#).count(), 2);
}

#[test]
fn test_rewrite_preserves_other_links() {
    let html = r#"<html><head>
            <link rel="icon" href="/favicon.ico">
            <link rel="stylesheet" href="/css/style.css">
        </head></html>"#;
    let result = rewrite_html(
        html,
        "body { color: red; }",
        &["/css/style.css".to_string()],
        true,
    ).unwrap();

    // Favicon link should be untouched.
    assert!(result.contains(r#"<link rel="icon" href="/favicon.ico">"#));
}

#[test]
fn test_rewrite_noscript_fallback() {
    let html = r#"<html><head><link rel="stylesheet" href="/css/style.css"></head></html>"#;
    let result = rewrite_html(
        html,
        "body { color: red; }",
        &["/css/style.css".to_string()],
        true,
    ).unwrap();

    assert!(result.contains(r#"<noscript><link rel="stylesheet" href="/css/style.css"></noscript>"#));
}

#[test]
fn test_rewrite_external_link_untouched() {
    let html = r#"<html><head>
            <link rel="stylesheet" href="https://cdn.example.com/lib.css">
            <link rel="stylesheet" href="/css/local.css">
        </head></html>"#;
    let result = rewrite_html(
        html,
        "body { color: red; }",
        &["/css/local.css".to_string()],
        true,
    ).unwrap();

    // External link should remain unchanged.
    assert!(result.contains(r#"href="https://cdn.example.com/lib.css""#));
    // Local link should be rewritten.
    assert!(result.contains(r#"rel="preload""#));
}
