use eigen::build::hints::prefetch::{
    collect_hx_get_urls, collect_href_urls, collect_prefetch_urls, compute_self_url, normalize_url,
};

#[test]
fn test_collect_hx_get_urls() {
    let html = r##"
        <a href="/about.html" hx-get="/_fragments/about.html" hx-target="#content">About</a>
        <a href="/blog.html" hx-get="/_fragments/blog.html" hx-target="#content">Blog</a>
    "##;
    let urls = collect_hx_get_urls(html);
    assert_eq!(urls, vec!["/_fragments/about.html", "/_fragments/blog.html"]);
}

#[test]
fn test_collect_href_urls_no_fragments() {
    let html = r#"
            <a href="/about.html">About</a>
            <a href="/blog.html">Blog</a>
            <a href="https://external.com" target="_blank">Ext</a>
        "#;
    let urls = collect_href_urls(html);
    assert_eq!(urls, vec!["/about.html", "/blog.html"]);
}

#[test]
fn test_excludes_external_urls() {
    let html = r#"
            <a hx-get="/_fragments/about.html">About</a>
            <a hx-get="https://evil.com/steal">Bad</a>
        "#;
    let result = collect_prefetch_urls(html, "/index.html", "_fragments", true, 10, &[]);
    assert_eq!(result, vec!["/_fragments/about.html"]);
}

#[test]
fn test_excludes_self_reference() {
    let html = r#"
            <a hx-get="/_fragments/about.html">About</a>
            <a hx-get="/_fragments/index.html">Home</a>
        "#;
    let result = collect_prefetch_urls(html, "/index.html", "_fragments", true, 10, &[]);
    // Self-reference to /index.html (-> /_fragments/index.html) should be excluded.
    assert_eq!(result, vec!["/_fragments/about.html"]);
}

#[test]
fn test_excludes_self_reference_index() {
    // Test that "/" and "/index.html" are recognized as the same page.
    let html = r#"
            <a hx-get="/_fragments/about.html">About</a>
            <a hx-get="/_fragments/index.html">Home</a>
        "#;
    // current_url is "/" -- should still match /_fragments/index.html
    let result = collect_prefetch_urls(html, "/", "_fragments", true, 10, &[]);
    assert_eq!(result, vec!["/_fragments/about.html"]);
}

#[test]
fn test_excludes_pattern_match() {
    let html = r#"
            <a hx-get="/_fragments/about.html">About</a>
            <a hx-get="/_fragments/archive/2023.html">Archive</a>
        "#;
    let result = collect_prefetch_urls(
        html,
        "/index.html",
        "_fragments",
        true,
        10,
        &["**/archive/**".to_string()],
    );
    assert_eq!(result, vec!["/_fragments/about.html"]);
}

#[test]
fn test_max_prefetch_limit() {
    let html = r#"
            <a hx-get="/_fragments/a.html">A</a>
            <a hx-get="/_fragments/b.html">B</a>
            <a hx-get="/_fragments/c.html">C</a>
            <a hx-get="/_fragments/d.html">D</a>
        "#;
    let result = collect_prefetch_urls(html, "/index.html", "_fragments", true, 2, &[]);
    assert_eq!(result.len(), 2);
    assert_eq!(result, vec!["/_fragments/a.html", "/_fragments/b.html"]);
}

#[test]
fn test_deduplicates_urls() {
    let html = r#"
            <a hx-get="/_fragments/about.html">About</a>
            <a hx-get="/_fragments/about.html">About Again</a>
            <a hx-get="/_fragments/blog.html">Blog</a>
        "#;
    let result = collect_prefetch_urls(html, "/index.html", "_fragments", true, 10, &[]);
    assert_eq!(
        result,
        vec!["/_fragments/about.html", "/_fragments/blog.html"]
    );
}

#[test]
fn test_excludes_anchor_only() {
    let html = r##"
        <a hx-get="/_fragments/about.html">About</a>
        <a hx-get="#section">Section</a>
    "##;
    let result = collect_prefetch_urls(html, "/index.html", "_fragments", true, 10, &[]);
    assert_eq!(result, vec!["/_fragments/about.html"]);
}

#[test]
fn test_excludes_target_blank() {
    let html = r#"
            <a href="/about.html">About</a>
            <a href="/ext.html" target="_blank">External</a>
        "#;
    let result = collect_prefetch_urls(html, "/index.html", "_fragments", false, 10, &[]);
    assert_eq!(result, vec!["/about.html"]);
}

#[test]
fn test_max_prefetch_zero() {
    let html = r#"<a hx-get="/_fragments/about.html">About</a>"#;
    let result = collect_prefetch_urls(html, "/index.html", "_fragments", true, 0, &[]);
    assert!(result.is_empty());
}

#[test]
fn test_normalize_url_trailing_slash() {
    assert_eq!(normalize_url("/posts/"), "/posts/index.html");
    assert_eq!(normalize_url("/"), "/index.html");
    assert_eq!(normalize_url("/about.html"), "/about.html");
}

#[test]
fn test_compute_self_url_fragments_enabled() {
    let result = compute_self_url("/about.html", "_fragments", true);
    assert_eq!(result, "/_fragments/about.html");
}

#[test]
fn test_compute_self_url_fragments_disabled() {
    let result = compute_self_url("/about.html", "_fragments", false);
    assert_eq!(result, "/about.html");
}

#[test]
fn test_glob_pattern_error_handled() {
    // An invalid glob pattern should not crash -- it should be skipped.
    let html = r#"<a hx-get="/_fragments/about.html">About</a>"#;
    let result = collect_prefetch_urls(
        html,
        "/index.html",
        "_fragments",
        true,
        10,
        &["[invalid".to_string()],
    );
    // The invalid pattern is skipped; the URL is still collected.
    assert_eq!(result, vec!["/_fragments/about.html"]);
}

#[test]
fn test_no_links_in_html() {
    let html = "<html><head></head><body><p>No links here</p></body></html>";
    let result = collect_prefetch_urls(html, "/index.html", "_fragments", true, 10, &[]);
    assert!(result.is_empty());
}
