use eigen::build::content_hash::{
    content_hash, hashed_filename, hashed_url_paths, is_excluded, merged_pairs, rewrite_file_content, AssetManifest,
};

// --- content_hash ---

#[test]
fn test_content_hash_deterministic() {
    let data = b"hello world";
    let h1 = content_hash(data);
    let h2 = content_hash(data);
    assert_eq!(h1, h2);
}

#[test]
fn test_content_hash_different_data() {
    let h1 = content_hash(b"hello");
    let h2 = content_hash(b"world");
    assert_ne!(h1, h2);
}

#[test]
fn test_content_hash_length() {
    let h = content_hash(b"test data");
    assert_eq!(h.len(), 16, "hash should be 16 hex chars (8 bytes)");
    assert!(h.chars().all(|c| c.is_ascii_hexdigit()));
}

#[test]
fn content_hash_known_value() {
    // SHA-256("hello world") = b94d27b9934d3e08a52e52d7da7dabfa...
    assert_eq!(content_hash(b"hello world"), "b94d27b9934d3e08");
    // SHA-256("") = e3b0c44298fc1c14...
    assert_eq!(content_hash(b""), "e3b0c44298fc1c14");
}

// --- hashed_filename ---

#[test]
fn test_hashed_filename_with_ext() {
    let result = hashed_filename("style.css", "a1b2c3d4");
    assert_eq!(result, "style.a1b2c3d4.css");
}

#[test]
fn test_hashed_filename_multi_dot() {
    let result = hashed_filename("app.min.js", "a1b2c3d4");
    assert_eq!(result, "app.min.a1b2c3d4.js");
}

#[test]
fn test_hashed_filename_no_ext() {
    let result = hashed_filename("LICENSE", "a1b2c3d4");
    assert_eq!(result, "LICENSE.a1b2c3d4");
}

#[test]
fn test_hashed_filename_dotfile() {
    let result = hashed_filename(".htaccess", "a1b2c3d4");
    assert_eq!(result, ".a1b2c3d4.htaccess");
}

#[test]
fn hashed_filename_keeps_extension_and_hash() {
    let result = hashed_filename("photo.jpeg", "0123456789abcdef");
    assert!(result.ends_with(".jpeg"));
    assert!(result.contains("0123456789abcdef"));
}

#[test]
fn hashed_url_paths_nested_and_top_level() {
    let (orig, hashed) = hashed_url_paths("css/style.css", "abc");
    assert_eq!(orig, "/css/style.css");
    assert_eq!(hashed, "/css/style.abc.css");
    let (orig, hashed) = hashed_url_paths("a.css", "abc");
    assert_eq!(orig, "/a.css");
    assert_eq!(hashed, "/a.abc.css");
    let (_, hashed) = hashed_url_paths("bundles/x/app.min.js", "ff");
    assert_eq!(hashed, "/bundles/x/app.min.ff.js");
}

// --- is_excluded ---

#[test]
fn test_is_excluded_default_patterns() {
    let patterns: Vec<String> = vec![
        "favicon.ico".into(),
        "robots.txt".into(),
        "CNAME".into(),
        "_headers".into(),
        "_redirects".into(),
        ".well-known/**".into(),
    ];
    assert!(is_excluded("favicon.ico", &patterns));
    assert!(is_excluded("robots.txt", &patterns));
    assert!(is_excluded("CNAME", &patterns));
    assert!(is_excluded("_headers", &patterns));
    assert!(is_excluded("_redirects", &patterns));
}

#[test]
fn test_is_excluded_glob_wellknown() {
    let patterns: Vec<String> = vec![".well-known/**".into()];
    assert!(is_excluded(".well-known/security.txt", &patterns));
    assert!(is_excluded(".well-known/assetlinks.json", &patterns));
}

#[test]
fn test_is_excluded_no_match() {
    let patterns: Vec<String> = vec!["favicon.ico".into(), "robots.txt".into()];
    assert!(!is_excluded("css/style.css", &patterns));
    assert!(!is_excluded("js/app.js", &patterns));
    assert!(!is_excluded("images/logo.png", &patterns));
}

#[test]
fn is_excluded_skips_invalid_pattern() {
    let patterns: Vec<String> = vec!["[".into(), "*.txt".into()];
    assert!(is_excluded("notes.txt", &patterns));
    assert!(!is_excluded("[", &vec!["[".to_string()]));
}

// --- AssetManifest ---

#[test]
fn test_manifest_resolve_found() {
    let mut m = AssetManifest::new();
    m.insert("/css/style.css".into(), "/css/style.abc123.css".into());
    assert_eq!(m.resolve("/css/style.css"), "/css/style.abc123.css");
}

#[test]
fn test_manifest_resolve_not_found() {
    let m = AssetManifest::new();
    assert_eq!(m.resolve("/unknown.css"), "/unknown.css");
}

#[test]
fn test_manifest_pairs_longest_first() {
    let mut m = AssetManifest::new();
    m.insert("/a.css".into(), "/a.h1.css".into());
    m.insert("/css/style.css".into(), "/css/style.h2.css".into());
    m.insert("/css/b.css".into(), "/css/b.h3.css".into());

    let pairs = m.pairs_longest_first();
    assert_eq!(pairs[0].0, "/css/style.css");
    assert!(pairs[0].0.len() >= pairs[1].0.len());
    assert!(pairs[1].0.len() >= pairs[2].0.len());
}

#[test]
fn test_manifest_empty() {
    let m = AssetManifest::new();
    assert!(m.is_empty());
    assert_eq!(m.len(), 0);
}

#[test]
fn test_manifest_len() {
    let mut m = AssetManifest::new();
    m.insert("/a.css".into(), "/a.h.css".into());
    m.insert("/b.js".into(), "/b.h.js".into());
    assert!(!m.is_empty());
    assert_eq!(m.len(), 2);
}

#[test]
fn manifest_insert_replaces_and_counts_unique_keys() {
    let mut m = AssetManifest::with_capacity(4);
    m.insert("/a.css".into(), "/a.1.css".into());
    m.insert("/b.css".into(), "/b.1.css".into());
    m.insert("/a.css".into(), "/a.2.css".into());
    assert_eq!(m.len(), 2);
    assert_eq!(m.resolve("/a.css"), "/a.2.css");
    assert_eq!(m.resolve("/b.css"), "/b.1.css");
    assert_eq!(m.resolve("___key_not_in_manifest___"), "___key_not_in_manifest___");
}

#[test]
fn pairs_longest_first_counts_bytes_and_keeps_ties() {
    let mut m = AssetManifest::new();
    m.insert("/ab".into(), "1".into());
    m.insert("/é".into(), "2".into());
    m.insert("/abc".into(), "3".into());
    let pairs = m.pairs_longest_first();
    assert_eq!(pairs.len(), 3);
    assert_eq!(pairs[0].0, "/abc");
    // "/ab" and "/é" are both 3 bytes long: insertion order is kept.
    assert_eq!(pairs[1].0, "/ab");
    assert_eq!(pairs[2].0, "/é");
}

#[test]
fn merged_pairs_sorts_both_manifests() {
    let mut m = AssetManifest::new();
    m.insert("/a.css".into(), "/a.1.css".into());
    let mut add = AssetManifest::new();
    add.insert("/bundles/main.js".into(), "/bundles/main.2.js".into());
    let pairs = merged_pairs(&m, Some(&add));
    assert_eq!(pairs.len(), 2);
    assert_eq!(pairs[0].0, "/bundles/main.js");
    assert_eq!(pairs[1].0, "/a.css");
    let only = merged_pairs(&m, None);
    assert_eq!(only, vec![("/a.css", "/a.1.css")]);
}

// --- rewrite_file_content ---

#[test]
fn test_rewrite_file_content_html() {
    let mut m = AssetManifest::new();
    m.insert("/css/style.css".into(), "/css/style.abc123.css".into());
    m.insert("/js/app.js".into(), "/js/app.def456.js".into());

    let pairs = m.pairs_longest_first();
    let html = r#"<link href="/css/style.css"><script src="/js/app.js"></script>"#;
    let result = rewrite_file_content(html, &pairs).unwrap();
    assert!(result.contains("/css/style.abc123.css"));
    assert!(result.contains("/js/app.def456.js"));
    assert!(!result.contains(r#""/css/style.css""#));
}

#[test]
fn test_rewrite_file_content_css_url() {
    let mut m = AssetManifest::new();
    m.insert("/images/icon.png".into(), "/images/icon.abc123.png".into());

    let pairs = m.pairs_longest_first();
    let css = r#".icon { background-image: url('/images/icon.png'); }"#;
    let result = rewrite_file_content(css, &pairs).unwrap();
    assert!(result.contains("/images/icon.abc123.png"));
}

#[test]
fn test_rewrite_file_content_no_match() {
    let m = AssetManifest::new();
    let pairs = m.pairs_longest_first();
    let html = "<h1>Hello</h1>";
    assert!(rewrite_file_content(html, &pairs).is_none());
}

#[test]
fn test_rewrite_file_content_no_match_with_entries() {
    let mut m = AssetManifest::new();
    m.insert("/css/style.css".into(), "/css/style.abc123.css".into());

    let pairs = m.pairs_longest_first();
    let html = "<h1>Hello</h1>";
    assert!(rewrite_file_content(html, &pairs).is_none());
}

#[test]
fn test_rewrite_file_content_multiple_refs() {
    let mut m = AssetManifest::new();
    m.insert("/css/style.css".into(), "/css/style.abc123.css".into());

    let pairs = m.pairs_longest_first();
    let html = r#"<link href="/css/style.css"><link href="/css/style.css">"#;
    let result = rewrite_file_content(html, &pairs).unwrap();
    assert!(!result.contains(r#""/css/style.css""#));
    assert_eq!(result.matches("/css/style.abc123.css").count(), 2);
}

#[test]
fn test_rewrite_file_content_idempotent() {
    let mut m = AssetManifest::new();
    m.insert("/css/style.css".into(), "/css/style.abc123.css".into());

    let pairs = m.pairs_longest_first();
    let html = r#"<link href="/css/style.css">"#;
    let first = rewrite_file_content(html, &pairs).unwrap();
    assert!(rewrite_file_content(&first, &pairs).is_none());
}

#[test]
fn rewrite_file_content_longest_first_avoids_partial_match() {
    let pairs = vec![("/css/style.css.map", "/css/style.1.css.map"), ("/css/style.css", "/css/style.2.css")];
    let out = rewrite_file_content("a /css/style.css.map b /css/style.css", &pairs).unwrap();
    assert_eq!(out, "a /css/style.1.css.map b /css/style.2.css");
}
