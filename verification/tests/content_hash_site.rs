use eigen::build::content_hash::{build_manifest, hash_additional_files, rewrite_references, AssetManifest};
use eigen::config::ContentHashConfig;

fn hash_config() -> ContentHashConfig {
    ContentHashConfig { enabled: true, ..ContentHashConfig::default() }
}

fn files(v: &[(&str, &str)]) -> Vec<(String, Option<Vec<u8>>)> {
    v.iter().map(|(p, c)| (p.to_string(), Some(c.as_bytes().to_vec()))).collect()
}

fn texts(v: &[(&str, &str)]) -> Vec<(String, String)> {
    v.iter().map(|(p, c)| (p.to_string(), c.to_string())).collect()
}

#[test]
fn test_build_manifest_basic() {
    let (manifest, renames) = build_manifest(&files(&[("css/style.css", "body { color: red; }")]), &hash_config());
    assert_eq!(manifest.len(), 1);
    let resolved = manifest.resolve("/css/style.css");
    assert_ne!(resolved, "/css/style.css", "should be hashed");
    assert!(resolved.starts_with("/css/style."));
    assert!(resolved.ends_with(".css"));
    assert_eq!(renames, vec![("/css/style.css".to_string(), resolved.to_string())]);
}

#[test]
fn test_build_manifest_excludes() {
    let (manifest, renames) = build_manifest(&files(&[("favicon.ico", "icon"), ("robots.txt", "allow all")]), &hash_config());
    assert!(manifest.is_empty(), "excluded files should not be in manifest");
    assert!(renames.is_empty());
}

#[test]
fn test_build_manifest_empty_dir() {
    let (manifest, _) = build_manifest(&[], &hash_config());
    assert!(manifest.is_empty());
}

#[test]
fn test_build_manifest_nested_dirs() {
    let (manifest, _) = build_manifest(&files(&[("a/b/c/deep.js", "deep()")]), &hash_config());
    assert_eq!(manifest.len(), 1);
    let resolved = manifest.resolve("/a/b/c/deep.js");
    assert!(resolved.starts_with("/a/b/c/deep."));
    assert!(resolved.ends_with(".js"));
}

#[test]
fn test_build_manifest_deterministic_hash() {
    let content = "body { color: blue; }";
    let (m1, _) = build_manifest(&files(&[("a.css", content)]), &hash_config());
    let r1 = m1.resolve("/a.css").to_string();
    let (m2, _) = build_manifest(&files(&[("a.css", content)]), &hash_config());
    let r2 = m2.resolve("/a.css").to_string();
    assert_eq!(r1, r2, "same content should produce same hash");
}

#[test]
fn build_manifest_skips_files_missing_from_dist() {
    let mut f = files(&[("a.css", "a")]);
    f.push(("b.css".to_string(), None));
    let (m, renames) = build_manifest(&f, &hash_config());
    assert_eq!(m.len(), 1);
    assert_eq!(m.resolve("/b.css"), "/b.css");
    assert_eq!(renames.len(), 1);
}

#[test]
fn hash_additional_files_hashes_the_bundles() {
    let (m, renames) = hash_additional_files(&files(&[("css/bundle.css", "x{}"), ("favicon.ico", "i")]));
    assert_eq!(m.len(), 2);
    assert!(m.resolve("/css/bundle.css").starts_with("/css/bundle."));
    assert!(m.resolve("/favicon.ico").starts_with("/favicon."));
    assert!(m.resolve("/favicon.ico").ends_with(".ico"));
    assert_ne!(m.resolve("/favicon.ico"), "/favicon.ico");
    assert_eq!(renames.len(), 2);
}

#[test]
fn test_rewrite_references_html() {
    let mut m = AssetManifest::new();
    m.insert("/css/style.css".into(), "/css/style.abc123.css".into());
    let changed = rewrite_references(&texts(&[("index.html", r#"<link href="/css/style.css">"#)]), &m, None);
    assert!(changed[0].1.contains("/css/style.abc123.css"));
}

#[test]
fn test_rewrite_references_css() {
    let mut m = AssetManifest::new();
    m.insert("/images/bg.png".into(), "/images/bg.abc123.png".into());
    let changed = rewrite_references(&texts(&[("css/style.css", "body { background: url('/images/bg.png'); }")]), &m, None);
    assert!(changed[0].1.contains("/images/bg.abc123.png"));
}

#[test]
fn test_rewrite_references_js() {
    let mut m = AssetManifest::new();
    m.insert("/images/logo.png".into(), "/images/logo.abc123.png".into());
    let changed = rewrite_references(&texts(&[("js/app.js", "const url = '/images/logo.png';")]), &m, None);
    assert!(changed[0].1.contains("/images/logo.abc123.png"));
}

#[test]
fn test_rewrite_references_skips_binary() {
    let mut m = AssetManifest::new();
    m.insert("/css/style.css".into(), "/css/style.abc123.css".into());
    let changed = rewrite_references(&texts(&[("images/logo.png", "binary-data-/css/style.css")]), &m, None);
    assert!(changed.is_empty());
}

#[test]
fn test_rewrite_references_fragments() {
    let mut m = AssetManifest::new();
    m.insert("/images/photo.jpg".into(), "/images/photo.abc123.jpg".into());
    let changed = rewrite_references(&texts(&[("_fragments/about.html", r#"<img src="/images/photo.jpg">"#)]), &m, None);
    assert_eq!(changed[0].0, "_fragments/about.html");
    assert!(changed[0].1.contains("/images/photo.abc123.jpg"));
}

#[test]
fn test_rewrite_references_empty_manifest() {
    let m = AssetManifest::new();
    let changed = rewrite_references(&texts(&[("index.html", "<h1>Hello</h1>")]), &m, None);
    assert!(changed.is_empty());
}

#[test]
fn rewrite_references_uses_both_manifests() {
    let mut m = AssetManifest::new();
    m.insert("/a.png".into(), "/a.1.png".into());
    let mut add = AssetManifest::new();
    add.insert("/css/bundle.css".into(), "/css/bundle.2.css".into());
    let changed = rewrite_references(
        &texts(&[("i.html", r#"<img src="/a.png"><link href="/css/bundle.css">"#), ("x.txt", "/a.png")]),
        &m,
        Some(&add),
    );
    assert_eq!(changed, vec![("i.html".to_string(), r#"<img src="/a.1.png"><link href="/css/bundle.2.css">"#.to_string())]);
}
