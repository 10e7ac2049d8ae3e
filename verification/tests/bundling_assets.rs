use eigen::build::bundling::{bundle_assets, rewrite_html_for_bundles, BundleError, MinifyFailure};
use eigen::build::dist_files::DistFiles;
use eigen::config::BundlingConfig;

fn dist(files: &[(&str, &str)]) -> DistFiles {
    DistFiles { files: files.iter().map(|(p, c)| (p.to_string(), c.to_string())).collect() }
}

fn pages(p: &[(&str, &str)]) -> Vec<(String, Option<String>)> {
    p.iter().map(|(a, b)| (a.to_string(), Some(b.to_string()))).collect()
}

fn generated(o: &eigen::build::bundling::BundleOutput) -> Vec<String> {
    o.bundles.iter().map(|(p, _)| p.clone()).collect()
}

#[test]
fn test_bundle_assets_disabled() {
    let config = BundlingConfig::default();
    let result = bundle_assets(&[], &dist(&[]), &config, false).ok().unwrap();
    assert!(generated(&result).is_empty());
}

#[test]
fn test_bundle_assets_no_refs() {
    let config = BundlingConfig { enabled: true, ..Default::default() };
    let p = pages(&[("index.html", "<html><body>No CSS or JS</body></html>")]);
    let result = bundle_assets(&p, &dist(&[]), &config, false).ok().unwrap();
    assert!(generated(&result).is_empty());
}

#[test]
fn test_bundle_assets_css_only() {
    let files = dist(&[("css/style.css", ".hero { color: red; }")]);
    let p = pages(&[(
        "index.html",
        r#"<html><head><link rel="stylesheet" href="/css/style.css"></head><body><div class="hero">Hi</div></body></html>"#,
    )]);
    let config = BundlingConfig { enabled: true, js: false, ..Default::default() };
    let result = bundle_assets(&p, &files, &config, false).ok().unwrap();

    assert_eq!(generated(&result), vec!["css/bundle.css"]);
    assert_eq!(result.pages.len(), 1);
    assert!(result.pages[0].1.contains("/css/bundle.css"));
}

#[test]
fn test_bundle_assets_js_only() {
    let files = dist(&[("js/app.js", "var x = 1;")]);
    let p = pages(&[("index.html", r#"<html><body><script src="/js/app.js"></script></body></html>"#)]);
    let config = BundlingConfig { enabled: true, css: false, ..Default::default() };
    let result = bundle_assets(&p, &files, &config, false).ok().unwrap();

    assert_eq!(generated(&result), vec!["js/bundle.js"]);
    assert!(result.pages[0].1.contains("/js/bundle.js"));
}

#[test]
fn test_bundle_assets_end_to_end() {
    let files = dist(&[
        ("css/reset.css", "* { margin: 0; }"),
        ("css/style.css", ".hero { color: red; } .unused { display: none; }"),
        ("js/utils.js", "function util() {}"),
        ("js/app.js", "util();"),
    ]);
    let p = pages(&[(
        "index.html",
        r#"<html><head>
            <link rel="stylesheet" href="/css/reset.css">
            <link rel="stylesheet" href="/css/style.css">
        </head><body>
            <div class="hero">Hello</div>
            <script src="/js/utils.js"></script>
            <script src="/js/app.js"></script>
        </body></html>"#,
    )]);
    let config = BundlingConfig { enabled: true, ..Default::default() };
    let result = bundle_assets(&p, &files, &config, false).ok().unwrap();

    let g = generated(&result);
    assert_eq!(g.len(), 2);
    assert!(g.contains(&"css/bundle.css".to_string()));
    assert!(g.contains(&"js/bundle.js".to_string()));

    let css_bundle = &result.bundles[0].1;
    assert!(css_bundle.contains(".hero"));
    assert!(!css_bundle.contains(".unused"));

    let js_bundle = &result.bundles[1].1;
    assert!(js_bundle.contains("function util()"));
    assert!(js_bundle.contains("util();"));
    assert_eq!(js_bundle.matches(";(function(){").count(), 2);

    let html = &result.pages[0].1;
    assert!(html.contains("/css/bundle.css"));
    assert!(html.contains("/js/bundle.js"));
    assert!(!html.contains("/css/reset.css"));
    assert!(!html.contains("/css/style.css"));
    assert!(!html.contains("/js/utils.js"));
    assert!(!html.contains("/js/app.js"));
}

#[test]
fn test_bundle_assets_output_path_conflict() {
    let files = dist(&[("css/bundle.css", "/* old content */"), ("css/style.css", ".hero { color: red; }")]);
    let p = pages(&[(
        "index.html",
        r#"<html><head><link rel="stylesheet" href="/css/style.css"></head><body><div class="hero">Hi</div></body></html>"#,
    )]);
    let config = BundlingConfig { enabled: true, js: false, ..Default::default() };
    let result = bundle_assets(&p, &files, &config, false).ok().unwrap();

    assert_eq!(generated(&result), vec!["css/bundle.css"]);
    let bundle = &result.bundles[0].1;
    assert!(!bundle.contains("old content"));
    assert!(bundle.contains(".hero"));
}

#[test]
fn bundle_assets_unreadable_page_is_an_error() {
    let files = dist(&[("js/app.js", "var x = 1;")]);
    let mut p = pages(&[("index.html", r#"<script src="/js/app.js"></script>"#)]);
    p.push(("broken.html".to_string(), None));
    let config = BundlingConfig { enabled: true, ..Default::default() };
    match bundle_assets(&p, &files, &config, false) {
        Err(e) => {
            assert!(matches!(e, BundleError::ReadPage(ref q) if q == "broken.html"));
            assert_eq!(e.message(), "Bundling rewrite: failed to read 'broken.html'");
        }
        Ok(_) => panic!("expected an error"),
    }
}

#[test]
fn bundle_assets_minifies_without_tree_shaking() {
    let files = dist(&[("a.css", ".a { color: red; }")]);
    let p = pages(&[("i.html", r#"<link rel="stylesheet" href="/a.css">"#)]);
    let config = BundlingConfig { enabled: true, tree_shake_css: false, ..Default::default() };
    let result = bundle_assets(&p, &files, &config, true).ok().unwrap();
    assert_eq!(result.bundles[0].1, ".a{color:red}");
}

#[test]
fn rewrite_for_bundles_keeps_page_order() {
    let p = pages(&[("a.html", "<p>a</p>"), ("b.html", "<p>b</p>")]);
    let r = rewrite_html_for_bundles(&p, None, None, &[], &[]).ok().unwrap();
    assert_eq!(r, vec![("a.html".to_string(), "<p>a</p>".to_string()), ("b.html".to_string(), "<p>b</p>".to_string())]);
}

#[test]
fn minify_error_messages_name_the_failed_stage() {
    let parse = BundleError::Minify(MinifyFailure::Parse("bad token".to_string()));
    assert_eq!(parse.message(), "CSS parse error during minification: bad token");
    let print = BundleError::Minify(MinifyFailure::Print("no output".to_string()));
    assert_eq!(print.message(), "CSS serialization error: no output");
}
