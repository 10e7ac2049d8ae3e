use eigen::build::bundling::css::{merge_css_files, tree_shake_css};
use eigen::build::bundling::js::merge_js_files;
use eigen::build::dist_files::{normalize_path, DistFiles};

fn dist(files: &[(&str, &str)]) -> DistFiles {
    DistFiles { files: files.iter().map(|(p, c)| (p.to_string(), c.to_string())).collect() }
}

#[test]
fn test_merge_single_file() {
    let d = dist(&[("css/style.css", "body { color: red; }")]);
    let result = merge_css_files(&["/css/style.css".to_string()], &d);
    assert!(result.contains("/* Source: /css/style.css */"));
    assert!(result.contains("body { color: red; }"));
}

#[test]
fn test_merge_multiple_files() {
    let d = dist(&[("css/reset.css", "* { margin: 0; }"), ("css/style.css", "body { color: red; }")]);
    let result = merge_css_files(&["/css/reset.css".to_string(), "/css/style.css".to_string()], &d);

    assert!(result.contains("/* Source: /css/reset.css */"));
    assert!(result.contains("/* Source: /css/style.css */"));

    let reset_pos = result.find("* { margin: 0; }").unwrap();
    let style_pos = result.find("body { color: red; }").unwrap();
    assert!(reset_pos < style_pos);
}

#[test]
fn test_merge_resolves_import() {
    let d = dist(&[
        ("css/base.css", ".base { margin: 0; }"),
        ("css/style.css", "@import \"base.css\";\n.main { color: red; }"),
    ]);
    let result = merge_css_files(&["/css/style.css".to_string()], &d);

    assert!(result.contains(".base { margin: 0; }"));
    assert!(result.contains(".main { color: red; }"));
    assert!(!result.contains("@import"));
}

#[test]
fn test_merge_missing_file() {
    let d = dist(&[("css/exists.css", ".ok { color: green; }")]);
    let result = merge_css_files(&["/css/missing.css".to_string(), "/css/exists.css".to_string()], &d);

    assert!(!result.contains("missing"));
    assert!(result.contains(".ok { color: green; }"));
}

#[test]
fn merge_css_exact_text_and_nested_imports() {
    let d = dist(&[
        ("css/a.css", "a{}"),
        ("css/b.css", "@import url('/css/c.css');\nb{}"),
        ("css/c.css", "c{}"),
        ("x.css", "@import \"https://cdn.example.com/x.css\";"),
    ]);
    let result = merge_css_files(&["/css/a.css".to_string(), "/css/b.css".to_string(), "/x.css".to_string()], &d);
    assert_eq!(
        result,
        "/* Source: /css/a.css */\na{}\n/* Source: /css/b.css */\nc{}\nb{}\n/* Source: /x.css */\n@import \"https://cdn.example.com/x.css\";"
    );
}

#[test]
fn merge_css_resolves_parent_relative_imports() {
    let d = dist(&[("css/pages/home.css", "@import \"../base.css\";\nh{}"), ("css/base.css", "base{}")]);
    let result = merge_css_files(&["/css/pages/home.css".to_string()], &d);
    assert_eq!(result, "/* Source: /css/pages/home.css */\nbase{}\nh{}");
}

#[test]
fn merge_css_stops_at_circular_imports() {
    let d = dist(&[("a.css", "@import \"b.css\";\na{}"), ("b.css", "@import \"a.css\";\nb{}")]);
    let result = merge_css_files(&["/a.css".to_string()], &d);
    assert!(result.starts_with("/* Source: /a.css */\n"));
    assert!(result.ends_with("a{}"));
    assert!(result.contains("b{}"));
}

#[test]
fn normalize_path_resolves_dots() {
    assert_eq!(normalize_path("css/./a/../b.css"), Some("css/b.css".to_string()));
    assert_eq!(normalize_path("//css//b.css"), Some("css/b.css".to_string()));
    assert_eq!(normalize_path("../b.css"), None);
}

#[test]
fn test_tree_shake_removes_unused() {
    let html = vec![r#"<html><body><div class="used">Hello</div></body></html>"#.to_string()];
    let css = ".used { color: red; } .unused { color: blue; }";
    let result = tree_shake_css(css, &html, false).unwrap();

    assert!(result.contains(".used"));
    assert!(!result.contains(".unused"));
}

#[test]
fn test_tree_shake_keeps_used() {
    let html = vec![r#"<html><body><p class="hero">Hi</p></body></html>"#.to_string()];
    let css = ".hero { color: red; }";
    let result = tree_shake_css(css, &html, false).unwrap();

    assert!(result.contains(".hero"));
    assert!(result.contains("color"));
}

#[test]
fn test_tree_shake_keeps_pseudo() {
    let html = vec![r#"<html><body><a class="link">Click</a></body></html>"#.to_string()];
    let css = ".link { color: blue; } .link:hover { color: red; }";
    let result = tree_shake_css(css, &html, false).unwrap();

    assert!(result.contains(".link"));
    assert!(result.contains("blue") || result.contains("red"));
}

#[test]
fn test_tree_shake_media_query() {
    let html = vec![r#"<html><body><div class="card">Card</div></body></html>"#.to_string()];
    let css = r#"
            @media (max-width: 768px) {
                .card { width: 100%; }
                .sidebar { display: none; }
            }
        "#;
    let result = tree_shake_css(css, &html, false).unwrap();

    assert!(result.contains("@media"));
    assert!(result.contains(".card"));
    assert!(!result.contains(".sidebar"));
}

#[test]
fn test_tree_shake_font_face() {
    let html = vec![r#"<html><body><h1 class="heading">Title</h1></body></html>"#.to_string()];
    let css = r#"
            @font-face {
                font-family: "Inter";
                src: url("/fonts/inter.woff2") format("woff2");
            }
            .heading { font-family: "Inter", sans-serif; }
            .unused { color: green; }
        "#;
    let result = tree_shake_css(css, &html, false).unwrap();

    assert!(result.contains("@font-face"));
    assert!(result.contains("Inter"));
    assert!(result.contains(".heading"));
    assert!(!result.contains(".unused"));
}

#[test]
fn test_tree_shake_keyframes() {
    let html = vec![r#"<html><body><div class="spinner">Loading</div></body></html>"#.to_string()];
    let css = r#"
            @keyframes spin {
                from { transform: rotate(0deg); }
                to { transform: rotate(360deg); }
            }
            .spinner { animation-name: spin; }
            .unused { color: green; }
        "#;
    let result = tree_shake_css(css, &html, false).unwrap();

    assert!(result.contains("@keyframes"));
    assert!(result.contains("spin"));
    assert!(result.contains(".spinner"));
    assert!(!result.contains(".unused"));
}

#[test]
fn test_tree_shake_empty_result() {
    let html = vec!["<html><body><div>No matching classes</div></body></html>".to_string()];
    let css = ".missing-a { color: red; } .missing-b { color: blue; }";
    let result = tree_shake_css(css, &html, false).unwrap();

    assert!(result.is_empty());
}

#[test]
fn test_tree_shake_multiple_docs() {
    let html = vec![
        r#"<html><body><div class="a-only">A</div></body></html>"#.to_string(),
        r#"<html><body><div class="b-only">B</div></body></html>"#.to_string(),
    ];
    let css = ".a-only { color: red; } .b-only { color: blue; } .neither { color: green; }";
    let result = tree_shake_css(css, &html, false).unwrap();

    assert!(result.contains(".a-only"));
    assert!(result.contains(".b-only"));
    assert!(!result.contains(".neither"));
}

#[test]
fn tree_shake_without_pages_keeps_everything() {
    let css = ".a { color: red; }";
    assert_eq!(tree_shake_css(css, &[], false).unwrap(), css);
}

#[test]
fn tree_shake_minified_output() {
    let html = vec![r#"<p class="x">x</p>"#.to_string()];
    let result = tree_shake_css(".x { color: red; }", &html, true).unwrap();
    assert_eq!(result, ".x{color:red}");
}

#[test]
fn test_merge_single_js() {
    let d = dist(&[("js/app.js", "var x = 1;")]);
    let result = merge_js_files(&["/js/app.js".to_string()], &d);
    assert!(result.contains("// Source: /js/app.js"));
    assert!(result.contains(";(function(){"));
    assert!(result.contains("var x = 1;"));
    assert!(result.contains("})();"));
}

#[test]
fn test_merge_multiple_js() {
    let d = dist(&[("js/utils.js", "function util() {}"), ("js/app.js", "util();")]);
    let result = merge_js_files(&["/js/utils.js".to_string(), "/js/app.js".to_string()], &d);

    assert_eq!(result.matches(";(function(){").count(), 2);
    assert_eq!(result.matches("})();").count(), 2);
    assert!(result.contains("// Source: /js/utils.js"));
    assert!(result.contains("// Source: /js/app.js"));

    let utils_pos = result.find("// Source: /js/utils.js").unwrap();
    let app_pos = result.find("// Source: /js/app.js").unwrap();
    assert!(utils_pos < app_pos);
}

#[test]
fn test_merge_missing_js() {
    let d = dist(&[("js/exists.js", "var y = 2;")]);
    let result = merge_js_files(&["/js/missing.js".to_string(), "/js/exists.js".to_string()], &d);

    assert!(!result.contains("missing.js"));
    assert!(result.contains("var y = 2;"));
}

#[test]
fn test_iife_wrapping() {
    let d = dist(&[("js/test.js", "console.log('hello');")]);
    let result = merge_js_files(&["/js/test.js".to_string()], &d);

    assert!(result.contains(";(function(){\nconsole.log('hello');\n})();"));
}

#[test]
fn merge_js_exact_text() {
    let d = dist(&[("a.js", "A"), ("b.js", "B")]);
    let result = merge_js_files(&["/a.js".to_string(), "/b.js".to_string()], &d);
    assert_eq!(result, "// Source: /a.js\n;(function(){\nA\n})();\n\n// Source: /b.js\n;(function(){\nB\n})();\n");
}
