use eigen::build::critical_css::extract::{extract_critical_css, selector_matches, HtmlDocument};

#[test]
fn test_selector_matches_basic() {
    let html = HtmlDocument::parse(r#"<div class="exists">Hello</div>"#);
    assert!(selector_matches(".exists", &html));
}

#[test]
fn test_selector_matches_absent() {
    let html = HtmlDocument::parse(r#"<div class="exists">Hello</div>"#);
    assert!(!selector_matches(".missing", &html));
}

#[test]
fn test_selector_matches_tag() {
    let html = HtmlDocument::parse("<p>Hello</p>");
    assert!(selector_matches("p", &html));
    assert!(!selector_matches("span", &html));
}

#[test]
fn test_selector_matches_id() {
    let html = HtmlDocument::parse(r#"<div id="main">Hello</div>"#);
    assert!(selector_matches("#main", &html));
    assert!(!selector_matches("#other", &html));
}

#[test]
fn test_selector_matches_combinator() {
    let html = HtmlDocument::parse(
        r#"<div class="parent"><span class="child">Hi</span></div>"#,
    );
    assert!(selector_matches(".parent > .child", &html));
    assert!(!selector_matches(".parent > .other", &html));
}

#[test]
fn test_selector_matches_unparseable() {
    // An unparseable selector should return true (conservative: include the rule).
    let html = HtmlDocument::parse("<div>Hello</div>");
    assert!(selector_matches("!!invalid%%selector", &html));
}

#[test]
fn test_extract_simple() {
    let css = r#"
        .exists { color: red; }
        .missing { color: blue; }
    "#;
    let html = HtmlDocument::parse(r#"<div class="exists">Hello</div>"#);
    let result = extract_critical_css(css, &html).unwrap();
    assert!(result.contains(".exists"));
    assert!(result.contains("color"));
    assert!(!result.contains(".missing"));
}

#[test]
fn test_extract_media_query() {
    let css = r#"
        @media (max-width: 768px) {
            .exists { color: red; }
            .missing { color: blue; }
        }
    "#;
    let html = HtmlDocument::parse(r#"<div class="exists">Hello</div>"#);
    let result = extract_critical_css(css, &html).unwrap();
    assert!(result.contains("@media"));
    assert!(result.contains(".exists"));
    assert!(!result.contains(".missing"));
}

#[test]
fn test_extract_media_query_no_match() {
    let css = r#"
        @media (max-width: 768px) {
            .missing { color: blue; }
        }
    "#;
    let html = HtmlDocument::parse(r#"<div class="exists">Hello</div>"#);
    let result = extract_critical_css(css, &html).unwrap();
    assert!(!result.contains("@media"));
    assert!(!result.contains(".missing"));
}

#[test]
fn test_extract_font_face_transitive() {
    let css = r#"
        @font-face {
            font-family: "Inter";
            src: url("/fonts/inter.woff2") format("woff2");
        }
        .heading { font-family: "Inter", sans-serif; }
        .unused { color: green; }
    "#;
    let html = HtmlDocument::parse(r#"<h1 class="heading">Title</h1>"#);
    let result = extract_critical_css(css, &html).unwrap();
    assert!(result.contains("@font-face"));
    assert!(result.contains("Inter"));
    assert!(result.contains(".heading"));
    assert!(!result.contains(".unused"));
}

#[test]
fn test_extract_keyframes_transitive() {
    let css = r#"
        @keyframes spin {
            from { transform: rotate(0deg); }
            to { transform: rotate(360deg); }
        }
        .spinner { animation-name: spin; }
        .unused { color: green; }
    "#;
    let html = HtmlDocument::parse(r#"<div class="spinner">Loading</div>"#);
    let result = extract_critical_css(css, &html).unwrap();
    assert!(result.contains("@keyframes"));
    assert!(result.contains("spin"));
    assert!(result.contains(".spinner"));
    assert!(!result.contains(".unused"));
}

#[test]
fn test_extract_custom_property() {
    let css = r#"
        :root { --color-primary: blue; --unused-var: green; }
        .btn { color: var(--color-primary); }
    "#;
    let html = HtmlDocument::parse(
        r#"<html><body><button class="btn">Click</button></body></html>"#
    );
    let result = extract_critical_css(css, &html).unwrap();
    // :root matches <html>, so the :root rule should be included via
    // normal selector matching regardless of var() tracking.
    assert!(result.contains(":root"));
    assert!(result.contains(".btn"));
}

#[test]
fn test_extract_layer_statement() {
    let css = r#"
        @layer reset, base, components;
        .exists { color: red; }
    "#;
    let html = HtmlDocument::parse(r#"<div class="exists">Hello</div>"#);
    let result = extract_critical_css(css, &html).unwrap();
    assert!(result.contains("@layer"));
    assert!(result.contains(".exists"));
}

#[test]
fn test_extract_empty_result() {
    let css = r#"
        .missing { color: red; }
        .also-missing { color: blue; }
    "#;
    let html = HtmlDocument::parse("<div>No matching classes</div>");
    let result = extract_critical_css(css, &html).unwrap();
    assert!(result.is_empty());
}

#[test]
fn test_extract_pseudo_selector_included() {
    let css = r#"
        .btn { color: blue; }
        .btn:hover { color: red; }
    "#;
    let html = HtmlDocument::parse(r#"<button class="btn">Click</button>"#);
    let result = extract_critical_css(css, &html).unwrap();
    // Both the base rule and the :hover rule should be included.
    assert!(result.contains(".btn"));
    assert!(result.contains("red") || result.contains("hover"));
}
