use eigen::build::fragments::{
    extract_block_names, extract_fragments, fragment_files, fragment_output_path, inject_oob_attr,
    strip_fragment_markers, Fragment,
};

#[test]
fn test_extract_single_fragment() {
    let html = "<html><body><!--FRAG:content:START--><h1>Hi</h1><!--FRAG:content:END--></body></html>";
    let frags = extract_fragments(html);
    assert_eq!(frags.len(), 1);
    assert_eq!(frags[0].block_name, "content");
    assert_eq!(frags[0].html, "<h1>Hi</h1>");
}

#[test]
fn test_extract_multiple_fragments() {
    let html = "<!--FRAG:title:START-->My Title<!--FRAG:title:END--><!--FRAG:content:START--><p>Body</p><!--FRAG:content:END-->";
    let frags = extract_fragments(html);
    assert_eq!(frags.len(), 2);
    assert_eq!(frags[0].block_name, "title");
    assert_eq!(frags[0].html, "My Title");
    assert_eq!(frags[1].block_name, "content");
    assert_eq!(frags[1].html, "<p>Body</p>");
}

#[test]
fn test_extract_no_fragments() {
    let html = "<html><body>No markers here</body></html>";
    let frags = extract_fragments(html);
    assert!(frags.is_empty());
}

#[test]
fn test_extract_multiline_fragment() {
    let html = "<!--FRAG:content:START-->\n<h1>Title</h1>\n<p>Body</p>\n<!--FRAG:content:END-->";
    let frags = extract_fragments(html);
    assert_eq!(frags.len(), 1);
    assert_eq!(frags[0].html, "\n<h1>Title</h1>\n<p>Body</p>\n");
}

#[test]
fn extract_nested_fragment_strips_inner_markers() {
    let html = "<!--FRAG:outer:START-->A<!--FRAG:inner:START-->B<!--FRAG:inner:END-->C<!--FRAG:outer:END-->";
    let frags = extract_fragments(html);
    assert_eq!(frags.len(), 2);
    assert_eq!(frags[0].block_name, "outer");
    assert_eq!(frags[0].html, "ABC");
    assert_eq!(frags[1].block_name, "inner");
    assert_eq!(frags[1].html, "B");
}

#[test]
fn extract_start_without_end_is_skipped() {
    let html = "<!--FRAG:lonely:START-->text";
    assert!(extract_fragments(html).is_empty());
    assert_eq!(extract_block_names(html), vec!["lonely"]);
}

#[test]
fn test_strip_markers() {
    let html = "BEFORE<!--FRAG:content:START-->MID<!--FRAG:content:END-->AFTER";
    let stripped = strip_fragment_markers(html);
    assert_eq!(stripped, "BEFOREMIDAFTER");
}

#[test]
fn test_strip_markers_multiple() {
    let html = "<!--FRAG:a:START-->X<!--FRAG:a:END-->-<!--FRAG:b:START-->Y<!--FRAG:b:END-->";
    let stripped = strip_fragment_markers(html);
    assert_eq!(stripped, "X-Y");
}

#[test]
fn test_strip_markers_none() {
    let html = "<html><body>No markers</body></html>";
    let stripped = strip_fragment_markers(html);
    assert_eq!(stripped, html);
}

#[test]
fn strip_keeps_malformed_markers() {
    assert_eq!(strip_fragment_markers("<!--FRAG::START-->x"), "<!--FRAG::START-->x");
    assert_eq!(strip_fragment_markers("<!--FRAG:a-b:END-->x"), "<!--FRAG:a-b:END-->x");
    assert_eq!(strip_fragment_markers("<!--FRAG:naïve_1:END-->x"), "x");
}

#[test]
fn test_fragment_output_path_content_block() {
    let path = fragment_output_path("about.html", "content", "content", "_fragments");
    assert_eq!(path, "_fragments/about.html");
}

#[test]
fn test_fragment_output_path_nested_page() {
    let path = fragment_output_path("posts/my-post.html", "content", "content", "_fragments");
    assert_eq!(path, "_fragments/posts/my-post.html");
}

#[test]
fn test_fragment_output_path_non_content_block() {
    let path = fragment_output_path("about.html", "sidebar", "content", "_fragments");
    assert_eq!(path, "_fragments/about/sidebar.html");
}

#[test]
fn test_fragment_output_path_custom_fragment_dir() {
    let path = fragment_output_path("index.html", "content", "content", "_frags");
    assert_eq!(path, "_frags/index.html");
}

#[test]
fn fragment_output_path_clean_url_and_leading_slash() {
    assert_eq!(fragment_output_path("/about/index.html", "nav", "content", "_fragments"), "_fragments/about/nav.html");
    assert_eq!(fragment_output_path("/about/index.html", "content", "content", "_fragments/"), "_fragments/about/index.html");
}

#[test]
fn test_inject_oob_attr() {
    assert_eq!(
        inject_oob_attr(r#"<header id="nav" class="foo">content</header>"#),
        r#"<header id="nav" class="foo" hx-swap-oob="outerHTML">content</header>"#,
    );
}

#[test]
fn test_inject_oob_attr_self_closing() {
    assert_eq!(inject_oob_attr(r#"<br/>"#), r#"<br hx-swap-oob="outerHTML"/>"#);
}

#[test]
fn inject_oob_attr_trims_and_keeps_text_without_tag() {
    assert_eq!(inject_oob_attr("  <p>x</p>"), r#"<p hx-swap-oob="outerHTML">x</p>"#);
    assert_eq!(inject_oob_attr("  plain"), "  plain");
}

#[test]
fn fragment_files_merges_oob_blocks() {
    let frags = vec![
        Fragment { block_name: "content".into(), html: "<h1>Hi</h1>".into() },
        Fragment { block_name: "nav_header".into(), html: r#"<header id="nav">Nav</header>"#.into() },
        Fragment { block_name: "sidebar".into(), html: "<aside>Side</aside>".into() },
    ];
    let files = fragment_files("about.html", &frags, "content", "_fragments", &["nav_header".to_string()]);
    assert_eq!(files.len(), 2);
    assert_eq!(files[0].0, "_fragments/about.html");
    assert_eq!(files[0].1, r#"<h1>Hi</h1><header id="nav" hx-swap-oob="outerHTML">Nav</header>"#);
    assert_eq!(files[1].0, "_fragments/about/sidebar.html");
    assert_eq!(files[1].1, "<aside>Side</aside>");
}

#[test]
fn test_extract_block_names() {
    let html = "<!--FRAG:content:START--><h1>Hi</h1><!--FRAG:content:END--><!--FRAG:nav:START-->Nav<!--FRAG:nav:END-->";
    let names = extract_block_names(html);
    assert_eq!(names, vec!["content", "nav"]);
}

#[test]
fn test_extract_block_names_empty() {
    let html = "<html><body>No markers</body></html>";
    let names = extract_block_names(html);
    assert!(names.is_empty());
}

#[test]
fn strip_removes_markers_formed_by_stripping() {
    assert_eq!(strip_fragment_markers("x<!--FRAG:a<!--FRAG:b:END-->:END-->y"), "xy");
    let frags = extract_fragments("<!--FRAG:c:START-->p<!--FRAG:a<!--FRAG:b:END-->:END-->q<!--FRAG:c:END-->");
    assert_eq!(frags.len(), 1);
    assert_eq!(frags[0].html, "pq");
}
