use eigen::build::not_found::{default_404_page, DEFAULT_404_HTML};

#[test]
fn test_writes_default_when_no_template() {
    let html = default_404_page(false).expect("the default page is written");
    assert!(html.contains("<!DOCTYPE html>"));
    assert!(html.contains("404"));
    assert!(html.contains("Page Not Found"));
    assert!(html.contains(r#"href="/""#), "Should contain a link back to home");
}

#[test]
fn test_skips_default_when_custom_template_exists() {
    assert!(default_404_page(true).is_none(), "Should NOT write default when custom template is present");
}

#[test]
fn test_default_html_is_valid_structure() {
    assert!(DEFAULT_404_HTML.contains("<!DOCTYPE html>"));
    assert!(DEFAULT_404_HTML.contains("</html>"));
    assert!(DEFAULT_404_HTML.contains("<style>"));
    assert!(DEFAULT_404_HTML.contains("404"));
}
