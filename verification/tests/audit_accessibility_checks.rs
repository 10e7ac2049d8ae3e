use eigen::build::audit::checks::accessibility::{page_checks, site_checks};


#[test]
fn test_color_contrast_hint_always_emitted() {
    let findings = site_checks();
    assert!(findings.iter().any(|f| f.id == "a11y/color-contrast-hint"));
}

#[test]
fn test_missing_html_lang() {
    let html = "<html><head></head><body></body></html>";
    let findings = page_checks(html, "/test.html", "templates/test.html");
    assert!(findings.iter().any(|f| f.id == "a11y/html-lang"));
}

#[test]
fn test_has_html_lang() {
    let html = r#"<html lang="en"><head></head><body></body></html>"#;
    let findings = page_checks(html, "/test.html", "templates/test.html");
    assert!(!findings.iter().any(|f| f.id == "a11y/html-lang"));
}

#[test]
fn test_missing_viewport() {
    let html = "<html><head></head><body></body></html>";
    let findings = page_checks(html, "/test.html", "templates/test.html");
    assert!(findings.iter().any(|f| f.id == "a11y/viewport-meta"));
}

#[test]
fn test_has_viewport() {
    let html = r#"<html><head><meta name="viewport" content="width=device-width, initial-scale=1"></head><body></body></html>"#;
    let findings = page_checks(html, "/test.html", "templates/test.html");
    assert!(!findings.iter().any(|f| f.id == "a11y/viewport-meta"));
}

#[test]
fn test_img_missing_alt() {
    let html = r#"<html><head></head><body><img src="photo.jpg"></body></html>"#;
    let findings = page_checks(html, "/test.html", "templates/test.html");
    assert!(findings.iter().any(|f| f.id == "a11y/img-alt-text"));
}

#[test]
fn test_img_has_alt() {
    let html =
        r#"<html><head></head><body><img src="photo.jpg" alt="A photo"></body></html>"#;
    let findings = page_checks(html, "/test.html", "templates/test.html");
    assert!(!findings.iter().any(|f| f.id == "a11y/img-alt-text"));
}

#[test]
fn test_img_empty_alt_decorative() {
    let html =
        r#"<html><head></head><body><img src="spacer.gif" alt=""></body></html>"#;
    let findings = page_checks(html, "/test.html", "templates/test.html");
    assert!(!findings.iter().any(|f| f.id == "a11y/img-alt-text"));
}

#[test]
fn test_empty_link_text() {
    let html = r#"<html><head></head><body><a href="/foo"></a></body></html>"#;
    let findings = page_checks(html, "/test.html", "templates/test.html");
    assert!(findings.iter().any(|f| f.id == "a11y/link-text"));
}

#[test]
fn test_link_with_text() {
    let html =
        r#"<html><head></head><body><a href="/foo">Click here</a></body></html>"#;
    let findings = page_checks(html, "/test.html", "templates/test.html");
    assert!(!findings.iter().any(|f| f.id == "a11y/link-text"));
}

#[test]
fn test_link_with_aria_label_no_text() {
    let html = r#"<html><head></head><body><a href="/foo" aria-label="Home"></a></body></html>"#;
    let findings = page_checks(html, "/test.html", "templates/test.html");
    assert!(!findings.iter().any(|f| f.id == "a11y/link-text"));
}

#[test]
fn test_viewport_missing_width_device_width() {
    let html = r#"<html><head><meta name="viewport" content="initial-scale=1"></head><body></body></html>"#;
    let findings = page_checks(html, "/test.html", "templates/test.html");
    assert!(
        findings.iter().any(|f| f.id == "a11y/viewport-meta"),
        "viewport without width=device-width should be flagged"
    );
}

#[test]
fn test_multiple_imgs_some_missing_alt() {
    let html = r#"<html><head></head><body><img src="a.jpg" alt="ok"><img src="b.jpg"><img src="c.jpg" alt=""></body></html>"#;
    let findings = page_checks(html, "/test.html", "templates/test.html");
    let alt_findings: Vec<_> =
        findings.iter().filter(|f| f.id == "a11y/img-alt-text").collect();
    assert_eq!(alt_findings.len(), 1, "only b.jpg should be flagged");
}
