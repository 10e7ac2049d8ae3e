use eigen::build::hints::preload::HeroPreload;
use eigen::build::hints::{has_existing_preload, hints_to_html, inject_into_head, inject_resource_hints, ResourceHint};
use eigen::config::HintsConfig;

fn test_config() -> HintsConfig {
    HintsConfig {
        enabled: true,
        auto_detect_hero: true,
        prefetch_links: true,
        max_prefetch: 5,
        hero_image_sizes: "100vw".to_string(),
        exclude_prefetch: Vec::new(),
    }
}

#[test]
fn test_inject_hints_disabled() {
    let html = r#"<html><head><title>T</title></head><body><img src="/hero.jpg" alt="H"></body></html>"#;
    let config = HintsConfig {
        enabled: false,
        ..test_config()
    };
    let result = inject_resource_hints(
        html,
        &config,
        None,
        None,
        "/index.html",
        "_fragments",
        true,
    );
    assert_eq!(result, html);
}

#[test]
fn test_inject_hero_from_frontmatter() {
    let html =
        r#"<html><head><title>T</title></head><body><p>No img</p></body></html>"#;
    let config = test_config();
    let result = inject_resource_hints(
        html,
        &config,
        None,
        Some("/assets/hero.jpg"),
        "/index.html",
        "_fragments",
        true,
    );
    assert!(result.contains(r#"rel="preload""#));
    assert!(result.contains(r#"href="/assets/hero.jpg""#));
    assert!(result.contains(r#"as="image""#));
}

#[test]
fn test_inject_hero_auto_detect() {
    let html = r#"<html><head><title>T</title></head><body><img src="/assets/banner.jpg" alt="Banner"></body></html>"#;
    let config = test_config();
    let result = inject_resource_hints(
        html,
        &config,
        None,
        None,
        "/index.html",
        "_fragments",
        true,
    );
    assert!(result.contains(r#"href="/assets/banner.jpg""#));
    assert!(result.contains(r#"rel="preload""#));
}

#[test]
fn mod_test_auto_detect_skips_lazy() {
    let html = r#"<html><head></head><body><img src="/lazy.jpg" loading="lazy" alt="L"><img src="/hero.jpg" alt="H"></body></html>"#;
    let config = test_config();
    let result = inject_resource_hints(
        html,
        &config,
        None,
        None,
        "/index.html",
        "_fragments",
        true,
    );
    assert!(result.contains(r#"href="/hero.jpg""#));
    assert!(!result.contains(r#"href="/lazy.jpg""#));
}

#[test]
fn test_inject_prefetch_links() {
    let html = r##"<html><head></head><body>
        <a href="/about.html" hx-get="/_fragments/about.html" hx-target="#content">About</a>
        <a href="/blog.html" hx-get="/_fragments/blog.html" hx-target="#content">Blog</a>
    </body></html>"##;
    let config = HintsConfig {
        auto_detect_hero: false,
        ..test_config()
    };
    let result = inject_resource_hints(
        html,
        &config,
        None,
        None,
        "/index.html",
        "_fragments",
        true,
    );
    assert!(result.contains(r#"rel="prefetch" href="/_fragments/about.html""#));
    assert!(result.contains(r#"rel="prefetch" href="/_fragments/blog.html""#));
}

#[test]
fn test_inject_combined() {
    let html = r#"<html><head></head><body>
            <img src="/hero.jpg" alt="Hero">
            <a hx-get="/_fragments/about.html">About</a>
        </body></html>"#;
    let config = test_config();
    let result = inject_resource_hints(
        html,
        &config,
        None,
        None,
        "/index.html",
        "_fragments",
        true,
    );
    // Both preload and prefetch should be present.
    assert!(result.contains(r#"rel="preload""#));
    assert!(result.contains(r#"rel="prefetch""#));
}

#[test]
fn test_no_head_element() {
    let html = r#"<div>No head element here</div>"#;
    let config = test_config();
    // Should not crash; hint_html has nowhere to go, but inject_into_head
    // will still return the HTML (lol_html won't match the `head` selector).
    let result = inject_resource_hints(
        html,
        &config,
        None,
        Some("/hero.jpg"),
        "/index.html",
        "_fragments",
        true,
    );
    // The function should return something (possibly unchanged if injection
    // had no effect, or with hints if lol_html just prepends to nothing).
    assert!(!result.is_empty());
}

#[test]
fn test_skip_existing_preload() {
    let html = r#"<html><head>
            <link rel="preload" as="image" href="/hero.jpg">
        </head><body><img src="/hero.jpg" alt="Hero"></body></html>"#;
    let config = test_config();
    let result = inject_resource_hints(
        html,
        &config,
        None,
        Some("/hero.jpg"),
        "/index.html",
        "_fragments",
        true,
    );
    // Should not duplicate the preload.
    let preload_count = result.matches(r#"rel="preload""#).count();
    assert_eq!(preload_count, 1);
}

#[test]
fn test_hints_injected_early_in_head() {
    let html = r#"<html><head><meta charset="UTF-8"><title>T</title></head><body><img src="/hero.jpg" alt="H"></body></html>"#;
    let config = test_config();
    let result = inject_resource_hints(
        html,
        &config,
        None,
        Some("/hero.jpg"),
        "/index.html",
        "_fragments",
        true,
    );
    // Hints should appear before the <meta> tag.
    let head_pos = result.find("<head>").unwrap();
    let preload_pos = result.find(r#"rel="preload""#).unwrap();
    let meta_pos = result.find("<meta").unwrap();
    assert!(preload_pos > head_pos);
    assert!(preload_pos < meta_pos);
}

#[test]
fn test_prefetch_is_document_when_no_fragments() {
    let html = r#"<html><head></head><body>
            <a href="/about.html">About</a>
        </body></html>"#;
    let config = HintsConfig {
        auto_detect_hero: false,
        ..test_config()
    };
    let result = inject_resource_hints(
        html,
        &config,
        None,
        None,
        "/index.html",
        "_fragments",
        false,
    );
    assert!(result.contains(r#"as="document""#));
}

#[test]
fn test_prefetch_no_as_document_with_fragments() {
    let html = r#"<html><head></head><body>
            <a hx-get="/_fragments/about.html">About</a>
        </body></html>"#;
    let config = HintsConfig {
        auto_detect_hero: false,
        ..test_config()
    };
    let result = inject_resource_hints(
        html,
        &config,
        None,
        None,
        "/index.html",
        "_fragments",
        true,
    );
    assert!(!result.contains(r#"as="document""#));
}

#[test]
fn test_hints_to_html_preload() {
    let hints = vec![ResourceHint::HeroPreload(HeroPreload {
        href: "/hero.jpg".to_string(),
        mime_type: "image/jpeg".to_string(),
        imagesrcset: None,
        imagesizes: None,
    })];
    let html = hints_to_html(&hints);
    assert_eq!(
        html,
        r#"<link rel="preload" as="image" href="/hero.jpg" type="image/jpeg">"#
    );
}

#[test]
fn test_hints_to_html_preload_responsive() {
    let hints = vec![ResourceHint::HeroPreload(HeroPreload {
        href: "/hero.jpg".to_string(),
        mime_type: "image/avif".to_string(),
        imagesrcset: Some(
            "/hero-480w.avif 480w, /hero-768w.avif 768w".to_string(),
        ),
        imagesizes: Some("100vw".to_string()),
    })];
    let html = hints_to_html(&hints);
    assert!(html.contains(
        r#"imagesrcset="/hero-480w.avif 480w, /hero-768w.avif 768w""#
    ));
    assert!(html.contains(r#"imagesizes="100vw""#));
    assert!(html.contains(r#"type="image/avif""#));
}

#[test]
fn test_hints_to_html_prefetch() {
    let hints = vec![ResourceHint::NavigationPrefetch {
        href: "/_fragments/about.html".to_string(),
        is_document: false,
    }];
    let html = hints_to_html(&hints);
    assert_eq!(
        html,
        r#"<link rel="prefetch" href="/_fragments/about.html">"#
    );
}

#[test]
fn test_hints_to_html_prefetch_document() {
    let hints = vec![ResourceHint::NavigationPrefetch {
        href: "/about.html".to_string(),
        is_document: true,
    }];
    let html = hints_to_html(&hints);
    assert_eq!(
        html,
        r#"<link rel="prefetch" href="/about.html" as="document">"#
    );
}

#[test]
fn test_inject_into_head() {
    let html = r#"<html><head><title>T</title></head></html>"#;
    let hint =
        r#"<link rel="preload" as="image" href="/hero.jpg" type="image/jpeg">"#;
    let result = inject_into_head(html, hint).unwrap();
    assert!(result.contains(hint));
    // Hint should be before <title>
    let hint_pos = result.find(r#"rel="preload""#).unwrap();
    let title_pos = result.find("<title>").unwrap();
    assert!(hint_pos < title_pos);
}

#[test]
fn test_has_existing_preload() {
    let html =
        r#"<head><link rel="preload" as="image" href="/hero.jpg"></head>"#;
    assert!(has_existing_preload(html, "/hero.jpg"));
    assert!(!has_existing_preload(html, "/other.jpg"));
}

#[test]
fn test_hero_from_picture_element() {
    let html = r#"<html><head></head><body>
            <picture>
                <source srcset="/hero-480w.avif 480w, /hero-768w.avif 768w" type="image/avif">
                <img src="/hero.jpg" alt="Hero">
            </picture>
        </body></html>"#;
    let config = test_config();
    let result = inject_resource_hints(
        html,
        &config,
        None,
        None,
        "/index.html",
        "_fragments",
        true,
    );
    assert!(result.contains(r#"imagesrcset="#));
    assert!(result.contains(r#"type="image/avif""#));
}
