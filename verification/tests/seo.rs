use eigen::build::seo::{
    detect_existing_tags, escape_attr, generate_meta_html, has_canonical_link, inject_seo_tags,
    make_absolute_url, resolve_seo, resolve_seo_expressions, ResolvedSeo,
};
use eigen::config::{SeoMeta, SiteMeta, SiteSchemaConfig, SiteSeoConfig};

/// Build a minimal SiteMeta for testing.
fn test_site(name: &str, base_url: &str) -> SiteMeta {
    SiteMeta {
        name: name.to_string(),
        base_url: base_url.to_string(),
        seo: SiteSeoConfig::default(),
        schema: SiteSchemaConfig::default(),
        extra: std::collections::HashMap::new(),
    }
}

/// Build a SiteMeta with custom SEO defaults.
fn test_site_with_seo(name: &str, base_url: &str, seo: SiteSeoConfig) -> SiteMeta {
    SiteMeta {
        name: name.to_string(),
        base_url: base_url.to_string(),
        seo,
        schema: SiteSchemaConfig::default(),
        extra: std::collections::HashMap::new(),
    }
}

#[test]
fn test_escape_attr_special_chars() {
    assert_eq!(escape_attr(r#"He said "hello""#), r#"He said &quot;hello&quot;"#);
    assert_eq!(escape_attr("A & B"), "A &amp; B");
    assert_eq!(escape_attr("<tag>"), "&lt;tag&gt;");
    assert_eq!(escape_attr("plain text"), "plain text");
}

#[test]
fn test_escape_attr_empty() {
    assert_eq!(escape_attr(""), "");
}

#[test]
fn test_make_absolute_url_already_absolute() {
    assert_eq!(
        make_absolute_url("https://cdn.example.com/img.jpg", "https://example.com"),
        "https://cdn.example.com/img.jpg",
    );
}

#[test]
fn test_make_absolute_url_relative_path() {
    assert_eq!(
        make_absolute_url("/assets/hero.jpg", "https://example.com"),
        "https://example.com/assets/hero.jpg",
    );
}

#[test]
fn test_make_absolute_url_base_trailing_slash() {
    assert_eq!(
        make_absolute_url("/about.html", "https://example.com/"),
        "https://example.com/about.html",
    );
}

#[test]
fn test_resolve_seo_all_defaults() {
    let site = test_site("My Site", "https://example.com");
    let seo = SeoMeta::default();
    let resolved = resolve_seo(&seo, &site, "/about.html");

    assert_eq!(resolved.title, "My Site");
    assert!(resolved.description.is_none());
    assert!(resolved.image.is_none());
    assert_eq!(resolved.og_type, "website");
    assert_eq!(resolved.twitter_card, "summary"); // no image -> summary
    assert!(resolved.twitter_site.is_none());
    assert_eq!(resolved.canonical_url, "https://example.com/about.html");
    assert_eq!(resolved.site_name, "My Site");
}

#[test]
fn test_resolve_seo_frontmatter_overrides() {
    let site = test_site_with_seo("My Site", "https://example.com", SiteSeoConfig {
        title: Some("Site Default Title".into()),
        description: Some("Site default desc".into()),
        ..SiteSeoConfig::default()
    });
    let seo = SeoMeta {
        title: Some("Page Title".into()),
        description: Some("Page description".into()),
        ..SeoMeta::default()
    };
    let resolved = resolve_seo(&seo, &site, "/page.html");

    assert_eq!(resolved.title, "Page Title");
    assert_eq!(resolved.description.as_deref(), Some("Page description"));
}

#[test]
fn test_resolve_seo_site_defaults_fill_gaps() {
    let site = test_site_with_seo("My Site", "https://example.com", SiteSeoConfig {
        description: Some("Site description".into()),
        image: Some("/assets/default-share.jpg".into()),
        ..SiteSeoConfig::default()
    });
    let seo = SeoMeta::default(); // no frontmatter overrides
    let resolved = resolve_seo(&seo, &site, "/page.html");

    assert_eq!(resolved.description.as_deref(), Some("Site description"));
    assert_eq!(resolved.image.as_deref(), Some("https://example.com/assets/default-share.jpg"));
}

#[test]
fn test_resolve_seo_canonical_url_auto() {
    let site = test_site("My Site", "https://example.com");
    let seo = SeoMeta::default();
    let resolved = resolve_seo(&seo, &site, "/blog/post.html");

    assert_eq!(resolved.canonical_url, "https://example.com/blog/post.html");
}

#[test]
fn test_resolve_seo_canonical_url_override() {
    let site = test_site("My Site", "https://example.com");
    let seo = SeoMeta {
        canonical_url: Some("https://original-source.com/article".into()),
        ..SeoMeta::default()
    };
    let resolved = resolve_seo(&seo, &site, "/syndicated.html");

    assert_eq!(resolved.canonical_url, "https://original-source.com/article");
}

#[test]
fn test_resolve_seo_canonical_strips_index() {
    let site = test_site("My Site", "https://example.com");
    let seo = SeoMeta::default();

    let resolved = resolve_seo(&seo, &site, "/index.html");
    assert_eq!(resolved.canonical_url, "https://example.com/");

    let resolved = resolve_seo(&seo, &site, "/blog/index.html");
    assert_eq!(resolved.canonical_url, "https://example.com/blog/");
}

#[test]
fn test_resolve_seo_image_absolute_url() {
    let site = test_site("My Site", "https://example.com");
    let seo = SeoMeta {
        image: Some("https://cdn.example.com/photo.jpg".into()),
        ..SeoMeta::default()
    };
    let resolved = resolve_seo(&seo, &site, "/page.html");

    assert_eq!(resolved.image.as_deref(), Some("https://cdn.example.com/photo.jpg"));
}

#[test]
fn test_resolve_seo_image_relative_path() {
    let site = test_site("My Site", "https://example.com");
    let seo = SeoMeta {
        image: Some("/assets/hero.jpg".into()),
        ..SeoMeta::default()
    };
    let resolved = resolve_seo(&seo, &site, "/page.html");

    assert_eq!(resolved.image.as_deref(), Some("https://example.com/assets/hero.jpg"));
}

#[test]
fn test_resolve_seo_base_url_slash_normalization() {
    let site = test_site("My Site", "https://example.com/");
    let seo = SeoMeta {
        image: Some("/assets/hero.jpg".into()),
        ..SeoMeta::default()
    };
    let resolved = resolve_seo(&seo, &site, "/about.html");

    // No double slash.
    assert_eq!(resolved.image.as_deref(), Some("https://example.com/assets/hero.jpg"));
    assert_eq!(resolved.canonical_url, "https://example.com/about.html");
}

#[test]
fn test_resolve_seo_twitter_card_no_image() {
    let site = test_site("My Site", "https://example.com");
    let seo = SeoMeta::default(); // no image
    let resolved = resolve_seo(&seo, &site, "/page.html");

    assert_eq!(resolved.twitter_card, "summary");
}

#[test]
fn test_resolve_seo_twitter_card_with_image() {
    let site = test_site("My Site", "https://example.com");
    let seo = SeoMeta {
        image: Some("/assets/hero.jpg".into()),
        ..SeoMeta::default()
    };
    let resolved = resolve_seo(&seo, &site, "/page.html");

    assert_eq!(resolved.twitter_card, "summary_large_image");
}

#[test]
fn test_generate_meta_html_full() {
    let seo = ResolvedSeo {
        title: "My Page".into(),
        description: Some("A description".into()),
        image: Some("https://example.com/img.jpg".into()),
        og_type: "website".into(),
        twitter_card: "summary_large_image".into(),
        twitter_site: Some("@mysite".into()),
        canonical_url: "https://example.com/page.html".into(),
        site_name: "My Site".into(),
    };
    let html = generate_meta_html(&seo, &Vec::new(), false);

    assert!(html.contains(r#"<meta property="og:title" content="My Page">"#));
    assert!(html.contains(r#"<meta property="og:description" content="A description">"#));
    assert!(html.contains(r#"<meta property="og:image" content="https://example.com/img.jpg">"#));
    assert!(html.contains(r#"<meta property="og:url" content="https://example.com/page.html">"#));
    assert!(html.contains(r#"<meta property="og:type" content="website">"#));
    assert!(html.contains(r#"<meta property="og:site_name" content="My Site">"#));
    assert!(html.contains(r#"<meta name="twitter:card" content="summary_large_image">"#));
    assert!(html.contains(r#"<meta name="twitter:title" content="My Page">"#));
    assert!(html.contains(r#"<meta name="twitter:description" content="A description">"#));
    assert!(html.contains(r#"<meta name="twitter:image" content="https://example.com/img.jpg">"#));
    assert!(html.contains(r#"<meta name="twitter:site" content="@mysite">"#));
    assert!(html.contains(r#"<link rel="canonical" href="https://example.com/page.html">"#));
}

#[test]
fn test_generate_meta_html_no_description() {
    let seo = ResolvedSeo {
        title: "My Page".into(),
        description: None,
        image: None,
        og_type: "website".into(),
        twitter_card: "summary".into(),
        twitter_site: None,
        canonical_url: "https://example.com/page.html".into(),
        site_name: "My Site".into(),
    };
    let html = generate_meta_html(&seo, &Vec::new(), false);

    assert!(!html.contains("og:description"));
    assert!(!html.contains("twitter:description"));
}

#[test]
fn test_generate_meta_html_no_image() {
    let seo = ResolvedSeo {
        title: "My Page".into(),
        description: None,
        image: None,
        og_type: "website".into(),
        twitter_card: "summary".into(),
        twitter_site: None,
        canonical_url: "https://example.com/page.html".into(),
        site_name: "My Site".into(),
    };
    let html = generate_meta_html(&seo, &Vec::new(), false);

    assert!(!html.contains("og:image"));
    assert!(!html.contains("twitter:image"));
}

#[test]
fn test_generate_meta_html_skips_existing() {
    let seo = ResolvedSeo {
        title: "My Page".into(),
        description: Some("Desc".into()),
        image: None,
        og_type: "website".into(),
        twitter_card: "summary".into(),
        twitter_site: None,
        canonical_url: "https://example.com/page.html".into(),
        site_name: "My Site".into(),
    };
    let mut existing: Vec<String> = Vec::new();
    existing.push("og:title".into());
    existing.push("twitter:card".into());
    let html = generate_meta_html(&seo, &existing, false);

    assert!(!html.contains(r#"<meta property="og:title""#));
    assert!(!html.contains(r#"<meta name="twitter:card""#));
    // Other tags should still be present.
    assert!(html.contains(r#"<meta property="og:description""#));
    assert!(html.contains(r#"<meta name="twitter:title""#));
}

#[test]
fn test_generate_meta_html_skips_canonical() {
    let seo = ResolvedSeo {
        title: "My Page".into(),
        description: None,
        image: None,
        og_type: "website".into(),
        twitter_card: "summary".into(),
        twitter_site: None,
        canonical_url: "https://example.com/page.html".into(),
        site_name: "My Site".into(),
    };
    let html = generate_meta_html(&seo, &Vec::new(), true);

    assert!(!html.contains("canonical"));
}

#[test]
fn test_inject_seo_tags_basic() {
    let html = "<html><head><title>Test</title></head><body>Hello</body></html>";
    let site = test_site("My Site", "https://example.com");
    let seo = SeoMeta {
        title: Some("Page Title".into()),
        description: Some("Page desc".into()),
        ..SeoMeta::default()
    };
    let result = inject_seo_tags(html, &seo, &site, "/page.html");

    assert!(result.contains(r#"<meta property="og:title" content="Page Title">"#));
    assert!(result.contains(r#"<meta property="og:description" content="Page desc">"#));
    assert!(result.contains(r#"<meta name="twitter:card" content="summary">"#));
    assert!(result.contains(r#"<link rel="canonical" href="https://example.com/page.html">"#));
    // Original content is preserved.
    assert!(result.contains("<title>Test</title>"));
    assert!(result.contains("Hello"));
}

#[test]
fn test_inject_seo_tags_no_head() {
    let html = "<div>No head element</div>";
    let site = test_site("My Site", "https://example.com");
    let seo = SeoMeta::default();
    let result = inject_seo_tags(html, &seo, &site, "/page.html");

    // Should not crash. No <head> means no injection target --
    // lol_html returns the HTML without matching the `head` selector.
    assert!(!result.is_empty());
    assert!(result.contains("No head element"));
    // No meta tags injected.
    assert!(!result.contains("og:title"));
}

#[test]
fn test_inject_seo_tags_all_existing() {
    let html = r#"<html><head><meta property="og:title" content="Existing"><meta property="og:url" content="https://example.com/page"><meta property="og:type" content="website"><meta property="og:site_name" content="Site"><meta name="twitter:card" content="summary"><meta name="twitter:title" content="Existing"><link rel="canonical" href="https://example.com/page"></head><body></body></html>"#;
    let site = test_site("My Site", "https://example.com");
    let seo = SeoMeta::default();
    let result = inject_seo_tags(html, &seo, &site, "/page.html");

    // No new tags injected -- the existing ones are preserved, no duplicates.
    // Count og:title occurrences to ensure no duplication.
    assert_eq!(result.matches("og:title").count(), 1);
    assert_eq!(result.matches("twitter:card").count(), 1);
}

#[test]
fn test_inject_seo_tags_partial_existing() {
    let html = r#"<html><head><meta property="og:title" content="Custom Title"></head><body></body></html>"#;
    let site = test_site("My Site", "https://example.com");
    let seo = SeoMeta {
        title: Some("Page Title".into()),
        ..SeoMeta::default()
    };
    let result = inject_seo_tags(html, &seo, &site, "/page.html");

    // og:title should NOT be duplicated (existing one kept).
    assert_eq!(result.matches("og:title").count(), 1);
    assert!(result.contains("Custom Title"));
    // But other tags should be injected.
    assert!(result.contains("og:url"));
    assert!(result.contains("og:type"));
    assert!(result.contains("twitter:card"));
    assert!(result.contains("canonical"));
}

#[test]
fn test_detect_existing_og_tags() {
    let html = r#"<html><head><meta property="og:title" content="Test"></head><body></body></html>"#;
    let tags = detect_existing_tags(html);
    assert!(tags.iter().any(|t| t == "og:title"));
    assert!(!tags.iter().any(|t| t == "og:description"));
}

#[test]
fn test_detect_existing_twitter_tags() {
    let html = r#"<html><head><meta name="twitter:card" content="summary"></head><body></body></html>"#;
    let tags = detect_existing_tags(html);
    assert!(tags.iter().any(|t| t == "twitter:card"));
    assert!(!tags.iter().any(|t| t == "twitter:title"));
}

#[test]
fn test_detect_no_existing_tags() {
    let html = r#"<html><head><title>Page</title></head><body></body></html>"#;
    let tags = detect_existing_tags(html);
    assert!(tags.is_empty());
}

#[test]
fn test_has_canonical_link_present() {
    let html = r#"<html><head><link rel="canonical" href="https://example.com/page"></head><body></body></html>"#;
    assert!(has_canonical_link(html));
}

#[test]
fn test_has_canonical_link_absent() {
    let html = r#"<html><head><title>Page</title></head><body></body></html>"#;
    assert!(!has_canonical_link(html));
}

fn json_context(text: &str) -> minijinja::Value {
    let v: serde_json::Value = serde_json::from_str(text).unwrap();
    minijinja::Value::from_serialize(&v)
}

#[test]
fn test_resolve_seo_expressions_basic() {
    let mut env = minijinja::Environment::new();
    env.set_undefined_behavior(minijinja::UndefinedBehavior::Strict);
    let ctx = json_context(r#"{"post": {"title": "Hello World", "excerpt": "An intro"}}"#);
    let seo = SeoMeta {
        title: Some("{{ post.title }} | Blog".into()),
        description: Some("{{ post.excerpt }}".into()),
        image: None,
        og_type: Some("article".into()),
        twitter_card: None,
        canonical_url: None,
    };
    let resolved = resolve_seo_expressions(&seo, &env, &ctx);

    assert_eq!(resolved.title.as_deref(), Some("Hello World | Blog"));
    assert_eq!(resolved.description.as_deref(), Some("An intro"));
    assert_eq!(resolved.og_type.as_deref(), Some("article"));
}

#[test]
fn test_resolve_seo_expressions_no_expressions() {
    let env = minijinja::Environment::new();
    let ctx = minijinja::Value::from(true);
    let seo = SeoMeta {
        title: Some("Static Title".into()),
        description: Some("Static desc".into()),
        ..SeoMeta::default()
    };
    let resolved = resolve_seo_expressions(&seo, &env, &ctx);

    assert_eq!(resolved.title.as_deref(), Some("Static Title"));
    assert_eq!(resolved.description.as_deref(), Some("Static desc"));
}

#[test]
fn test_resolve_seo_expressions_empty_result() {
    let env = minijinja::Environment::new();
    let ctx = json_context(r#"{"post": {"excerpt": ""}}"#);
    let seo = SeoMeta {
        description: Some("{{ post.excerpt }}".into()),
        ..SeoMeta::default()
    };
    let resolved = resolve_seo_expressions(&seo, &env, &ctx);

    assert!(resolved.description.is_none());
}

#[test]
fn test_resolve_seo_expressions_missing_var() {
    let mut env = minijinja::Environment::new();
    env.set_undefined_behavior(minijinja::UndefinedBehavior::Strict);
    let ctx = json_context("{}");
    let seo = SeoMeta {
        title: Some("{{ nonexistent.field }}".into()),
        description: Some("Static fallback".into()),
        ..SeoMeta::default()
    };
    let resolved = resolve_seo_expressions(&seo, &env, &ctx);

    assert!(resolved.title.is_none());
    assert_eq!(resolved.description.as_deref(), Some("Static fallback"));
}

#[test]
fn resolve_seo_expressions_trims_rendering_and_keeps_absent_fields() {
    let env = minijinja::Environment::new();
    let ctx = json_context(r#"{"name": "  Padded  "}"#);
    let seo = SeoMeta {
        image: Some("{{ name }}".into()),
        ..SeoMeta::default()
    };
    let resolved = resolve_seo_expressions(&seo, &env, &ctx);

    assert_eq!(resolved.image.as_deref(), Some("Padded"));
    assert!(resolved.title.is_none());
    assert!(resolved.canonical_url.is_none());
}
