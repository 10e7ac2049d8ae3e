use eigen::build::hints::preload::{
    auto_detect_hero_image, build_hero_preload, extract_from_picture, infer_mime_type, preload_from_listing,
    resolve_hero_image, variant_search_dir,
};

#[test]
fn test_resolve_hero_frontmatter_priority() {
    let html = r#"<img src="/assets/auto.jpg">"#;
    let result = resolve_hero_image(html, Some("/assets/hero.jpg"), true);
    assert_eq!(result, Some("/assets/hero.jpg".to_string()));
}

#[test]
fn test_resolve_hero_auto_detect() {
    let html = r#"<html><body><img src="/assets/banner.jpg" alt="Hero"></body></html>"#;
    let result = resolve_hero_image(html, None, true);
    assert_eq!(result, Some("/assets/banner.jpg".to_string()));
}

#[test]
fn test_resolve_hero_auto_detect_disabled() {
    let html = r#"<img src="/assets/banner.jpg" alt="Hero">"#;
    let result = resolve_hero_image(html, None, false);
    assert!(result.is_none());
}

#[test]
fn preload_test_auto_detect_skips_lazy() {
    let html = r#"
            <img src="/assets/lazy.jpg" loading="lazy" alt="Lazy">
            <img src="/assets/hero.jpg" alt="Hero">
        "#;
    let result = auto_detect_hero_image(html);
    assert_eq!(result, Some("/assets/hero.jpg".to_string()));
}

#[test]
fn test_auto_detect_skips_small_icons() {
    let html = r#"
            <img src="/assets/icon.png" width="32" height="32" alt="Icon">
            <img src="/assets/hero.jpg" alt="Hero">
        "#;
    let result = auto_detect_hero_image(html);
    assert_eq!(result, Some("/assets/hero.jpg".to_string()));
}

#[test]
fn test_auto_detect_skips_decorative() {
    let html = r#"
            <img src="/assets/spacer.png" role="presentation">
            <img src="/assets/decorative.png" alt="">
            <img src="/assets/hero.jpg" alt="Hero">
        "#;
    let result = auto_detect_hero_image(html);
    assert_eq!(result, Some("/assets/hero.jpg".to_string()));
}

#[test]
fn test_auto_detect_no_qualifying_img() {
    let html = r#"
            <img src="/assets/icon.png" width="16" height="16" alt="x">
            <img src="/assets/lazy.jpg" loading="lazy" alt="Lazy">
        "#;
    let result = auto_detect_hero_image(html);
    assert!(result.is_none());
}

#[test]
fn test_extract_from_picture() {
    let html = r#"
            <picture>
                <source srcset="/assets/hero-480w-abc.avif 480w, /assets/hero-768w-abc.avif 768w" type="image/avif">
                <source srcset="/assets/hero-480w-abc.webp 480w, /assets/hero-768w-abc.webp 768w" type="image/webp">
                <img src="/assets/hero.jpg" alt="Hero" sizes="100vw">
            </picture>
        "#;
    let result = extract_from_picture("/assets/hero.jpg", html, "100vw");
    assert!(result.is_some());
    let preload = result.unwrap();
    assert_eq!(preload.href, "/assets/hero.jpg");
    assert_eq!(preload.mime_type, "image/avif");
    assert!(preload.imagesrcset.unwrap().contains("480w"));
    assert_eq!(preload.imagesizes, Some("100vw".to_string()));
}

#[test]
fn test_extract_from_picture_avif_preferred() {
    // The first <source> is AVIF (best format), so preload uses it.
    let html = r#"
            <picture>
                <source srcset="/hero-480w.avif 480w" type="image/avif">
                <source srcset="/hero-480w.webp 480w" type="image/webp">
                <img src="/hero.jpg" alt="Hero">
            </picture>
        "#;
    let result = extract_from_picture("/hero.jpg", html, "100vw");
    let preload = result.unwrap();
    assert_eq!(preload.mime_type, "image/avif");
}

#[test]
fn test_extract_from_picture_sizes_from_img() {
    let html = r#"
            <picture>
                <source srcset="/hero-480w.avif 480w" type="image/avif">
                <img src="/hero.jpg" sizes="(max-width: 600px) 100vw, 50vw" alt="Hero">
            </picture>
        "#;
    let result = extract_from_picture("/hero.jpg", html, "100vw");
    let preload = result.unwrap();
    assert_eq!(
        preload.imagesizes,
        Some("(max-width: 600px) 100vw, 50vw".to_string())
    );
}

#[test]
fn test_extract_from_picture_sizes_fallback() {
    let html = r#"
            <picture>
                <source srcset="/hero-480w.avif 480w" type="image/avif">
                <img src="/hero.jpg" alt="Hero">
            </picture>
        "#;
    let result = extract_from_picture("/hero.jpg", html, "100vw");
    let preload = result.unwrap();
    // No sizes on <img>, so fallback is used.
    assert_eq!(preload.imagesizes, Some("100vw".to_string()));
}

#[test]
fn test_extract_no_matching_picture() {
    let html = r#"
            <picture>
                <source srcset="/other-480w.avif 480w" type="image/avif">
                <img src="/other.jpg" alt="Other">
            </picture>
        "#;
    let result = extract_from_picture("/hero.jpg", html, "100vw");
    assert!(result.is_none());
}

#[test]
fn test_build_hero_preload_simple_no_variants() {
    // When there's no <picture> and no variants on disk, generate simple preload.
    let html = r#"<img src="/assets/hero.jpg" alt="Hero">"#;
    // The dist directory has no `assets/` directory.
    let preload = build_hero_preload("/assets/hero.jpg", html, None, "100vw");
    assert_eq!(preload.href, "/assets/hero.jpg");
    assert_eq!(preload.mime_type, "image/jpeg");
    assert!(preload.imagesrcset.is_none());
    assert!(preload.imagesizes.is_none());
}

#[test]
fn test_build_hero_preload_from_picture() {
    let html = r#"
            <picture>
                <source srcset="/assets/hero-480w-abc.avif 480w" type="image/avif">
                <img src="/assets/hero.jpg" alt="Hero">
            </picture>
        "#;
    // The dist directory has no `assets/` directory.
    let preload = build_hero_preload("/assets/hero.jpg", html, None, "100vw");
    assert_eq!(preload.mime_type, "image/avif");
    assert!(preload.imagesrcset.is_some());
}

#[test]
fn test_infer_mime_type() {
    assert_eq!(infer_mime_type("/img.jpg"), "image/jpeg");
    assert_eq!(infer_mime_type("/img.jpeg"), "image/jpeg");
    assert_eq!(infer_mime_type("/img.png"), "image/png");
    assert_eq!(infer_mime_type("/img.webp"), "image/webp");
    assert_eq!(infer_mime_type("/img.avif"), "image/avif");
    assert_eq!(infer_mime_type("/img.gif"), "image/gif");
    assert_eq!(infer_mime_type("/img.svg"), "image/svg+xml");
}

#[test]
fn test_scan_dist_for_variants_with_files() {
    // The files of `dist/assets/`.
    let listing = vec![
        "hero-480w-abcdef12.avif".to_string(),
        "hero-768w-abcdef12.avif".to_string(),
        "hero-480w-abcdef12.webp".to_string(),
    ];
    assert_eq!(variant_search_dir("/assets/hero.jpg"), Some("assets".to_string()));
    let result = preload_from_listing("/assets/hero.jpg", Some(listing.as_slice()), "100vw");
    assert!(result.is_some());
    let preload = result.unwrap();
    // Should prefer AVIF.
    assert_eq!(preload.mime_type, "image/avif");
    let srcset = preload.imagesrcset.unwrap();
    assert!(srcset.contains("480w"));
    assert!(srcset.contains("768w"));
    // Should not contain webp variants in the AVIF srcset.
    assert!(!srcset.contains("webp"));
}

#[test]
fn test_scan_dist_no_variants() {
    // `dist/assets/` is empty.
    let listing: Vec<String> = Vec::new();
    let result = preload_from_listing("/assets/hero.jpg", Some(listing.as_slice()), "100vw");
    assert!(result.is_none());
}

#[test]
fn scan_dist_treats_stem_dot_literally() {
    // The stem `hero.v2` must not match `heroxv2`: its dot is escaped.
    let listing = vec!["heroxv2-480w-abcdef12.avif".to_string()];
    assert!(preload_from_listing("/assets/hero.v2.jpg", Some(listing.as_slice()), "100vw").is_none());
    let listing = vec!["hero.v2-480w-abcdef12.avif".to_string()];
    assert!(preload_from_listing("/assets/hero.v2.jpg", Some(listing.as_slice()), "100vw").is_some());
}
