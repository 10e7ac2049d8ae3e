use eigen::assets::html_rewrite::{
    apply_lazy_loading, build_picture_html, collect_img_srcs, determine_format_order, escape_attr,
    images_to_optimize, is_qualifying_image, optimize_and_rewrite_images, resolve_loading_attrs,
    rewrite_img_to_picture, ImageVariant, ImageVariants, LazyLoadContext,
};
use eigen::config::ImageOptimConfig;

fn attrs(pairs: &[(&str, &str)]) -> Vec<(String, String)> {
    pairs.iter().map(|(k, v)| (k.to_string(), v.to_string())).collect()
}

fn variants_webp_jpeg() -> ImageVariants {
    ImageVariants {
        original_width: 800,
        original_height: 600,
        by_format: vec![
            (
                "webp".to_string(),
                vec![
                    ImageVariant { url_path: "/assets/photo-480w.webp".to_string(), width: 480, mime_type: "image/webp".to_string() },
                    ImageVariant { url_path: "/assets/photo-800w.webp".to_string(), width: 800, mime_type: "image/webp".to_string() },
                ],
            ),
            (
                "jpeg".to_string(),
                vec![
                    ImageVariant { url_path: "/assets/photo-480w.jpg".to_string(), width: 480, mime_type: "image/jpeg".to_string() },
                    ImageVariant { url_path: "/assets/photo-800w.jpg".to_string(), width: 800, mime_type: "image/jpeg".to_string() },
                ],
            ),
        ],
        original_format: "jpeg".to_string(),
    }
}

#[test]
fn test_collect_img_srcs() {
    let html = r#"<img src="/assets/a.jpg" alt="A"><p>text</p><img src="/assets/b.png">"#;
    let srcs = collect_img_srcs(html).unwrap();
    assert_eq!(srcs, vec!["/assets/a.jpg", "/assets/b.png"]);
}

#[test]
fn test_collect_img_srcs_no_src() {
    let html = r#"<img alt="no src"><div>hello</div>"#;
    let srcs = collect_img_srcs(html).unwrap();
    assert!(srcs.is_empty());
}

#[test]
fn test_escape_attr() {
    assert_eq!(escape_attr("hello"), "hello");
    assert_eq!(escape_attr(r#"a"b"#), "a&quot;b");
    assert_eq!(escape_attr("a&b"), "a&amp;b");
}

#[test]
fn test_determine_format_order() {
    let variants = ImageVariants {
        original_width: 800,
        original_height: 600,
        by_format: vec![("avif".to_string(), vec![]), ("webp".to_string(), vec![]), ("jpeg".to_string(), vec![])],
        original_format: "jpeg".to_string(),
    };
    let order = determine_format_order(&variants);
    assert_eq!(order, vec!["avif", "webp", "jpeg"]);
}

#[test]
fn test_determine_format_order_webp_original() {
    let variants = ImageVariants {
        original_width: 800,
        original_height: 600,
        by_format: vec![("avif".to_string(), vec![]), ("webp".to_string(), vec![])],
        original_format: "webp".to_string(),
    };
    let order = determine_format_order(&variants);
    assert_eq!(order, vec!["avif", "webp"]);
}

#[test]
fn determine_format_order_other_formats_in_between() {
    let variants = ImageVariants {
        original_width: 1,
        original_height: 1,
        by_format: vec![("png".to_string(), vec![]), ("webp".to_string(), vec![]), ("gif".to_string(), vec![])],
        original_format: "png".to_string(),
    };
    assert_eq!(determine_format_order(&variants), vec!["webp", "gif", "png"]);
}

#[test]
fn build_picture_html_exact() {
    let a = attrs(&[("src", "/assets/photo.jpg"), ("alt", "a \"b\""), ("loading", "lazy"), ("data-eager", "")]);
    let html = build_picture_html(&a, &variants_webp_jpeg(), Some("eager"), None, true);
    assert_eq!(
        html,
        "<picture>\n  <source srcset=\"/assets/photo-480w.webp 480w, /assets/photo-800w.webp 800w\" type=\"image/webp\">\n  <source srcset=\"/assets/photo-480w.jpg 480w, /assets/photo-800w.jpg 800w\" type=\"image/jpeg\">\n  <img src=\"/assets/photo.jpg\" alt=\"a &quot;b&quot;\" loading=\"eager\">\n</picture>"
    );
}

#[test]
fn test_build_picture_html_structure() {
    let html = r#"<img src="/assets/photo.jpg" alt="test" class="hero">"#;
    let map = vec![("/assets/photo.jpg".to_string(), variants_webp_jpeg())];
    let result = rewrite_img_to_picture(html, &map, None).unwrap();
    assert!(result.contains("<picture>"));
    assert!(result.contains("</picture>"));
    assert!(result.contains(r#"type="image/webp""#));
    assert!(result.contains(r#"type="image/jpeg""#));
    assert!(result.contains("480w"));
    assert!(result.contains("800w"));
    assert!(result.contains(r#"alt="test""#));
    assert!(result.contains(r#"class="hero""#));
    assert!(result.contains(r#"src="/assets/photo.jpg""#));
    assert!(result.contains(r#"loading="eager""#));
}

#[test]
fn test_rewrite_leaves_unmatched_imgs() {
    let html = r#"<img src="/assets/unknown.jpg" alt="x">"#;
    let map: Vec<(String, ImageVariants)> = Vec::new();
    let result = rewrite_img_to_picture(html, &map, None).unwrap();
    assert!(result.contains(r#"src="/assets/unknown.jpg""#));
    assert!(result.contains(r#"alt="x""#));
    assert!(result.contains(r#"loading="eager""#));
}

#[test]
fn test_rewrite_preserves_non_img_html() {
    let html = r#"<div><p>Hello</p><img src="/other.jpg"></div>"#;
    let map: Vec<(String, ImageVariants)> = Vec::new();
    let result = rewrite_img_to_picture(html, &map, None).unwrap();
    assert!(result.contains("<div>"));
    assert!(result.contains("<p>Hello</p>"));
}

#[test]
fn test_lazy_context_first_image_is_eager() {
    let mut ctx = LazyLoadContext::new(None);
    let a = attrs(&[("src", "/assets/photo.jpg"), ("alt", "Photo")]);
    assert!(ctx.is_eager("/assets/photo.jpg", &a));
    assert!(ctx.first_seen);
}

#[test]
fn test_lazy_context_second_image_is_lazy() {
    let mut ctx = LazyLoadContext::new(None);
    let attrs1 = attrs(&[("src", "/assets/first.jpg"), ("alt", "First")]);
    let attrs2 = attrs(&[("src", "/assets/second.jpg"), ("alt", "Second")]);
    assert!(ctx.is_eager("/assets/first.jpg", &attrs1));
    assert!(!ctx.is_eager("/assets/second.jpg", &attrs2));
}

#[test]
fn test_lazy_context_hero_image_is_eager() {
    let mut ctx = LazyLoadContext::new(Some("/assets/hero.jpg"));
    let a = attrs(&[("src", "/assets/hero.jpg"), ("alt", "Hero")]);
    assert!(ctx.is_eager("/assets/hero.jpg", &a));
    assert!(ctx.first_seen);
}

#[test]
fn test_lazy_context_data_eager_does_not_consume_first() {
    let mut ctx = LazyLoadContext::new(None);
    let attrs_eager = attrs(&[("src", "/assets/promo.jpg"), ("alt", "Promo"), ("data-eager", "")]);
    let attrs_first = attrs(&[("src", "/assets/first.jpg"), ("alt", "First")]);
    assert!(ctx.is_eager("/assets/promo.jpg", &attrs_eager));
    assert!(!ctx.first_seen);
    assert!(ctx.is_eager("/assets/first.jpg", &attrs_first));
    assert!(ctx.first_seen);
}

#[test]
fn test_is_qualifying_image_normal() {
    assert!(is_qualifying_image(&attrs(&[("src", "/assets/photo.jpg"), ("alt", "Photo")])));
}

#[test]
fn test_is_qualifying_image_decorative_alt() {
    assert!(!is_qualifying_image(&attrs(&[("src", "/assets/divider.png"), ("alt", "")])));
}

#[test]
fn test_is_qualifying_image_decorative_role() {
    assert!(!is_qualifying_image(&attrs(&[("src", "/assets/bg.jpg"), ("role", "presentation")])));
}

#[test]
fn test_is_qualifying_image_small_icon() {
    let a = attrs(&[("src", "/assets/icon.png"), ("alt", "Icon"), ("width", "32"), ("height", "32")]);
    assert!(!is_qualifying_image(&a));
}

#[test]
fn test_is_qualifying_image_data_uri() {
    let a = attrs(&[("src", "data:image/png;base64,abc"), ("alt", "Inline")]);
    assert!(!is_qualifying_image(&a));
}

#[test]
fn test_is_qualifying_image_large_dimensions() {
    let a = attrs(&[("src", "/assets/banner.jpg"), ("alt", "Banner"), ("width", "800"), ("height", "400")]);
    assert!(is_qualifying_image(&a));
}

#[test]
fn test_is_qualifying_image_one_dimension_large() {
    let a = attrs(&[("src", "/assets/strip.jpg"), ("alt", "Strip"), ("width", "200"), ("height", "50")]);
    assert!(is_qualifying_image(&a));
}

#[test]
fn is_qualifying_image_unparsable_dimensions_count_as_unknown() {
    let a = attrs(&[("src", "/a.jpg"), ("alt", "A"), ("width", "32px"), ("height", "32")]);
    assert!(is_qualifying_image(&a));
    let b = attrs(&[("src", "/a.jpg"), ("alt", "A"), ("width", "+32"), ("height", "032")]);
    assert!(!is_qualifying_image(&b));
}

#[test]
fn test_resolve_loading_attrs_lazy() {
    let mut ctx = LazyLoadContext::new(None);
    ctx.first_seen = true;
    let a = attrs(&[("src", "/assets/photo.jpg"), ("alt", "Photo")]);
    let (loading, decoding, remove) = resolve_loading_attrs("/assets/photo.jpg", &a, &mut ctx);
    assert_eq!(loading, Some("lazy"));
    assert_eq!(decoding, Some("async"));
    assert!(!remove);
}

#[test]
fn test_resolve_loading_attrs_first_eager() {
    let mut ctx = LazyLoadContext::new(None);
    let a = attrs(&[("src", "/assets/photo.jpg"), ("alt", "Photo")]);
    let (loading, decoding, remove) = resolve_loading_attrs("/assets/photo.jpg", &a, &mut ctx);
    assert_eq!(loading, Some("eager"));
    assert_eq!(decoding, None);
    assert!(!remove);
}

#[test]
fn test_resolve_loading_attrs_data_eager() {
    let mut ctx = LazyLoadContext::new(None);
    ctx.first_seen = true;
    let a = attrs(&[("src", "/assets/promo.jpg"), ("alt", "Promo"), ("data-eager", "")]);
    let (loading, decoding, remove) = resolve_loading_attrs("/assets/promo.jpg", &a, &mut ctx);
    assert_eq!(loading, Some("eager"));
    assert_eq!(decoding, None);
    assert!(remove);
}

#[test]
fn test_resolve_loading_attrs_explicit_preserved() {
    let mut ctx = LazyLoadContext::new(None);
    ctx.first_seen = true;
    let a = attrs(&[("src", "/assets/photo.jpg"), ("alt", "Photo"), ("loading", "eager")]);
    let (loading, _decoding, remove) = resolve_loading_attrs("/assets/photo.jpg", &a, &mut ctx);
    assert_eq!(loading, None);
    assert!(!remove);
}

#[test]
fn test_resolve_loading_attrs_explicit_decoding_preserved() {
    let mut ctx = LazyLoadContext::new(None);
    ctx.first_seen = true;
    let a = attrs(&[("src", "/assets/photo.jpg"), ("alt", "Photo"), ("decoding", "sync")]);
    let (loading, decoding, remove) = resolve_loading_attrs("/assets/photo.jpg", &a, &mut ctx);
    assert_eq!(loading, Some("lazy"));
    assert_eq!(decoding, None);
    assert!(!remove);
}

#[test]
fn test_resolve_loading_attrs_data_eager_overrides_lazy() {
    let mut ctx = LazyLoadContext::new(None);
    ctx.first_seen = true;
    let a = attrs(&[("src", "/assets/photo.jpg"), ("alt", "Photo"), ("loading", "lazy"), ("data-eager", "")]);
    let (loading, _decoding, remove) = resolve_loading_attrs("/assets/photo.jpg", &a, &mut ctx);
    assert_eq!(loading, Some("eager"));
    assert!(remove);
}

#[test]
fn test_apply_lazy_loading_default() {
    let html = r#"<img src="/a.jpg" alt="A"><img src="/b.jpg" alt="B"><img src="/c.jpg" alt="C">"#;
    let result = apply_lazy_loading(html, None).unwrap();
    assert!(result.contains(r#"src="/a.jpg""#));
    assert!(result.contains(r#"loading="eager""#));
    assert!(result.contains(r#"loading="lazy""#));
    assert!(result.contains(r#"decoding="async""#));
}

#[test]
fn test_apply_lazy_loading_no_images() {
    let html = "<div><p>Hello</p></div>";
    let result = apply_lazy_loading(html, None).unwrap();
    assert_eq!(result, html);
}

#[test]
fn test_apply_lazy_loading_hero_image() {
    let html = r#"<img src="/b.jpg" alt="B"><img src="/hero.jpg" alt="Hero"><img src="/c.jpg" alt="C">"#;
    let result = apply_lazy_loading(html, Some("/hero.jpg")).unwrap();
    assert!(result.contains(r#"src="/hero.jpg""#));
    let lazy_count = result.matches(r#"loading="lazy""#).count();
    assert_eq!(lazy_count, 1);
}

#[test]
fn test_apply_lazy_loading_data_eager_stripped() {
    let html = r#"<img src="/a.jpg" alt="A"><img src="/b.jpg" alt="B" data-eager>"#;
    let result = apply_lazy_loading(html, None).unwrap();
    assert!(!result.contains("data-eager"));
}

#[test]
fn test_apply_lazy_loading_explicit_loading_preserved() {
    let html = r#"<img src="/a.jpg" alt="A"><img src="/b.jpg" alt="B" loading="eager">"#;
    let result = apply_lazy_loading(html, None).unwrap();
    let eager_count = result.matches(r#"loading="eager""#).count();
    assert_eq!(eager_count, 2);
}

#[test]
fn test_apply_lazy_loading_all_decorative() {
    let html = r#"<img src="/a.png" alt=""><img src="/b.png" alt="">"#;
    let result = apply_lazy_loading(html, None).unwrap();
    let lazy_count = result.matches(r#"loading="lazy""#).count();
    assert_eq!(lazy_count, 2);
}

#[test]
fn test_apply_lazy_loading_external_images() {
    let html = r#"<img src="/a.jpg" alt="A"><img src="https://cdn.example.com/photo.jpg" alt="External">"#;
    let result = apply_lazy_loading(html, None).unwrap();
    assert!(result.contains(r#"loading="lazy""#));
}

#[test]
fn test_apply_lazy_loading_first_skips_decorative() {
    let html = r#"<img src="/decorative.png" alt=""><img src="/real.jpg" alt="Real"><img src="/other.jpg" alt="Other">"#;
    let result = apply_lazy_loading(html, None).unwrap();
    let lazy_count = result.matches(r#"loading="lazy""#).count();
    assert_eq!(lazy_count, 2);
    let eager_count = result.matches(r#"loading="eager""#).count();
    assert_eq!(eager_count, 1);
}

#[test]
fn apply_lazy_loading_exact_output() {
    let html = r#"<img src="/a.jpg" alt="A"><img src="/b.jpg" alt="B">"#;
    let result = apply_lazy_loading(html, None).unwrap();
    assert_eq!(result, r#"<img src="/a.jpg" alt="A" loading="eager"><img src="/b.jpg" alt="B" loading="lazy" decoding="async">"#);
}

#[test]
fn test_rewrite_non_optimized_gets_lazy() {
    let html = r#"<img src="/a.jpg" alt="A"><img src="/b.jpg" alt="B">"#;
    let map: Vec<(String, ImageVariants)> = Vec::new();
    let result = rewrite_img_to_picture(html, &map, None).unwrap();
    assert!(result.contains(r#"loading="eager""#));
    assert!(result.contains(r#"loading="lazy""#));
    assert!(result.contains(r#"decoding="async""#));
}

#[test]
fn test_rewrite_svg_gets_lazy() {
    let html = r#"<img src="/first.jpg" alt="First"><img src="/icon.svg" alt="SVG icon">"#;
    let map: Vec<(String, ImageVariants)> = Vec::new();
    let result = rewrite_img_to_picture(html, &map, None).unwrap();
    assert!(result.contains(r#"loading="lazy""#));
}

#[test]
fn test_rewrite_data_eager_removed_non_optimized() {
    let html = r#"<img src="/a.jpg" alt="A"><img src="/b.jpg" alt="B" data-eager>"#;
    let map: Vec<(String, ImageVariants)> = Vec::new();
    let result = rewrite_img_to_picture(html, &map, None).unwrap();
    assert!(!result.contains("data-eager"));
    let eager_count = result.matches(r#"loading="eager""#).count();
    assert_eq!(eager_count, 2);
}

#[test]
fn test_rewrite_empty_variant_map_still_applies_lazy() {
    let html = r#"<img src="/a.jpg" alt="A"><img src="/b.jpg" alt="B"><img src="/c.jpg" alt="C">"#;
    let map: Vec<(String, ImageVariants)> = Vec::new();
    let result = rewrite_img_to_picture(html, &map, None).unwrap();
    assert!(result.contains(r#"loading="lazy""#));
    assert!(result.contains(r#"loading="eager""#));
}

#[test]
fn images_to_optimize_filters_and_dedups() {
    let config = ImageOptimConfig {
        optimize: true,
        formats: vec!["webp".to_string()],
        quality: 75,
        widths: vec![100],
        exclude: vec!["**/*.svg".to_string()],
    };
    let html = r#"<img src="/a.jpg"><img src="https://x.com/b.jpg"><img src="data:image/png;base64,x"><img src="/icons/c.svg"><img src="/a.jpg"><img src="/d.png">"#;
    let list = images_to_optimize(html, &config).unwrap();
    assert_eq!(list, vec!["/a.jpg", "/d.png"]);
}

#[test]
fn optimize_and_rewrite_images_disabled_only_lazy() {
    let config = ImageOptimConfig { optimize: false, formats: vec![], quality: 75, widths: vec![], exclude: vec![] };
    let html = r#"<img src="/assets/photo.jpg" alt="A">"#;
    let map = vec![("/assets/photo.jpg".to_string(), variants_webp_jpeg())];
    let result = optimize_and_rewrite_images(html, &config, &map, None).unwrap();
    assert!(!result.contains("<picture>"));
    assert!(result.contains(r#"loading="eager""#));
    let enabled = ImageOptimConfig { optimize: true, formats: vec![], quality: 75, widths: vec![], exclude: vec![] };
    let result = optimize_and_rewrite_images(html, &enabled, &map, None).unwrap();
    assert!(result.contains("<picture>"));
}

#[test]
fn test_optimize_with_hero_image_frontmatter() {
    let config = ImageOptimConfig { optimize: true, formats: vec![], quality: 75, widths: vec![], exclude: vec![] };
    let html = r#"<img src="/assets/a.jpg" alt="A"><img src="/assets/hero.jpg" alt="Hero"><img src="/assets/c.jpg" alt="C">"#;
    let map: Vec<(String, ImageVariants)> = Vec::new();
    let result = optimize_and_rewrite_images(html, &config, &map, Some("/assets/hero.jpg")).unwrap();
    let eager_count = result.matches(r#"loading="eager""#).count();
    let lazy_count = result.matches(r#"loading="lazy""#).count();
    assert_eq!(eager_count, 2);
    assert_eq!(lazy_count, 1);
}
