use eigen::build::critical_css::extract::{
    collect_global_deps, extract_animation_names_from_shorthand, is_generic_font_family, strip_pseudo_for_matching,
};

fn has(v: &[String], s: &str) -> bool {
    v.iter().any(|x| x == s)
}

#[test]
fn test_strip_pseudo_hover() {
    assert_eq!(strip_pseudo_for_matching(".btn:hover"), Some(".btn".to_string()));
}

#[test]
fn test_strip_pseudo_before() {
    assert_eq!(strip_pseudo_for_matching(".icon::before"), Some(".icon".to_string()));
}

#[test]
fn test_strip_pseudo_preserves_structural() {
    assert_eq!(strip_pseudo_for_matching(":root"), Some(":root".to_string()));
    assert_eq!(strip_pseudo_for_matching(":first-child"), Some(":first-child".to_string()));
    assert_eq!(strip_pseudo_for_matching(":nth-child(2n)"), Some(":nth-child(2n)".to_string()));
    assert_eq!(strip_pseudo_for_matching(":not(.hidden)"), Some(":not(.hidden)".to_string()));
}

#[test]
fn test_strip_pseudo_selection() {
    assert_eq!(strip_pseudo_for_matching("::selection"), None);
}

#[test]
fn test_strip_pseudo_compound() {
    assert_eq!(strip_pseudo_for_matching("a:hover > .icon::after"), Some("a > .icon".to_string()));
}

#[test]
fn test_strip_pseudo_focus_visible() {
    assert_eq!(strip_pseudo_for_matching(".input:focus-visible"), Some(".input".to_string()));
}

#[test]
fn test_strip_pseudo_visited() {
    assert_eq!(strip_pseudo_for_matching("a:visited"), Some("a".to_string()));
}

#[test]
fn test_strip_pseudo_placeholder() {
    assert_eq!(strip_pseudo_for_matching("input::placeholder"), Some("input".to_string()));
}

#[test]
fn strip_pseudo_nested_args_and_whitespace() {
    assert_eq!(strip_pseudo_for_matching("li:nth-child(2n+1):hover   a"), Some("li:nth-child(2n+1) a".to_string()));
    assert_eq!(strip_pseudo_for_matching("a:is(:hover, .x)"), Some("a:is(:hover, .x)".to_string()));
    assert_eq!(strip_pseudo_for_matching(":lang(en(x)) p"), Some("p".to_string()));
    assert_eq!(strip_pseudo_for_matching("::slotted(span)"), None);
    assert_eq!(strip_pseudo_for_matching("  "), None);
}

#[test]
fn test_collect_font_family() {
    let decls = r#"font-family: "Inter", sans-serif;"#;
    let deps = collect_global_deps(decls);
    assert!(has(&deps.font_families, "Inter"));
    assert!(!has(&deps.font_families, "sans-serif"));
}

#[test]
fn test_collect_animation_name() {
    let decls = "animation-name: spin;";
    let deps = collect_global_deps(decls);
    assert!(has(&deps.animation_names, "spin"));
}

#[test]
fn test_collect_animation_shorthand() {
    let decls = "animation: fadeIn 0.3s ease-in-out;";
    let deps = collect_global_deps(decls);
    assert!(has(&deps.animation_names, "fadeIn"));
}

#[test]
fn test_collect_var_references() {
    let decls = "color: var(--color-primary); background: var(--bg-main);";
    let deps = collect_global_deps(decls);
    assert!(has(&deps.custom_properties, "--color-primary"));
    assert!(has(&deps.custom_properties, "--bg-main"));
}

#[test]
fn test_collect_no_deps() {
    let decls = "color: red; margin: 0;";
    let deps = collect_global_deps(decls);
    assert!(deps.font_families.is_empty());
    assert!(deps.animation_names.is_empty());
    assert!(deps.custom_properties.is_empty());
}

#[test]
fn collect_global_deps_exact_lists() {
    let deps = collect_global_deps("FONT-FAMILY : 'A B', \"C\", Serif, A B; animation: 2s x1 linear, 1e3 inf y2; color: var( --c);var(--c)");
    assert_eq!(deps.font_families, vec!["A B", "C"]);
    assert_eq!(deps.animation_names, vec!["x1", "y2"]);
    assert_eq!(deps.custom_properties, vec!["--c"]);
}

#[test]
fn collect_animation_name_takes_precedence() {
    let deps = collect_global_deps("animation-name: none, a; animation: b 1s;");
    assert_eq!(deps.animation_names, vec!["a"]);
}

#[test]
fn generic_font_family_any_case() {
    assert!(is_generic_font_family("Sans-Serif"));
    assert!(is_generic_font_family("monospace"));
    assert!(!is_generic_font_family("Inter"));
}

#[test]
fn shorthand_names_skip_keywords_and_numbers() {
    let mut names: Vec<String> = Vec::new();
    extract_animation_names_from_shorthand("infinite ease-in 300ms pulse, steps(4) cubic-bezier(0.1) -1.5e2 NaN slide", &mut names);
    assert_eq!(names, vec!["pulse", "slide"]);
}

#[test]
fn shorthand_name_ending_in_s_is_kept() {
    let mut names: Vec<String> = Vec::new();
    extract_animation_names_from_shorthand("bounces 1s ease", &mut names);
    assert_eq!(names, vec!["bounces".to_string()]);
    let mut names2: Vec<String> = Vec::new();
    extract_animation_names_from_shorthand("200ms fades .5s", &mut names2);
    assert_eq!(names2, vec!["fades".to_string()]);
}

#[test]
fn strip_pseudo_keeps_non_ascii_characters() {
    assert_eq!(strip_pseudo_for_matching(".café:hover"), Some(".café".to_string()));
    assert_eq!(strip_pseudo_for_matching("#ñandú"), Some("#ñandú".to_string()));
}

#[test]
fn shorthand_keywords_match_after_unicode_lowercasing() {
    // The Kelvin sign lowercases to `k`, so this token is `backwards`.
    let mut names = Vec::new();
    extract_animation_names_from_shorthand("bac\u{212A}wards spin 1s", &mut names);
    assert_eq!(names, vec!["spin".to_string()]);
}
