use eigen::build::audit::output::html::render_html;
use eigen::build::audit::output::markdown::render_markdown;
use eigen::build::audit::overlay::{generate_overlay_script, inject_overlay};
use eigen::build::audit::{AuditReport, AuditSummary, Category, Finding, Fix, Scope, Severity};
use std::collections::BTreeMap;

#[test]
fn test_html_contains_report() {
    let report = AuditReport {
        summary: AuditSummary {
            total: 1,
            by_severity: [(Severity::High, 1)].into_iter().collect(),
            by_category: [(Category::Seo, 1)].into_iter().collect(),
        },
        site_findings: vec![Finding {
            id: "seo/sitemap",
            category: Category::Seo,
            severity: Severity::High,
            scope: Scope::Site,
            message: "No sitemap".into(),
            fix: Fix {
                file: "site.toml".into(),
                instruction: "Add sitemap".into(),
            },
        }],
        page_findings: BTreeMap::new(),
    };
    let html = render_html(&report);
    assert!(html.contains("<!DOCTYPE html>"));
    assert!(html.contains("Eigen Audit Report"));
    assert!(html.contains("seo/sitemap"));
    assert!(html.contains("No sitemap"));
}

#[test]
fn test_html_empty_report() {
    let report = AuditReport {
        summary: AuditSummary {
            total: 0,
            by_severity: BTreeMap::new(),
            by_category: BTreeMap::new(),
        },
        site_findings: vec![],
        page_findings: BTreeMap::new(),
    };
    let html = render_html(&report);
    assert!(html.contains("All checks passed"));
}

#[test]
fn test_html_severity_colors() {
    let report = AuditReport {
        summary: AuditSummary {
            total: 4,
            by_severity: [
                (Severity::Critical, 1),
                (Severity::High, 1),
                (Severity::Medium, 1),
                (Severity::Low, 1),
            ]
            .into_iter()
            .collect(),
            by_category: [(Category::Seo, 4)].into_iter().collect(),
        },
        site_findings: vec![
            Finding {
                id: "test/critical",
                category: Category::Seo,
                severity: Severity::Critical,
                scope: Scope::Site,
                message: "Critical issue".into(),
                fix: Fix {
                    file: "a.toml".into(),
                    instruction: "fix it".into(),
                },
            },
            Finding {
                id: "test/high",
                category: Category::Seo,
                severity: Severity::High,
                scope: Scope::Site,
                message: "High issue".into(),
                fix: Fix {
                    file: "a.toml".into(),
                    instruction: "fix it".into(),
                },
            },
            Finding {
                id: "test/medium",
                category: Category::Seo,
                severity: Severity::Medium,
                scope: Scope::Site,
                message: "Medium issue".into(),
                fix: Fix {
                    file: "a.toml".into(),
                    instruction: "fix it".into(),
                },
            },
            Finding {
                id: "test/low",
                category: Category::Seo,
                severity: Severity::Low,
                scope: Scope::Site,
                message: "Low issue".into(),
                fix: Fix {
                    file: "a.toml".into(),
                    instruction: "fix it".into(),
                },
            },
        ],
        page_findings: BTreeMap::new(),
    };
    let html = render_html(&report);
    assert!(html.contains("#dc2626")); // critical red
    assert!(html.contains("#ea580c")); // high orange
    assert!(html.contains("#ca8a04")); // medium yellow
    assert!(html.contains("#2563eb")); // low blue
}

#[test]
fn test_html_page_findings_grouped() {
    let mut page_findings = BTreeMap::new();
    page_findings.insert(
        "/about.html".to_string(),
        vec![Finding {
            id: "seo/meta-description",
            category: Category::Seo,
            severity: Severity::Medium,
            scope: Scope::Page,
            message: "Missing meta description".into(),
            fix: Fix {
                file: "templates/about.html".into(),
                instruction: "Add meta description tag".into(),
            },
        }],
    );

    let report = AuditReport {
        summary: AuditSummary {
            total: 1,
            by_severity: [(Severity::Medium, 1)].into_iter().collect(),
            by_category: [(Category::Seo, 1)].into_iter().collect(),
        },
        site_findings: vec![],
        page_findings,
    };
    let html = render_html(&report);
    assert!(html.contains("/about.html"));
    assert!(html.contains("seo/meta-description"));
    assert!(html.contains("Missing meta description"));
    assert!(html.contains("templates/about.html"));
}

#[test]
fn test_html_escapes_special_chars() {
    let report = AuditReport {
        summary: AuditSummary {
            total: 1,
            by_severity: [(Severity::Low, 1)].into_iter().collect(),
            by_category: [(Category::BestPractices, 1)].into_iter().collect(),
        },
        site_findings: vec![Finding {
            id: "bp/test",
            category: Category::BestPractices,
            severity: Severity::Low,
            scope: Scope::Site,
            message: "Use <meta> & \"quotes\"".into(),
            fix: Fix {
                file: "test.html".into(),
                instruction: "Add <tag>".into(),
            },
        }],
        page_findings: BTreeMap::new(),
    };
    let html = render_html(&report);
    assert!(html.contains("&lt;meta&gt;"));
    assert!(html.contains("&amp;"));
    assert!(html.contains("&quot;quotes&quot;"));
}

#[test]
fn test_html_has_filter_buttons() {
    let report = AuditReport {
        summary: AuditSummary {
            total: 1,
            by_severity: [(Severity::High, 1)].into_iter().collect(),
            by_category: [(Category::Performance, 1)].into_iter().collect(),
        },
        site_findings: vec![Finding {
            id: "perf/test",
            category: Category::Performance,
            severity: Severity::High,
            scope: Scope::Site,
            message: "Slow".into(),
            fix: Fix {
                file: "a.html".into(),
                instruction: "Speed up".into(),
            },
        }],
        page_findings: BTreeMap::new(),
    };
    let html = render_html(&report);
    assert!(html.contains("data-filter-kind=\"severity\""));
    assert!(html.contains("data-filter-kind=\"category\""));
    assert!(html.contains("data-filter-value=\"high\""));
    assert!(html.contains("data-filter-value=\"performance\""));
}

#[test]
fn test_html_has_dark_mode_support() {
    let report = AuditReport {
        summary: AuditSummary {
            total: 0,
            by_severity: BTreeMap::new(),
            by_category: BTreeMap::new(),
        },
        site_findings: vec![],
        page_findings: BTreeMap::new(),
    };
    let html = render_html(&report);
    assert!(html.contains("prefers-color-scheme:dark"));
    assert!(html.contains("#1a1a2e")); // dark mode bg
}

#[test]
fn test_html_structure() {
    let report = AuditReport {
        summary: AuditSummary {
            total: 0,
            by_severity: BTreeMap::new(),
            by_category: BTreeMap::new(),
        },
        site_findings: vec![],
        page_findings: BTreeMap::new(),
    };
    let html = render_html(&report);
    assert!(html.starts_with("<!DOCTYPE html>"));
    assert!(html.contains("<html lang=\"en\">"));
    assert!(html.contains("<head>"));
    assert!(html.contains("</head>"));
    assert!(html.contains("<body>"));
    assert!(html.contains("</body>"));
    assert!(html.contains("</html>"));
    assert!(html.contains("<style>"));
    assert!(html.contains("<script>"));
}

#[test]
fn test_html_css_class_prefix() {
    let report = AuditReport {
        summary: AuditSummary {
            total: 1,
            by_severity: [(Severity::Low, 1)].into_iter().collect(),
            by_category: [(Category::Seo, 1)].into_iter().collect(),
        },
        site_findings: vec![Finding {
            id: "seo/test",
            category: Category::Seo,
            severity: Severity::Low,
            scope: Scope::Site,
            message: "Test".into(),
            fix: Fix {
                file: "a.toml".into(),
                instruction: "fix".into(),
            },
        }],
        page_findings: BTreeMap::new(),
    };
    let html = render_html(&report);
    // All custom classes should use the __eigen_audit_ prefix.
    // Check that key class names appear with the prefix.
    assert!(html.contains("__eigen_audit_container"));
    assert!(html.contains("__eigen_audit_summary"));
    assert!(html.contains("__eigen_audit_finding"));
    assert!(html.contains("__eigen_audit_badge"));
    assert!(html.contains("__eigen_audit_fix"));
}

#[test]
fn test_markdown_structure() {
    let report = AuditReport {
        summary: AuditSummary {
            total: 2,
            by_severity: [(Severity::High, 1), (Severity::Low, 1)]
                .into_iter()
                .collect(),
            by_category: [(Category::Seo, 2)].into_iter().collect(),
        },
        site_findings: vec![Finding {
            id: "seo/sitemap",
            category: Category::Seo,
            severity: Severity::High,
            scope: Scope::Site,
            message: "No sitemap".into(),
            fix: Fix {
                file: "site.toml".into(),
                instruction: "Add sitemap".into(),
            },
        }],
        page_findings: [(
            "index.html".into(),
            vec![Finding {
                id: "seo/feed",
                category: Category::Seo,
                severity: Severity::Low,
                scope: Scope::Page,
                message: "No feed".into(),
                fix: Fix {
                    file: "site.toml".into(),
                    instruction: "Add feed".into(),
                },
            }],
        )]
        .into_iter()
        .collect(),
    };
    let md = render_markdown(&report);
    assert!(md.contains("# Eigen Audit Report"));
    assert!(md.contains("## Summary"));
    assert!(md.contains("- **HIGH:** 1"));
    assert!(md.contains("- **LOW:** 1"));
    assert!(md.contains("## Site-Wide Issues"));
    assert!(md.contains("[HIGH] seo/sitemap"));
    assert!(md.contains("No sitemap"));
    assert!(md.contains("### index.html"));
    assert!(md.contains("[LOW] seo/feed"));
    assert!(md.contains("**Fix:**"));
    assert!(md.contains("In `site.toml`, Add sitemap"));
}

#[test]
fn test_markdown_empty_report() {
    let report = AuditReport {
        summary: AuditSummary {
            total: 0,
            by_severity: BTreeMap::new(),
            by_category: BTreeMap::new(),
        },
        site_findings: vec![],
        page_findings: BTreeMap::new(),
    };
    let md = render_markdown(&report);
    assert!(md.contains("# Eigen Audit Report"));
    assert!(md.contains("All checks passed!"));
    // Should not contain issue sections
    assert!(!md.contains("## Site-Wide Issues"));
    assert!(!md.contains("## Page Issues"));
}

#[test]
fn test_markdown_severity_ordering() {
    let report = AuditReport {
        summary: AuditSummary {
            total: 3,
            by_severity: [
                (Severity::Low, 1),
                (Severity::Critical, 1),
                (Severity::Medium, 1),
            ]
            .into_iter()
            .collect(),
            by_category: [(Category::Seo, 3)].into_iter().collect(),
        },
        site_findings: vec![],
        page_findings: BTreeMap::new(),
    };
    let md = render_markdown(&report);
    let crit_pos = md.find("**CRITICAL:**").expect("CRITICAL not found");
    let med_pos = md.find("**MEDIUM:**").expect("MEDIUM not found");
    let low_pos = md.find("**LOW:**").expect("LOW not found");
    assert!(crit_pos < med_pos, "CRITICAL should appear before MEDIUM");
    assert!(med_pos < low_pos, "MEDIUM should appear before LOW");
}

#[test]
fn test_markdown_no_site_section_when_empty() {
    let report = AuditReport {
        summary: AuditSummary {
            total: 1,
            by_severity: [(Severity::Low, 1)].into_iter().collect(),
            by_category: [(Category::Seo, 1)].into_iter().collect(),
        },
        site_findings: vec![],
        page_findings: [(
            "/about.html".into(),
            vec![Finding {
                id: "seo/title",
                category: Category::Seo,
                severity: Severity::Low,
                scope: Scope::Page,
                message: "Missing title".into(),
                fix: Fix {
                    file: "templates/about.html".into(),
                    instruction: "Add a <title> tag".into(),
                },
            }],
        )]
        .into_iter()
        .collect(),
    };
    let md = render_markdown(&report);
    assert!(!md.contains("## Site-Wide Issues"));
    assert!(md.contains("## Page Issues"));
    assert!(md.contains("### /about.html"));
    assert!(md.contains("In `templates/about.html`, Add a <title> tag"));
}

#[test]
fn test_overlay_script_contains_badge() {
    let findings = vec![Finding {
        id: "seo/meta-title",
        category: Category::Seo,
        severity: Severity::High,
        scope: Scope::Page,
        message: "Missing title".into(),
        fix: Fix {
            file: "t.html".into(),
            instruction: "Add title".into(),
        },
    }];
    let script = generate_overlay_script(&findings);
    assert!(script.contains("__eigen_audit_"));
    assert!(script.contains("/_audit"));
}

#[test]
fn test_inject_overlay_before_body() {
    let html = "<html><body><p>hi</p></body></html>";
    let result = inject_overlay(html, &[]);
    assert!(result.contains("__eigen_audit_"));
    let badge_pos = result.find("__eigen_audit_").unwrap();
    let body_pos = result.find("</body>").unwrap();
    assert!(badge_pos < body_pos);
}

#[test]
fn test_inject_preserves_content() {
    let html = "<html><body><p>hello world</p></body></html>";
    let result = inject_overlay(html, &[]);
    assert!(result.contains("<p>hello world</p>"));
}

#[test]
fn test_zero_findings_green() {
    let script = generate_overlay_script(&[]);
    assert!(
        script.contains("#16a34a") || script.contains("green") || script.contains("0 issues")
    );
}

#[test]
fn test_badge_color_critical() {
    let findings = vec![Finding {
        id: "perf/large-image",
        category: Category::Performance,
        severity: Severity::Critical,
        scope: Scope::Page,
        message: "Image too large".into(),
        fix: Fix {
            file: "img.png".into(),
            instruction: "Compress".into(),
        },
    }];
    let script = generate_overlay_script(&findings);
    assert!(script.contains("#dc2626"));
}

#[test]
fn test_badge_color_medium_only() {
    let findings = vec![Finding {
        id: "a11y/alt-text",
        category: Category::Accessibility,
        severity: Severity::Medium,
        scope: Scope::Page,
        message: "Missing alt".into(),
        fix: Fix {
            file: "page.html".into(),
            instruction: "Add alt".into(),
        },
    }];
    let script = generate_overlay_script(&findings);
    assert!(script.contains("#ca8a04"));
}

#[test]
fn test_inject_overlay_no_body_tag() {
    let html = "<h1>Fragment</h1>";
    let result = inject_overlay(html, &[]);
    assert!(result.contains("__eigen_audit_"));
    assert!(result.contains("<h1>Fragment</h1>"));
}

#[test]
fn test_message_escaping() {
    let findings = vec![Finding {
        id: "seo/test",
        category: Category::Seo,
        severity: Severity::Low,
        scope: Scope::Page,
        message: r#"Contains "quotes" and <tags>"#.into(),
        fix: Fix {
            file: "f.html".into(),
            instruction: "Fix it".into(),
        },
    }];
    let script = generate_overlay_script(&findings);
    // Should not contain raw < or > inside JSON
    assert!(!script.contains(r#""message":"Contains "quotes""#));
    assert!(script.contains(r#"\u003ctags\u003e"#));
}

#[test]
fn test_single_issue_label() {
    let findings = vec![Finding {
        id: "seo/test",
        category: Category::Seo,
        severity: Severity::Low,
        scope: Scope::Page,
        message: "Test".into(),
        fix: Fix {
            file: "f.html".into(),
            instruction: "Fix".into(),
        },
    }];
    let script = generate_overlay_script(&findings);
    assert!(script.contains("1 issue"));
    assert!(!script.contains("1 issues"));
}

#[test]
fn badge_color_low_only_is_low_blue() {
    let findings = vec![Finding {
        id: "perf/x",
        category: Category::Performance,
        severity: Severity::Low,
        scope: Scope::Page,
        message: "Minor".into(),
        fix: Fix { file: "page.html".into(), instruction: "Tweak".into() },
    }];
    let script = generate_overlay_script(&findings);
    assert!(script.contains("#2563eb"));
    assert!(!script.contains("#16a34a"));
}
