//! Performance audit checks.

use vstd::prelude::*;
use crate::build::audit::{
    extend_findings, finding_view, findings_view, fv, new_finding, push_finding, Category, Finding, FindingView, Scope,
    Severity,
};
use crate::build::audit::checks::seo::finding_if;
use crate::config::SiteConfig;
use crate::html::{attr_of, attrs_view, get_attr, has_attr, has_attr_exec, scan_tags, scanned_tags, tags_view, HtmlTag};
use crate::text::{concat2, ends_with, has_suffix, owned, str_eq};

verus! {

/// A site-level performance finding.
pub open spec fn perf_sf(id: Seq<char>, sev: Severity, msg: Seq<char>, instr: Seq<char>) -> FindingView {
    fv(id, Category::Performance, sev, Scope::Site, msg, "site.toml"@, instr)
}

/// The site-level performance findings: disabled image optimization,
/// no target image formats, and each disabled build optimization.
pub open spec fn perf_site_findings(config: SiteConfig) -> Seq<FindingView> {
    finding_if(!config.assets.images.optimize, perf_sf("perf/image-optimization"@, Severity::High,
        "Image optimization is disabled. Images will not be compressed or converted to modern formats."@,
        "Set [assets.images] optimize = true"@))
    + finding_if(config.assets.images.optimize && config.assets.images.formats@.len() == 0, perf_sf("perf/image-formats"@,
        Severity::Medium, "Image optimization is enabled but no target formats are configured. No format conversion will occur."@,
        "Set [assets.images] formats = [\"webp\", \"avif\"]"@))
    + finding_if(!config.build.minify, perf_sf("perf/minification"@, Severity::High,
        "HTML minification is disabled. Output files will be larger than necessary."@, "Set [build] minify = true"@))
    + finding_if(!config.build.critical_css.enabled, perf_sf("perf/critical-css"@, Severity::Medium,
        "Critical CSS inlining is disabled. Above-the-fold content may be blocked by stylesheet loading."@,
        "Set [build.critical_css] enabled = true"@))
    + finding_if(!config.build.bundling.enabled, perf_sf("perf/bundling"@, Severity::Medium,
        "CSS/JS bundling is disabled. Multiple separate files increase the number of HTTP requests."@,
        "Set [build.bundling] enabled = true"@))
    + finding_if(!config.build.content_hash.enabled, perf_sf("perf/content-hash"@, Severity::Low,
        "Content hashing is disabled. Static assets cannot use immutable cache headers."@,
        "Set [build.content_hash] enabled = true"@))
    + finding_if(!config.build.hints.enabled, perf_sf("perf/preload-hints"@, Severity::Medium,
        "Resource preload/prefetch hints are disabled. The browser cannot begin fetching critical resources early."@,
        "Set [build.hints] enabled = true"@))
}

/// A site-level performance finding.
fn site_finding(id: &'static str, severity: Severity, message: &str, instruction: &str) -> (r: Finding)
    ensures
        finding_view(r) == perf_sf(id@, severity, message@, instruction@),
{
    new_finding(id, Category::Performance, severity, Scope::Site, owned(message), owned("site.toml"), owned(instruction))
}

/// Site-level performance checks (configuration).
pub fn site_checks(config: &SiteConfig) -> (r: Vec<Finding>)
    ensures
        findings_view(r@) == perf_site_findings(*config),
{
    let mut findings: Vec<Finding> = Vec::new();
    assert(findings_view(findings@) =~= Seq::<FindingView>::empty());
    let ghost c = *config;
    if !config.assets.images.optimize {
        push_finding(&mut findings, site_finding("perf/image-optimization", Severity::High,
            "Image optimization is disabled. Images will not be compressed or converted to modern formats.",
            "Set [assets.images] optimize = true"));
    }
    let ghost a1 = finding_if(!c.assets.images.optimize, perf_sf("perf/image-optimization"@, Severity::High,
        "Image optimization is disabled. Images will not be compressed or converted to modern formats."@,
        "Set [assets.images] optimize = true"@));
    assert(findings_view(findings@) =~= a1);
    if config.assets.images.optimize && config.assets.images.formats.len() == 0 {
        push_finding(&mut findings, site_finding("perf/image-formats", Severity::Medium,
            "Image optimization is enabled but no target formats are configured. No format conversion will occur.",
            "Set [assets.images] formats = [\"webp\", \"avif\"]"));
    }
    let ghost a2 = a1 + finding_if(c.assets.images.optimize && c.assets.images.formats@.len() == 0, perf_sf("perf/image-formats"@,
        Severity::Medium, "Image optimization is enabled but no target formats are configured. No format conversion will occur."@,
        "Set [assets.images] formats = [\"webp\", \"avif\"]"@));
    assert(findings_view(findings@) =~= a2);
    if !config.build.minify {
        push_finding(&mut findings, site_finding("perf/minification", Severity::High,
            "HTML minification is disabled. Output files will be larger than necessary.", "Set [build] minify = true"));
    }
    let ghost a3 = a2 + finding_if(!c.build.minify, perf_sf("perf/minification"@, Severity::High,
        "HTML minification is disabled. Output files will be larger than necessary."@, "Set [build] minify = true"@));
    assert(findings_view(findings@) =~= a3);
    if !config.build.critical_css.enabled {
        push_finding(&mut findings, site_finding("perf/critical-css", Severity::Medium,
            "Critical CSS inlining is disabled. Above-the-fold content may be blocked by stylesheet loading.",
            "Set [build.critical_css] enabled = true"));
    }
    let ghost a4 = a3 + finding_if(!c.build.critical_css.enabled, perf_sf("perf/critical-css"@, Severity::Medium,
        "Critical CSS inlining is disabled. Above-the-fold content may be blocked by stylesheet loading."@,
        "Set [build.critical_css] enabled = true"@));
    assert(findings_view(findings@) =~= a4);
    if !config.build.bundling.enabled {
        push_finding(&mut findings, site_finding("perf/bundling", Severity::Medium,
            "CSS/JS bundling is disabled. Multiple separate files increase the number of HTTP requests.",
            "Set [build.bundling] enabled = true"));
    }
    let ghost a5 = a4 + finding_if(!c.build.bundling.enabled, perf_sf("perf/bundling"@, Severity::Medium,
        "CSS/JS bundling is disabled. Multiple separate files increase the number of HTTP requests."@,
        "Set [build.bundling] enabled = true"@));
    assert(findings_view(findings@) =~= a5);
    if !config.build.content_hash.enabled {
        push_finding(&mut findings, site_finding("perf/content-hash", Severity::Low,
            "Content hashing is disabled. Static assets cannot use immutable cache headers.",
            "Set [build.content_hash] enabled = true"));
    }
    let ghost a6 = a5 + finding_if(!c.build.content_hash.enabled, perf_sf("perf/content-hash"@, Severity::Low,
        "Content hashing is disabled. Static assets cannot use immutable cache headers."@,
        "Set [build.content_hash] enabled = true"@));
    assert(findings_view(findings@) =~= a6);
    if !config.build.hints.enabled {
        push_finding(&mut findings, site_finding("perf/preload-hints", Severity::Medium,
            "Resource preload/prefetch hints are disabled. The browser cannot begin fetching critical resources early.",
            "Set [build.hints] enabled = true"));
    }
    findings
}

/// The selector of the elements the page checks look at.
pub open spec fn perf_selector() -> Seq<char> {
    "head, body, script, img, link"@
}

/// Whether `href` names a font file.
pub open spec fn is_font_href(href: Seq<char>) -> bool {
    has_suffix(href, ".woff"@) || has_suffix(href, ".woff2"@) || has_suffix(href, ".ttf"@) || has_suffix(href, ".otf"@)
}

/// A page-level performance finding.
pub open spec fn perf_pf(page: Seq<char>, template: Seq<char>, id: Seq<char>, sev: Severity, msg: Seq<char>, instr: Seq<char>) -> FindingView {
    fv(id, Category::Performance, sev, Scope::Page, page + msg, template, instr)
}

/// The finding of one scanned element, if any; `in_head` tells whether a
/// `<head>` started and no `<body>` yet.
pub open spec fn perf_tag_finding(
    name: Seq<char>,
    attrs: Seq<(Seq<char>, Seq<char>)>,
    in_head: bool,
    optimize: bool,
    hints: bool,
    page: Seq<char>,
    template: Seq<char>,
) -> Seq<FindingView> {
    if name == "script"@ {
        match attr_of(attrs, "src"@) {
            Some(src) => finding_if(in_head && !has_attr(attrs, "defer"@) && !has_attr(attrs, "async"@), perf_pf(page, template,
                "perf/render-blocking-scripts"@, Severity::High,
                ": render-blocking script <script src=\""@ + src + "\"> in <head> without defer or async"@,
                "Add defer or async attribute to the script tag"@)),
            None => seq![],
        }
    } else if name == "img"@ {
        finding_if(!optimize && has_attr(attrs, "src"@) && !has_attr(attrs, "srcset"@), perf_pf(page, template, "perf/large-image"@,
            Severity::High, ": <img> without srcset attribute (image optimization is disabled)"@,
            "Add a srcset attribute or enable image optimization in site.toml"@))
    } else if name == "link"@ {
        match attr_of(attrs, "href"@) {
            Some(href) => finding_if(!hints && is_font_href(href) && attr_of(attrs, "rel"@) != Some("preload"@), perf_pf(page,
                template, "perf/font-preload"@, Severity::Medium,
                ": font file \""@ + href + "\" loaded without rel=\"preload\""@,
                "Add rel=\"preload\" as=\"font\" crossorigin to the link tag, or enable [build.hints] in site.toml"@)),
            None => seq![],
        }
    } else {
        seq![]
    }
}

/// The performance findings of the scanned elements `tags[i..]`.
pub open spec fn perf_scan(
    tags: Seq<(Seq<char>, Seq<(Seq<char>, Seq<char>)>)>,
    i: int,
    in_head: bool,
    optimize: bool,
    hints: bool,
    page: Seq<char>,
    template: Seq<char>,
) -> Seq<FindingView>
    decreases tags.len() - i,
{
    if i < 0 || i >= tags.len() {
        seq![]
    } else {
        let (name, attrs) = tags[i];
        let next_head = if name == "head"@ { true } else if name == "body"@ { false } else { in_head };
        perf_tag_finding(name, attrs, in_head, optimize, hints, page, template) + perf_scan(tags, i + 1, next_head, optimize,
            hints, page, template)
    }
}

/// The page-level performance findings of `html`.
pub open spec fn perf_page_findings(html: Seq<char>, page: Seq<char>, template: Seq<char>, config: SiteConfig) -> Seq<FindingView> {
    perf_scan(scanned_tags(html, perf_selector()).0, 0, false, config.assets.images.optimize, config.build.hints.enabled,
        page, template)
}

/// A page-level performance finding.
fn page_finding(id: &'static str, severity: Severity, page_path: &str, message: &str, template_path: &str, instruction: &str) -> (r: Finding)
    ensures
        finding_view(r) == perf_pf(page_path@, template_path@, id@, severity, message@, instruction@),
{
    new_finding(id, Category::Performance, severity, Scope::Page, concat2(page_path, message), owned(template_path),
        owned(instruction))
}

/// The finding of one scanned element.
fn tag_findings(tag: &HtmlTag, in_head: bool, optimize: bool, hints: bool, page_path: &str, template_path: &str) -> (r: Vec<Finding>)
    ensures
        findings_view(r@) == perf_tag_finding(tag.name@, attrs_view(tag.attrs@), in_head, optimize, hints, page_path@,
            template_path@),
{
    let mut out: Vec<Finding> = Vec::new();
    assert(findings_view(out@) =~= Seq::<FindingView>::empty());
    let attrs = &tag.attrs;
    if str_eq(tag.name.as_str(), "script") {
        match get_attr(attrs, "src") {
            Some(src) => {
                if in_head && !has_attr_exec(attrs, "defer") && !has_attr_exec(attrs, "async") {
                    let mut m = owned(": render-blocking script <script src=\"");
                    m.append(src.as_str());
                    m.append("\"> in <head> without defer or async");
                    push_finding(&mut out, page_finding("perf/render-blocking-scripts", Severity::High, page_path, m.as_str(),
                        template_path, "Add defer or async attribute to the script tag"));
                }
            },
            None => {},
        }
    } else if str_eq(tag.name.as_str(), "img") {
        if !optimize && has_attr_exec(attrs, "src") && !has_attr_exec(attrs, "srcset") {
            push_finding(&mut out, page_finding("perf/large-image", Severity::High, page_path,
                ": <img> without srcset attribute (image optimization is disabled)", template_path,
                "Add a srcset attribute or enable image optimization in site.toml"));
        }
    } else if str_eq(tag.name.as_str(), "link") {
        match get_attr(attrs, "href") {
            Some(href) => {
                let h = href.as_str();
                let is_font = ends_with(h, ".woff") || ends_with(h, ".woff2") || ends_with(h, ".ttf") || ends_with(h, ".otf");
                let preload = match get_attr(attrs, "rel") {
                    Some(rel) => str_eq(rel.as_str(), "preload"),
                    None => false,
                };
                if !hints && is_font && !preload {
                    let mut m = owned(": font file \"");
                    m.append(h);
                    m.append("\" loaded without rel=\"preload\"");
                    push_finding(&mut out, page_finding("perf/font-preload", Severity::Medium, page_path, m.as_str(),
                        template_path, "Add rel=\"preload\" as=\"font\" crossorigin to the link tag, or enable [build.hints] in site.toml"));
                }
            },
            None => {},
        }
    }
    out
}

/// Page-level performance checks: external scripts in `<head>` without
/// `defer`/`async`; with image optimization off, images without `srcset`;
/// with hints off, font links without `rel="preload"`.
pub fn page_checks(html: &str, page_path: &str, template_path: &str, config: &SiteConfig) -> (r: Vec<Finding>)
    ensures
        findings_view(r@) == perf_page_findings(html@, page_path@, template_path@, *config),
{
    let (tags, _ok) = scan_tags(html, "head, body, script, img, link");
    let ghost tv = tags_view(tags@);
    let optimize = config.assets.images.optimize;
    let hints = config.build.hints.enabled;
    let mut findings: Vec<Finding> = Vec::new();
    let mut in_head = false;
    let mut i: usize = 0;
    while i < tags.len()
        invariant
            i <= tags@.len(),
            tv == tags_view(tags@),
            optimize == config.assets.images.optimize,
            hints == config.build.hints.enabled,
            findings_view(findings@) + perf_scan(tv, i as int, in_head, optimize, hints, page_path@, template_path@)
                == perf_scan(tv, 0, false, optimize, hints, page_path@, template_path@),
        decreases tags@.len() - i,
    {
        let tag = &tags[i];
        assert(tv[i as int] == (tag.name@, attrs_view(tag.attrs@)));
        let ghost before = findings_view(findings@);
        let ghost h0 = in_head;
        let found = tag_findings(tag, in_head, optimize, hints, page_path, template_path);
        extend_findings(&mut findings, found);
        if str_eq(tag.name.as_str(), "head") {
            in_head = true;
        } else if str_eq(tag.name.as_str(), "body") {
            in_head = false;
        }
        assert(findings_view(findings@) + perf_scan(tv, i + 1, in_head, optimize, hints, page_path@, template_path@)
            =~= before + perf_scan(tv, i as int, h0, optimize, hints, page_path@, template_path@));
        i = i + 1;
    }
    assert(findings_view(findings@) + Seq::<FindingView>::empty() =~= findings_view(findings@));
    findings
}

} // verus!
