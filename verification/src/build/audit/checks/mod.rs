//! The audit checks, by category, and the registry that runs them all.

pub mod seo;
pub mod performance;
pub mod best_practices;
pub mod accessibility;

use vstd::prelude::*;
use crate::build::audit::{extend_findings, findings_view, Finding, FindingView};
use crate::config::SiteConfig;

verus! {

/// All site-level findings, in category order.
pub open spec fn site_findings(config: SiteConfig, sitemap_exists: bool, has_favicon: bool) -> Seq<FindingView> {
    seo::seo_site_findings(config, sitemap_exists) + performance::perf_site_findings(config)
        + accessibility::a11y_site_findings() + best_practices::bp_site_findings(config, has_favicon)
}

/// All page-level findings of a page, in category order.
pub open spec fn page_findings(html: Seq<char>, page: Seq<char>, template: Seq<char>, config: SiteConfig) -> Seq<FindingView> {
    seo::seo_page_findings(html, page, template) + performance::perf_page_findings(html, page, template, config)
        + accessibility::a11y_page_findings(html, page, template) + best_practices::bp_page_findings(html, page, template)
}

/// Run all site-level checks. `sitemap_exists` and `has_favicon` tell
/// what the output directory holds.
pub fn run_site_checks(config: &SiteConfig, sitemap_exists: bool, has_favicon: bool) -> (r: Vec<Finding>)
    ensures
        findings_view(r@) == site_findings(*config, sitemap_exists, has_favicon),
{
    let mut findings = seo::site_checks(config, sitemap_exists);
    extend_findings(&mut findings, performance::site_checks(config));
    extend_findings(&mut findings, accessibility::site_checks());
    extend_findings(&mut findings, best_practices::site_checks(config, has_favicon));
    findings
}

/// Run all page-level checks on a single page.
pub fn run_page_checks(html: &str, page_path: &str, template_path: &str, config: &SiteConfig) -> (r: Vec<Finding>)
    ensures
        findings_view(r@) == page_findings(html@, page_path@, template_path@, *config),
{
    let mut findings = seo::page_checks(html, page_path, template_path);
    extend_findings(&mut findings, performance::page_checks(html, page_path, template_path, config));
    extend_findings(&mut findings, accessibility::page_checks(html, page_path, template_path));
    extend_findings(&mut findings, best_practices::page_checks(html, page_path, template_path));
    findings
}

} // verus!
