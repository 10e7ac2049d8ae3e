//! Best-practices audit checks.

use vstd::prelude::*;
use crate::build::audit::{
    extend_findings, finding_view, findings_view, fv, new_finding, push_finding, Category, Finding, FindingView, Scope,
    Severity,
};
use crate::build::audit::checks::seo::finding_if;
use crate::config::SiteConfig;
use crate::html::{attr_of, get_attr, scan_tags, scanned_tags, tags_view};
use crate::text::{concat2, contains_seq, has_prefix, owned, starts_with, str_contains};

verus! {

/// Whether the base URL is unusable in production: empty, localhost, or
/// the example domain.
pub open spec fn bad_base_url(url: Seq<char>) -> bool {
    url.len() == 0 || contains_seq(url, "localhost"@) || contains_seq(url, "example.com"@)
}

/// The site-level best-practice findings.
pub open spec fn bp_site_findings(config: SiteConfig, has_favicon: bool) -> Seq<FindingView> {
    finding_if(bad_base_url(config.site.base_url@), fv("bp/base-url"@, Category::BestPractices, Severity::Critical, Scope::Site,
        "base_url is invalid: \""@ + config.site.base_url@ + "\". Set a real production URL."@, "site.toml"@,
        "Set site.base_url to your production URL (e.g. \"https://mysite.com\")"@))
    + finding_if(!has_favicon, fv("bp/favicon"@, Category::BestPractices, Severity::Medium, Scope::Site,
        "No favicon found (favicon.ico, favicon.png, or favicon.svg)"@, "static/"@,
        "Add a favicon.ico, favicon.png, or favicon.svg to your static directory"@))
}

/// The site findings hold a critical `bp/base-url` finding exactly when
/// the base URL is empty or mentions `localhost` or `example.com` (a
/// placeholder, not a production URL).
pub proof fn law_base_url_finding(config: SiteConfig, has_favicon: bool)
    ensures
        (exists|i: int|
            0 <= i < bp_site_findings(config, has_favicon).len() && #[trigger] bp_site_findings(config, has_favicon)[i].id
                == "bp/base-url"@ && bp_site_findings(config, has_favicon)[i].severity == Severity::Critical) <==> (
        config.site.base_url@.len() == 0 || contains_seq(config.site.base_url@, "localhost"@) || contains_seq(
            config.site.base_url@,
            "example.com"@,
        )),
{
    let f = bp_site_findings(config, has_favicon);
    let url = config.site.base_url@;
    reveal_strlit("bp/base-url");
    reveal_strlit("bp/favicon");
    if url.len() == 0 || contains_seq(url, "localhost"@) || contains_seq(url, "example.com"@) {
        assert(f[0].id == "bp/base-url"@);
    } else {
        assert("bp/favicon"@[3] != "bp/base-url"@[3]);
        assert forall|i: int| 0 <= i < f.len() implies #[trigger] f[i].id != "bp/base-url"@ by {
            assert(f[i].id == "bp/favicon"@);
        }
    }
}

/// Site-level best-practice checks; `has_favicon` tells whether
/// `favicon.ico`, `favicon.png` or `favicon.svg` exists in `dist/`.
pub fn site_checks(config: &SiteConfig, has_favicon: bool) -> (r: Vec<Finding>)
    ensures
        findings_view(r@) == bp_site_findings(*config, has_favicon),
        (exists|i: int|
            0 <= i < findings_view(r@).len() && #[trigger] findings_view(r@)[i].id == "bp/base-url"@ && findings_view(r@)[i].severity
                == Severity::Critical) <==> (
        config.site.base_url@.len() == 0 || contains_seq(config.site.base_url@, "localhost"@) || contains_seq(
            config.site.base_url@,
            "example.com"@,
        )),
{
    proof {
        law_base_url_finding(*config, has_favicon);
    }
    let mut findings: Vec<Finding> = Vec::new();
    assert(findings_view(findings@) =~= Seq::<FindingView>::empty());
    let url = config.site.base_url.as_str();
    if url.is_empty() || str_contains(url, "localhost") || str_contains(url, "example.com") {
        let mut m = owned("base_url is invalid: \"");
        m.append(url);
        m.append("\". Set a real production URL.");
        push_finding(&mut findings, new_finding("bp/base-url", Category::BestPractices, Severity::Critical, Scope::Site, m,
            owned("site.toml"), owned("Set site.base_url to your production URL (e.g. \"https://mysite.com\")")));
    }
    if !has_favicon {
        push_finding(&mut findings, new_finding("bp/favicon", Category::BestPractices, Severity::Medium, Scope::Site,
            owned("No favicon found (favicon.ico, favicon.png, or favicon.svg)"), owned("static/"),
            owned("Add a favicon.ico, favicon.png, or favicon.svg to your static directory")));
    }
    proof {
        let fs = findings_view(findings@);
        let bp = bp_site_findings(*config, has_favicon);
        assert(fs =~= bp);
        assert forall|i: int| 0 <= i < fs.len() implies #[trigger] fs[i] == bp[i] by {}
    }
    findings
}

/// Whether a link is plain HTTP to a host other than the local machine.
pub open spec fn insecure_href(href: Seq<char>) -> bool {
    has_prefix(href, "http://"@) && !has_prefix(href, "http://localhost"@) && !has_prefix(href, "http://127.0.0.1"@)
}

/// The best-practice findings of the scanned links `tags[i..]`.
pub open spec fn bp_scan(tags: Seq<(Seq<char>, Seq<(Seq<char>, Seq<char>)>)>, i: int, page: Seq<char>, template: Seq<char>) -> Seq<FindingView>
    decreases tags.len() - i,
{
    if i < 0 || i >= tags.len() {
        seq![]
    } else {
        (match attr_of(tags[i].1, "href"@) {
            Some(h) => finding_if(insecure_href(h), fv("bp/https-links"@, Category::BestPractices, Severity::Medium, Scope::Page,
                page + ": insecure HTTP link found: "@ + h, template, "Change \""@ + h + "\" to use https://"@)),
            None => seq![],
        }) + bp_scan(tags, i + 1, page, template)
    }
}

/// The page-level best-practice findings of `html`.
pub open spec fn bp_page_findings(html: Seq<char>, page: Seq<char>, template: Seq<char>) -> Seq<FindingView> {
    bp_scan(scanned_tags(html, "a[href]"@).0, 0, page, template)
}

/// Page-level best-practice checks: links over plain HTTP (except to
/// localhost).
pub fn page_checks(html: &str, page_path: &str, template_path: &str) -> (r: Vec<Finding>)
    ensures
        findings_view(r@) == bp_page_findings(html@, page_path@, template_path@),
{
    let (tags, _ok) = scan_tags(html, "a[href]");
    let ghost tv = tags_view(tags@);
    let mut findings: Vec<Finding> = Vec::new();
    let mut i: usize = 0;
    assert(findings_view(findings@) =~= Seq::<FindingView>::empty());
    while i < tags.len()
        invariant
            i <= tags@.len(),
            tv == tags_view(tags@),
            findings_view(findings@) + bp_scan(tv, i as int, page_path@, template_path@) == bp_scan(tv, 0, page_path@, template_path@),
        decreases tags@.len() - i,
    {
        let ghost before = findings_view(findings@);
        assert(tv[i as int].1 == crate::html::attrs_view(tags@[i as int].attrs@));
        match get_attr(&tags[i].attrs, "href") {
            Some(h) => {
                let hs = h.as_str();
                if starts_with(hs, "http://") && !starts_with(hs, "http://localhost") && !starts_with(hs, "http://127.0.0.1") {
                    let mut m = owned(page_path);
                    m.append(": insecure HTTP link found: ");
                    m.append(hs);
                    let mut ins = owned("Change \"");
                    ins.append(hs);
                    ins.append("\" to use https://");
                    push_finding(&mut findings, new_finding("bp/https-links", Category::BestPractices, Severity::Medium,
                        Scope::Page, m, owned(template_path), ins));
                }
            },
            None => {},
        }
        assert(findings_view(findings@) + bp_scan(tv, i + 1, page_path@, template_path@) =~= before + bp_scan(tv, i as int,
            page_path@, template_path@));
        i = i + 1;
    }
    assert(findings_view(findings@) + Seq::<FindingView>::empty() =~= findings_view(findings@));
    findings
}

} // verus!
