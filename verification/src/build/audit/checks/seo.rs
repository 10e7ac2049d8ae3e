//! SEO audit checks.

use vstd::prelude::*;
use crate::build::audit::{
    findings_view, fv, new_finding, push_finding, Category, Finding, FindingView, Scope, Severity,
};
use crate::config::SiteConfig;
use crate::html::{scan_tags, scanned_tags};
use crate::text::{concat2, owned};

verus! {

/// The site-level SEO findings: no `sitemap.xml` in `dist/`, no
/// `[robots]` section, no feed.
pub open spec fn seo_site_findings(config: SiteConfig, sitemap_exists: bool) -> Seq<FindingView> {
    (if !sitemap_exists {
        seq![fv("seo/sitemap"@, Category::Seo, Severity::Critical, Scope::Site, "No sitemap.xml found in dist/"@, "site.toml"@,
            "Ensure the build generates a sitemap.xml in the output directory"@)]
    } else {
        seq![]
    }) + (if config.robots is None {
        seq![fv("seo/robots-txt"@, Category::Seo, Severity::High, Scope::Site, "No robots.txt configuration found"@, "site.toml"@,
            "Add a [robots] section to site.toml to generate robots.txt"@)]
    } else {
        seq![]
    }) + (if config.feed@.len() == 0 {
        seq![fv("seo/feed"@, Category::Seo, Severity::Low, Scope::Site, "No feeds configured"@, "site.toml"@,
            "Add a [feed.<name>] section to site.toml to generate an Atom feed"@)]
    } else {
        seq![]
    })
}

/// Site-level SEO checks; `sitemap_exists` tells whether
/// `dist/sitemap.xml` exists.
pub fn site_checks(config: &SiteConfig, sitemap_exists: bool) -> (r: Vec<Finding>)
    ensures
        findings_view(r@) == seo_site_findings(*config, sitemap_exists),
{
    let mut results: Vec<Finding> = Vec::new();
    if !sitemap_exists {
        push_finding(&mut results, new_finding("seo/sitemap", Category::Seo, Severity::Critical, Scope::Site,
            owned("No sitemap.xml found in dist/"), owned("site.toml"),
            owned("Ensure the build generates a sitemap.xml in the output directory")));
    }
    let ghost a = findings_view(results@);
    if config.robots.is_none() {
        push_finding(&mut results, new_finding("seo/robots-txt", Category::Seo, Severity::High, Scope::Site,
            owned("No robots.txt configuration found"), owned("site.toml"),
            owned("Add a [robots] section to site.toml to generate robots.txt")));
    }
    let ghost b = findings_view(results@);
    if config.feed.len() == 0 {
        push_finding(&mut results, new_finding("seo/feed", Category::Seo, Severity::Low, Scope::Site,
            owned("No feeds configured"), owned("site.toml"),
            owned("Add a [feed.<name>] section to site.toml to generate an Atom feed")));
    }
    proof {
        let s = seo_site_findings(*config, sitemap_exists);
        assert(findings_view(results@) =~= s);
    }
    results
}

/// The number of elements of `html` matched by `selector`.
pub open spec fn match_count(html: Seq<char>, selector: Seq<char>) -> nat {
    scanned_tags(html, selector).0.len()
}

/// The number of elements of `html` matched by `selector`, as the
/// rewriter reports them.
fn count_matches(html: &str, selector: &str) -> (r: usize)
    ensures
        r == match_count(html@, selector@),
{
    let (tags, _ok) = scan_tags(html, selector);
    tags.len()
}

/// The Open Graph tags missing from a page, comma separated.
pub open spec fn missing_og(title: bool, description: bool, image: bool) -> Seq<char> {
    let parts = (if !title { seq!["og:title"@] } else { seq![] }) + (if !description { seq!["og:description"@] } else { seq![] })
        + (if !image { seq!["og:image"@] } else { seq![] });
    joined(parts)
}

/// Strings joined by `, `.
pub open spec fn joined(parts: Seq<Seq<char>>) -> Seq<char>
    decreases parts.len(),
{
    if parts.len() == 0 {
        seq![]
    } else if parts.len() == 1 {
        parts[0]
    } else {
        joined(parts.drop_last()) + ", "@ + parts.last()
    }
}

/// A page-level SEO finding.
pub open spec fn seo_pf(page: Seq<char>, template: Seq<char>, id: Seq<char>, sev: Severity, msg: Seq<char>, instr: Seq<char>) -> FindingView {
    fv(id, Category::Seo, sev, Scope::Page, page + msg, template, instr)
}

/// `x` when `c` holds.
pub open spec fn finding_if(c: bool, x: FindingView) -> Seq<FindingView> {
    if c {
        seq![x]
    } else {
        seq![]
    }
}

/// The page-level SEO findings of a page whose elements matched the SEO
/// selectors the given number of times.
pub open spec fn seo_page_findings_of(
    page: Seq<char>,
    template: Seq<char>,
    title: nat,
    description: nat,
    canonical: nat,
    og_title: nat,
    og_description: nat,
    og_image: nat,
    twitter_card: nat,
    structured: nat,
    h1: nat,
) -> Seq<FindingView> {
    seo_head_findings(page, template, title, description, canonical, og_title, og_description, og_image)
        + seo_body_findings(page, template, twitter_card, structured, h1)
}

/// The SEO findings about the title, description, canonical link and Open
/// Graph tags.
pub open spec fn seo_head_findings(
    page: Seq<char>,
    template: Seq<char>,
    title: nat,
    description: nat,
    canonical: nat,
    og_title: nat,
    og_description: nat,
    og_image: nat,
) -> Seq<FindingView> {
    finding_if(title == 0, seo_pf(page, template, "seo/meta-title"@, Severity::High, ": missing <title> tag"@,
        "Add a <title> element inside <head>"@))
    + finding_if(description == 0, seo_pf(page, template, "seo/meta-description"@, Severity::High,
        ": missing <meta name=\"description\">"@, "Add <meta name=\"description\" content=\"...\"> inside <head>"@))
    + finding_if(canonical == 0, seo_pf(page, template, "seo/canonical"@, Severity::High, ": missing <link rel=\"canonical\">"@,
        "Add <link rel=\"canonical\" href=\"...\"> inside <head>"@))
    + finding_if(og_title == 0 || og_description == 0 || og_image == 0, seo_pf(page, template, "seo/og-tags"@, Severity::Medium,
        ": missing Open Graph tags: "@ + missing_og(og_title > 0, og_description > 0, og_image > 0),
        "Add the missing <meta property=\"og:...\"> tags inside <head>"@))
}

/// The SEO findings about the Twitter card, structured data and `<h1>`.
pub open spec fn seo_body_findings(page: Seq<char>, template: Seq<char>, twitter_card: nat, structured: nat, h1: nat) -> Seq<FindingView> {
    finding_if(twitter_card == 0, seo_pf(page, template, "seo/twitter-tags"@, Severity::Low,
        ": missing <meta name=\"twitter:card\">"@,
        "Add <meta name=\"twitter:card\" content=\"summary_large_image\"> inside <head>"@))
    + finding_if(structured == 0, seo_pf(page, template, "seo/structured-data"@, Severity::Medium,
        ": missing <script type=\"application/ld+json\"> structured data"@,
        "Add a <script type=\"application/ld+json\"> block with schema.org markup"@))
    + finding_if(h1 == 0, seo_pf(page, template, "seo/heading-hierarchy"@, Severity::Medium, ": no <h1> tag found"@,
        "Add exactly one <h1> element to the page"@))
    + finding_if(h1 > 1, seo_pf(page, template, "seo/heading-hierarchy"@, Severity::Medium,
        ": multiple <h1> tags found ("@ + crate::text::decimal(h1) + ")"@,
        "Use exactly one <h1> element per page; demote extras to <h2> or lower"@))
}

/// The page-level SEO findings of `html`.
pub open spec fn seo_page_findings(html: Seq<char>, page: Seq<char>, template: Seq<char>) -> Seq<FindingView> {
    seo_page_findings_of(
        page,
        template,
        match_count(html, "title"@),
        match_count(html, "meta[name=\"description\"]"@),
        match_count(html, "link[rel=\"canonical\"]"@),
        match_count(html, "meta[property=\"og:title\"]"@),
        match_count(html, "meta[property=\"og:description\"]"@),
        match_count(html, "meta[property=\"og:image\"]"@),
        match_count(html, "meta[name=\"twitter:card\"]"@),
        match_count(html, "script[type=\"application/ld+json\"]"@),
        match_count(html, "h1"@),
    )
}

/// A page finding of the SEO category.
fn page_finding(id: &'static str, severity: Severity, page_path: &str, message: &str, template_path: &str, instruction: &str) -> (r: Finding)
    ensures
        crate::build::audit::finding_view(r) == fv(id@, Category::Seo, severity, Scope::Page, page_path@ + message@, template_path@, instruction@),
{
    new_finding(id, Category::Seo, severity, Scope::Page, concat2(page_path, message), owned(template_path), owned(instruction))
}

/// The missing Open Graph tags, comma separated.
fn og_list(title: bool, description: bool, image: bool) -> (r: String)
    ensures
        r@ == missing_og(title, description, image),
{
    let mut missing = String::new();
    if !title {
        missing.append("og:title");
    }
    if !description {
        if !title {
            missing.append(", ");
        }
        missing.append("og:description");
    }
    if !image {
        if !title || !description {
            missing.append(", ");
        }
        missing.append("og:image");
    }
    proof {
        let p = (if !title { seq!["og:title"@] } else { Seq::<Seq<char>>::empty() })
            + (if !description { seq!["og:description"@] } else { Seq::<Seq<char>>::empty() })
            + (if !image { seq!["og:image"@] } else { Seq::<Seq<char>>::empty() });
        reveal_with_fuel(joined, 4);
        if !title && !description && !image {
            assert(p =~= seq!["og:title"@, "og:description"@, "og:image"@]);
            assert(p.drop_last() =~= seq!["og:title"@, "og:description"@]);
            assert(p.drop_last().drop_last() =~= seq!["og:title"@]);
        } else if !title && !description {
            assert(p =~= seq!["og:title"@, "og:description"@]);
            assert(p.drop_last() =~= seq!["og:title"@]);
        } else if !title && !image {
            assert(p =~= seq!["og:title"@, "og:image"@]);
            assert(p.drop_last() =~= seq!["og:title"@]);
        } else if !description && !image {
            assert(p =~= seq!["og:description"@, "og:image"@]);
            assert(p.drop_last() =~= seq!["og:description"@]);
        } else if !title {
            assert(p =~= seq!["og:title"@]);
        } else if !description {
            assert(p =~= seq!["og:description"@]);
        } else if !image {
            assert(p =~= seq!["og:image"@]);
        } else {
            assert(p =~= Seq::<Seq<char>>::empty());
        }
    }
    missing
}

/// The SEO findings about the head tags.
fn head_checks(
    page_path: &str,
    template_path: &str,
    title: usize,
    description: usize,
    canonical: usize,
    og_title: usize,
    og_description: usize,
    og_image: usize,
) -> (r: Vec<Finding>)
    ensures
        findings_view(r@) == seo_head_findings(page_path@, template_path@, title as nat, description as nat, canonical as nat,
            og_title as nat, og_description as nat, og_image as nat),
{
    let mut results: Vec<Finding> = Vec::new();
    let ghost p = page_path@;
    let ghost t = template_path@;
    assert(findings_view(results@) =~= Seq::<FindingView>::empty());
    if title == 0 {
        push_finding(&mut results, page_finding("seo/meta-title", Severity::High, page_path, ": missing <title> tag",
            template_path, "Add a <title> element inside <head>"));
    }
    let ghost a1 = finding_if(title == 0, seo_pf(p, t, "seo/meta-title"@, Severity::High, ": missing <title> tag"@,
        "Add a <title> element inside <head>"@));
    assert(findings_view(results@) =~= a1);
    if description == 0 {
        push_finding(&mut results, page_finding("seo/meta-description", Severity::High, page_path,
            ": missing <meta name=\"description\">", template_path, "Add <meta name=\"description\" content=\"...\"> inside <head>"));
    }
    let ghost a2 = a1 + finding_if(description == 0, seo_pf(p, t, "seo/meta-description"@, Severity::High,
        ": missing <meta name=\"description\">"@, "Add <meta name=\"description\" content=\"...\"> inside <head>"@));
    assert(findings_view(results@) =~= a2);
    if canonical == 0 {
        push_finding(&mut results, page_finding("seo/canonical", Severity::High, page_path,
            ": missing <link rel=\"canonical\">", template_path, "Add <link rel=\"canonical\" href=\"...\"> inside <head>"));
    }
    let ghost a3 = a2 + finding_if(canonical == 0, seo_pf(p, t, "seo/canonical"@, Severity::High, ": missing <link rel=\"canonical\">"@,
        "Add <link rel=\"canonical\" href=\"...\"> inside <head>"@));
    assert(findings_view(results@) =~= a3);
    if og_title == 0 || og_description == 0 || og_image == 0 {
        let missing = og_list(og_title > 0, og_description > 0, og_image > 0);
        let mut message = owned(": missing Open Graph tags: ");
        message.append(missing.as_str());
        push_finding(&mut results, page_finding("seo/og-tags", Severity::Medium, page_path, message.as_str(),
            template_path, "Add the missing <meta property=\"og:...\"> tags inside <head>"));
    }
    let ghost a4 = a3 + finding_if(og_title == 0 || og_description == 0 || og_image == 0, seo_pf(p, t, "seo/og-tags"@, Severity::Medium,
        ": missing Open Graph tags: "@ + missing_og(og_title > 0, og_description > 0, og_image > 0),
        "Add the missing <meta property=\"og:...\"> tags inside <head>"@));
    assert(findings_view(results@) =~= a4);
    results
}

/// The SEO findings about the body.
fn body_checks(page_path: &str, template_path: &str, twitter_card: usize, structured: usize, h1: usize) -> (r: Vec<Finding>)
    ensures
        findings_view(r@) == seo_body_findings(page_path@, template_path@, twitter_card as nat, structured as nat, h1 as nat),
{
    let mut results: Vec<Finding> = Vec::new();
    let ghost p = page_path@;
    let ghost t = template_path@;
    let ghost a4 = Seq::<FindingView>::empty();
    assert(findings_view(results@) =~= a4);
    if twitter_card == 0 {
        push_finding(&mut results, page_finding("seo/twitter-tags", Severity::Low, page_path,
            ": missing <meta name=\"twitter:card\">", template_path,
            "Add <meta name=\"twitter:card\" content=\"summary_large_image\"> inside <head>"));
    }
    let ghost a5 = a4 + finding_if(twitter_card == 0, seo_pf(p, t, "seo/twitter-tags"@, Severity::Low,
        ": missing <meta name=\"twitter:card\">"@,
        "Add <meta name=\"twitter:card\" content=\"summary_large_image\"> inside <head>"@));
    assert(findings_view(results@) =~= a5);
    if structured == 0 {
        push_finding(&mut results, page_finding("seo/structured-data", Severity::Medium, page_path,
            ": missing <script type=\"application/ld+json\"> structured data", template_path,
            "Add a <script type=\"application/ld+json\"> block with schema.org markup"));
    }
    let ghost a6 = a5 + finding_if(structured == 0, seo_pf(p, t, "seo/structured-data"@, Severity::Medium,
        ": missing <script type=\"application/ld+json\"> structured data"@,
        "Add a <script type=\"application/ld+json\"> block with schema.org markup"@));
    assert(findings_view(results@) =~= a6);
    if h1 == 0 {
        push_finding(&mut results, page_finding("seo/heading-hierarchy", Severity::Medium, page_path,
            ": no <h1> tag found", template_path, "Add exactly one <h1> element to the page"));
    } else if h1 > 1 {
        let mut message = owned(": multiple <h1> tags found (");
        let n = crate::text::decimal_string(h1 as u64);
        message.append(n.as_str());
        message.append(")");
        push_finding(&mut results, page_finding("seo/heading-hierarchy", Severity::Medium, page_path, message.as_str(),
            template_path, "Use exactly one <h1> element per page; demote extras to <h2> or lower"));
    }
    let ghost a7 = a6 + finding_if(h1 == 0, seo_pf(p, t, "seo/heading-hierarchy"@, Severity::Medium, ": no <h1> tag found"@,
        "Add exactly one <h1> element to the page"@)) + finding_if(h1 > 1, seo_pf(p, t, "seo/heading-hierarchy"@, Severity::Medium,
        ": multiple <h1> tags found ("@ + crate::text::decimal(h1 as nat) + ")"@,
        "Use exactly one <h1> element per page; demote extras to <h2> or lower"@));
    assert(findings_view(results@) =~= a7);
    results
}

/// Page-level SEO checks: title, description, canonical link, Open Graph
/// and Twitter tags, structured data, and exactly one `<h1>`.
pub fn page_checks(html: &str, page_path: &str, template_path: &str) -> (r: Vec<Finding>)
    ensures
        findings_view(r@) == seo_page_findings(html@, page_path@, template_path@),
{
    let title = count_matches(html, "title");
    let description = count_matches(html, "meta[name=\"description\"]");
    let canonical = count_matches(html, "link[rel=\"canonical\"]");
    let og_title = count_matches(html, "meta[property=\"og:title\"]");
    let og_description = count_matches(html, "meta[property=\"og:description\"]");
    let og_image = count_matches(html, "meta[property=\"og:image\"]");
    let twitter_card = count_matches(html, "meta[name=\"twitter:card\"]");
    let structured = count_matches(html, "script[type=\"application/ld+json\"]");
    let h1 = count_matches(html, "h1");
    let mut results = head_checks(page_path, template_path, title, description, canonical, og_title, og_description, og_image);
    let rest = body_checks(page_path, template_path, twitter_card, structured, h1);
    crate::build::audit::extend_findings(&mut results, rest);
    results
}

} // verus!
