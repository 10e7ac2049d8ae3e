//! HTML rendering of the audit report (`_audit.html`): a self-contained
//! page with a summary bar, filter buttons and the findings grouped by
//! category, then by page.

use vstd::prelude::*;
use crate::build::audit::{
    category_count, category_name, map_get, page_entries, severity_color, severity_count, severity_name, sorted_entries,
    AuditReport, AuditSummary, Category, Finding, Severity,
};
use crate::build::audit::output::markdown::sev_count;
use crate::build::seo::{attr_escaped, escape_attr};
use crate::text::{decimal, decimal_string, push_char};

verus! {

/// The stylesheet of the HTML report.
pub const AUDIT_CSS: &'static str = r#"
*{box-sizing:border-box;margin:0;padding:0}
body{font-family:system-ui,-apple-system,sans-serif;line-height:1.6;padding:2rem;background:#ffffff;color:#1a1a2e}
@media(prefers-color-scheme:dark){
  body{background:#1a1a2e;color:#e0e0e0}
  .__eigen_audit_finding{background:#2a2a4a;border-color:#3a3a5a}
  .__eigen_audit_fix{background:#2a2a4a}
  code{background:#3a3a5a}
}
.__eigen_audit_container{max-width:960px;margin:0 auto}
.__eigen_audit_container h1{font-size:1.75rem;margin-bottom:1rem}
.__eigen_audit_summary{display:flex;gap:.75rem;flex-wrap:wrap;margin-bottom:2rem}
.__eigen_audit_summary_item{padding:.5rem 1rem;border-radius:.375rem;color:#fff;font-weight:600;font-size:.9rem}
.__eigen_audit_badge{display:inline-block;padding:.125rem .5rem;border-radius:.25rem;color:#fff;font-size:.75rem;font-weight:700;vertical-align:middle;margin-right:.5rem}
.__eigen_audit_category{margin-bottom:2rem}
.__eigen_audit_category h2{font-size:1.35rem;margin-bottom:.75rem;border-bottom:2px solid currentColor;padding-bottom:.25rem}
.__eigen_audit_page_group h3{font-size:1rem;margin:.75rem 0 .5rem;color:#6b7280}
@media(prefers-color-scheme:dark){.__eigen_audit_page_group h3{color:#9ca3af}}
.__eigen_audit_finding{border:1px solid #e5e7eb;border-radius:.5rem;padding:1rem;margin-bottom:.75rem}
.__eigen_audit_id{font-size:.85rem;font-weight:600}
.__eigen_audit_message{margin:.5rem 0}
.__eigen_audit_fix{font-size:.85rem;padding:.5rem;border-radius:.25rem;background:#f9fafb;margin-top:.5rem}
.__eigen_audit_filters{display:flex;gap:.5rem;flex-wrap:wrap;margin-bottom:1.5rem}
.__eigen_audit_filters button{padding:.375rem .75rem;border:1px solid #d1d5db;border-radius:.25rem;cursor:pointer;font-size:.8rem;background:#fff;color:#374151}
.__eigen_audit_filters button.active{background:#2563eb;color:#fff;border-color:#2563eb}
@media(prefers-color-scheme:dark){
  .__eigen_audit_filters button{background:#2a2a4a;color:#e0e0e0;border-color:#3a3a5a}
  .__eigen_audit_filters button.active{background:#2563eb;color:#fff;border-color:#2563eb}
}
.__eigen_audit_pass{text-align:center;padding:3rem;font-size:1.25rem;color:#16a34a;font-weight:600}
"#;

/// The filter script of the HTML report.
pub const AUDIT_JS: &'static str = r#"
(function(){
  var activeFilters = { severity: null, category: null };

  function applyFilters() {
    var findings = document.querySelectorAll('.__eigen_audit_finding');
    findings.forEach(function(el) {
      var show = true;
      if (activeFilters.severity && el.dataset.severity !== activeFilters.severity) show = false;
      if (activeFilters.category && el.dataset.category !== activeFilters.category) show = false;
      el.style.display = show ? '' : 'none';
    });
    // Hide empty category sections and page groups
    document.querySelectorAll('.__eigen_audit_category').forEach(function(sec) {
      var visible = sec.querySelectorAll('.__eigen_audit_finding:not([style*="display: none"])');
      sec.style.display = visible.length ? '' : 'none';
    });
    document.querySelectorAll('.__eigen_audit_page_group').forEach(function(pg) {
      var visible = pg.querySelectorAll('.__eigen_audit_finding:not([style*="display: none"])');
      pg.style.display = visible.length ? '' : 'none';
    });
  }

  document.querySelectorAll('.__eigen_audit_filters button').forEach(function(btn) {
    btn.addEventListener('click', function() {
      var kind = btn.dataset.filterKind;
      var value = btn.dataset.filterValue;
      if (activeFilters[kind] === value) {
        activeFilters[kind] = null;
        btn.classList.remove('active');
      } else {
        document.querySelectorAll('[data-filter-kind="' + kind + '"]').forEach(function(b) { b.classList.remove('active'); });
        activeFilters[kind] = value;
        btn.classList.add('active');
      }
      applyFilters();
    });
  });
})();
"#;

/// The lowercase key of a severity, used in data attributes.
pub open spec fn severity_key(s: Severity) -> Seq<char> {
    match s {
        Severity::Critical => "critical"@,
        Severity::High => "high"@,
        Severity::Medium => "medium"@,
        Severity::Low => "low"@,
    }
}

/// The lowercase key of a category, used in data attributes.
pub open spec fn category_key(c: Category) -> Seq<char> {
    match c {
        Category::Seo => "seo"@,
        Category::Performance => "performance"@,
        Category::Accessibility => "accessibility"@,
        Category::BestPractices => "best practices"@,
    }
}

/// The lowercase key of a severity.
fn severity_key_exec(s: Severity) -> (r: &'static str)
    ensures
        r@ == severity_key(s),
{
    match s {
        Severity::Critical => "critical",
        Severity::High => "high",
        Severity::Medium => "medium",
        Severity::Low => "low",
    }
}

/// The lowercase key of a category.
fn category_key_exec(c: Category) -> (r: &'static str)
    ensures
        r@ == category_key(c),
{
    match c {
        Category::Seo => "seo",
        Category::Performance => "performance",
        Category::Accessibility => "accessibility",
        Category::BestPractices => "best practices",
    }
}

/// A severity badge.
pub open spec fn badge_html(s: Severity) -> Seq<char> {
    "<span class=\"__eigen_audit_badge\" style=\"background:"@ + severity_color(s) + "\">"@ + severity_name(s) + "</span>"@
}

/// One finding.
pub open spec fn finding_html(f: Finding) -> Seq<char> {
    "<div class=\"__eigen_audit_finding\" data-severity=\""@ + severity_key(f.severity) + "\" data-category=\""@
        + category_key(f.category) + "\">"@ + badge_html(f.severity) + " <code class=\"__eigen_audit_id\">"@ + f.id@
        + "</code>\n<p class=\"__eigen_audit_message\">"@ + attr_escaped(f.message@)
        + "</p>\n<div class=\"__eigen_audit_fix\"><strong>Fix:</strong> <code>"@ + attr_escaped(f.fix.file@)
        + "</code> &mdash; "@ + attr_escaped(f.fix.instruction@) + "</div>\n</div>"@
}

/// Escape `&`, `<`, `>` and `"` for HTML text.
pub fn html_escape(s: &str) -> (r: String)
    ensures
        r@ == attr_escaped(s@),
{
    escape_attr(s)
}

/// Append a severity badge.
pub fn write_severity_badge(out: &mut String, severity: &Severity)
    ensures
        final(out)@ == old(out)@ + badge_html(*severity),
{
    out.append("<span class=\"__eigen_audit_badge\" style=\"background:");
    out.append(severity.color());
    out.append("\">");
    out.append(severity.display_name());
    out.append("</span>");
}

/// Append one finding.
pub fn write_finding(out: &mut String, finding: &Finding)
    ensures
        final(out)@ == old(out)@ + finding_html(*finding),
{
    out.append("<div class=\"__eigen_audit_finding\" data-severity=\"");
    out.append(severity_key_exec(finding.severity));
    out.append("\" data-category=\"");
    out.append(category_key_exec(finding.category));
    out.append("\">");
    write_severity_badge(out, &finding.severity);
    out.append(" <code class=\"__eigen_audit_id\">");
    out.append(finding.id);
    out.append("</code>\n<p class=\"__eigen_audit_message\">");
    let m = html_escape(finding.message.as_str());
    out.append(m.as_str());
    out.append("</p>\n<div class=\"__eigen_audit_fix\"><strong>Fix:</strong> <code>");
    let f = html_escape(finding.fix.file.as_str());
    out.append(f.as_str());
    out.append("</code> &mdash; ");
    let i = html_escape(finding.fix.instruction.as_str());
    out.append(i.as_str());
    out.append("</div>\n</div>");
}

/// The summary item of a severity, when it has findings.
pub open spec fn summary_item(summary: AuditSummary, s: Severity) -> Seq<char> {
    if sev_count(summary, s) > 0 {
        "<div class=\"__eigen_audit_summary_item\" style=\"background:"@ + severity_color(s) + "\">"@
            + decimal(sev_count(summary, s)) + seq![' '] + severity_name(s) + "</div>\n"@
    } else {
        seq![]
    }
}

/// The summary bar.
#[verifier::opaque]
pub open spec fn summary_bar(summary: AuditSummary) -> Seq<char> {
    "<div class=\"__eigen_audit_summary\">\n"@ + summary_item(summary, Severity::Critical) + summary_item(summary, Severity::High)
        + summary_item(summary, Severity::Medium) + summary_item(summary, Severity::Low) + "</div>\n"@
}

/// Append the summary item of a severity.
fn push_summary_item(out: &mut String, summary: &AuditSummary, s: Severity)
    ensures
        final(out)@ == old(out)@ + summary_item(*summary, s),
{
    let count = match severity_count(&summary.by_severity, s) {
        Some(n) => n,
        None => 0,
    };
    if count > 0 {
        out.append("<div class=\"__eigen_audit_summary_item\" style=\"background:");
        out.append(s.color());
        out.append("\">");
        let n = decimal_string(count as u64);
        out.append(n.as_str());
        push_char(out, ' ');
        out.append(s.display_name());
        out.append("</div>\n");
    }
}

/// Append the summary bar.
pub fn write_summary_bar(out: &mut String, report: &AuditReport)
    ensures
        final(out)@ == old(out)@ + summary_bar(report.summary),
{
    reveal(summary_bar);
    out.append("<div class=\"__eigen_audit_summary\">\n");
    push_summary_item(out, &report.summary, Severity::Critical);
    push_summary_item(out, &report.summary, Severity::High);
    push_summary_item(out, &report.summary, Severity::Medium);
    push_summary_item(out, &report.summary, Severity::Low);
    out.append("</div>\n");
}

/// The filter button of a severity, when it has findings.
pub open spec fn sev_button(summary: AuditSummary, s: Severity) -> Seq<char> {
    if summary.by_severity@.contains_key(s) {
        "<button data-filter-kind=\"severity\" data-filter-value=\""@ + severity_key(s) + "\">"@ + severity_name(s)
            + "</button>\n"@
    } else {
        seq![]
    }
}

/// The filter button of a category, when it has findings.
pub open spec fn cat_button(summary: AuditSummary, c: Category) -> Seq<char> {
    if summary.by_category@.contains_key(c) {
        "<button data-filter-kind=\"category\" data-filter-value=\""@ + category_key(c) + "\">"@ + category_name(c)
            + "</button>\n"@
    } else {
        seq![]
    }
}

/// The filter buttons.
#[verifier::opaque]
pub open spec fn filter_buttons(summary: AuditSummary) -> Seq<char> {
    "<div class=\"__eigen_audit_filters\">\n"@ + sev_button(summary, Severity::Critical) + sev_button(summary, Severity::High)
        + sev_button(summary, Severity::Medium) + sev_button(summary, Severity::Low) + cat_button(summary, Category::Seo)
        + cat_button(summary, Category::Performance) + cat_button(summary, Category::Accessibility) + cat_button(
        summary,
        Category::BestPractices,
    ) + "</div>\n"@
}

/// Append the filter button of a severity.
fn push_sev_button(out: &mut String, summary: &AuditSummary, s: Severity)
    ensures
        final(out)@ == old(out)@ + sev_button(*summary, s),
{
    if severity_count(&summary.by_severity, s).is_some() {
        out.append("<button data-filter-kind=\"severity\" data-filter-value=\"");
        out.append(severity_key_exec(s));
        out.append("\">");
        out.append(s.display_name());
        out.append("</button>\n");
    }
}

/// Append the filter button of a category.
fn push_cat_button(out: &mut String, summary: &AuditSummary, c: Category)
    ensures
        final(out)@ == old(out)@ + cat_button(*summary, c),
{
    if category_count(&summary.by_category, c).is_some() {
        out.append("<button data-filter-kind=\"category\" data-filter-value=\"");
        out.append(category_key_exec(c));
        out.append("\">");
        out.append(c.display_name());
        out.append("</button>\n");
    }
}

/// Append the filter buttons.
pub fn write_filter_buttons(out: &mut String, report: &AuditReport)
    ensures
        final(out)@ == old(out)@ + filter_buttons(report.summary),
{
    reveal(filter_buttons);
    out.append("<div class=\"__eigen_audit_filters\">\n");
    push_sev_button(out, &report.summary, Severity::Critical);
    push_sev_button(out, &report.summary, Severity::High);
    push_sev_button(out, &report.summary, Severity::Medium);
    push_sev_button(out, &report.summary, Severity::Low);
    push_cat_button(out, &report.summary, Category::Seo);
    push_cat_button(out, &report.summary, Category::Performance);
    push_cat_button(out, &report.summary, Category::Accessibility);
    push_cat_button(out, &report.summary, Category::BestPractices);
    out.append("</div>\n");
}

/// The findings of `fs` of category `c`, in order.
pub open spec fn of_category(fs: Seq<Finding>, c: Category) -> Seq<Finding>
    decreases fs.len(),
{
    if fs.len() == 0 {
        seq![]
    } else {
        let rest = of_category(fs.drop_last(), c);
        if fs.last().category == c { rest.push(fs.last()) } else { rest }
    }
}

/// Findings, each followed by a newline.
pub open spec fn findings_html(fs: Seq<Finding>) -> Seq<char>
    decreases fs.len(),
{
    if fs.len() == 0 {
        seq![]
    } else {
        findings_html(fs.drop_last()) + finding_html(fs.last()) + seq!['\n']
    }
}

/// The page groups of category `c`: each page with findings of that
/// category.
pub open spec fn page_groups(pages: Seq<(String, Vec<Finding>)>, c: Category) -> Seq<char>
    decreases pages.len(),
{
    if pages.len() == 0 {
        seq![]
    } else {
        let matched = of_category(pages.last().1@, c);
        page_groups(pages.drop_last(), c) + if matched.len() > 0 {
            "<div class=\"__eigen_audit_page_group\">\n<h3>"@ + pages.last().0@ + "</h3>\n"@ + findings_html(matched)
                + "</div>\n"@
        } else {
            seq![]
        }
    }
}

/// Whether some page has findings of category `c`.
pub open spec fn any_page_of(pages: Seq<(String, Vec<Finding>)>, c: Category) -> bool {
    exists|i: int| 0 <= i < pages.len() && #[trigger] of_category(pages[i].1@, c).len() > 0
}

/// The section of category `c`; empty when it has no findings.
#[verifier::opaque]
pub open spec fn category_section(site: Seq<Finding>, pages: Seq<(String, Vec<Finding>)>, c: Category) -> Seq<char> {
    let s = of_category(site, c);
    if s.len() == 0 && !any_page_of(pages, c) {
        seq![]
    } else {
        "<div class=\"__eigen_audit_category\" data-category=\""@ + category_key(c) + "\">\n<h2>"@ + category_name(c)
            + "</h2>\n"@ + (if s.len() > 0 {
            "<div class=\"__eigen_audit_page_group\">\n<h3>Site-wide</h3>\n"@ + findings_html(s) + "</div>\n"@
        } else {
            seq![]
        }) + page_groups(pages, c) + "</div>\n"@
    }
}

/// The findings of `fs` of category `c`.
fn filter_category(fs: &Vec<Finding>, c: Category) -> (r: Vec<Finding>)
    ensures
        r@ == of_category(fs@, c),
{
    let mut r: Vec<Finding> = Vec::new();
    let mut i: usize = 0;
    while i < fs.len()
        invariant
            i <= fs@.len(),
            r@ == of_category(fs@.subrange(0, i as int), c),
        decreases fs@.len() - i,
    {
        assert(fs@.subrange(0, i + 1).drop_last() =~= fs@.subrange(0, i as int));
        assert(fs@.subrange(0, i + 1).last() == fs@[i as int]);
        if fs[i].category == c {
            r.push(crate::build::audit::copy_finding(&fs[i]));
        }
        i = i + 1;
    }
    assert(fs@.subrange(0, fs@.len() as int) =~= fs@);
    r
}

/// Append findings, each followed by a newline.
fn push_findings_html(out: &mut String, fs: &Vec<Finding>)
    ensures
        final(out)@ == old(out)@ + findings_html(fs@),
{
    let ghost start = out@;
    let mut i: usize = 0;
    while i < fs.len()
        invariant
            i <= fs@.len(),
            out@ == start + findings_html(fs@.subrange(0, i as int)),
        decreases fs@.len() - i,
    {
        assert(fs@.subrange(0, i + 1).drop_last() =~= fs@.subrange(0, i as int));
        assert(fs@.subrange(0, i + 1).last() == fs@[i as int]);
        write_finding(out, &fs[i]);
        push_char(out, '\n');
        i = i + 1;
    }
    assert(fs@.subrange(0, fs@.len() as int) =~= fs@);
}

/// The page groups of a category and whether there is one.
#[verifier::spinoff_prover]
#[verifier::rlimit(50)]
fn collect_groups(report: &AuditReport, category: Category) -> (r: (String, bool))
    ensures
        r.0@ == page_groups(sorted_entries(report.page_findings@), category),
        r.1 == any_page_of(sorted_entries(report.page_findings@), category),
{
    let entries = page_entries(&report.page_findings);
    let ghost pages = entries@.map_values(|kv: (&String, &Vec<Finding>)| (*kv.0, *kv.1));
    let mut groups = String::new();
    let mut any_page = false;
    let mut i: usize = 0;
    while i < entries.len()
        invariant
            i <= entries@.len(),
            pages == entries@.map_values(|kv: (&String, &Vec<Finding>)| (*kv.0, *kv.1)),
            groups@ == page_groups(pages.subrange(0, i as int), category),
            any_page == any_page_of(pages.subrange(0, i as int), category),
        decreases entries@.len() - i,
    {
        let (path, findings) = entries[i];
        let ghost sub = pages.subrange(0, i + 1);
        assert(sub.drop_last() =~= pages.subrange(0, i as int));
        assert(sub.last() == (*path, *findings));
        let matched = filter_category(findings, category);
        if matched.len() > 0 {
            groups.append("<div class=\"__eigen_audit_page_group\">\n<h3>");
            groups.append(path.as_str());
            groups.append("</h3>\n");
            push_findings_html(&mut groups, &matched);
            groups.append("</div>\n");
            any_page = true;
            assert(of_category(sub[i as int].1@, category).len() > 0);
        }
        proof {
            if any_page_of(sub, category) {
                let j = choose|j: int| 0 <= j < sub.len() && #[trigger] of_category(sub[j].1@, category).len() > 0;
                if j < i {
                    assert(pages.subrange(0, i as int)[j] == sub[j]);
                }
            }
            if any_page_of(pages.subrange(0, i as int), category) {
                let j = choose|j: int| 0 <= j < i && #[trigger] of_category(pages.subrange(0, i as int)[j].1@, category).len() > 0;
                assert(sub[j] == pages.subrange(0, i as int)[j]);
            }
        }
        i = i + 1;
    }
    assert(pages.subrange(0, pages.len() as int) =~= pages);
    (groups, any_page)
}

/// Append the section of a category.
pub fn write_category_section(out: &mut String, report: &AuditReport, category: Category)
    ensures
        final(out)@ == old(out)@ + category_section(report.site_findings@, sorted_entries(report.page_findings@), category),
{
    let site = filter_category(&report.site_findings, category);
    let (groups, any_page) = collect_groups(report, category);
    let ghost pages = sorted_entries(report.page_findings@);
    let ghost sect = category_section(report.site_findings@, pages, category);
    let ghost o0 = out@;
    if site.len() == 0 && !any_page {
        assert(sect == Seq::<char>::empty()) by {
            reveal(category_section);
        }
        assert(out@ =~= o0 + sect);
        return;
    }
    let ghost head = "<div class=\"__eigen_audit_category\" data-category=\""@ + category_key(category) + "\">\n<h2>"@
        + category_name(category) + "</h2>\n"@;
    out.append("<div class=\"__eigen_audit_category\" data-category=\"");
    out.append(category_key_exec(category));
    out.append("\">\n<h2>");
    out.append(category.display_name());
    out.append("</h2>\n");
    assert(out@ =~= o0 + head);
    let ghost mid = if site@.len() > 0 {
        "<div class=\"__eigen_audit_page_group\">\n<h3>Site-wide</h3>\n"@ + findings_html(site@) + "</div>\n"@
    } else {
        Seq::<char>::empty()
    };
    if site.len() > 0 {
        out.append("<div class=\"__eigen_audit_page_group\">\n<h3>Site-wide</h3>\n");
        push_findings_html(out, &site);
        out.append("</div>\n");
    }
    assert(out@ =~= o0 + head + mid);
    out.append(groups.as_str());
    out.append("</div>\n");
    assert(sect == head + mid + groups@ + "</div>\n"@) by {
        reveal(category_section);
    }
    assert(out@ =~= o0 + sect);
}

/// The head of the report page.
pub open spec fn report_head() -> Seq<char> {
    "<!DOCTYPE html>\n<html lang=\"en\">\n<head>\n  <meta charset=\"utf-8\">\n  <meta name=\"viewport\" content=\"width=device-width, initial-scale=1\">\n  <title>Eigen Audit Report</title>\n  <style>"@
        + AUDIT_CSS@ + "</style>\n</head>\n<body>\n<div class=\"__eigen_audit_container\">\n<h1>Eigen Audit Report</h1>\n"@
}

/// The HTML report for a report whose page entries are `pages` in order.
pub open spec fn report_html(summary: AuditSummary, site: Seq<Finding>, pages: Seq<(String, Vec<Finding>)>) -> Seq<char> {
    report_head() + report_body(summary, site, pages) + "</div>\n<script>"@ + AUDIT_JS@ + "</script>\n</body>\n</html>\n"@
}

/// The body of the report: the pass notice, or the summary, the filters
/// and the category sections.
pub open spec fn report_body(summary: AuditSummary, site: Seq<Finding>, pages: Seq<(String, Vec<Finding>)>) -> Seq<char> {
    if summary.total == 0 {
        "<div class=\"__eigen_audit_pass\">All checks passed</div>\n"@
    } else {
        summary_bar(summary) + filter_buttons(summary) + category_section(site, pages, Category::Seo) + category_section(
            site,
            pages,
            Category::Performance,
        ) + category_section(site, pages, Category::Accessibility) + category_section(site, pages, Category::BestPractices)
    }
}

/// Append the body of the report.
fn write_body(out: &mut String, report: &AuditReport)
    ensures
        final(out)@ == old(out)@ + report_body(report.summary, report.site_findings@, sorted_entries(report.page_findings@)),
{
    if report.summary.total == 0 {
        out.append("<div class=\"__eigen_audit_pass\">All checks passed</div>\n");
    } else {
        let ghost o0 = out@;
        let ghost pages = sorted_entries(report.page_findings@);
        let ghost site = report.site_findings@;
        write_summary_bar(out, report);
        write_filter_buttons(out, report);
        write_category_section(out, report, Category::Seo);
        write_category_section(out, report, Category::Performance);
        write_category_section(out, report, Category::Accessibility);
        write_category_section(out, report, Category::BestPractices);
        assert(out@ =~= o0 + report_body(report.summary, site, pages));
    }
}

/// Render the audit report as a self-contained HTML page.
pub fn render_html(report: &AuditReport) -> (r: String)
    ensures
        r@ == report_html(report.summary, report.site_findings@, sorted_entries(report.page_findings@)),
{
    let mut html = crate::text::owned("<!DOCTYPE html>\n<html lang=\"en\">\n<head>\n  <meta charset=\"utf-8\">\n  <meta name=\"viewport\" content=\"width=device-width, initial-scale=1\">\n  <title>Eigen Audit Report</title>\n  <style>");
    html.append(AUDIT_CSS);
    html.append("</style>\n</head>\n<body>\n<div class=\"__eigen_audit_container\">\n<h1>Eigen Audit Report</h1>\n");
    write_body(&mut html, report);
    html.append("</div>\n<script>");
    html.append(AUDIT_JS);
    html.append("</script>\n</body>\n</html>\n");
    html
}

} // verus!
