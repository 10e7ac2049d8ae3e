//! Markdown rendering of the audit report (`_audit.md`).

use vstd::prelude::*;
use crate::build::audit::{
    map_get, page_entries, severity_count, severity_name, sorted_entries, AuditReport, AuditSummary, Finding, Severity,
};
use crate::text::{decimal, decimal_string, push_char};

verus! {

/// The number of findings of severity `s` in a summary.
pub open spec fn sev_count(summary: AuditSummary, s: Severity) -> nat {
    match map_get(summary.by_severity@, s) {
        Some(n) => n as nat,
        None => 0,
    }
}

/// The summary line of a severity, when it has findings.
pub open spec fn md_sev_line(summary: AuditSummary, s: Severity) -> Seq<char> {
    if sev_count(summary, s) > 0 {
        "- **"@ + severity_name(s) + ":** "@ + decimal(sev_count(summary, s)) + seq!['\n']
    } else {
        seq![]
    }
}

/// The Markdown of one finding, under a heading of the given level.
pub open spec fn md_finding(f: Finding, hashes: Seq<char>) -> Seq<char> {
    hashes + " ["@ + severity_name(f.severity) + "] "@ + f.id@ + seq!['\n'] + f.message@ + seq!['\n'] + "**Fix:** In `"@
        + f.fix.file@ + "`, "@ + f.fix.instruction@ + "\n\n"@
}

/// The Markdown of a list of findings.
pub open spec fn md_findings(fs: Seq<Finding>, hashes: Seq<char>) -> Seq<char>
    decreases fs.len(),
{
    if fs.len() == 0 {
        seq![]
    } else {
        md_findings(fs.drop_last(), hashes) + md_finding(fs.last(), hashes)
    }
}

/// The Markdown of the pages' findings.
pub open spec fn md_pages(pages: Seq<(String, Vec<Finding>)>) -> Seq<char>
    decreases pages.len(),
{
    if pages.len() == 0 {
        seq![]
    } else {
        md_pages(pages.drop_last()) + "### "@ + pages.last().0@ + "\n\n"@ + md_findings(pages.last().1@, "####"@)
    }
}

/// The Markdown report for the summary, the site findings and the page
/// entries in order.
pub open spec fn markdown_text(summary: AuditSummary, site: Seq<Finding>, pages: Seq<(String, Vec<Finding>)>) -> Seq<char> {
    "# Eigen Audit Report\n\n## Summary\n\n"@ + md_sev_line(summary, Severity::Critical) + md_sev_line(summary, Severity::High)
        + md_sev_line(summary, Severity::Medium) + md_sev_line(summary, Severity::Low) + if summary.total == 0 {
        "\nAll checks passed!\n"@
    } else {
        (if site.len() > 0 { "\n## Site-Wide Issues\n\n"@ + md_findings(site, "###"@) } else { seq![] }) + (if pages.len() > 0 {
            "\n## Page Issues\n\n"@ + md_pages(pages)
        } else {
            seq![]
        })
    }
}

/// Append the summary line of a severity.
fn push_sev_line(md: &mut String, summary: &AuditSummary, s: Severity)
    ensures
        final(md)@ == old(md)@ + md_sev_line(*summary, s),
{
    let count = match severity_count(&summary.by_severity, s) {
        Some(n) => n,
        None => 0,
    };
    if count > 0 {
        md.append("- **");
        md.append(s.display_name());
        md.append(":** ");
        let n = decimal_string(count as u64);
        md.append(n.as_str());
        push_char(md, '\n');
    }
}

/// Append the Markdown of the findings.
fn push_findings(md: &mut String, fs: &Vec<Finding>, hashes: &str)
    ensures
        final(md)@ == old(md)@ + md_findings(fs@, hashes@),
{
    let ghost start = md@;
    let mut i: usize = 0;
    while i < fs.len()
        invariant
            i <= fs@.len(),
            md@ == start + md_findings(fs@.subrange(0, i as int), hashes@),
        decreases fs@.len() - i,
    {
        let f = &fs[i];
        assert(fs@.subrange(0, i + 1).drop_last() =~= fs@.subrange(0, i as int));
        assert(fs@.subrange(0, i + 1).last() == fs@[i as int]);
        md.append(hashes);
        md.append(" [");
        md.append(f.severity.display_name());
        md.append("] ");
        md.append(f.id);
        push_char(md, '\n');
        md.append(f.message.as_str());
        push_char(md, '\n');
        md.append("**Fix:** In `");
        md.append(f.fix.file.as_str());
        md.append("`, ");
        md.append(f.fix.instruction.as_str());
        md.append("\n\n");
        i = i + 1;
    }
    assert(fs@.subrange(0, fs@.len() as int) =~= fs@);
}

/// Render the audit report as Markdown: the severity counts, then the
/// site-wide and per-page issues with their fixes, or "All checks
/// passed!".
pub fn render_markdown(report: &AuditReport) -> (r: String)
    ensures
        r@ == markdown_text(report.summary, report.site_findings@, sorted_entries(report.page_findings@)),
{
    let mut md = crate::text::owned("# Eigen Audit Report\n\n## Summary\n\n");
    push_sev_line(&mut md, &report.summary, Severity::Critical);
    push_sev_line(&mut md, &report.summary, Severity::High);
    push_sev_line(&mut md, &report.summary, Severity::Medium);
    push_sev_line(&mut md, &report.summary, Severity::Low);
    if report.summary.total == 0 {
        md.append("\nAll checks passed!\n");
        return md;
    }
    if report.site_findings.len() > 0 {
        md.append("\n## Site-Wide Issues\n\n");
        push_findings(&mut md, &report.site_findings, "###");
    }
    let entries = page_entries(&report.page_findings);
    let ghost pages = entries@.map_values(|kv: (&String, &Vec<Finding>)| (*kv.0, *kv.1));
    if entries.len() > 0 {
        md.append("\n## Page Issues\n\n");
        let ghost start = md@;
        let mut i: usize = 0;
        while i < entries.len()
            invariant
                i <= entries@.len(),
                pages == entries@.map_values(|kv: (&String, &Vec<Finding>)| (*kv.0, *kv.1)),
                md@ == start + md_pages(pages.subrange(0, i as int)),
            decreases entries@.len() - i,
        {
            let (page, findings) = entries[i];
            assert(pages.subrange(0, i + 1).drop_last() =~= pages.subrange(0, i as int));
            assert(pages.subrange(0, i + 1).last() == (*page, *findings));
            md.append("### ");
            md.append(page.as_str());
            md.append("\n\n");
            push_findings(&mut md, findings, "####");
            i = i + 1;
        }
        assert(pages.subrange(0, pages.len() as int) =~= pages);
    }
    md
}

} // verus!
