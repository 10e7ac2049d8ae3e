//! `robots.txt` generation.
//!
//! When `[robots]` is configured, the build writes a `robots.txt` with one
//! group per user-agent rule and the sitemap references.

use vstd::prelude::*;
use crate::config::{RobotsConfig, RobotsRule, SiteConfig};
use crate::text::{push_char, strs_view, trim_end_char, trim_end_char_exec};

verus! {

/// One directive line per path: `label` + path + newline.
pub open spec fn path_lines(label: Seq<char>, paths: Seq<Seq<char>>) -> Seq<char>
    decreases paths.len(),
{
    if paths.len() == 0 {
        seq![]
    } else {
        path_lines(label, paths.drop_last()) + label + paths.last() + seq!['\n']
    }
}

/// The text of one rule group.
pub open spec fn rule_text(rule: RobotsRule) -> Seq<char> {
    "User-agent: "@ + rule.user_agent@ + seq!['\n'] + path_lines("Allow: "@, strs_view(rule.allow@)) + path_lines(
        "Disallow: "@,
        strs_view(rule.disallow@),
    )
}

/// The rule groups, separated by blank lines.
pub open spec fn rules_text(rules: Seq<RobotsRule>) -> Seq<char>
    decreases rules.len(),
{
    if rules.len() == 0 {
        seq![]
    } else if rules.len() == 1 {
        rule_text(rules[0])
    } else {
        rules_text(rules.drop_last()) + seq!['\n'] + rule_text(rules.last())
    }
}

/// The complete `robots.txt` for `robots` and a base URL without trailing
/// slash.
pub open spec fn robots_text(robots: RobotsConfig, base_url: Seq<char>) -> Seq<char> {
    let has_sitemaps = robots.sitemap || robots.extra_sitemaps@.len() > 0;
    rules_text(robots.rules@) + (if has_sitemaps && robots.rules@.len() > 0 { seq!['\n'] } else { seq![] }) + (if robots.sitemap {
        "Sitemap: "@ + base_url + "/sitemap.xml\n"@
    } else {
        seq![]
    }) + path_lines("Sitemap: "@, strs_view(robots.extra_sitemaps@))
}

/// Append one line per path.
fn push_path_lines(out: &mut String, label: &str, paths: &Vec<String>)
    ensures
        final(out)@ == old(out)@ + path_lines(label@, strs_view(paths@)),
{
    let ghost start = out@;
    let ghost pv = strs_view(paths@);
    let mut i: usize = 0;
    while i < paths.len()
        invariant
            i <= paths@.len(),
            pv == strs_view(paths@),
            out@ == start + path_lines(label@, pv.subrange(0, i as int)),
        decreases paths@.len() - i,
    {
        assert(pv.subrange(0, i + 1).drop_last() =~= pv.subrange(0, i as int));
        assert(pv.subrange(0, i + 1).last() == paths@[i as int]@);
        out.append(label);
        out.append(paths[i].as_str());
        push_char(out, '\n');
        i = i + 1;
    }
    assert(pv.subrange(0, pv.len() as int) =~= pv);
}

/// Append a single rule group to the output string.
pub fn format_rule(out: &mut String, rule: &RobotsRule)
    ensures
        final(out)@ == old(out)@ + rule_text(*rule),
{
    out.append("User-agent: ");
    out.append(rule.user_agent.as_str());
    push_char(out, '\n');
    push_path_lines(out, "Allow: ", &rule.allow);
    push_path_lines(out, "Disallow: ", &rule.disallow);
}

/// Build the full `robots.txt` content.
pub fn build_robots_content(robots: &RobotsConfig, base_url: &str) -> (r: String)
    ensures
        r@ == robots_text(*robots, base_url@),
{
    let mut content = String::new();
    let mut i: usize = 0;
    while i < robots.rules.len()
        invariant
            i <= robots.rules@.len(),
            content@ == rules_text(robots.rules@.subrange(0, i as int)),
        decreases robots.rules@.len() - i,
    {
        let ghost before = content@;
        if i > 0 {
            push_char(&mut content, '\n');
        }
        format_rule(&mut content, &robots.rules[i]);
        proof {
            let s = robots.rules@.subrange(0, i + 1);
            assert(s.drop_last() =~= robots.rules@.subrange(0, i as int));
            assert(s.last() == robots.rules@[i as int]);
            if i == 0 {
                assert(s[0] == robots.rules@[0]);
                assert(before =~= Seq::<char>::empty());
            }
        }
        i = i + 1;
    }
    assert(robots.rules@.subrange(0, robots.rules@.len() as int) =~= robots.rules@);
    let has_sitemaps = robots.sitemap || robots.extra_sitemaps.len() > 0;
    if has_sitemaps && robots.rules.len() > 0 {
        push_char(&mut content, '\n');
    }
    if robots.sitemap {
        content.append("Sitemap: ");
        content.append(base_url);
        content.append("/sitemap.xml\n");
    }
    push_path_lines(&mut content, "Sitemap: ", &robots.extra_sitemaps);
    content
}

/// The `robots.txt` of a site: `None` when `[robots]` is not configured
/// (no file is written). The site's base URL is used without trailing
/// slashes.
pub fn robots_txt_content(config: &SiteConfig) -> (r: Option<String>)
    ensures
        match config.robots {
            Some(robots) => r matches Some(s) && s@ == robots_text(robots, trim_end_char(config.site.base_url@, '/')),
            None => r is None,
        },
{
    match &config.robots {
        Some(robots) => {
            let base = trim_end_char_exec(config.site.base_url.as_str(), '/');
            Some(build_robots_content(robots, base.as_str()))
        },
        None => None,
    }
}

/// Whether a file of `static/` (path relative to it) is copied to `dist/`
/// as it is: every file but `robots.txt`, which this module writes.
pub fn is_copied_verbatim(rel_path: &str) -> (r: bool)
    ensures
        r == (rel_path@ != "robots.txt"@),
{
    !crate::text::str_eq(rel_path, "robots.txt")
}

} // verus!

