//! Build-time audit: SEO, performance, accessibility and best-practice
//! checks over the site configuration and the rendered pages, collected in
//! an `AuditReport` with actionable findings.

pub mod checks;
pub mod output;
pub mod overlay;

use std::collections::BTreeMap;
use vstd::prelude::*;
use crate::build::render::RenderedPage;
use crate::config::SiteConfig;

verus! {

/// Severity of an audit finding, most severe first.
#[derive(Debug, Clone, Copy, PartialEq, Eq, PartialOrd, Ord, Hash, Structural)]
pub enum Severity {
    Critical,
    High,
    Medium,
    Low,
}

/// Category of an audit check.
#[derive(Debug, Clone, Copy, PartialEq, Eq, PartialOrd, Ord, Hash, Structural)]
pub enum Category {
    Seo,
    Performance,
    Accessibility,
    BestPractices,
}

/// The display name of a category.
pub open spec fn category_name(c: Category) -> Seq<char> {
    match c {
        Category::Seo => "SEO"@,
        Category::Performance => "Performance"@,
        Category::Accessibility => "Accessibility"@,
        Category::BestPractices => "Best Practices"@,
    }
}

/// The display name of a severity.
pub open spec fn severity_name(s: Severity) -> Seq<char> {
    match s {
        Severity::Critical => "CRITICAL"@,
        Severity::High => "HIGH"@,
        Severity::Medium => "MEDIUM"@,
        Severity::Low => "LOW"@,
    }
}

/// The CSS color of a severity.
pub open spec fn severity_color(s: Severity) -> Seq<char> {
    match s {
        Severity::Critical => "#dc2626"@,
        Severity::High => "#ea580c"@,
        Severity::Medium => "#ca8a04"@,
        Severity::Low => "#2563eb"@,
    }
}

impl Category {
    /// Human-readable name of the category.
    pub fn display_name(&self) -> (r: &'static str)
        ensures
            r@ == category_name(*self),
    {
        match self {
            Category::Seo => "SEO",
            Category::Performance => "Performance",
            Category::Accessibility => "Accessibility",
            Category::BestPractices => "Best Practices",
        }
    }
}

impl Severity {
    /// Human-readable (upper-case) name of the severity.
    pub fn display_name(&self) -> (r: &'static str)
        ensures
            r@ == severity_name(*self),
    {
        match self {
            Severity::Critical => "CRITICAL",
            Severity::High => "HIGH",
            Severity::Medium => "MEDIUM",
            Severity::Low => "LOW",
        }
    }

    /// CSS color for this severity level.
    pub fn color(&self) -> (r: &'static str)
        ensures
            r@ == severity_color(*self),
    {
        match self {
            Severity::Critical => "#dc2626",
            Severity::High => "#ea580c",
            Severity::Medium => "#ca8a04",
            Severity::Low => "#2563eb",
        }
    }
}

/// Scope of a check: site-wide or per page.
#[derive(Debug, Clone, Copy, PartialEq, Eq, Structural)]
pub enum Scope {
    Site,
    Page,
}

/// Actionable fix information for a finding.
#[derive(Debug, Clone)]
pub struct Fix {
    /// File to modify (e.g. `site.toml` or `templates/about.html`).
    pub file: String,
    /// Human-readable instruction for the fix.
    pub instruction: String,
}

/// A single audit finding.
#[derive(Debug, Clone)]
pub struct Finding {
    /// Stable check ID (e.g. `seo/meta-description`).
    pub id: &'static str,
    pub category: Category,
    pub severity: Severity,
    pub scope: Scope,
    /// Human-readable issue description.
    pub message: String,
    /// Actionable fix.
    pub fix: Fix,
}

/// Summary counts of a report.
#[derive(Debug, Clone)]
pub struct AuditSummary {
    pub total: usize,
    /// Number of findings per severity; severities without findings are
    /// absent.
    pub by_severity: BTreeMap<Severity, usize>,
    /// Number of findings per category; categories without findings are
    /// absent.
    pub by_category: BTreeMap<Category, usize>,
}

/// The complete audit report.
#[derive(Debug, Clone)]
pub struct AuditReport {
    pub summary: AuditSummary,
    pub site_findings: Vec<Finding>,
    /// Findings per page URL path; pages without findings are absent.
    pub page_findings: BTreeMap<String, Vec<Finding>>,
}

/// The plain content of a finding.
pub struct FindingView {
    pub id: Seq<char>,
    pub category: Category,
    pub severity: Severity,
    pub scope: Scope,
    pub message: Seq<char>,
    pub file: Seq<char>,
    pub instruction: Seq<char>,
}

/// The content of a finding.
pub open spec fn finding_view(f: Finding) -> FindingView {
    FindingView {
        id: f.id@,
        category: f.category,
        severity: f.severity,
        scope: f.scope,
        message: f.message@,
        file: f.fix.file@,
        instruction: f.fix.instruction@,
    }
}

/// The contents of a list of findings.
pub open spec fn findings_view(v: Seq<Finding>) -> Seq<FindingView> {
    v.map_values(|f: Finding| finding_view(f))
}

/// A finding with the given content.
pub open spec fn fv(
    id: Seq<char>,
    category: Category,
    severity: Severity,
    scope: Scope,
    message: Seq<char>,
    file: Seq<char>,
    instruction: Seq<char>,
) -> FindingView {
    FindingView { id, category, severity, scope, message, file, instruction }
}

/// Build a finding.
pub fn new_finding(
    id: &'static str,
    category: Category,
    severity: Severity,
    scope: Scope,
    message: String,
    file: String,
    instruction: String,
) -> (r: Finding)
    ensures
        finding_view(r) == fv(id@, category, severity, scope, message@, file@, instruction@),
{
    Finding { id, category, severity, scope, message, fix: Fix { file, instruction } }
}

/// Append `f` to `v`.
pub fn push_finding(v: &mut Vec<Finding>, f: Finding)
    ensures
        findings_view(final(v)@) == findings_view(old(v)@).push(finding_view(f)),
{
    let ghost before = findings_view(v@);
    v.push(f);
    assert(findings_view(v@) =~= before.push(finding_view(f)));
}

/// Append all of `w` to `v`.
pub fn extend_findings(v: &mut Vec<Finding>, w: Vec<Finding>)
    ensures
        findings_view(final(v)@) == findings_view(old(v)@) + findings_view(w@),
{
    let ghost before = findings_view(v@);
    let ghost wv = findings_view(w@);
    let n = w.len();
    let mut i: usize = 0;
    let src = w;
    let ghost sv = src@;
    while i < n
        invariant
            i <= n,
            n == sv.len(),
            findings_view(v@) == before + findings_view(sv.subrange(0, i as int)),
            src@ == sv,
            wv == findings_view(sv),
        decreases n - i,
    {
        let f = copy_finding(&src[i]);
        let ghost vb = findings_view(v@);
        v.push(f);
        assert(findings_view(v@) =~= vb.push(finding_view(sv[i as int])));
        assert(findings_view(sv.subrange(0, i + 1)) =~= findings_view(sv.subrange(0, i as int)).push(finding_view(sv[i as int])));
        i = i + 1;
    }
    assert(sv.subrange(0, n as int) =~= sv);
}

/// A copy of a finding.
pub fn copy_finding(f: &Finding) -> (r: Finding)
    ensures
        r == *f,
{
    Finding {
        id: f.id,
        category: f.category,
        severity: f.severity,
        scope: f.scope,
        message: f.message.clone(),
        fix: Fix { file: f.fix.file.clone(), instruction: f.fix.instruction.clone() },
    }
}

/// A copy of a list of findings.
pub fn copy_findings(v: &[Finding]) -> (r: Vec<Finding>)
    ensures
        r@ == v@,
{
    let mut r: Vec<Finding> = Vec::new();
    let mut i: usize = 0;
    while i < v.len()
        invariant
            i <= v@.len(),
            r@ == v@.subrange(0, i as int),
        decreases v@.len() - i,
    {
        r.push(copy_finding(&v[i]));
        i = i + 1;
        assert(r@ =~= v@.subrange(0, i as int));
    }
    assert(v@.subrange(0, v@.len() as int) =~= v@);
    r
}

// ---------------------------------------------------------------------------
// Ordered maps of the report
// ---------------------------------------------------------------------------

/// The value stored under `k`, if any.
pub open spec fn map_get<K, V>(m: Map<K, V>, k: K) -> Option<V> {
    if m.contains_key(k) {
        Some(m[k])
    } else {
        None
    }
}

/// The number of findings recorded for `s`.
///
/// Trusted: calls `BTreeMap::get`, which std documents as returning the
/// value stored under the key (the derived order of `Severity` is a total
/// order consistent with its equality).
#[verifier::external_body]
pub fn severity_count(m: &BTreeMap<Severity, usize>, s: Severity) -> (r: Option<usize>)
    ensures
        r == map_get(m@, s),
{
    m.get(&s).copied()
}

/// The number of findings recorded for `c`.
///
/// Trusted: calls `BTreeMap::get` (as `severity_count`).
#[verifier::external_body]
pub fn category_count(m: &BTreeMap<Category, usize>, c: Category) -> (r: Option<usize>)
    ensures
        r == map_get(m@, c),
{
    m.get(&c).copied()
}

/// Record `n` findings for `s`.
///
/// Trusted: calls `BTreeMap::insert`, which std documents as storing the
/// value under the key, replacing any earlier one.
#[verifier::external_body]
pub fn set_severity_count(m: &mut BTreeMap<Severity, usize>, s: Severity, n: usize)
    ensures
        final(m)@ == old(m)@.insert(s, n),
{
    m.insert(s, n);
}

/// Record `n` findings for `c`.
///
/// Trusted: calls `BTreeMap::insert` (as `set_severity_count`).
#[verifier::external_body]
pub fn set_category_count(m: &mut BTreeMap<Category, usize>, c: Category, n: usize)
    ensures
        final(m)@ == old(m)@.insert(c, n),
{
    m.insert(c, n);
}

/// `s` lists the entries of `m`: each entry of `m` exactly once, in some
/// order.
pub open spec fn is_listing(m: Map<String, Vec<Finding>>, s: Seq<(String, Vec<Finding>)>) -> bool {
    &&& forall|i: int| 0 <= i < s.len() ==> #[trigger] m.contains_key(s[i].0) && m[s[i].0] == s[i].1
    &&& forall|i: int, j: int| 0 <= i < j < s.len() ==> #[trigger] s[i].0 != #[trigger] s[j].0
    &&& forall|k: String| #[trigger] m.contains_key(k) ==> exists|i: int| 0 <= i < s.len() && #[trigger] s[i].0 == k
}

/// `a` comes before `b` in the lexicographic order of their characters'
/// code points (the order of `String`, which compares UTF-8 bytes).
pub open spec fn lex_lt(a: Seq<char>, b: Seq<char>) -> bool
    decreases a.len(),
{
    if a.len() == 0 {
        b.len() > 0
    } else if b.len() == 0 {
        false
    } else if a[0] == b[0] {
        lex_lt(a.skip(1), b.skip(1))
    } else {
        (a[0] as u32) < (b[0] as u32)
    }
}

/// `s` lists the entries of `m` in ascending key order.
pub open spec fn is_sorted_listing(m: Map<String, Vec<Finding>>, s: Seq<(String, Vec<Finding>)>) -> bool {
    &&& is_listing(m, s)
    &&& forall|i: int, j: int| 0 <= i < j < s.len() ==> lex_lt(#[trigger] s[i].0@, #[trigger] s[j].0@)
}

/// The entries of `m` in ascending key order.
pub open spec fn sorted_entries(m: Map<String, Vec<Finding>>) -> Seq<(String, Vec<Finding>)> {
    choose|s: Seq<(String, Vec<Finding>)>| is_sorted_listing(m, s)
}

/// The entries of the page map, in iteration order.
///
/// Trusted: collects `BTreeMap::iter`, which std documents as visiting
/// every entry of the map once, in ascending key order (`String` orders
/// by its UTF-8 bytes, which is the order of code points); that sequence
/// is the only sorted listing of the map.
#[verifier::external_body]
pub fn page_entries(m: &BTreeMap<String, Vec<Finding>>) -> (r: Vec<(&String, &Vec<Finding>)>)
    ensures
        is_sorted_listing(m@, r@.map_values(|kv: (&String, &Vec<Finding>)| (*kv.0, *kv.1))),
        r@.map_values(|kv: (&String, &Vec<Finding>)| (*kv.0, *kv.1)) == sorted_entries(m@),
{
    m.iter().collect()
}

// ---------------------------------------------------------------------------
// Summary
// ---------------------------------------------------------------------------

/// The findings of the page entries, concatenated in order.
pub open spec fn page_findings_flat(pages: Seq<(String, Vec<Finding>)>) -> Seq<Finding>
    decreases pages.len(),
{
    if pages.len() == 0 {
        seq![]
    } else {
        page_findings_flat(pages.drop_last()) + pages.last().1@
    }
}

/// All findings of a report: site-wide first, then per page in order.
pub open spec fn all_findings(site: Seq<Finding>, pages: Seq<(String, Vec<Finding>)>) -> Seq<Finding> {
    site + page_findings_flat(pages)
}

/// The number of findings of severity `s` in `fs`.
pub open spec fn count_severity(fs: Seq<Finding>, s: Severity) -> nat
    decreases fs.len(),
{
    if fs.len() == 0 {
        0
    } else {
        count_severity(fs.drop_last(), s) + if fs.last().severity == s { 1nat } else { 0nat }
    }
}

/// The number of findings of category `c` in `fs`.
pub open spec fn count_category(fs: Seq<Finding>, c: Category) -> nat
    decreases fs.len(),
{
    if fs.len() == 0 {
        0
    } else {
        count_category(fs.drop_last(), c) + if fs.last().category == c { 1nat } else { 0nat }
    }
}

/// `m` holds exactly the severities with findings in `fs`, each with its
/// number of findings.
pub open spec fn severity_counts_of(m: Map<Severity, usize>, fs: Seq<Finding>) -> bool {
    forall|s: Severity| {
        &&& (#[trigger] m.contains_key(s) <==> count_severity(fs, s) > 0)
        &&& (m.contains_key(s) ==> m[s] == count_severity(fs, s))
    }
}

/// `m` holds exactly the categories with findings in `fs`, each with its
/// number of findings.
pub open spec fn category_counts_of(m: Map<Category, usize>, fs: Seq<Finding>) -> bool {
    forall|c: Category| {
        &&& (#[trigger] m.contains_key(c) <==> count_category(fs, c) > 0)
        &&& (m.contains_key(c) ==> m[c] == count_category(fs, c))
    }
}

/// Per-severity and per-category counters over a list of findings.
struct Counts {
    total: usize,
    sev: [usize; 4],
    cat: [usize; 4],
}

/// The counter slot of a severity.
pub open spec fn sev_slot(s: Severity) -> int {
    match s {
        Severity::Critical => 0,
        Severity::High => 1,
        Severity::Medium => 2,
        Severity::Low => 3,
    }
}

/// The counter slot of a category.
pub open spec fn cat_slot(c: Category) -> int {
    match c {
        Category::Seo => 0,
        Category::Performance => 1,
        Category::Accessibility => 2,
        Category::BestPractices => 3,
    }
}

/// `k` counts `fs`.
spec fn counts_match(k: Counts, fs: Seq<Finding>) -> bool {
    &&& k.total == fs.len()
    &&& forall|s: Severity| #[trigger] k.sev@[sev_slot(s)] == count_severity(fs, s)
    &&& forall|c: Category| #[trigger] k.cat@[cat_slot(c)] == count_category(fs, c)
}

/// Count one more finding.
fn count_one(k: &mut Counts, f: &Finding, Ghost(fs): Ghost<Seq<Finding>>)
    requires
        counts_match(*old(k), fs),
        fs.len() < usize::MAX,
    ensures
        counts_match(*final(k), fs.push(*f)),
{
    proof {
        assert(fs.push(*f).drop_last() =~= fs);
        assert forall|s: Severity| count_severity(fs, s) <= fs.len() by {
            lemma_count_severity_le(fs, s);
        }
        assert forall|c: Category| count_category(fs, c) <= fs.len() by {
            lemma_count_category_le(fs, c);
        }
        assert(k.sev@[sev_slot(f.severity)] == count_severity(fs, f.severity));
        assert(k.cat@[cat_slot(f.category)] == count_category(fs, f.category));
    }
    k.total = k.total + 1;
    let si: usize = match f.severity {
        Severity::Critical => 0,
        Severity::High => 1,
        Severity::Medium => 2,
        Severity::Low => 3,
    };
    let ci: usize = match f.category {
        Category::Seo => 0,
        Category::Performance => 1,
        Category::Accessibility => 2,
        Category::BestPractices => 3,
    };
    k.sev[si] = k.sev[si] + 1;
    k.cat[ci] = k.cat[ci] + 1;
    proof {
        let g = fs.push(*f);
        assert forall|s: Severity| #[trigger] k.sev@[sev_slot(s)] == count_severity(g, s) by {
            assert(g.drop_last() =~= fs);
        }
        assert forall|c: Category| #[trigger] k.cat@[cat_slot(c)] == count_category(g, c) by {
            assert(g.drop_last() =~= fs);
        }
    }
}

/// A count never exceeds the number of findings.
pub proof fn lemma_count_severity_le(fs: Seq<Finding>, s: Severity)
    ensures
        count_severity(fs, s) <= fs.len(),
    decreases fs.len(),
{
    if fs.len() > 0 {
        lemma_count_severity_le(fs.drop_last(), s);
    }
}

/// A count never exceeds the number of findings.
pub proof fn lemma_count_category_le(fs: Seq<Finding>, c: Category)
    ensures
        count_category(fs, c) <= fs.len(),
    decreases fs.len(),
{
    if fs.len() > 0 {
        lemma_count_category_le(fs.drop_last(), c);
    }
}

/// Count every finding of `v`.
fn count_all(k: &mut Counts, v: &[Finding], Ghost(fs): Ghost<Seq<Finding>>)
    requires
        counts_match(*old(k), fs),
        fs.len() + v@.len() <= usize::MAX,
    ensures
        counts_match(*final(k), fs + v@),
{
    let mut i: usize = 0;
    while i < v.len()
        invariant
            i <= v@.len(),
            fs.len() + v@.len() <= usize::MAX,
            counts_match(*k, fs + v@.subrange(0, i as int)),
        decreases v@.len() - i,
    {
        count_one(k, &v[i], Ghost(fs + v@.subrange(0, i as int)));
        assert(fs + v@.subrange(0, i as int) + seq![v@[i as int]] =~= fs + v@.subrange(0, i + 1));
        assert((fs + v@.subrange(0, i as int)).push(v@[i as int]) =~= fs + v@.subrange(0, i + 1));
        i = i + 1;
    }
    assert(v@.subrange(0, v@.len() as int) =~= v@);
}

/// The summary of `site` followed by the page entries `pages`.
pub open spec fn summarizes(r: AuditSummary, site: Seq<Finding>, pages: Seq<(String, Vec<Finding>)>) -> bool {
    &&& r.total == all_findings(site, pages).len()
    &&& severity_counts_of(r.by_severity@, all_findings(site, pages))
    &&& category_counts_of(r.by_category@, all_findings(site, pages))
}

impl AuditReport {
    /// Build the summary counts of the findings.
    pub fn compute_summary(site_findings: &[Finding], page_findings: &BTreeMap<String, Vec<Finding>>) -> (r: AuditSummary)
        requires
            forall|s: Seq<(String, Vec<Finding>)>| is_listing(page_findings@, s)
                ==> #[trigger] all_findings(site_findings@, s).len() <= usize::MAX,
        ensures
            forall|s: Seq<(String, Vec<Finding>)>| is_listing(page_findings@, s)
                ==> #[trigger] summarizes(r, site_findings@, s),
    {
        let entries = page_entries(page_findings);
        let ghost pages = entries@.map_values(|kv: (&String, &Vec<Finding>)| (*kv.0, *kv.1));
        assert(all_findings(site_findings@, pages).len() <= usize::MAX);
        let mut k = Counts { total: 0, sev: [0, 0, 0, 0], cat: [0, 0, 0, 0] };
        proof {
            let e: Seq<Finding> = seq![];
            assert forall|s: Severity| #[trigger] k.sev@[sev_slot(s)] == count_severity(e, s) by {}
            assert forall|c: Category| #[trigger] k.cat@[cat_slot(c)] == count_category(e, c) by {}
            assert(counts_match(k, e));
            lemma_flat_prefix_le(pages, site_findings@);
        }
        count_all(&mut k, site_findings, Ghost(Seq::empty()));
        assert(Seq::<Finding>::empty() + site_findings@ =~= site_findings@);
        let mut i: usize = 0;
        while i < entries.len()
            invariant
                i <= entries@.len(),
                entries@.map_values(|kv: (&String, &Vec<Finding>)| (*kv.0, *kv.1)) == pages,
                all_findings(site_findings@, pages).len() <= usize::MAX,
                forall|j: int| 0 <= j <= pages.len() ==> (site_findings@ + #[trigger] page_findings_flat(pages.subrange(0, j))).len() <= usize::MAX,
                counts_match(k, site_findings@ + page_findings_flat(pages.subrange(0, i as int))),
            decreases entries@.len() - i,
        {
            let ghost before = site_findings@ + page_findings_flat(pages.subrange(0, i as int));
            let v: &Vec<Finding> = entries[i].1;
            assert(pages[i as int].1 == *v);
            assert(pages.subrange(0, i + 1).drop_last() =~= pages.subrange(0, i as int));
            assert(before + v@ =~= site_findings@ + page_findings_flat(pages.subrange(0, i + 1)));
            count_all(&mut k, v.as_slice(), Ghost(before));
            i = i + 1;
        }
        assert(pages.subrange(0, pages.len() as int) =~= pages);
        let ghost all = all_findings(site_findings@, pages);
        let mut by_severity: BTreeMap<Severity, usize> = BTreeMap::new();
        let mut by_category: BTreeMap<Category, usize> = BTreeMap::new();
        if k.sev[0] > 0 { set_severity_count(&mut by_severity, Severity::Critical, k.sev[0]); }
        if k.sev[1] > 0 { set_severity_count(&mut by_severity, Severity::High, k.sev[1]); }
        if k.sev[2] > 0 { set_severity_count(&mut by_severity, Severity::Medium, k.sev[2]); }
        if k.sev[3] > 0 { set_severity_count(&mut by_severity, Severity::Low, k.sev[3]); }
        if k.cat[0] > 0 { set_category_count(&mut by_category, Category::Seo, k.cat[0]); }
        if k.cat[1] > 0 { set_category_count(&mut by_category, Category::Performance, k.cat[1]); }
        if k.cat[2] > 0 { set_category_count(&mut by_category, Category::Accessibility, k.cat[2]); }
        if k.cat[3] > 0 { set_category_count(&mut by_category, Category::BestPractices, k.cat[3]); }
        proof {
            assert(k.sev@[sev_slot(Severity::Critical)] == count_severity(all, Severity::Critical));
            assert(k.sev@[sev_slot(Severity::High)] == count_severity(all, Severity::High));
            assert(k.sev@[sev_slot(Severity::Medium)] == count_severity(all, Severity::Medium));
            assert(k.sev@[sev_slot(Severity::Low)] == count_severity(all, Severity::Low));
            assert(k.cat@[cat_slot(Category::Seo)] == count_category(all, Category::Seo));
            assert(k.cat@[cat_slot(Category::Performance)] == count_category(all, Category::Performance));
            assert(k.cat@[cat_slot(Category::Accessibility)] == count_category(all, Category::Accessibility));
            assert(k.cat@[cat_slot(Category::BestPractices)] == count_category(all, Category::BestPractices));
        }
        let r = AuditSummary { total: k.total, by_severity, by_category };
        proof {
            assert(summarizes(r, site_findings@, pages));
            lemma_summary_any_listing(r, site_findings@, page_findings@, pages);
        }
        r
    }
}

/// A summary of one listing of the page map is a summary of every listing.
proof fn lemma_summary_any_listing(
    r: AuditSummary,
    site: Seq<Finding>,
    m: Map<String, Vec<Finding>>,
    pages: Seq<(String, Vec<Finding>)>,
)
    requires
        is_listing(m, pages),
        summarizes(r, site, pages),
    ensures
        forall|s: Seq<(String, Vec<Finding>)>| is_listing(m, s) ==> #[trigger] summarizes(r, site, s),
{
    assert forall|s: Seq<(String, Vec<Finding>)>| is_listing(m, s) implies #[trigger] summarizes(r, site, s) by {
        lemma_listings_agree(m, pages, s);
        lemma_count_concat(site, page_findings_flat(pages));
        lemma_count_concat(site, page_findings_flat(s));
        let a = all_findings(site, pages);
        let b = all_findings(site, s);
        assert forall|x: Severity| #[trigger] count_severity(b, x) == count_severity(a, x) by {}
        assert forall|c: Category| #[trigger] count_category(b, c) == count_category(a, c) by {}
    }
}

/// Counting distributes over concatenation.
pub proof fn lemma_count_concat(a: Seq<Finding>, b: Seq<Finding>)
    ensures
        forall|s: Severity| #[trigger] count_severity(a + b, s) == count_severity(a, s) + count_severity(b, s),
        forall|c: Category| #[trigger] count_category(a + b, c) == count_category(a, c) + count_category(b, c),
    decreases b.len(),
{
    if b.len() == 0 {
        assert(a + b =~= a);
    } else {
        lemma_count_concat(a, b.drop_last());
        assert((a + b).drop_last() =~= a + b.drop_last());
        assert((a + b).last() == b.last());
        assert forall|s: Severity| #[trigger] count_severity(a + b, s) == count_severity(a, s) + count_severity(b, s) by {
            assert(count_severity(a + b.drop_last(), s) == count_severity(a, s) + count_severity(b.drop_last(), s));
        }
        assert forall|c: Category| #[trigger] count_category(a + b, c) == count_category(a, c) + count_category(b, c) by {
            assert(count_category(a + b.drop_last(), c) == count_category(a, c) + count_category(b.drop_last(), c));
        }
    }
}

/// The findings of concatenated page lists are the concatenated findings.
pub proof fn lemma_flat_concat(p: Seq<(String, Vec<Finding>)>, q: Seq<(String, Vec<Finding>)>)
    ensures
        page_findings_flat(p + q) == page_findings_flat(p) + page_findings_flat(q),
    decreases q.len(),
{
    if q.len() == 0 {
        assert(p + q =~= p);
        assert(page_findings_flat(p) + page_findings_flat(q) =~= page_findings_flat(p));
    } else {
        lemma_flat_concat(p, q.drop_last());
        assert((p + q).drop_last() =~= p + q.drop_last());
        assert((p + q).last() == q.last());
        assert(page_findings_flat(p + q) =~= page_findings_flat(p) + page_findings_flat(q));
    }
}

/// Two listings of the same page map hold the same numbers of findings.
pub proof fn lemma_listings_agree(m: Map<String, Vec<Finding>>, s1: Seq<(String, Vec<Finding>)>, s2: Seq<(String, Vec<Finding>)>)
    requires
        is_listing(m, s1),
        is_listing(m, s2),
    ensures
        page_findings_flat(s1).len() == page_findings_flat(s2).len(),
        forall|s: Severity| #[trigger] count_severity(page_findings_flat(s1), s) == count_severity(page_findings_flat(s2), s),
        forall|c: Category| #[trigger] count_category(page_findings_flat(s1), c) == count_category(page_findings_flat(s2), c),
    decreases s1.len(),
{
    if s1.len() == 0 {
        if s2.len() > 0 {
            assert(m.contains_key(s2[0].0));
        }
    } else {
        let n = s1.len() - 1;
        let key = s1[n].0;
        let v = s1[n].1;
        assert(m.contains_key(key));
        let j = choose|j: int| 0 <= j < s2.len() && #[trigger] s2[j].0 == key;
        let pre = s2.subrange(0, j);
        let post = s2.subrange(j + 1, s2.len() as int);
        let rest = pre + post;
        let m2 = m.remove(key);
        let t1 = s1.drop_last();
        assert forall|i: int| 0 <= i < t1.len() implies #[trigger] m2.contains_key(t1[i].0) && m2[t1[i].0] == t1[i].1 by {
            assert(s1[i].0 != s1[n].0);
        }
        assert forall|k: String| #[trigger] m2.contains_key(k) implies exists|i: int| 0 <= i < t1.len() && #[trigger] t1[i].0 == k by {
            let i = choose|i: int| 0 <= i < s1.len() && #[trigger] s1[i].0 == k;
            assert(t1[i].0 == k);
        }
        assert(is_listing(m2, t1));
        assert forall|i: int| 0 <= i < rest.len() implies #[trigger] m2.contains_key(rest[i].0) && m2[rest[i].0] == rest[i].1 by {
            if i < j {
                assert(rest[i] == s2[i]);
                assert(s2[i].0 != s2[j].0);
            } else {
                assert(rest[i] == s2[i + 1]);
                assert(s2[j].0 != s2[i + 1].0);
            }
        }
        assert forall|a: int, b: int| 0 <= a < b < rest.len() implies #[trigger] rest[a].0 != #[trigger] rest[b].0 by {
            let a2 = if a < j { a } else { a + 1 };
            let b2 = if b < j { b } else { b + 1 };
            assert(rest[a] == s2[a2]);
            assert(rest[b] == s2[b2]);
        }
        assert forall|k: String| #[trigger] m2.contains_key(k) implies exists|i: int| 0 <= i < rest.len() && #[trigger] rest[i].0 == k by {
            let i = choose|i: int| 0 <= i < s2.len() && #[trigger] s2[i].0 == k;
            if i < j {
                assert(rest[i] == s2[i]);
            } else {
                assert(i != j);
                assert(rest[i - 1] == s2[i]);
            }
        }
        assert(is_listing(m2, rest));
        lemma_listings_agree(m2, t1, rest);
        assert(s2[j].1 == v);
        assert(s2 =~= pre + seq![s2[j]] + post);
        lemma_flat_concat(pre, post);
        lemma_flat_concat(pre + seq![s2[j]], post);
        lemma_flat_concat(pre, seq![s2[j]]);
        assert(seq![s2[j]].drop_last() =~= Seq::<(String, Vec<Finding>)>::empty());
        assert(seq![s2[j]].last() == s2[j]);
        assert(page_findings_flat(Seq::<(String, Vec<Finding>)>::empty()) =~= Seq::<Finding>::empty());
        assert(page_findings_flat(seq![s2[j]]) =~= v@);
        let fp = page_findings_flat(pre);
        let fq = page_findings_flat(post);
        assert(page_findings_flat(s2) == fp + v@ + fq);
        assert(page_findings_flat(rest) == fp + fq);
        assert(page_findings_flat(s1) == page_findings_flat(t1) + v@);
        lemma_count_concat(fp, v@);
        lemma_count_concat(fp + v@, fq);
        lemma_count_concat(fp, fq);
        lemma_count_concat(page_findings_flat(t1), v@);
    }
}

/// Every prefix of the page list has no more findings than the whole.
proof fn lemma_flat_prefix_le(pages: Seq<(String, Vec<Finding>)>, site: Seq<Finding>)
    ensures
        forall|j: int| 0 <= j <= pages.len() ==> (site + #[trigger] page_findings_flat(pages.subrange(0, j))).len()
            <= (site + page_findings_flat(pages)).len(),
    decreases pages.len(),
{
    if pages.len() > 0 {
        lemma_flat_prefix_le(pages.drop_last(), site);
        assert forall|j: int| 0 <= j <= pages.len() implies (site + #[trigger] page_findings_flat(pages.subrange(0, j))).len()
            <= (site + page_findings_flat(pages)).len() by {
            if j < pages.len() {
                assert(pages.drop_last().subrange(0, j) =~= pages.subrange(0, j));
            } else {
                assert(pages.subrange(0, j) =~= pages);
            }
        }
    }
}


// ---------------------------------------------------------------------------
// Running the audit
// ---------------------------------------------------------------------------

/// Why an audit could not produce a report.
#[derive(Debug, Clone, Copy, PartialEq, Eq, Structural)]
pub enum AuditError {
    /// More findings than a `usize` counts.
    TooManyFindings,
}

/// Record the findings of a page.
///
/// Trusted: calls `BTreeMap::insert`, which std documents as storing the
/// value under the key, replacing any earlier one.
#[verifier::external_body]
fn set_page_findings(m: &mut BTreeMap<String, Vec<Finding>>, page: String, findings: Vec<Finding>)
    ensures
        final(m)@ == old(m)@.insert(page, findings),
{
    m.insert(page, findings);
}

/// The findings whose id is not in `ignore`.
pub open spec fn without_ignored(fs: Seq<FindingView>, ignore: Seq<Seq<char>>) -> Seq<FindingView>
    decreases fs.len(),
{
    if fs.len() == 0 {
        seq![]
    } else {
        let rest = without_ignored(fs.drop_last(), ignore);
        if ignore.contains(fs.last().id) { rest } else { rest.push(fs.last()) }
    }
}

/// The check ids the configuration ignores.
pub open spec fn ignored_ids(config: SiteConfig) -> Seq<Seq<char>> {
    match config.audit {
        Some(a) => crate::text::strs_view(a.ignore@),
        None => seq![],
    }
}

/// The template path reported for a page.
pub open spec fn template_of(p: RenderedPage) -> Seq<char> {
    match p.template_path {
        Some(t) => t@,
        None => "(unknown)"@,
    }
}

/// The findings per page of `pages`, later pages replacing earlier ones
/// with the same path; pages whose HTML could not be read, and pages
/// without findings, are absent.
pub open spec fn page_map(pages: Seq<(RenderedPage, Option<String>)>, config: SiteConfig) -> Map<String, Seq<FindingView>>
    decreases pages.len(),
{
    if pages.len() == 0 {
        Map::empty()
    } else {
        let rest = page_map(pages.drop_last(), config);
        let (page, html) = pages.last();
        match html {
            Some(h) => {
                let fs = without_ignored(
                    crate::build::audit::checks::page_findings(h@, page.url_path@, template_of(page), config),
                    ignored_ids(config),
                );
                if fs.len() > 0 { rest.insert(page.url_path, fs) } else { rest }
            },
            None => rest,
        }
    }
}

/// The findings of `v` whose id is not listed in `ignore`.
fn retain_not_ignored(v: Vec<Finding>, ignore: &Vec<String>) -> (r: Vec<Finding>)
    ensures
        findings_view(r@) == without_ignored(findings_view(v@), crate::text::strs_view(ignore@)),
{
    let ghost fv0 = findings_view(v@);
    let mut out: Vec<Finding> = Vec::new();
    let mut i: usize = 0;
    assert(findings_view(out@) =~= Seq::<FindingView>::empty());
    while i < v.len()
        invariant
            i <= v@.len(),
            fv0 == findings_view(v@),
            findings_view(out@) == without_ignored(fv0.subrange(0, i as int), crate::text::strs_view(ignore@)),
        decreases v@.len() - i,
    {
        assert(fv0.subrange(0, i + 1).drop_last() =~= fv0.subrange(0, i as int));
        assert(fv0.subrange(0, i + 1).last() == finding_view(v@[i as int]));
        if !crate::text::list_contains(ignore.as_slice(), v[i].id) {
            push_finding(&mut out, copy_finding(&v[i]));
        }
        i = i + 1;
    }
    assert(fv0.subrange(0, fv0.len() as int) =~= fv0);
    out
}

/// The number of findings of `site` and the page map together (counted
/// over any listing of the map), or `None` when it does not fit in a
/// `usize`.
fn count_findings(site: &[Finding], pages: &BTreeMap<String, Vec<Finding>>) -> (r: Option<usize>)
    ensures
        match r {
            Some(n) => forall|s: Seq<(String, Vec<Finding>)>| is_listing(pages@, s) ==> #[trigger] all_findings(site@, s).len() == n,
            None => forall|s: Seq<(String, Vec<Finding>)>| is_listing(pages@, s) ==> #[trigger] all_findings(site@, s).len() > usize::MAX,
        },
{
    let entries = page_entries(pages);
    let ghost e = entries@.map_values(|kv: (&String, &Vec<Finding>)| (*kv.0, *kv.1));
    let mut total: usize = site.len();
    let mut i: usize = 0;
    while i < entries.len()
        invariant
            i <= entries@.len(),
            e == entries@.map_values(|kv: (&String, &Vec<Finding>)| (*kv.0, *kv.1)),
            is_listing(pages@, e),
            total == all_findings(site@, e.subrange(0, i as int)).len(),
        decreases entries@.len() - i,
    {
        let n = entries[i].1.len();
        assert(e.subrange(0, i + 1).drop_last() =~= e.subrange(0, i as int));
        assert(e.subrange(0, i + 1).last().1 == *entries@[i as int].1);
        if n > usize::MAX - total {
            proof {
                assert(all_findings(site@, e.subrange(0, i + 1)).len() == total + n);
                lemma_flat_prefix_le(e, site@);
                assert(all_findings(site@, e.subrange(0, i + 1)).len() <= all_findings(site@, e).len());
                assert forall|s: Seq<(String, Vec<Finding>)>| is_listing(pages@, s) implies #[trigger] all_findings(site@, s).len()
                    > usize::MAX by {
                    lemma_listings_agree(pages@, e, s);
                }
            }
            return None;
        }
        total = total + n;
        i = i + 1;
    }
    assert(e.subrange(0, e.len() as int) =~= e);
    proof {
        assert forall|s: Seq<(String, Vec<Finding>)>| is_listing(pages@, s) implies #[trigger] all_findings(site@, s).len() == total by {
            lemma_listings_agree(pages@, e, s);
        }
    }
    Some(total)
}

/// A listing of findings by page, each page once, with the same content
/// as `m`.
pub open spec fn is_view_listing(m: Map<String, Seq<FindingView>>, s: Seq<(String, Seq<FindingView>)>) -> bool {
    &&& forall|i: int| 0 <= i < s.len() ==> #[trigger] m.contains_key(s[i].0) && m[s[i].0] == s[i].1
    &&& forall|i: int, j: int| 0 <= i < j < s.len() ==> #[trigger] s[i].0 != #[trigger] s[j].0
    &&& forall|k: String| #[trigger] m.contains_key(k) ==> exists|i: int| 0 <= i < s.len() && #[trigger] s[i].0 == k
}

/// The number of findings of a listing.
pub open spec fn view_flat_len(s: Seq<(String, Seq<FindingView>)>) -> nat
    decreases s.len(),
{
    if s.len() == 0 {
        0
    } else {
        view_flat_len(s.drop_last()) + s.last().1.len()
    }
}

/// The contents of a listing.
pub open spec fn listing_view(s: Seq<(String, Vec<Finding>)>) -> Seq<(String, Seq<FindingView>)> {
    s.map_values(|kv: (String, Vec<Finding>)| (kv.0, findings_view(kv.1@)))
}

/// A listing has as many findings as its contents.
proof fn lemma_flat_len_view(s: Seq<(String, Vec<Finding>)>)
    ensures
        page_findings_flat(s).len() == view_flat_len(listing_view(s)),
    decreases s.len(),
{
    if s.len() > 0 {
        lemma_flat_len_view(s.drop_last());
        assert(listing_view(s).drop_last() =~= listing_view(s.drop_last()));
    }
}

/// Run the audit over the configuration and the rendered pages, each with
/// its HTML (`None` when it could not be read: the page is skipped).
/// `sitemap_exists` and `has_favicon` tell what the output directory
/// holds. Findings whose id `[audit] ignore` lists are left out.
pub fn run_audit(
    config: &SiteConfig,
    sitemap_exists: bool,
    has_favicon: bool,
    pages: &[(RenderedPage, Option<String>)],
) -> (r: Result<AuditReport, AuditError>)
    ensures
        match r {
            Ok(report) => {
                &&& findings_view(report.site_findings@) == without_ignored(
                    crate::build::audit::checks::site_findings(*config, sitemap_exists, has_favicon),
                    ignored_ids(*config),
                )
                &&& forall|k: String| #[trigger] report.page_findings@.contains_key(k) == page_map(pages@, *config).contains_key(k)
                &&& forall|k: String| report.page_findings@.contains_key(k) ==> findings_view(#[trigger] report.page_findings@[k]@)
                    == page_map(pages@, *config)[k]
                &&& forall|s: Seq<(String, Vec<Finding>)>| is_listing(report.page_findings@, s) ==> #[trigger] summarizes(
                    report.summary,
                    report.site_findings@,
                    s,
                )
            },
            Err(AuditError::TooManyFindings) => exists|s: Seq<(String, Seq<FindingView>)>|
                is_view_listing(page_map(pages@, *config), s) && #[trigger] view_flat_len(s) + without_ignored(
                    crate::build::audit::checks::site_findings(*config, sitemap_exists, has_favicon),
                    ignored_ids(*config),
                ).len() > usize::MAX,
        },
{
    let empty: Vec<String> = Vec::new();
    let ignore: &Vec<String> = match &config.audit {
        Some(a) => &a.ignore,
        None => &empty,
    };
    assert(crate::text::strs_view(ignore@) == ignored_ids(*config)) by {
        if config.audit is None {
            assert(crate::text::strs_view(empty@) =~= Seq::<Seq<char>>::empty());
        }
    }
    let all_site = crate::build::audit::checks::run_site_checks(config, sitemap_exists, has_favicon);
    let site_findings = retain_not_ignored(all_site, ignore);
    let mut page_findings: BTreeMap<String, Vec<Finding>> = BTreeMap::new();
    let mut i: usize = 0;
    while i < pages.len()
        invariant
            i <= pages@.len(),
            crate::text::strs_view(ignore@) == ignored_ids(*config),
            forall|k: String| #[trigger] page_findings@.contains_key(k) == page_map(pages@.subrange(0, i as int), *config).contains_key(k),
            forall|k: String| page_findings@.contains_key(k) ==> findings_view(#[trigger] page_findings@[k]@)
                == page_map(pages@.subrange(0, i as int), *config)[k],
        decreases pages@.len() - i,
    {
        let ghost pm0 = page_map(pages@.subrange(0, i as int), *config);
        assert(pages@.subrange(0, i + 1).drop_last() =~= pages@.subrange(0, i as int));
        assert(pages@.subrange(0, i + 1).last() == pages@[i as int]);
        let page = &pages[i].0;
        match &pages[i].1 {
            Some(html) => {
                let template: &str = match &page.template_path {
                    Some(t) => t.as_str(),
                    None => "(unknown)",
                };
                let found = crate::build::audit::checks::run_page_checks(html.as_str(), page.url_path.as_str(), template, config);
                let kept = retain_not_ignored(found, ignore);
                if kept.len() > 0 {
                    let key = page.url_path.clone();
                    let ghost kv = findings_view(kept@);
                    set_page_findings(&mut page_findings, key, kept);
                    proof {
                        assert(kv.len() > 0);
                    }
                }
            },
            None => {},
        }
        i = i + 1;
    }
    assert(pages@.subrange(0, pages@.len() as int) =~= pages@);
    match count_findings(site_findings.as_slice(), &page_findings) {
        Some(_) => {},
        None => {
            let entries = page_entries(&page_findings);
            proof {
                let e = entries@.map_values(|kv: (&String, &Vec<Finding>)| (*kv.0, *kv.1));
                let pm = page_map(pages@, *config);
                let ev = listing_view(e);
                assert(all_findings(site_findings@, e).len() > usize::MAX);
                lemma_flat_len_view(e);
                assert(findings_view(site_findings@).len() == site_findings@.len());
                assert forall|i: int| 0 <= i < ev.len() implies #[trigger] pm.contains_key(ev[i].0) && pm[ev[i].0] == ev[i].1 by {
                    assert(ev[i] == (e[i].0, findings_view(e[i].1@)));
                    assert(page_findings@.contains_key(e[i].0));
                }
                assert forall|a: int, b: int| 0 <= a < b < ev.len() implies #[trigger] ev[a].0 != #[trigger] ev[b].0 by {
                    assert(ev[a].0 == e[a].0);
                    assert(ev[b].0 == e[b].0);
                    assert(e[a].0 != e[b].0);
                }
                assert forall|k: String| #[trigger] pm.contains_key(k) implies exists|i: int| 0 <= i < ev.len() && #[trigger] ev[i].0 == k by {
                    assert(page_findings@.contains_key(k));
                    let i = choose|i: int| 0 <= i < e.len() && #[trigger] e[i].0 == k;
                    assert(ev[i].0 == k);
                }
                assert(is_view_listing(pm, ev));
                assert(view_flat_len(ev) + findings_view(site_findings@).len() > usize::MAX);
            }
            return Err(AuditError::TooManyFindings);
        },
    }
    let summary = AuditReport::compute_summary(site_findings.as_slice(), &page_findings);
    Ok(AuditReport { summary, site_findings, page_findings })
}

} // verus!
