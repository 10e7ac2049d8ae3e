//! JSON-LD structured data: `<script type="application/ld+json">` blocks
//! for the Article, BreadcrumbList and WebSite schema.org types, appended
//! to `<head>`.
//!
//! The schema objects are plain structs; their JSON text has the keys in
//! sorted order (the order of a `serde_json` map), with every string
//! quoted and escaped by `serde_json`.

use minijinja::{Environment, Value};
use vstd::prelude::*;
use crate::build::expressions::{resolve_field, resolves_to};
use crate::html::copy_attrs;
use crate::build::seo::{absolute_url, canonical_path, canonical_path_exec, first_of, first_present, make_absolute_url};
use crate::config::{SchemaConfig, SchemaConfigValue, SchemaFullConfig, SchemaTypes, SeoMeta, SiteMeta, SiteSchemaConfig};
use crate::html::{edit_lists_view, edits_view, rewrite_tags, scan_tags, scanned_tags, tags_rewritten, EditView, TagEdit};
use crate::text::{
    copy_strings, decimal, decimal_string, has_suffix, opt_view, owned, split_char, split_on, str_eq, strs_view, trim_end_char,
    trim_end_char_exec, trim_start_char, trim_start_char_exec,
};

verus! {

// ---------------------------------------------------------------------------
// JSON text
// ---------------------------------------------------------------------------

/// The lower-case hex digit of `n` (`0 <= n < 16`).
pub open spec fn hex_digit(n: int) -> char {
    if n < 10 { (48 + n) as char } else { (87 + n) as char }
}

/// How `serde_json` writes one character inside a string literal: `"` and
/// `\` and the control characters escaped, every other character as it is.
pub open spec fn json_char(c: char) -> Seq<char> {
    let n = c as int;
    if c == '"' {
        seq!['\\', '"']
    } else if c == '\\' {
        seq!['\\', '\\']
    } else if n == 8 {
        seq!['\\', 'b']
    } else if n == 9 {
        seq!['\\', 't']
    } else if n == 10 {
        seq!['\\', 'n']
    } else if n == 12 {
        seq!['\\', 'f']
    } else if n == 13 {
        seq!['\\', 'r']
    } else if n < 32 {
        seq!['\\', 'u', '0', '0', hex_digit(n / 16), hex_digit(n % 16)]
    } else {
        seq![c]
    }
}

/// The escaped characters of `s`.
pub open spec fn json_escaped(s: Seq<char>) -> Seq<char>
    decreases s.len(),
{
    if s.len() == 0 {
        Seq::empty()
    } else {
        json_escaped(s.drop_last()) + json_char(s.last())
    }
}

/// The JSON string literal of `s` (`serde_json::to_string` on a string).
pub open spec fn json_quoted(s: Seq<char>) -> Seq<char> {
    seq!['"'] + json_escaped(s) + seq!['"']
}

/// Quote and escape a string as a JSON string literal.
///
/// Trusted: calls `serde_json::to_string` on the string, which cannot
/// fail for a string; it writes the characters between double quotes,
/// escaping them as `json_char` says.
#[verifier::external_body]
fn json_string(s: &str) -> (r: String)
    ensures
        r@ == json_quoted(s@),
{
    serde_json::to_string(s).unwrap_or_default()
}

/// `"key":` followed by the quoted value.
pub open spec fn str_member(key: Seq<char>, v: Seq<char>) -> Seq<char> {
    "\""@ + key + "\":"@ + json_quoted(v)
}

/// `,"key":"value"` when there is a value.
pub open spec fn opt_member(key: Seq<char>, v: Option<Seq<char>>) -> Seq<char> {
    match v {
        Some(x) => ","@ + str_member(key, x),
        None => seq![],
    }
}

/// Append `"key":` and the quoted value.
fn push_str_member(out: &mut String, key: &str, v: &str)
    ensures
        final(out)@ == old(out)@ + str_member(key@, v@),
{
    let ghost before = out@;
    out.append("\"");
    out.append(key);
    out.append("\":");
    let q = json_string(v);
    out.append(q.as_str());
    assert(out@ =~= before + str_member(key@, v@));
}

/// Append `,"key":"value"` when there is a value.
fn push_opt_member(out: &mut String, key: &str, v: &Option<String>)
    ensures
        final(out)@ == old(out)@ + opt_member(key@, opt_view(*v)),
{
    match v {
        Some(x) => {
            let ghost before = out@;
            out.append(",");
            push_str_member(out, key, x.as_str());
            assert(out@ =~= before + opt_member(key@, opt_view(*v)));
        },
        None => {
            assert(old(out)@ + opt_member(key@, opt_view(*v)) =~= old(out)@);
        },
    }
}

// ---------------------------------------------------------------------------
// Schema types
// ---------------------------------------------------------------------------

/// The names of a full block's types.
pub open spec fn types_list(t: SchemaTypes) -> Seq<Seq<char>> {
    match t {
        SchemaTypes::Single(s) => seq![s@],
        SchemaTypes::Multiple(v) => strs_view(v@),
    }
}

/// The schema types of a page: those of its frontmatter, else the site's
/// default types.
pub open spec fn schema_types(schema: SchemaConfig, site_schema: SiteSchemaConfig) -> Seq<Seq<char>> {
    match schema {
        Some(SchemaConfigValue::TypeName(t)) => seq![t@],
        Some(SchemaConfigValue::TypeList(v)) => strs_view(v@),
        Some(SchemaConfigValue::Full(f)) => types_list(f.types),
        None => strs_view(site_schema.default_types@),
    }
}

/// Determine which schema types to generate, from the page's frontmatter
/// or else the site's defaults; empty when none should be generated.
pub fn resolve_schema_types(schema: &SchemaConfig, site_schema: &SiteSchemaConfig) -> (r: Vec<String>)
    ensures
        strs_view(r@) == schema_types(*schema, *site_schema),
{
    match schema {
        Some(SchemaConfigValue::TypeName(t)) => {
            let r = vec![t.clone()];
            assert(strs_view(r@) =~= seq![t@]);
            r
        },
        Some(SchemaConfigValue::TypeList(v)) => copy_strings(v),
        Some(SchemaConfigValue::Full(f)) => match &f.types {
            SchemaTypes::Single(s) => {
                let r = vec![s.clone()];
                assert(strs_view(r@) =~= seq![s@]);
                r
            },
            SchemaTypes::Multiple(v) => copy_strings(v),
        },
        None => copy_strings(&site_schema.default_types),
    }
}

/// Whether the page has a JSON-LD block already (among the elements found
/// before a rewriter failure).
pub open spec fn json_ld_present(html: Seq<char>) -> bool {
    scanned_tags(html, "script[type='application/ld+json']"@).0.len() > 0
}

/// Check if the HTML already contains a `<script
/// type="application/ld+json">` block.
pub fn has_existing_json_ld(html: &str) -> (r: bool)
    ensures
        r == json_ld_present(html@),
{
    let (tags, _ok) = scan_tags(html, "script[type='application/ld+json']");
    tags.len() > 0
}

/// Compute the canonical URL of a page: `index.html` after a slash is
/// dropped, and the path made absolute.
pub fn canonical_url(current_url: &str, base_url: &str) -> (r: String)
    ensures
        r@ == absolute_url(canonical_path(current_url@), base_url@),
{
    let p = canonical_path_exec(current_url);
    make_absolute_url(p.as_str(), base_url)
}

// ---------------------------------------------------------------------------
// Article
// ---------------------------------------------------------------------------

/// An Article object.
pub struct ArticleSchema {
    pub headline: String,
    pub url: String,
    pub description: Option<String>,
    pub image: Option<String>,
    pub date_published: Option<String>,
    pub date_modified: Option<String>,
    /// The author's name (a `Person`).
    pub author: Option<String>,
    /// The publisher's name (an `Organization`).
    pub publisher: String,
}

/// The content of an Article object.
pub struct ArticleView {
    pub headline: Seq<char>,
    pub url: Seq<char>,
    pub description: Option<Seq<char>>,
    pub image: Option<Seq<char>>,
    pub date_published: Option<Seq<char>>,
    pub date_modified: Option<Seq<char>>,
    pub author: Option<Seq<char>>,
    pub publisher: Seq<char>,
}

/// The content of an Article object.
pub open spec fn article_view(a: ArticleSchema) -> ArticleView {
    ArticleView {
        headline: a.headline@,
        url: a.url@,
        description: opt_view(a.description),
        image: opt_view(a.image),
        date_published: opt_view(a.date_published),
        date_modified: opt_view(a.date_modified),
        author: opt_view(a.author),
        publisher: a.publisher@,
    }
}

/// The full block of a schema configuration, if it is one.
pub open spec fn full_of(schema: SchemaConfig) -> Option<crate::config::SchemaFullConfig> {
    match schema {
        Some(SchemaConfigValue::Full(f)) => Some(f),
        _ => None,
    }
}

/// The Article object of a page: headline from the page's SEO title, the
/// site's SEO title or the site name; canonical URL; description and
/// image (made absolute) from the page or the site; dates from the full
/// schema block (the modification date falling back to the publication
/// date); author from the block or the site; the site as publisher.
pub open spec fn article_of(schema: SchemaConfig, seo: SeoMeta, site: SiteMeta, current_url: Seq<char>) -> ArticleView {
    let full = full_of(schema);
    let published = match full {
        Some(f) => opt_view(f.date_published),
        None => None,
    };
    ArticleView {
        headline: match first_of(seo.title, site.seo.title) {
            Some(t) => t,
            None => site.name@,
        },
        url: absolute_url(canonical_path(current_url), site.base_url@),
        description: first_of(seo.description, site.seo.description),
        image: match first_of(seo.image, site.seo.image) {
            Some(i) => Some(absolute_url(i, site.base_url@)),
            None => None,
        },
        date_published: published,
        date_modified: match full {
            Some(f) => match f.date_modified {
                Some(d) => Some(d@),
                None => published,
            },
            None => None,
        },
        author: match full {
            Some(f) => first_of(f.author, site.schema.author),
            None => opt_view(site.schema.author),
        },
        publisher: site.name@,
    }
}

/// The dates of an Article come from the full schema block only: the
/// publication date as given, the modification date as given or, when
/// the block has none, the publication date; without a full block there
/// are no dates.
pub proof fn law_article_dates(schema: SchemaConfig, seo: SeoMeta, site: SiteMeta, current_url: Seq<char>)
    ensures
        match schema {
            Some(SchemaConfigValue::Full(f)) => {
                &&& article_of(schema, seo, site, current_url).date_published == opt_view(f.date_published)
                &&& f.date_modified is None ==> article_of(schema, seo, site, current_url).date_modified == opt_view(
                    f.date_published,
                )
                &&& f.date_modified matches Some(d) ==> article_of(schema, seo, site, current_url).date_modified == Some(
                    d@,
                )
            },
            _ => {
                &&& article_of(schema, seo, site, current_url).date_published is None
                &&& article_of(schema, seo, site, current_url).date_modified is None
            },
        },
{
}

/// A copy of an optional string.
fn copy_opt(o: &Option<String>) -> (r: Option<String>)
    ensures
        opt_view(r) == opt_view(*o),
{
    crate::text::clone_opt(o)
}

/// Build the Article object of a page.
pub fn build_article_schema(schema: &SchemaConfig, seo: &SeoMeta, site_config: &SiteMeta, current_url: &str) -> (r: ArticleSchema)
    ensures
        article_view(r) == article_of(*schema, *seo, *site_config, current_url@),
        match *schema {
            Some(SchemaConfigValue::Full(f)) => opt_view(r.date_published) == opt_view(f.date_published) && opt_view(
                r.date_modified,
            ) == match f.date_modified {
                Some(d) => Some(d@),
                None => opt_view(f.date_published),
            },
            _ => r.date_published is None && r.date_modified is None,
        },
{
    let headline = match first_present(&seo.title, &site_config.seo.title) {
        Some(t) => t,
        None => site_config.name.clone(),
    };
    let url = canonical_url(current_url, site_config.base_url.as_str());
    let description = first_present(&seo.description, &site_config.seo.description);
    let image = match first_present(&seo.image, &site_config.seo.image) {
        Some(i) => Some(make_absolute_url(i.as_str(), site_config.base_url.as_str())),
        None => None,
    };
    let (date_published, date_modified, author) = match schema {
        Some(SchemaConfigValue::Full(f)) => {
            let published = copy_opt(&f.date_published);
            let modified = match &f.date_modified {
                Some(d) => Some(d.clone()),
                None => copy_opt(&f.date_published),
            };
            (published, modified, first_present(&f.author, &site_config.schema.author))
        },
        _ => (None, None, copy_opt(&site_config.schema.author)),
    };
    ArticleSchema {
        headline,
        url,
        description,
        image,
        date_published,
        date_modified,
        author,
        publisher: site_config.name.clone(),
    }
}

/// The JSON text of an Article object.
pub open spec fn article_json(a: ArticleView) -> Seq<char> {
    "{"@ + str_member("@context"@, "https://schema.org"@) + ","@ + str_member("@type"@, "Article"@) + (match a.author {
        Some(n) => ",\"author\":{"@ + str_member("@type"@, "Person"@) + ","@ + str_member("name"@, n) + "}"@,
        None => seq![],
    }) + opt_member("dateModified"@, a.date_modified) + opt_member("datePublished"@, a.date_published) + opt_member(
        "description"@,
        a.description,
    ) + ","@ + str_member("headline"@, a.headline) + opt_member("image"@, a.image) + ",\"publisher\":{"@ + str_member(
        "@type"@,
        "Organization"@,
    ) + ","@ + str_member("name"@, a.publisher) + "}"@ + ","@ + str_member("url"@, a.url) + "}"@
}

impl ArticleSchema {
    /// The JSON text of the object.
    pub fn to_json(&self) -> (r: String)
        ensures
            r@ == article_json(article_view(*self)),
    {
        let mut out = owned("{");
        let ghost start = out@;
        push_str_member(&mut out, "@context", "https://schema.org");
        out.append(",");
        push_str_member(&mut out, "@type", "Article");
        let ghost s1 = out@;
        match &self.author {
            Some(n) => {
                out.append(",\"author\":{");
                push_str_member(&mut out, "@type", "Person");
                out.append(",");
                push_str_member(&mut out, "name", n.as_str());
                out.append("}");
            },
            None => {},
        }
        let ghost s2 = out@;
        push_opt_member(&mut out, "dateModified", &self.date_modified);
        push_opt_member(&mut out, "datePublished", &self.date_published);
        push_opt_member(&mut out, "description", &self.description);
        out.append(",");
        push_str_member(&mut out, "headline", self.headline.as_str());
        push_opt_member(&mut out, "image", &self.image);
        let ghost s3 = out@;
        out.append(",\"publisher\":{");
        push_str_member(&mut out, "@type", "Organization");
        out.append(",");
        push_str_member(&mut out, "name", self.publisher.as_str());
        out.append("}");
        out.append(",");
        push_str_member(&mut out, "url", self.url.as_str());
        out.append("}");
        let ghost a = article_view(*self);
        assert(s2 =~= s1 + match a.author {
            Some(n) => ",\"author\":{"@ + str_member("@type"@, "Person"@) + ","@ + str_member("name"@, n) + "}"@,
            None => seq![],
        });
        assert(out@ =~= article_json(a));
        out
    }
}

// ---------------------------------------------------------------------------
// BreadcrumbList
// ---------------------------------------------------------------------------

/// One item of a breadcrumb list.
pub struct BreadcrumbItem {
    /// 1-based position; Home is 1.
    pub position: usize,
    pub name: String,
    pub item: String,
}

/// A BreadcrumbList object.
pub struct BreadcrumbSchema {
    pub items: Vec<BreadcrumbItem>,
}

/// The content of a breadcrumb item.
pub open spec fn item_view(i: BreadcrumbItem) -> (nat, Seq<char>, Seq<char>) {
    (i.position as nat, i.name@, i.item@)
}

/// The contents of breadcrumb items.
pub open spec fn items_view(v: Seq<BreadcrumbItem>) -> Seq<(nat, Seq<char>, Seq<char>)> {
    v.map_values(|i: BreadcrumbItem| item_view(i))
}

/// The display-name overrides of a schema configuration.
pub open spec fn name_overrides(schema: SchemaConfig) -> Seq<(Seq<char>, Seq<char>)> {
    match schema {
        Some(SchemaConfigValue::Full(f)) => overrides_view(f.breadcrumb_names),
        _ => seq![],
    }
}

/// The display name of a path segment: its override, else the segment
/// without a `.html` suffix.
pub open spec fn segment_name(overrides: Seq<(Seq<char>, Seq<char>)>, seg: Seq<char>) -> Seq<char> {
    match crate::html::attr_of(overrides, seg) {
        Some(n) => n,
        None => if has_suffix(seg, ".html"@) {
            seg.subrange(0, seg.len() - 5)
        } else {
            seg
        },
    }
}

/// The path of the first `k` segments, each after a slash.
pub open spec fn joined_path(segs: Seq<Seq<char>>, k: int) -> Seq<char>
    decreases k,
{
    if k <= 0 {
        seq![]
    } else {
        joined_path(segs, k - 1) + "/"@ + segs[k - 1]
    }
}

/// The breadcrumb items after Home: one per segment, the last one linking
/// to the page and the others to their directory.
pub open spec fn segment_items(segs: Seq<Seq<char>>, overrides: Seq<(Seq<char>, Seq<char>)>, base: Seq<char>, k: int) -> Seq<(nat, Seq<char>, Seq<char>)>
    decreases k,
{
    if k <= 0 {
        seq![]
    } else {
        let i = k - 1;
        let url = if i == segs.len() - 1 {
            base + joined_path(segs, k)
        } else {
            base + joined_path(segs, k) + "/"@
        };
        segment_items(segs, overrides, base, k - 1).push(((i + 2) as nat, segment_name(overrides, segs[i]), url))
    }
}

/// The breadcrumb list of a page: Home, then one item per path segment;
/// `None` for the root page.
pub open spec fn breadcrumbs_of(schema: SchemaConfig, site: SiteMeta, current_url: Seq<char>) -> Option<Seq<(nat, Seq<char>, Seq<char>)>> {
    let path = trim_start_char(current_url, '/');
    if path.len() == 0 || path == "index.html"@ {
        None
    } else {
        let segs = split_on(path, '/');
        let base = trim_end_char(site.base_url@, '/');
        Some(seq![(1nat, "Home"@, base + "/"@)] + segment_items(segs, name_overrides(schema), base, segs.len() as int))
    }
}

/// The content of optional name overrides.
pub open spec fn overrides_view(o: Option<Vec<(String, String)>>) -> Seq<(Seq<char>, Seq<char>)> {
    match o {
        Some(v) => crate::html::attrs_view(v@),
        None => seq![],
    }
}

/// The display name of a segment.
fn segment_display_name(overrides: &Option<Vec<(String, String)>>, seg: &str) -> (r: String)
    ensures
        r@ == segment_name(overrides_view(*overrides), seg@),
{
    match overrides {
        Some(v) => match crate::html::get_attr(v, seg) {
            Some(n) => {
                return n.clone();
            },
            None => {},
        },
        None => {},
    }
    if crate::text::ends_with(seg, ".html") {
        let c = crate::text::chars_of(seg);
        proof {
            reveal_strlit(".html");
        }
        let w = crate::text::sub_chars(&c, 0, c.len() - 5);
        crate::text::string_of(&w)
    } else {
        owned(seg)
    }
}

/// Build the BreadcrumbList object of a page from its URL path; `None`
/// for the root page.
pub fn build_breadcrumb_schema(schema: &SchemaConfig, site_config: &SiteMeta, current_url: &str) -> (r: Option<BreadcrumbSchema>)
    requires
        current_url@.len() + 2 <= usize::MAX,
    ensures
        match r {
            Some(b) => breadcrumbs_of(*schema, *site_config, current_url@) == Some(items_view(b.items@)),
            None => breadcrumbs_of(*schema, *site_config, current_url@) is None,
        },
{
    let path = trim_start_char_exec(current_url, '/');
    proof {
        reveal_strlit("index.html");
    }
    if path.as_str().is_empty() || str_eq(path.as_str(), "index.html") {
        return None;
    }
    let segs = split_char(path.as_str(), '/');
    let ghost sv = strs_view(segs@);
    proof {
        crate::text::lemma_split_nonempty(path@, '/');
        crate::text::lemma_split_len(path@, '/');
        crate::text::lemma_trim_start_char_len(current_url@, '/');
    }
    let empty: Option<Vec<(String, String)>> = None;
    let overrides = match schema {
        Some(SchemaConfigValue::Full(f)) => &f.breadcrumb_names,
        _ => &empty,
    };
    let ghost ov = overrides_view(*overrides);
    assert(ov == name_overrides(*schema));
    let base = trim_end_char_exec(site_config.base_url.as_str(), '/');
    let mut items: Vec<BreadcrumbItem> = Vec::new();
    let mut home_url = base.clone();
    home_url.append("/");
    items.push(BreadcrumbItem { position: 1, name: owned("Home"), item: home_url });
    let ghost head = items_view(items@);
    assert(head =~= seq![(1nat, "Home"@, base@ + "/"@)]);
    let mut acc = String::new();
    let n = segs.len();
    let mut i: usize = 0;
    assert(segment_items(sv, ov, base@, 0) =~= Seq::<(nat, Seq<char>, Seq<char>)>::empty());
    while i < n
        invariant
            n == segs@.len(),
            i <= n,
            n >= 1,
            n + 1 <= usize::MAX,
            sv == strs_view(segs@),
            acc@ == joined_path(sv, i as int),
            items_view(items@) == head + segment_items(sv, ov, base@, i as int),
            ov == overrides_view(*overrides),
        decreases n - i,
    {
        acc.append("/");
        acc.append(segs[i].as_str());
        assert(acc@ =~= joined_path(sv, i + 1));
        let name = segment_display_name(overrides, segs[i].as_str());
        let mut url = base.clone();
        url.append(acc.as_str());
        if i != n - 1 {
            url.append("/");
        }
        let ghost before = items_view(items@);
        let item = BreadcrumbItem { position: i + 2, name, item: url };
        items.push(item);
        assert(items_view(items@) =~= before.push(item_view(item)));
        assert(head + segment_items(sv, ov, base@, i + 1) =~= (head + segment_items(sv, ov, base@, i as int)).push(item_view(item)));
        i = i + 1;
    }
    Some(BreadcrumbSchema { items })
}

/// The JSON text of one breadcrumb item.
pub open spec fn item_json(i: (nat, Seq<char>, Seq<char>)) -> Seq<char> {
    "{"@ + str_member("@type"@, "ListItem"@) + ","@ + str_member("item"@, i.2) + ","@ + str_member("name"@, i.1)
        + ",\"position\":"@ + decimal(i.0) + "}"@
}

/// The JSON text of the items, comma separated.
pub open spec fn items_json(v: Seq<(nat, Seq<char>, Seq<char>)>) -> Seq<char>
    decreases v.len(),
{
    if v.len() == 0 {
        seq![]
    } else if v.len() == 1 {
        item_json(v[0])
    } else {
        items_json(v.drop_last()) + ","@ + item_json(v.last())
    }
}

/// The JSON text of a BreadcrumbList object.
pub open spec fn breadcrumb_json(items: Seq<(nat, Seq<char>, Seq<char>)>) -> Seq<char> {
    "{"@ + str_member("@context"@, "https://schema.org"@) + ","@ + str_member("@type"@, "BreadcrumbList"@)
        + ",\"itemListElement\":["@ + items_json(items) + "]}"@
}

impl BreadcrumbSchema {
    /// The JSON text of the object.
    pub fn to_json(&self) -> (r: String)
        ensures
            r@ == breadcrumb_json(items_view(self.items@)),
    {
        let ghost iv = items_view(self.items@);
        let mut out = owned("{");
        push_str_member(&mut out, "@context", "https://schema.org");
        out.append(",");
        push_str_member(&mut out, "@type", "BreadcrumbList");
        out.append(",\"itemListElement\":[");
        let ghost start = out@;
        let mut i: usize = 0;
        assert(items_json(iv.subrange(0, 0)) =~= Seq::<char>::empty());
        while i < self.items.len()
            invariant
                i <= self.items@.len(),
                iv == items_view(self.items@),
                out@ == start + items_json(iv.subrange(0, i as int)),
            decreases self.items@.len() - i,
        {
            let ghost before = out@;
            assert(iv.subrange(0, i + 1).drop_last() =~= iv.subrange(0, i as int));
            assert(iv.subrange(0, i + 1).last() == iv[i as int]);
            let it = &self.items[i];
            if i > 0 {
                out.append(",");
            } else {
                assert(iv.subrange(0, 1)[0] == iv[0]);
            }
            let ghost mid = out@;
            out.append("{");
            push_str_member(&mut out, "@type", "ListItem");
            out.append(",");
            push_str_member(&mut out, "item", it.item.as_str());
            out.append(",");
            push_str_member(&mut out, "name", it.name.as_str());
            out.append(",\"position\":");
            let d = decimal_string(it.position as u64);
            out.append(d.as_str());
            out.append("}");
            assert(out@ =~= mid + item_json(iv[i as int]));
            i = i + 1;
        }
        assert(iv.subrange(0, iv.len() as int) =~= iv);
        out.append("]}");
        out
    }
}

// ---------------------------------------------------------------------------
// WebSite
// ---------------------------------------------------------------------------

/// A WebSite object.
pub struct WebSiteSchema {
    pub name: String,
    pub url: String,
    pub description: Option<String>,
}

/// The WebSite object of the site: its name, its base URL with one
/// trailing slash, and its SEO description.
pub open spec fn website_of(site: SiteMeta) -> (Seq<char>, Seq<char>, Option<Seq<char>>) {
    (site.name@, trim_end_char(site.base_url@, '/') + "/"@, opt_view(site.seo.description))
}

/// Build the WebSite object of the site.
pub fn build_website_schema(site_config: &SiteMeta) -> (r: WebSiteSchema)
    ensures
        (r.name@, r.url@, opt_view(r.description)) == website_of(*site_config),
{
    let mut url = trim_end_char_exec(site_config.base_url.as_str(), '/');
    url.append("/");
    WebSiteSchema { name: site_config.name.clone(), url, description: copy_opt(&site_config.seo.description) }
}

/// The JSON text of a WebSite object.
pub open spec fn website_json(w: (Seq<char>, Seq<char>, Option<Seq<char>>)) -> Seq<char> {
    "{"@ + str_member("@context"@, "https://schema.org"@) + ","@ + str_member("@type"@, "WebSite"@) + opt_member(
        "description"@,
        w.2,
    ) + ","@ + str_member("name"@, w.0) + ","@ + str_member("url"@, w.1) + "}"@
}

impl WebSiteSchema {
    /// The JSON text of the object.
    pub fn to_json(&self) -> (r: String)
        ensures
            r@ == website_json((self.name@, self.url@, opt_view(self.description))),
    {
        let mut out = owned("{");
        push_str_member(&mut out, "@context", "https://schema.org");
        out.append(",");
        push_str_member(&mut out, "@type", "WebSite");
        push_opt_member(&mut out, "description", &self.description);
        out.append(",");
        push_str_member(&mut out, "name", self.name.as_str());
        out.append(",");
        push_str_member(&mut out, "url", self.url.as_str());
        out.append("}");
        assert(out@ =~= website_json((self.name@, self.url@, opt_view(self.description))));
        out
    }
}

// ---------------------------------------------------------------------------
// Injection
// ---------------------------------------------------------------------------

/// The JSON text of one schema type for a page; `None` for an unknown
/// type and for the breadcrumbs of the root page.
pub open spec fn type_json(t: Seq<char>, schema: SchemaConfig, seo: SeoMeta, site: SiteMeta, current_url: Seq<char>) -> Option<Seq<char>> {
    if t == "Article"@ {
        Some(article_json(article_of(schema, seo, site, current_url)))
    } else if t == "BreadcrumbList"@ {
        match breadcrumbs_of(schema, site, current_url) {
            Some(items) => Some(breadcrumb_json(items)),
            None => None,
        }
    } else if t == "WebSite"@ {
        Some(website_json(website_of(site)))
    } else {
        None
    }
}

/// The script blocks of the schema types, in order.
pub open spec fn script_blocks(types: Seq<Seq<char>>, schema: SchemaConfig, seo: SeoMeta, site: SiteMeta, current_url: Seq<char>) -> Seq<char>
    decreases types.len(),
{
    if types.len() == 0 {
        seq![]
    } else {
        script_blocks(types.drop_last(), schema, seo, site, current_url) + match type_json(types.last(), schema, seo, site, current_url) {
            Some(j) => "<script type=\"application/ld+json\">"@ + j + "</script>\n"@,
            None => seq![],
        }
    }
}

/// The page with its JSON-LD blocks appended to `<head>`: unchanged when
/// there is no schema type, when the page has JSON-LD already, when no
/// block results, or when the rewriter fails.
pub open spec fn with_json_ld(html: Seq<char>, schema: SchemaConfig, seo: SeoMeta, site: SiteMeta, current_url: Seq<char>) -> Seq<char> {
    let types = schema_types(schema, site.schema);
    let blocks = script_blocks(types, schema, seo, site, current_url);
    if types.len() == 0 || json_ld_present(html) || blocks.len() == 0 {
        html
    } else {
        match tags_rewritten(html, "head"@, seq![], seq![EditView::Append(blocks)]) {
            Some(r) => r,
            None => html,
        }
    }
}

/// The JSON text of one schema type.
fn type_json_exec(t: &str, schema: &SchemaConfig, seo: &SeoMeta, site_config: &SiteMeta, current_url: &str) -> (r: Option<String>)
    requires
        current_url@.len() + 2 <= usize::MAX,
    ensures
        opt_view(r) == type_json(t@, *schema, *seo, *site_config, current_url@),
{
    if str_eq(t, "Article") {
        Some(build_article_schema(schema, seo, site_config, current_url).to_json())
    } else if str_eq(t, "BreadcrumbList") {
        match build_breadcrumb_schema(schema, site_config, current_url) {
            Some(b) => Some(b.to_json()),
            None => None,
        }
    } else if str_eq(t, "WebSite") {
        Some(build_website_schema(site_config).to_json())
    } else {
        None
    }
}

/// Inject JSON-LD structured data blocks into a page's `<head>`.
///
/// Any failure leaves the page unchanged. The page URL's length must
/// leave room for the breadcrumb positions in a `usize`.
pub fn inject_json_ld(html: &str, schema: &SchemaConfig, seo: &SeoMeta, site_config: &SiteMeta, current_url: &str) -> (r: String)
    requires
        current_url@.len() + 2 <= usize::MAX,
    ensures
        r@ == with_json_ld(html@, *schema, *seo, *site_config, current_url@),
{
    let types = resolve_schema_types(schema, &site_config.schema);
    if types.len() == 0 {
        return owned(html);
    }
    if has_existing_json_ld(html) {
        return owned(html);
    }
    let ghost tv = strs_view(types@);
    let mut blocks = String::new();
    let mut i: usize = 0;
    assert(blocks@ =~= script_blocks(tv.subrange(0, 0), *schema, *seo, *site_config, current_url@));
    while i < types.len()
        invariant
            i <= types@.len(),
            tv == strs_view(types@),
            current_url@.len() + 2 <= usize::MAX,
            blocks@ == script_blocks(tv.subrange(0, i as int), *schema, *seo, *site_config, current_url@),
        decreases types@.len() - i,
    {
        assert(tv.subrange(0, i + 1).drop_last() =~= tv.subrange(0, i as int));
        assert(tv.subrange(0, i + 1).last() == types@[i as int]@);
        let ghost before = blocks@;
        match type_json_exec(types[i].as_str(), schema, seo, site_config, current_url) {
            Some(j) => {
                blocks.append("<script type=\"application/ld+json\">");
                blocks.append(j.as_str());
                blocks.append("</script>\n");
                assert(blocks@ =~= before + ("<script type=\"application/ld+json\">"@ + j@ + "</script>\n"@));
            },
            None => {
                assert(blocks@ =~= before + Seq::<char>::empty());
            },
        }
        i = i + 1;
    }
    assert(tv.subrange(0, tv.len() as int) =~= tv);
    if blocks.as_str().is_empty() {
        return owned(html);
    }
    let ghost bv = blocks@;
    let edits: Vec<Vec<TagEdit>> = Vec::new();
    let rest = vec![TagEdit::Append(blocks)];
    assert(edit_lists_view(edits@) =~= Seq::<Seq<EditView>>::empty());
    assert(edits_view(rest@) =~= seq![EditView::Append(bv)]);
    match rewrite_tags(html, "head", &edits, &rest) {
        Some(out) => out,
        None => owned(html),
    }
}

/// Whether two schema type selections are the same.
pub open spec fn same_types(a: SchemaTypes, b: SchemaTypes) -> bool {
    match (a, b) {
        (SchemaTypes::Single(x), SchemaTypes::Single(y)) => x@ == y@,
        (SchemaTypes::Multiple(x), SchemaTypes::Multiple(y)) => strs_view(x@) == strs_view(y@),
        _ => false,
    }
}

/// Whether two optional breadcrumb name lists are the same.
pub open spec fn same_overrides(a: Option<Vec<(String, String)>>, b: Option<Vec<(String, String)>>) -> bool {
    a.is_some() == b.is_some() && overrides_view(a) == overrides_view(b)
}

/// What resolving template expressions makes of a schema configuration:
/// in a full block the author and both dates are resolved (see
/// `resolves_to`) and everything else is kept; any other form is kept.
pub open spec fn schema_resolved(schema: SchemaConfig, r: SchemaConfig) -> bool {
    match schema {
        Some(SchemaConfigValue::Full(f)) => match r {
            Some(SchemaConfigValue::Full(g)) => {
                &&& same_types(f.types, g.types)
                &&& resolves_to(opt_view(f.author), opt_view(g.author))
                &&& resolves_to(opt_view(f.date_published), opt_view(g.date_published))
                &&& resolves_to(opt_view(f.date_modified), opt_view(g.date_modified))
                &&& same_overrides(f.breadcrumb_names, g.breadcrumb_names)
            },
            _ => false,
        },
        Some(SchemaConfigValue::TypeName(t)) => match r {
            Some(SchemaConfigValue::TypeName(u)) => u@ == t@,
            _ => false,
        },
        Some(SchemaConfigValue::TypeList(v)) => match r {
            Some(SchemaConfigValue::TypeList(w)) => strs_view(w@) == strs_view(v@),
            _ => false,
        },
        None => r is None,
    }
}

/// A copy of a schema type selection.
fn copy_types(t: &SchemaTypes) -> (r: SchemaTypes)
    ensures
        same_types(*t, r),
{
    match t {
        SchemaTypes::Single(x) => SchemaTypes::Single(x.clone()),
        SchemaTypes::Multiple(v) => SchemaTypes::Multiple(copy_strings(v)),
    }
}

/// A copy of optional breadcrumb names.
fn copy_overrides(o: &Option<Vec<(String, String)>>) -> (r: Option<Vec<(String, String)>>)
    ensures
        same_overrides(*o, r),
{
    match o {
        Some(v) => Some(copy_attrs(v.as_slice())),
        None => None,
    }
}

/// Resolve template expressions in the schema frontmatter, in the page's
/// context: the author and dates of a full block, each kept when it holds
/// no `{{` or `{%`, otherwise the trimmed rendering or `None` when
/// rendering fails or leaves nothing. Type names, type lists and the
/// breadcrumb names are kept as written.
pub fn resolve_schema_expressions(schema: &SchemaConfig, env: &Environment<'_>, ctx: &Value) -> (r: SchemaConfig)
    ensures
        schema_resolved(*schema, r),
{
    match schema {
        Some(SchemaConfigValue::Full(full)) => Some(
            SchemaConfigValue::Full(
                SchemaFullConfig {
                    types: copy_types(&full.types),
                    author: resolve_field(&full.author, env, ctx),
                    date_published: resolve_field(&full.date_published, env, ctx),
                    date_modified: resolve_field(&full.date_modified, env, ctx),
                    breadcrumb_names: copy_overrides(&full.breadcrumb_names),
                },
            ),
        ),
        Some(SchemaConfigValue::TypeName(t)) => Some(SchemaConfigValue::TypeName(t.clone())),
        Some(SchemaConfigValue::TypeList(v)) => Some(SchemaConfigValue::TypeList(copy_strings(v))),
        None => None,
    }
}

} // verus!

