//! Open Graph / Twitter Card meta tag injection.
//!
//! Auto-injects `<meta property="og:*">`, `<meta name="twitter:*">` and
//! `<link rel="canonical">` tags into `<head>`: values are resolved from
//! the page's frontmatter, then the site's defaults; tags already present
//! in the page are never added twice.

use minijinja::{Environment, Value};
use vstd::prelude::*;
use crate::build::expressions::{resolve_field, resolves_to};
use crate::config::{SeoMeta, SiteMeta};
use crate::html::{
    attr_of, attrs_view, edit_lists_view, edits_view, get_attr, rewrite_tags, scan_tags, scanned_tags, tags_rewritten,
    EditView, TagEdit,
};
use crate::text::{
    chars_of, clone_opt, concat2, contains_seq, occurs_at, ends_with, has_prefix, has_suffix, list_contains, opt_view, owned,
    push_char, starts_with, string_of, strs_view, sub_chars, trim_end_char, trim_end_char_exec,
};

verus! {

/// Fully resolved SEO metadata ready for injection into HTML.
pub struct ResolvedSeo {
    /// Page title: frontmatter, else site SEO title, else site name.
    pub title: String,
    /// Meta description, if any level provides one.
    pub description: Option<String>,
    /// Absolute URL of the share image, if any level provides one.
    pub image: Option<String>,
    /// Open Graph type.
    pub og_type: String,
    /// Twitter card type; `"summary"` when there is no image.
    pub twitter_card: String,
    /// Twitter @handle of the site.
    pub twitter_site: Option<String>,
    /// Absolute canonical URL.
    pub canonical_url: String,
    /// The site name, for `og:site_name`.
    pub site_name: String,
}

// ---------------------------------------------------------------------------
// Specification
// ---------------------------------------------------------------------------

/// The escape of one character inside a double-quoted attribute value.
pub open spec fn esc_attr_char(c: char) -> Seq<char> {
    if c == '&' {
        "&amp;"@
    } else if c == '"' {
        "&quot;"@
    } else if c == '<' {
        "&lt;"@
    } else if c == '>' {
        "&gt;"@
    } else {
        seq![c]
    }
}

/// `s` with `&`, `"`, `<` and `>` replaced by their entities.
pub open spec fn attr_escaped(s: Seq<char>) -> Seq<char>
    decreases s.len(),
{
    if s.len() == 0 {
        seq![]
    } else {
        attr_escaped(s.drop_last()) + esc_attr_char(s.last())
    }
}

/// `url` made absolute against `base`: absolute URLs stay, site-relative
/// ones get `base` (without trailing slashes) in front, others stay.
pub open spec fn absolute_url(url: Seq<char>, base: Seq<char>) -> Seq<char> {
    if has_prefix(url, "http://"@) || has_prefix(url, "https://"@) {
        url
    } else if has_prefix(url, "/"@) {
        trim_end_char(base, '/') + url
    } else {
        url
    }
}

/// The page path used for the canonical URL: a trailing `index.html`
/// after a slash is dropped.
pub open spec fn canonical_path(current_url: Seq<char>) -> Seq<char> {
    if has_suffix(current_url, "/index.html"@) {
        current_url.subrange(0, current_url.len() - 10)
    } else {
        current_url
    }
}

/// The first of two optional strings that is present.
pub open spec fn first_of(a: Option<String>, b: Option<String>) -> Option<Seq<char>> {
    match a {
        Some(x) => Some(x@),
        None => opt_view(b),
    }
}

/// The resolved title.
pub open spec fn title_of(fm: SeoMeta, site: SiteMeta) -> Seq<char> {
    match first_of(fm.title, site.seo.title) {
        Some(t) => t,
        None => site.name@,
    }
}

/// The resolved image URL (absolute).
pub open spec fn image_of(fm: SeoMeta, site: SiteMeta) -> Option<Seq<char>> {
    match first_of(fm.image, site.seo.image) {
        Some(i) => Some(absolute_url(i, site.base_url@)),
        None => None,
    }
}

/// The resolved Open Graph type.
pub open spec fn og_type_of(fm: SeoMeta, site: SiteMeta) -> Seq<char> {
    match fm.og_type {
        Some(t) => t@,
        None => site.seo.og_type@,
    }
}

/// The page's own Open Graph type wins over the site's default, which
/// applies only when the page sets none.
pub proof fn law_og_type_page_first(fm: SeoMeta, site: SiteMeta)
    ensures
        fm.og_type matches Some(t) ==> og_type_of(fm, site) == t@,
        fm.og_type is None ==> og_type_of(fm, site) == site.seo.og_type@,
{
}

/// What a page sets wins over the site's SEO defaults: the title falls
/// back to the site's SEO title and then the site name; the description
/// and image fall back to the site's; the card is `summary` when there is
/// no image at all, else the page's card or the site's; an explicit
/// canonical URL is kept as given.
pub proof fn law_seo_page_first(fm: SeoMeta, site: SiteMeta, current_url: Seq<char>)
    ensures
        fm.title matches Some(t) ==> title_of(fm, site) == t@,
        fm.title is None ==> (site.seo.title matches Some(t) ==> title_of(fm, site) == t@),
        fm.title is None && site.seo.title is None ==> title_of(fm, site) == site.name@,
        fm.description matches Some(d) ==> first_of(fm.description, site.seo.description) == Some(d@),
        fm.description is None ==> first_of(fm.description, site.seo.description) == opt_view(site.seo.description),
        (image_of(fm, site) is None) <==> (fm.image is None && site.seo.image is None),
        image_of(fm, site) is None ==> card_of(fm, site) == "summary"@,
        image_of(fm, site) is Some ==> (fm.twitter_card matches Some(c) ==> card_of(fm, site) == c@),
        image_of(fm, site) is Some && fm.twitter_card is None ==> card_of(fm, site) == site.seo.twitter_card@,
        fm.canonical_url matches Some(c) ==> canonical_of(fm, site, current_url) == c@,
{
}

/// The resolved Twitter card type.
pub open spec fn card_of(fm: SeoMeta, site: SiteMeta) -> Seq<char> {
    if image_of(fm, site) is None {
        "summary"@
    } else {
        match fm.twitter_card {
            Some(t) => t@,
            None => site.seo.twitter_card@,
        }
    }
}

/// The resolved canonical URL.
pub open spec fn canonical_of(fm: SeoMeta, site: SiteMeta, current_url: Seq<char>) -> Seq<char> {
    match fm.canonical_url {
        Some(c) => c@,
        None => absolute_url(canonical_path(current_url), site.base_url@),
    }
}

/// One `<meta>` line.
pub open spec fn meta_line(attr: Seq<char>, name: Seq<char>, content: Seq<char>) -> Seq<char> {
    "<meta "@ + attr + "=\""@ + name + "\" content=\""@ + attr_escaped(content) + "\">"@ + seq!['\n']
}

/// The `<meta>` line, unless a tag of that name already exists.
pub open spec fn meta_unless(existing: Seq<Seq<char>>, attr: Seq<char>, name: Seq<char>, content: Seq<char>) -> Seq<char> {
    if existing.contains(name) {
        seq![]
    } else {
        meta_line(attr, name, content)
    }
}

/// The `<meta>` line for an optional value.
pub open spec fn meta_opt(existing: Seq<Seq<char>>, attr: Seq<char>, name: Seq<char>, content: Option<Seq<char>>) -> Seq<char> {
    match content {
        Some(c) => meta_unless(existing, attr, name, c),
        None => seq![],
    }
}

/// The canonical `<link>` line, unless the page already has one.
pub open spec fn canonical_line(has_canonical: bool, url: Seq<char>) -> Seq<char> {
    if has_canonical {
        seq![]
    } else {
        "<link rel=\"canonical\" href=\""@ + attr_escaped(url) + "\">"@ + seq!['\n']
    }
}

/// The tags to inject for resolved values, skipping the tag names in
/// `existing` and the canonical link when the page has one.
pub open spec fn meta_html(
    title: Seq<char>,
    description: Option<Seq<char>>,
    image: Option<Seq<char>>,
    url: Seq<char>,
    og_type: Seq<char>,
    site_name: Seq<char>,
    card: Seq<char>,
    twitter_site: Option<Seq<char>>,
    existing: Seq<Seq<char>>,
    has_canonical: bool,
) -> Seq<char> {
    meta_unless(existing, "property"@, "og:title"@, title)
        + meta_opt(existing, "property"@, "og:description"@, description)
        + meta_opt(existing, "property"@, "og:image"@, image)
        + meta_unless(existing, "property"@, "og:url"@, url)
        + meta_unless(existing, "property"@, "og:type"@, og_type)
        + meta_unless(existing, "property"@, "og:site_name"@, site_name)
        + meta_unless(existing, "name"@, "twitter:card"@, card)
        + meta_unless(existing, "name"@, "twitter:title"@, title)
        + meta_opt(existing, "name"@, "twitter:description"@, description)
        + meta_opt(existing, "name"@, "twitter:image"@, image)
        + meta_opt(existing, "name"@, "twitter:site"@, twitter_site)
        + canonical_line(has_canonical, url)
}

/// The tags to inject for a `ResolvedSeo`.
pub open spec fn meta_html_of(seo: ResolvedSeo, existing: Seq<Seq<char>>, has_canonical: bool) -> Seq<char> {
    meta_html(
        seo.title@,
        opt_view(seo.description),
        opt_view(seo.image),
        seo.canonical_url@,
        seo.og_type@,
        seo.site_name@,
        seo.twitter_card@,
        opt_view(seo.twitter_site),
        existing,
        has_canonical,
    )
}

/// The selector of the tags that may already carry OG/Twitter names.
pub open spec fn named_meta_selector() -> Seq<char> {
    "meta[property], meta[name]"@
}

/// The selector of a canonical link.
pub open spec fn canonical_selector() -> Seq<char> {
    "link[rel='canonical']"@
}

/// The OG/Twitter tag names declared by the scanned tags `tags[i..]`:
/// `property` values starting with `og:` and `name` values starting with
/// `twitter:`.
pub open spec fn names_from(tags: Seq<(Seq<char>, Seq<(Seq<char>, Seq<char>)>)>, i: int) -> Seq<Seq<char>>
    decreases tags.len() - i,
{
    if i < 0 || i >= tags.len() {
        seq![]
    } else {
        let attrs = tags[i].1;
        let og = match attr_of(attrs, "property"@) {
            Some(p) => if has_prefix(p, "og:"@) { seq![p] } else { seq![] },
            None => seq![],
        };
        let tw = match attr_of(attrs, "name"@) {
            Some(n) => if has_prefix(n, "twitter:"@) { seq![n] } else { seq![] },
            None => seq![],
        };
        og + tw + names_from(tags, i + 1)
    }
}

/// The OG/Twitter tag names already present in `html`.
pub open spec fn existing_names(html: Seq<char>) -> Seq<Seq<char>> {
    names_from(scanned_tags(html, named_meta_selector()).0, 0)
}

/// Whether `html` has a canonical link.
pub open spec fn canonical_present(html: Seq<char>) -> bool {
    scanned_tags(html, canonical_selector()).0.len() > 0
}

/// The tags that `inject_seo_tags` adds to `html`.
pub open spec fn seo_injection(html: Seq<char>, fm: SeoMeta, site: SiteMeta, current_url: Seq<char>) -> Seq<char> {
    meta_html(
        title_of(fm, site),
        first_of(fm.description, site.seo.description),
        image_of(fm, site),
        canonical_of(fm, site, current_url),
        og_type_of(fm, site),
        site.name@,
        card_of(fm, site),
        opt_view(site.seo.twitter_site),
        existing_names(html),
        canonical_present(html),
    )
}

// ---------------------------------------------------------------------------
// Implementation
// ---------------------------------------------------------------------------

/// Escape the characters that are unsafe in a double-quoted HTML
/// attribute value.
pub fn escape_attr(s: &str) -> (r: String)
    ensures
        r@ == attr_escaped(s@),
{
    let v = chars_of(s);
    let mut out = String::new();
    let mut i: usize = 0;
    while i < v.len()
        invariant
            i <= v@.len(),
            out@ == attr_escaped(v@.subrange(0, i as int)),
        decreases v@.len() - i,
    {
        let c = v[i];
        if c == '&' {
            out.append("&amp;");
        } else if c == '"' {
            out.append("&quot;");
        } else if c == '<' {
            out.append("&lt;");
        } else if c == '>' {
            out.append("&gt;");
        } else {
            push_char(&mut out, c);
        }
        assert(v@.subrange(0, i + 1).drop_last() =~= v@.subrange(0, i as int));
        i = i + 1;
    }
    assert(v@.subrange(0, v@.len() as int) =~= v@);
    out
}

/// Resolve a URL to absolute form using the site's base URL.
pub fn make_absolute_url(url: &str, base_url: &str) -> (r: String)
    ensures
        r@ == absolute_url(url@, base_url@),
{
    if starts_with(url, "http://") || starts_with(url, "https://") {
        return owned(url);
    }
    let base = trim_end_char_exec(base_url, '/');
    if starts_with(url, "/") {
        concat2(base.as_str(), url)
    } else {
        owned(url)
    }
}

/// The canonical path of the current page URL.
pub(crate) fn canonical_path_exec(current_url: &str) -> (r: String)
    ensures
        r@ == canonical_path(current_url@),
{
    if ends_with(current_url, "/index.html") {
        let v = chars_of(current_url);
        proof {
            reveal_strlit("/index.html");
        }
        let w = sub_chars(&v, 0, v.len() - 10);
        string_of(&w)
    } else {
        owned(current_url)
    }
}

/// The first of two optional strings that is present.
pub(crate) fn first_present(a: &Option<String>, b: &Option<String>) -> (r: Option<String>)
    ensures
        opt_view(r) == first_of(*a, *b),
{
    match a {
        Some(x) => Some(x.clone()),
        None => clone_opt(b),
    }
}

/// Merge frontmatter SEO fields with site-level defaults.
///
/// Priority: frontmatter, then the site's SEO section, then derived
/// defaults.
pub fn resolve_seo(frontmatter_seo: &SeoMeta, site_config: &SiteMeta, current_url: &str) -> (r: ResolvedSeo)
    ensures
        r.title@ == title_of(*frontmatter_seo, *site_config),
        opt_view(r.description) == first_of(frontmatter_seo.description, site_config.seo.description),
        opt_view(r.image) == image_of(*frontmatter_seo, *site_config),
        r.og_type@ == og_type_of(*frontmatter_seo, *site_config),
        r.og_type@ == match frontmatter_seo.og_type {
            Some(t) => t@,
            None => site_config.seo.og_type@,
        },
        r.twitter_card@ == card_of(*frontmatter_seo, *site_config),
        opt_view(r.twitter_site) == opt_view(site_config.seo.twitter_site),
        r.canonical_url@ == canonical_of(*frontmatter_seo, *site_config, current_url@),
        r.site_name@ == site_config.name@,
{
    let title = match first_present(&frontmatter_seo.title, &site_config.seo.title) {
        Some(t) => t,
        None => site_config.name.clone(),
    };
    let description = first_present(&frontmatter_seo.description, &site_config.seo.description);
    let image = match first_present(&frontmatter_seo.image, &site_config.seo.image) {
        Some(img) => Some(make_absolute_url(img.as_str(), site_config.base_url.as_str())),
        None => None,
    };
    let og_type = match &frontmatter_seo.og_type {
        Some(t) => t.clone(),
        None => site_config.seo.og_type.clone(),
    };
    let twitter_card = if image.is_none() {
        owned("summary")
    } else {
        match &frontmatter_seo.twitter_card {
            Some(t) => t.clone(),
            None => site_config.seo.twitter_card.clone(),
        }
    };
    let twitter_site = clone_opt(&site_config.seo.twitter_site);
    let canonical_url = match &frontmatter_seo.canonical_url {
        Some(c) => c.clone(),
        None => {
            let path = canonical_path_exec(current_url);
            make_absolute_url(path.as_str(), site_config.base_url.as_str())
        },
    };
    ResolvedSeo {
        title,
        description,
        image,
        og_type,
        twitter_card,
        twitter_site,
        canonical_url,
        site_name: site_config.name.clone(),
    }
}

/// The OG/Twitter tag names already present in `html`.
pub fn detect_existing_tags(html: &str) -> (r: Vec<String>)
    ensures
        strs_view(r@) == existing_names(html@),
{
    let (tags, _ok) = scan_tags(html, "meta[property], meta[name]");
    proof {
        reveal_strlit("meta[property], meta[name]");
    }
    let ghost tv = crate::html::tags_view(tags@);
    let mut found: Vec<String> = Vec::new();
    let mut k: usize = 0;
    while k < tags.len()
        invariant
            k <= tags@.len(),
            tv == crate::html::tags_view(tags@),
            strs_view(found@) + names_from(tv, k as int) == names_from(tv, 0),
        decreases tags@.len() - k,
    {
        let attrs = &tags[k].attrs;
        let ghost before = strs_view(found@);
        assert(tv[k as int].1 == attrs_view(attrs@));
        let ghost og: Seq<Seq<char>> = match attr_of(attrs_view(attrs@), "property"@) {
            Some(p) => if has_prefix(p, "og:"@) { seq![p] } else { seq![] },
            None => seq![],
        };
        let ghost tw: Seq<Seq<char>> = match attr_of(attrs_view(attrs@), "name"@) {
            Some(n) => if has_prefix(n, "twitter:"@) { seq![n] } else { seq![] },
            None => seq![],
        };
        match get_attr(attrs, "property") {
            Some(p) => {
                if starts_with(p.as_str(), "og:") {
                    found.push(p.clone());
                }
            },
            None => {},
        }
        assert(strs_view(found@) =~= before + og);
        match get_attr(attrs, "name") {
            Some(n) => {
                if starts_with(n.as_str(), "twitter:") {
                    found.push(n.clone());
                }
            },
            None => {},
        }
        assert(strs_view(found@) =~= before + og + tw);
        assert(names_from(tv, k as int) == og + tw + names_from(tv, k + 1));
        assert(strs_view(found@) + names_from(tv, k + 1) =~= before + names_from(tv, k as int));
        k = k + 1;
    }
    found
}

/// Check if the HTML already contains a `<link rel="canonical">` tag.
pub fn has_canonical_link(html: &str) -> (r: bool)
    ensures
        r == canonical_present(html@),
{
    let (tags, _ok) = scan_tags(html, "link[rel='canonical']");
    tags.len() > 0
}

/// Append a `<meta>` tag to `out` unless `name` is in `existing`.
pub fn push_meta(out: &mut String, existing: &Vec<String>, attr: &str, name: &str, content: &str)
    ensures
        final(out)@ == old(out)@ + meta_unless(strs_view(existing@), attr@, name@, content@),
{
    if !list_contains(existing.as_slice(), name) {
        out.append("<meta ");
        out.append(attr);
        out.append("=\"");
        out.append(name);
        out.append("\" content=\"");
        let esc = escape_attr(content);
        out.append(esc.as_str());
        out.append("\">");
        push_char(out, '\n');
    }
}

/// Append a `<meta>` tag for an optional value.
fn push_meta_opt(out: &mut String, existing: &Vec<String>, attr: &str, name: &str, content: &Option<String>)
    ensures
        final(out)@ == old(out)@ + meta_opt(strs_view(existing@), attr@, name@, opt_view(*content)),
{
    match content {
        Some(c) => push_meta(out, existing, attr, name, c.as_str()),
        None => {},
    }
}

/// Generate the meta tag HTML for all SEO tags not already present in the
/// document; empty when every tag is present.
pub fn generate_meta_html(seo: &ResolvedSeo, existing: &Vec<String>, has_canonical: bool) -> (r: String)
    ensures
        r@ == meta_html_of(*seo, strs_view(existing@), has_canonical),
{
    let mut out = String::new();
    push_meta(&mut out, existing, "property", "og:title", seo.title.as_str());
    push_meta_opt(&mut out, existing, "property", "og:description", &seo.description);
    push_meta_opt(&mut out, existing, "property", "og:image", &seo.image);
    push_meta(&mut out, existing, "property", "og:url", seo.canonical_url.as_str());
    push_meta(&mut out, existing, "property", "og:type", seo.og_type.as_str());
    push_meta(&mut out, existing, "property", "og:site_name", seo.site_name.as_str());
    push_meta(&mut out, existing, "name", "twitter:card", seo.twitter_card.as_str());
    push_meta(&mut out, existing, "name", "twitter:title", seo.title.as_str());
    push_meta_opt(&mut out, existing, "name", "twitter:description", &seo.description);
    push_meta_opt(&mut out, existing, "name", "twitter:image", &seo.image);
    push_meta_opt(&mut out, existing, "name", "twitter:site", &seo.twitter_site);
    if !has_canonical {
        out.append("<link rel=\"canonical\" href=\"");
        let esc = escape_attr(seo.canonical_url.as_str());
        out.append(esc.as_str());
        out.append("\">");
        push_char(&mut out, '\n');
    }
    out
}

/// Inject Open Graph and Twitter Card meta tags into `<head>`.
///
/// Never fails: when nothing is missing, or the rewriter fails, the HTML
/// comes back unchanged.
pub fn inject_seo_tags(html: &str, frontmatter_seo: &SeoMeta, site_config: &SiteMeta, current_url: &str) -> (r: String)
    ensures
        r@ == (if seo_injection(html@, *frontmatter_seo, *site_config, current_url@).len() == 0 {
            html@
        } else {
            match tags_rewritten(html@, "head"@, seq![], seq![EditView::Append(seo_injection(html@, *frontmatter_seo, *site_config, current_url@))]) {
                Some(out) => out,
                None => html@,
            }
        }),
{
    let resolved = resolve_seo(frontmatter_seo, site_config, current_url);
    let existing = detect_existing_tags(html);
    let has_canonical = has_canonical_link(html);
    let meta = generate_meta_html(&resolved, &existing, has_canonical);
    if meta.as_str().is_empty() {
        return owned(html);
    }
    let ghost mv = meta@;
    let edits: Vec<Vec<TagEdit>> = Vec::new();
    let rest = vec![TagEdit::Append(meta)];
    assert(edit_lists_view(edits@) =~= Seq::<Seq<EditView>>::empty());
    assert(edits_view(rest@) =~= seq![EditView::Append(mv)]);
    match rewrite_tags(html, "head", &edits, &rest) {
        Some(out) => out,
        None => owned(html),
    }
}


// ---------------------------------------------------------------------------
// Laws
// ---------------------------------------------------------------------------

/// An entity of the escape starts at `i`.
pub open spec fn entity_at(e: Seq<char>, i: int) -> bool {
    occurs_at(e, "&amp;"@, i) || occurs_at(e, "&quot;"@, i) || occurs_at(e, "&lt;"@, i) || occurs_at(e, "&gt;"@, i)
}

/// No bare special character: no `"`, `<` or `>`, and every `&` starts
/// one of the four entities.
pub open spec fn no_bare_specials(e: Seq<char>) -> bool {
    forall|i: int| 0 <= i < e.len() ==> #[trigger] e[i] != '"' && e[i] != '<' && e[i] != '>' && (e[i] == '&' ==> entity_at(e, i))
}

/// An occurrence stays an occurrence when text is appended.
proof fn lemma_occurs_prefix(a: Seq<char>, b: Seq<char>, p: Seq<char>, i: int)
    requires
        occurs_at(a, p, i),
    ensures
        occurs_at(a + b, p, i),
{
    assert((a + b).subrange(i, i + p.len()) =~= a.subrange(i, i + p.len()));
}

/// The escape of a character has no bare special character, and an
/// entity begins where it has an `&`.
proof fn lemma_esc_char(c: char)
    ensures
        no_bare_specials(esc_attr_char(c)),
        esc_attr_char(c).len() >= 1,
{
    reveal_strlit("&amp;");
    reveal_strlit("&quot;");
    reveal_strlit("&lt;");
    reveal_strlit("&gt;");
    let e = esc_attr_char(c);
    if c == '&' || c == '"' || c == '<' || c == '>' {
        assert(e.subrange(0, e.len() as int) =~= e);
        assert(entity_at(e, 0));
    }
}

/// Escaped attribute text has no bare `&`, `"`, `<` or `>`: every `&` in
/// it begins `&amp;`, `&quot;`, `&lt;` or `&gt;`.
pub proof fn law_escape_attr_no_bare_specials(s: Seq<char>)
    ensures
        no_bare_specials(attr_escaped(s)),
    decreases s.len(),
{
    if s.len() > 0 {
        law_escape_attr_no_bare_specials(s.drop_last());
        let a = attr_escaped(s.drop_last());
        let b = esc_attr_char(s.last());
        lemma_esc_char(s.last());
        let e = a + b;
        assert(attr_escaped(s) == e);
        assert forall|i: int| 0 <= i < e.len() implies #[trigger] e[i] != '"' && e[i] != '<' && e[i] != '>' && (e[i] == '&'
            ==> entity_at(e, i)) by {
            if i < a.len() {
                assert(e[i] == a[i]);
                if a[i] == '&' {
                    assert(entity_at(a, i));
                    if occurs_at(a, "&amp;"@, i) {
                        lemma_occurs_prefix(a, b, "&amp;"@, i);
                    } else if occurs_at(a, "&quot;"@, i) {
                        lemma_occurs_prefix(a, b, "&quot;"@, i);
                    } else if occurs_at(a, "&lt;"@, i) {
                        lemma_occurs_prefix(a, b, "&lt;"@, i);
                    } else {
                        lemma_occurs_prefix(a, b, "&gt;"@, i);
                    }
                }
            } else {
                let j = i - a.len();
                assert(e[i] == b[j]);
                if b[j] == '&' {
                    assert(entity_at(b, j));
                    assert forall|p: Seq<char>| #[trigger] occurs_at(b, p, j) implies occurs_at(e, p, i) by {
                        assert(e.subrange(i, i + p.len()) =~= b.subrange(j, j + p.len()));
                    }
                }
            }
        }
    }
}

/// Escaping never shortens a text.
pub proof fn law_escape_attr_not_shorter(s: Seq<char>)
    ensures
        attr_escaped(s).len() >= s.len(),
    decreases s.len(),
{
    if s.len() > 0 {
        law_escape_attr_not_shorter(s.drop_last());
        lemma_esc_char(s.last());
    }
}

/// An absolute URL (`http://` or `https://`) is left as it is, whatever
/// the base URL.
pub proof fn law_absolute_url_keeps_absolute(url: Seq<char>, base: Seq<char>)
    requires
        has_prefix(url, "http://"@) || has_prefix(url, "https://"@),
    ensures
        absolute_url(url, base) == url,
{
}

/// A site-relative path made absolute against `https://example.com`, with
/// or without a trailing slash, has no `//` after the scheme, when the
/// path itself has none.
pub proof fn law_absolute_url_no_double_slash(suffix: Seq<char>, trailing: bool)
    requires
        !has_prefix(suffix, "/"@),
        !contains_seq(suffix, "//"@),
    ensures
        !contains_seq(absolute_url("/"@ + suffix, if trailing { "https://example.com/"@ } else { "https://example.com"@ }).skip(8), "//"@),
{
    reveal_strlit("/");
    reveal_strlit("//");
    reveal_strlit("https://example.com");
    reveal_strlit("https://example.com/");
    reveal_strlit("http://");
    reveal_strlit("https://");
    let base: Seq<char> = if trailing { "https://example.com/"@ } else { "https://example.com"@ };
    let host: Seq<char> = "https://example.com"@;
    assert(trim_end_char(host, '/') == host) by {
        assert(host.last() != '/');
    }
    if trailing {
        assert(base.drop_last() =~= host);
        assert(trim_end_char(base, '/') == trim_end_char(host, '/')) by {
            assert(base.last() == '/');
            assert(base.subrange(0, base.len() - 1) =~= host);
        }
    }
    let path = "/"@ + suffix;
    assert(!has_prefix(path, "http://"@)) by {
        if has_prefix(path, "http://"@) {
            assert(path.subrange(0, 7)[0] == path[0]);
            assert(path[0] == '/');
        }
    }
    assert(!has_prefix(path, "https://"@)) by {
        if has_prefix(path, "https://"@) {
            assert(path.subrange(0, 8)[0] == path[0]);
            assert(path[0] == '/');
        }
    }
    assert(has_prefix(path, "/"@)) by {
        assert(path.subrange(0, 1) =~= "/"@);
    }
    let r = absolute_url(path, base);
    assert(r == host + path);
    let rest = r.skip(8);
    assert(rest =~= "example.com/"@ + suffix) by {
        reveal_strlit("example.com/");
    }
    reveal_strlit("example.com/");
    assert forall|i: int| !#[trigger] occurs_at(rest, "//"@, i) by {
        if occurs_at(rest, "//"@, i) {
            assert("//"@ =~= seq!['/', '/']);
            assert(rest.subrange(i, i + 2) =~= "//"@);
            assert(rest.subrange(i, i + 2)[0] == rest[i]);
            assert(rest.subrange(i, i + 2)[1] == rest[i + 1]);
            assert(rest[i] == '/' && rest[i + 1] == '/');
            if i < 11 {
                assert("example.com/"@ =~= seq!['e', 'x', 'a', 'm', 'p', 'l', 'e', '.', 'c', 'o', 'm', '/']);
                assert(rest[i] == "example.com/"@[i]);
            } else if i == 11 {
                assert(rest[i + 1] == suffix[0]);
                assert("/"@ =~= seq!['/']);
                assert(suffix.subrange(0, 1) =~= seq![suffix[0]]);
                assert(has_prefix(suffix, "/"@));
            } else {
                let j = i - 12;
                assert(suffix.subrange(j, j + 2) =~= rest.subrange(i, i + 2));
                assert(occurs_at(suffix, "//"@, j));
            }
        }
    }
}

/// What resolving template expressions makes of SEO overrides: each field
/// resolved on its own (see `resolves_to`).
pub open spec fn seo_resolved(seo: SeoMeta, r: SeoMeta) -> bool {
    &&& resolves_to(opt_view(seo.title), opt_view(r.title))
    &&& resolves_to(opt_view(seo.description), opt_view(r.description))
    &&& resolves_to(opt_view(seo.image), opt_view(r.image))
    &&& resolves_to(opt_view(seo.og_type), opt_view(r.og_type))
    &&& resolves_to(opt_view(seo.twitter_card), opt_view(r.twitter_card))
    &&& resolves_to(opt_view(seo.canonical_url), opt_view(r.canonical_url))
}

/// Resolve template expressions in the SEO frontmatter fields, in the
/// page's context. A field without `{{` or `{%` is kept as written; one
/// with an expression becomes the trimmed rendering, or `None` when
/// rendering fails or leaves nothing (the site default then applies).
pub fn resolve_seo_expressions(seo: &SeoMeta, env: &Environment<'_>, ctx: &Value) -> (r: SeoMeta)
    ensures
        seo_resolved(*seo, r),
{
    SeoMeta {
        title: resolve_field(&seo.title, env, ctx),
        description: resolve_field(&seo.description, env, ctx),
        image: resolve_field(&seo.image, env, ctx),
        og_type: resolve_field(&seo.og_type, env, ctx),
        twitter_card: resolve_field(&seo.twitter_card, env, ctx),
        canonical_url: resolve_field(&seo.canonical_url, env, ctx),
    }
}

} // verus!

