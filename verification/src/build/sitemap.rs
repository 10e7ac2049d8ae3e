//! `sitemap.xml` generation: one `<url>` entry per rendered page.

use vstd::prelude::*;
use crate::build::render::RenderedPage;
use crate::config::SiteConfig;
use crate::text::{
    contains_seq, has_prefix, lemma_occurs_concat_left, lemma_occurs_concat_right, lemma_occurs_self, occurs_at, push_char,
    starts_with, trim_end_char, trim_end_char_exec,
};

verus! {

/// The escape of one character in XML text.
pub open spec fn esc_xml_char(c: char) -> Seq<char> {
    if c == '&' {
        "&amp;"@
    } else if c == '<' {
        "&lt;"@
    } else if c == '>' {
        "&gt;"@
    } else if c == '"' {
        "&quot;"@
    } else if c == '\'' {
        "&apos;"@
    } else {
        seq![c]
    }
}

/// `s` with the five XML special characters escaped.
pub open spec fn xml_escaped(s: Seq<char>) -> Seq<char>
    decreases s.len(),
{
    if s.len() == 0 {
        seq![]
    } else {
        xml_escaped(s.drop_last()) + esc_xml_char(s.last())
    }
}

/// The path with a leading `/`.
pub open spec fn rooted(path: Seq<char>) -> Seq<char> {
    if has_prefix(path, "/"@) {
        path
    } else {
        seq!['/'] + path
    }
}

/// The sitemap priority of a page.
pub open spec fn priority_of(p: RenderedPage) -> Seq<char> {
    if p.is_index {
        "1.0"@
    } else if p.is_dynamic {
        "0.6"@
    } else {
        "0.8"@
    }
}

/// The `<url>` entry of a page.
pub open spec fn url_entry(p: RenderedPage, base: Seq<char>, build_time: Seq<char>) -> Seq<char> {
    "  <url>\n    <loc>"@ + xml_escaped(base + rooted(p.url_path@)) + "</loc>\n    <lastmod>"@ + xml_escaped(build_time)
        + "</lastmod>\n    <priority>"@ + priority_of(p) + "</priority>\n  </url>\n"@
}

/// The entries of the pages, in order.
pub open spec fn url_entries(pages: Seq<RenderedPage>, base: Seq<char>, build_time: Seq<char>) -> Seq<char>
    decreases pages.len(),
{
    if pages.len() == 0 {
        seq![]
    } else {
        url_entries(pages.drop_last(), base, build_time) + url_entry(pages.last(), base, build_time)
    }
}

/// The sitemap of the pages for a base URL (trailing slashes dropped).
pub open spec fn sitemap_text(pages: Seq<RenderedPage>, base_url: Seq<char>, build_time: Seq<char>) -> Seq<char> {
    "<?xml version=\"1.0\" encoding=\"UTF-8\"?>\n<urlset xmlns=\"http://www.sitemaps.org/schemas/sitemap/0.9\">\n"@
        + url_entries(pages, trim_end_char(base_url, '/'), build_time) + "</urlset>\n"@
}

/// Ensure the URL path starts with `/`.
pub fn normalize_url_path(path: &str) -> (r: String)
    ensures
        r@ == rooted(path@),
{
    if starts_with(path, "/") {
        crate::text::owned(path)
    } else {
        let mut r = String::new();
        push_char(&mut r, '/');
        r.append(path);
        r
    }
}

/// Escape XML special characters.
pub fn escape_xml(s: &str) -> (r: String)
    ensures
        r@ == xml_escaped(s@),
{
    let v = crate::text::chars_of(s);
    let mut out = String::new();
    let mut i: usize = 0;
    while i < v.len()
        invariant
            i <= v@.len(),
            out@ == xml_escaped(v@.subrange(0, i as int)),
        decreases v@.len() - i,
    {
        let c = v[i];
        if c == '&' {
            out.append("&amp;");
        } else if c == '<' {
            out.append("&lt;");
        } else if c == '>' {
            out.append("&gt;");
        } else if c == '"' {
            out.append("&quot;");
        } else if c == '\'' {
            out.append("&apos;");
        } else {
            push_char(&mut out, c);
        }
        assert(v@.subrange(0, i + 1).drop_last() =~= v@.subrange(0, i as int));
        i = i + 1;
    }
    assert(v@.subrange(0, v@.len() as int) =~= v@);
    out
}

/// The content of `sitemap.xml` for the rendered pages: every page with
/// its absolute URL, the build time as last modification, and a priority
/// of 1.0 for index pages, 0.6 for dynamic pages and 0.8 otherwise.
pub fn sitemap_xml(pages: &[RenderedPage], config: &SiteConfig, build_time: &str) -> (r: String)
    ensures
        r@ == sitemap_text(pages@, config.site.base_url@, build_time@),
{
    let base = trim_end_char_exec(config.site.base_url.as_str(), '/');
    let mut xml = String::new();
    xml.append("<?xml version=\"1.0\" encoding=\"UTF-8\"?>\n<urlset xmlns=\"http://www.sitemaps.org/schemas/sitemap/0.9\">\n");
    let ghost head = xml@;
    let mut i: usize = 0;
    while i < pages.len()
        invariant
            i <= pages@.len(),
            base@ == trim_end_char(config.site.base_url@, '/'),
            xml@ == head + url_entries(pages@.subrange(0, i as int), base@, build_time@),
        decreases pages@.len() - i,
    {
        let page = &pages[i];
        assert(pages@.subrange(0, i + 1).drop_last() =~= pages@.subrange(0, i as int));
        assert(pages@.subrange(0, i + 1).last() == pages@[i as int]);
        let priority = if page.is_index {
            "1.0"
        } else if page.is_dynamic {
            "0.6"
        } else {
            "0.8"
        };
        let path = normalize_url_path(page.url_path.as_str());
        let url = crate::text::concat2(base.as_str(), path.as_str());
        xml.append("  <url>\n    <loc>");
        let e = escape_xml(url.as_str());
        xml.append(e.as_str());
        xml.append("</loc>\n    <lastmod>");
        let t = escape_xml(build_time);
        xml.append(t.as_str());
        xml.append("</lastmod>\n    <priority>");
        xml.append(priority);
        xml.append("</priority>\n  </url>\n");
        i = i + 1;
    }
    assert(pages@.subrange(0, pages@.len() as int) =~= pages@);
    xml.append("</urlset>\n");
    xml
}

/// Where the entry of the `i`-th page stands in the entries.
proof fn lemma_entry_in_entries(pages: Seq<RenderedPage>, base: Seq<char>, build_time: Seq<char>, i: int) -> (k: int)
    requires
        0 <= i < pages.len(),
    ensures
        occurs_at(url_entries(pages, base, build_time), url_entry(pages[i], base, build_time), k),
    decreases pages.len(),
{
    let t = pages.drop_last();
    let e = url_entry(pages[i], base, build_time);
    if i == pages.len() - 1 {
        lemma_occurs_self(e);
        lemma_occurs_concat_right(url_entries(t, base, build_time), e, e, 0);
        url_entries(t, base, build_time).len() as int
    } else {
        let k = lemma_entry_in_entries(t, base, build_time, i);
        assert(t[i] == pages[i]);
        lemma_occurs_concat_left(url_entries(t, base, build_time), url_entry(pages.last(), base, build_time), e, k);
        k
    }
}

/// Every page is listed in the sitemap with its absolute URL, the build
/// time, and its priority: 1.0 for an index page, 0.6 for any other
/// dynamic page, 0.8 for any other page.
pub proof fn law_sitemap_lists_each_page(pages: Seq<RenderedPage>, base_url: Seq<char>, build_time: Seq<char>, i: int)
    requires
        0 <= i < pages.len(),
    ensures
        contains_seq(
            sitemap_text(pages, base_url, build_time),
            "  <url>\n    <loc>"@ + xml_escaped(trim_end_char(base_url, '/') + rooted(pages[i].url_path@))
                + "</loc>\n    <lastmod>"@ + xml_escaped(build_time) + "</lastmod>\n    <priority>"@
                + (if pages[i].is_index {
                "1.0"@
            } else if pages[i].is_dynamic {
                "0.6"@
            } else {
                "0.8"@
            }) + "</priority>\n  </url>\n"@,
        ),
{
    let base = trim_end_char(base_url, '/');
    let k = lemma_entry_in_entries(pages, base, build_time, i);
    let head = "<?xml version=\"1.0\" encoding=\"UTF-8\"?>\n<urlset xmlns=\"http://www.sitemaps.org/schemas/sitemap/0.9\">\n"@;
    let body = url_entries(pages, base, build_time);
    let e = url_entry(pages[i], base, build_time);
    lemma_occurs_concat_right(head, body, e, k);
    lemma_occurs_concat_left(head + body, "</urlset>\n"@, e, head.len() + k);
    assert(occurs_at(sitemap_text(pages, base_url, build_time), e, head.len() + k));
}

} // verus!
