//! The local CSS and JS files that the pages reference: `<link
//! rel="stylesheet">` hrefs and `<script src>` srcs, without repeats, in
//! first-encounter order over the pages.

use vstd::prelude::*;
use crate::build::content_hash::{excluded_by, is_excluded};
use crate::html::{attr_of, get_attr, has_attr, has_attr_exec, scan_tags, scanned_tags, tags_view, HtmlTag};
use crate::text::{has_prefix, list_contains, starts_with, str_eq, strs_view};

verus! {

/// The references collected from the pages.
pub struct CollectedRefs {
    /// The local CSS hrefs, without repeats, in first-encounter order.
    pub css_hrefs: Vec<String>,
    /// The local JS srcs, without repeats, in first-encounter order.
    pub js_srcs: Vec<String>,
    /// The paths of all HTML files (full pages and fragments), in the
    /// order they were given.
    pub html_files: Vec<String>,
}

/// A URL of another site.
pub open spec fn is_external(u: Seq<char>) -> bool {
    has_prefix(u, "http://"@) || has_prefix(u, "https://"@)
}

/// The href a stylesheet link contributes: none with a `media` attribute,
/// an empty or missing href, an external URL, or an excluded path.
pub open spec fn css_ref(attrs: Seq<(Seq<char>, Seq<char>)>, patterns: Seq<Seq<char>>) -> Option<Seq<char>> {
    match attr_of(attrs, "href"@) {
        Some(h) => if has_attr(attrs, "media"@) || h.len() == 0 || is_external(h) || excluded_by(patterns, h, patterns.len() as int) {
            None
        } else {
            Some(h)
        },
        None => None,
    }
}

/// The src a script contributes: none without a non-empty src, for an
/// external URL, with `defer`, `async` or `type="module"`, or for an
/// excluded path.
pub open spec fn js_ref(attrs: Seq<(Seq<char>, Seq<char>)>, patterns: Seq<Seq<char>>) -> Option<Seq<char>> {
    match attr_of(attrs, "src"@) {
        Some(s) => if s.len() == 0 || is_external(s) || has_attr(attrs, "defer"@) || has_attr(attrs, "async"@) || attr_of(
            attrs,
            "type"@,
        ) == Some("module"@) || excluded_by(patterns, s, patterns.len() as int) {
            None
        } else {
            Some(s)
        },
        None => None,
    }
}

/// The references the tags contribute, in order.
pub open spec fn tag_refs(tags: Seq<(Seq<char>, Seq<(Seq<char>, Seq<char>)>)>, patterns: Seq<Seq<char>>, css: bool) -> Seq<Seq<char>>
    decreases tags.len(),
{
    if tags.len() == 0 {
        seq![]
    } else {
        let rest = tag_refs(tags.drop_last(), patterns, css);
        match (if css { css_ref(tags.last().1, patterns) } else { js_ref(tags.last().1, patterns) }) {
            Some(r) => rest.push(r),
            None => rest,
        }
    }
}

/// The stylesheet hrefs of a page (those found before a rewriter failure).
pub open spec fn page_css_refs(html: Seq<char>, patterns: Seq<Seq<char>>) -> Seq<Seq<char>> {
    tag_refs(scanned_tags(html, "link[rel='stylesheet']"@).0, patterns, true)
}

/// The script srcs of a page (those found before a rewriter failure).
pub open spec fn page_js_refs(html: Seq<char>, patterns: Seq<Seq<char>>) -> Seq<Seq<char>> {
    tag_refs(scanned_tags(html, "script"@).0, patterns, false)
}

/// The reference of one tag.
fn tag_ref(attrs: &Vec<(String, String)>, exclude: &[String], css: bool) -> (r: Option<String>)
    ensures
        crate::text::opt_view(r) == (if css {
            css_ref(crate::html::attrs_view(attrs@), strs_view(exclude@))
        } else {
            js_ref(crate::html::attrs_view(attrs@), strs_view(exclude@))
        }),
{
    proof {
        reveal_strlit("module");
    }
    if css {
        match get_attr(attrs, "href") {
            Some(h) => {
                let hs = h.as_str();
                if has_attr_exec(attrs, "media") || hs.is_empty() || starts_with(hs, "http://") || starts_with(hs, "https://")
                    || is_excluded(hs, exclude) {
                    None
                } else {
                    Some(h.clone())
                }
            },
            None => None,
        }
    } else {
        match get_attr(attrs, "src") {
            Some(s) => {
                let ss = s.as_str();
                let module = match get_attr(attrs, "type") {
                    Some(t) => str_eq(t.as_str(), "module"),
                    None => false,
                };
                if ss.is_empty() || starts_with(ss, "http://") || starts_with(ss, "https://") || has_attr_exec(attrs, "defer")
                    || has_attr_exec(attrs, "async") || module || is_excluded(ss, exclude) {
                    None
                } else {
                    Some(s.clone())
                }
            },
            None => None,
        }
    }
}

/// The references of the scanned tags, in order.
fn refs_of_tags(tags: &Vec<HtmlTag>, exclude: &[String], css: bool) -> (r: Vec<String>)
    ensures
        strs_view(r@) == tag_refs(tags_view(tags@), strs_view(exclude@), css),
{
    let ghost tv = tags_view(tags@);
    let mut out: Vec<String> = Vec::new();
    let mut i: usize = 0;
    assert(strs_view(out@) =~= tag_refs(tv.subrange(0, 0), strs_view(exclude@), css));
    while i < tags.len()
        invariant
            i <= tags@.len(),
            tv == tags_view(tags@),
            strs_view(out@) == tag_refs(tv.subrange(0, i as int), strs_view(exclude@), css),
        decreases tags@.len() - i,
    {
        assert(tv.subrange(0, i + 1).drop_last() =~= tv.subrange(0, i as int));
        assert(tv.subrange(0, i + 1).last() == tv[i as int]);
        let ghost before = strs_view(out@);
        match tag_ref(&tags[i].attrs, exclude, css) {
            Some(r) => {
                let ghost rv = r@;
                out.push(r);
                assert(strs_view(out@) =~= before.push(rv));
            },
            None => {},
        }
        i = i + 1;
    }
    assert(tv.subrange(0, tv.len() as int) =~= tv);
    out
}

/// The stylesheet hrefs of one page, in document order (repeats kept).
pub fn refs_of_page_links(html: &str, exclude: &[String]) -> (r: Vec<String>)
    ensures
        strs_view(r@) == page_css_refs(html@, strs_view(exclude@)),
{
    let (links, _ok) = scan_tags(html, "link[rel='stylesheet']");
    refs_of_tags(&links, exclude, true)
}

/// The stylesheet hrefs and script srcs of one page, in document order
/// (repeats kept): links with `media`, external URLs, empty or missing
/// values, `defer`/`async`/module scripts and excluded paths are left out.
pub fn page_references(html: &str, exclude: &[String]) -> (r: (Vec<String>, Vec<String>))
    ensures
        strs_view(r.0@) == page_css_refs(html@, strs_view(exclude@)),
        strs_view(r.1@) == page_js_refs(html@, strs_view(exclude@)),
{
    let (scripts, _ok) = scan_tags(html, "script");
    (refs_of_page_links(html, exclude), refs_of_tags(&scripts, exclude, false))
}

/// `seen` extended by the items of `new` not in it yet, in order.
pub open spec fn add_unique(seen: Seq<Seq<char>>, new: Seq<Seq<char>>) -> Seq<Seq<char>>
    decreases new.len(),
{
    if new.len() == 0 {
        seen
    } else {
        let s = add_unique(seen, new.drop_last());
        if s.contains(new.last()) {
            s
        } else {
            s.push(new.last())
        }
    }
}

/// The references of the pages (path, content when it could be read),
/// page after page, without repeats.
pub open spec fn pages_refs(pages: Seq<(Seq<char>, Option<Seq<char>>)>, patterns: Seq<Seq<char>>, css: bool) -> Seq<Seq<char>>
    decreases pages.len(),
{
    if pages.len() == 0 {
        seq![]
    } else {
        let acc = pages_refs(pages.drop_last(), patterns, css);
        match pages.last().1 {
            Some(html) => add_unique(acc, if css { page_css_refs(html, patterns) } else { page_js_refs(html, patterns) }),
            None => acc,
        }
    }
}

/// The content of the pages given.
pub open spec fn pages_view(pages: Seq<(String, Option<String>)>) -> Seq<(Seq<char>, Option<Seq<char>>)> {
    pages.map_values(|p: (String, Option<String>)| (p.0@, crate::text::opt_view(p.1)))
}

/// Append the items of `new` not in `acc` yet.
fn push_unique(acc: &mut Vec<String>, new: &Vec<String>)
    ensures
        strs_view(final(acc)@) == add_unique(strs_view(old(acc)@), strs_view(new@)),
{
    let ghost start = strs_view(acc@);
    let ghost nv = strs_view(new@);
    let mut i: usize = 0;
    assert(nv.subrange(0, 0) =~= Seq::<Seq<char>>::empty());
    while i < new.len()
        invariant
            i <= new@.len(),
            nv == strs_view(new@),
            strs_view(acc@) == add_unique(start, nv.subrange(0, i as int)),
        decreases new@.len() - i,
    {
        assert(nv.subrange(0, i + 1).drop_last() =~= nv.subrange(0, i as int));
        assert(nv.subrange(0, i + 1).last() == new@[i as int]@);
        if !list_contains(acc.as_slice(), new[i].as_str()) {
            let ghost before = strs_view(acc@);
            acc.push(new[i].clone());
            assert(strs_view(acc@) =~= before.push(new@[i as int]@));
        }
        i = i + 1;
    }
    assert(nv.subrange(0, nv.len() as int) =~= nv);
}

/// Collect the CSS and JS references of the HTML files of `dist/`, given
/// in order with their content (`None` for a file that could not be read,
/// which contributes nothing): repeats are dropped, first encounter
/// first.
pub fn collect_references(pages: &[(String, Option<String>)], exclude: &[String]) -> (r: CollectedRefs)
    ensures
        strs_view(r.css_hrefs@) == pages_refs(pages_view(pages@), strs_view(exclude@), true),
        strs_view(r.js_srcs@) == pages_refs(pages_view(pages@), strs_view(exclude@), false),
        strs_view(r.html_files@) == pages_view(pages@).map_values(|p: (Seq<char>, Option<Seq<char>>)| p.0),
{
    let ghost pv = pages_view(pages@);
    let mut css: Vec<String> = Vec::new();
    let mut js: Vec<String> = Vec::new();
    let mut files: Vec<String> = Vec::new();
    let mut i: usize = 0;
    assert(pv.subrange(0, 0) =~= Seq::<(Seq<char>, Option<Seq<char>>)>::empty());
    assert(strs_view(files@) =~= pv.subrange(0, 0).map_values(|p: (Seq<char>, Option<Seq<char>>)| p.0));
    while i < pages.len()
        invariant
            i <= pages@.len(),
            pv == pages_view(pages@),
            strs_view(css@) == pages_refs(pv.subrange(0, i as int), strs_view(exclude@), true),
            strs_view(js@) == pages_refs(pv.subrange(0, i as int), strs_view(exclude@), false),
            strs_view(files@) == pv.subrange(0, i as int).map_values(|p: (Seq<char>, Option<Seq<char>>)| p.0),
        decreases pages@.len() - i,
    {
        assert(pv.subrange(0, i + 1).drop_last() =~= pv.subrange(0, i as int));
        assert(pv.subrange(0, i + 1).last() == pv[i as int]);
        let ghost fb = strs_view(files@);
        assert(pv[i as int].0 == pages@[i as int].0@);
        files.push(pages[i].0.clone());
        assert(strs_view(files@) =~= fb.push(pages@[i as int].0@));
        assert(strs_view(files@) =~= pv.subrange(0, i + 1).map_values(|p: (Seq<char>, Option<Seq<char>>)| p.0));
        match &pages[i].1 {
            Some(html) => {
                let (c, j) = page_references(html.as_str(), exclude);
                push_unique(&mut css, &c);
                push_unique(&mut js, &j);
            },
            None => {},
        }
        i = i + 1;
    }
    assert(pv.subrange(0, pv.len() as int) =~= pv);
    CollectedRefs { css_hrefs: css, js_srcs: js, html_files: files }
}


/// Adding items without repeats keeps a list free of repeats.
proof fn lemma_add_unique(seen: Seq<Seq<char>>, new: Seq<Seq<char>>)
    requires
        seen.no_duplicates(),
    ensures
        add_unique(seen, new).no_duplicates(),
    decreases new.len(),
{
    if new.len() > 0 {
        lemma_add_unique(seen, new.drop_last());
        let s = add_unique(seen, new.drop_last());
        let x = new.last();
        if !s.contains(x) {
            assert forall|i: int, j: int| 0 <= i < s.push(x).len() && 0 <= j < s.push(x).len() && i != j implies s.push(x)[i]
                != s.push(x)[j] by {
                if i < s.len() && j < s.len() {
                } else if i < s.len() {
                    assert(s.push(x)[i] == s[i]);
                } else {
                    assert(s.push(x)[j] == s[j]);
                }
            }
        }
    }
}

/// The stylesheet hrefs (and the script srcs) collected over the pages
/// have no repeats.
pub proof fn law_collected_refs_distinct(pages: Seq<(Seq<char>, Option<Seq<char>>)>, patterns: Seq<Seq<char>>, css: bool)
    ensures
        pages_refs(pages, patterns, css).no_duplicates(),
    decreases pages.len(),
{
    if pages.len() > 0 {
        law_collected_refs_distinct(pages.drop_last(), patterns, css);
        let acc = pages_refs(pages.drop_last(), patterns, css);
        match pages.last().1 {
            Some(html) => {
                let refs = if css { page_css_refs(html, patterns) } else { page_js_refs(html, patterns) };
                lemma_add_unique(acc, refs);
            },
            None => {},
        }
    }
}

} // verus!
